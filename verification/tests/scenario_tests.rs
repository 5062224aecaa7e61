use hidden_char_cleaner::{
    build_document_xml, build_docx, clean_text, codepoint_label, removal_count, CleanOptions,
    Language,
};

#[test]
fn removes_common_invisible_characters() {
    let result = clean_text("a\u{200B}b\u{FEFF}c\u{202E}d", &CleanOptions::default());

    assert_eq!(result.text, "abcd");
    assert_eq!(result.counts.explicit_invisible, 3);
    assert_eq!(result.counts.total(), 3);
}

#[test]
fn preserves_tabs_and_newlines() {
    let result = clean_text("a\tb\nc\rd", &CleanOptions::default());

    assert_eq!(result.text, "a\tb\nc\rd");
    assert_eq!(result.counts.total(), 0);
}

#[test]
fn removes_disallowed_control_characters() {
    let result = clean_text("a\u{0000}b\u{001F}c", &CleanOptions::default());

    assert_eq!(result.text, "abc");
    assert_eq!(result.counts.control_chars, 2);
}

#[test]
fn removes_variation_selectors() {
    let result = clean_text("a\u{FE0F}b\u{E0100}c", &CleanOptions::default());

    assert_eq!(result.text, "abc");
    assert_eq!(result.counts.variation_selectors, 2);
}

#[test]
fn escapes_word_xml_text() {
    let xml = build_document_xml("A & B < C\tD");

    assert!(xml.contains("A &amp; B &lt; C"));
    assert!(xml.contains("<w:tab/>"));
}

#[test]
fn builds_docx_package() {
    let docx = build_docx("Hello\nworld").expect("docx should be built");

    assert!(docx.starts_with(b"PK"));
    assert!(docx.len() > 500);
}

#[test]
fn counts_preview_removals() {
    let options = CleanOptions::default();

    assert_eq!(removal_count("a\u{200B}b\u{FE0F}c", &options), 2);
    assert!(codepoint_label('\u{200B}').contains("ZWSP"));
}

#[test]
fn replaces_em_dashes_when_enabled() {
    let options = CleanOptions {
        replace_em_dashes: true,
        ..CleanOptions::default()
    };
    let result = clean_text("a—b ⸺ c ⸻ d", &options);

    assert_eq!(result.text, "a-b -- c --- d");
    assert_eq!(result.counts.em_dashes_replaced, 3);
    assert_eq!(result.counts.total(), 0);
    assert_eq!(result.counts.affected_total(), 3);
}

#[test]
fn keeps_em_dashes_when_disabled() {
    let result = clean_text("a—b", &CleanOptions::default());

    assert_eq!(result.text, "a—b");
    assert_eq!(result.counts.em_dashes_replaced, 0);
}

#[test]
fn detects_supported_languages() {
    assert_eq!(Language::from_locale("de-DE"), Language::German);
    assert_eq!(Language::from_locale("de_AT.UTF-8"), Language::German);
    assert_eq!(Language::from_locale("fr-FR"), Language::English);
}
