use hidden_char_cleaner::{
    append_docx_text_run, append_text_chunk, build_document_xml, build_docx, clean_status,
    codepoint_label, decimal_string, escape_xml, gptzero_open_failed_status, save_failed_status,
    saved_status, tr, Language, TextKey,
};

const START: &str = "<?xml version=\"1.0\" encoding=\"UTF-8\" standalone=\"yes\"?>\n<w:document xmlns:w=\"http://schemas.openxmlformats.org/wordprocessingml/2006/main\">\n  <w:body>";
const END: &str = "\n    <w:sectPr>\n      <w:pgSz w:w=\"12240\" w:h=\"15840\"/>\n      <w:pgMar w:top=\"1440\" w:right=\"1440\" w:bottom=\"1440\" w:left=\"1440\" w:header=\"720\" w:footer=\"720\" w:gutter=\"0\"/>\n    </w:sectPr>\n  </w:body>\n</w:document>";

#[test]
fn escapes_all_five_special_characters() {
    assert_eq!(escape_xml("a&b<c>d\"e'f"), "a&amp;b&lt;c&gt;d&quot;e&apos;f");
    assert_eq!(escape_xml(""), "");
    assert_eq!(escape_xml("plain \u{00E9}"), "plain \u{00E9}");
}

#[test]
fn escaped_text_has_no_markup_characters() {
    let escaped = escape_xml("<tag attr=\"v\">x & 'y'</tag>");
    assert!(!escaped.contains('<'));
    assert!(!escaped.contains('>'));
    assert!(!escaped.contains('"'));
    assert!(!escaped.contains('\''));
}

#[test]
fn text_runs_split_at_tabs() {
    let mut xml = String::from("X");
    append_docx_text_run(&mut xml, "\tA&\t");
    assert_eq!(
        xml,
        "X<w:tab/><w:t xml:space=\"preserve\">A&amp;</w:t><w:tab/>"
    );
    let mut empty = String::new();
    append_text_chunk(&mut empty, "");
    assert_eq!(empty, "");
}

#[test]
fn document_has_one_paragraph_per_line() {
    let xml = build_document_xml("a\r\nb\rc\n\n\td");
    let expected = format!(
        "{START}\n    <w:p><w:r><w:t xml:space=\"preserve\">a</w:t></w:r></w:p>\n    <w:p><w:r><w:t xml:space=\"preserve\">b</w:t></w:r></w:p>\n    <w:p><w:r><w:t xml:space=\"preserve\">c</w:t></w:r></w:p>\n    <w:p></w:p>\n    <w:p><w:r><w:tab/><w:t xml:space=\"preserve\">d</w:t></w:r></w:p>{END}"
    );
    assert_eq!(xml, expected);
}

#[test]
fn empty_document_has_one_empty_paragraph() {
    assert_eq!(build_document_xml(""), format!("{START}\n    <w:p></w:p>{END}"));
}

#[test]
fn docx_packages_depend_on_the_text() {
    let first = build_docx("same").expect("docx should be built");
    let again = build_docx("same").expect("docx should be built");
    let other = build_docx("other text").expect("docx should be built");
    assert_eq!(first, again);
    assert_ne!(first, other);
    assert!(first.starts_with(b"PK\x03\x04"));
    let names = String::from_utf8_lossy(&first).to_string();
    assert!(names.contains("[Content_Types].xml"));
    assert!(names.contains("_rels/.rels"));
    assert!(names.contains("word/document.xml"));
}

#[test]
fn docx_entries_are_marked_as_made_on_unix() {
    let docx = build_docx("system").expect("docx should be built");
    let end = docx.len() - 22;
    assert_eq!(&docx[end..end + 4], b"PK\x05\x06");
    let count = u16::from_le_bytes([docx[end + 10], docx[end + 11]]) as usize;
    let mut at = u32::from_le_bytes([
        docx[end + 16],
        docx[end + 17],
        docx[end + 18],
        docx[end + 19],
    ]) as usize;
    assert!(count >= 3);
    for _ in 0..count {
        assert_eq!(&docx[at..at + 4], b"PK\x01\x02");
        assert_eq!(docx[at + 5], 3, "version made by names Unix");
        let name_len = u16::from_le_bytes([docx[at + 28], docx[at + 29]]) as usize;
        let extra_len = u16::from_le_bytes([docx[at + 30], docx[at + 31]]) as usize;
        let comment_len = u16::from_le_bytes([docx[at + 32], docx[at + 33]]) as usize;
        at += 46 + name_len + extra_len + comment_len;
    }
    assert_eq!(at, end);
}

#[test]
fn codepoint_labels() {
    assert_eq!(codepoint_label('\u{200B}'), "ZWSP");
    assert_eq!(codepoint_label('\u{200C}'), "ZWNJ");
    assert_eq!(codepoint_label('\u{200D}'), "ZWJ");
    assert_eq!(codepoint_label('\u{FEFF}'), "BOM");
    assert_eq!(codepoint_label('\u{00AD}'), "SHY");
    assert_eq!(codepoint_label('\u{0007}'), "U+0007");
    assert_eq!(codepoint_label('\u{2060}'), "U+2060");
    assert_eq!(codepoint_label('\u{FE0F}'), "U+FE0F");
    assert_eq!(codepoint_label('\u{E0100}'), "U+E0100");
    assert_eq!(codepoint_label('\u{10FFFF}'), "U+10FFFF");
}

#[test]
fn decimal_numerals() {
    assert_eq!(decimal_string(0), "0");
    assert_eq!(decimal_string(7), "7");
    assert_eq!(decimal_string(10), "10");
    assert_eq!(decimal_string(12345), "12345");
    assert_eq!(decimal_string(usize::MAX), usize::MAX.to_string());
}

#[test]
fn translations() {
    assert_eq!(tr(Language::English, TextKey::AppTitle), "Hidden Character Cleaner");
    assert_eq!(tr(Language::German, TextKey::AppTitle), "Cleaner fuer versteckte Zeichen");
    assert_eq!(tr(Language::German, TextKey::Cleared), "Geleert.");
    assert_eq!(tr(Language::English, TextKey::Marked), "marked");
    assert_eq!(Language::English.label(), "English");
    assert_eq!(Language::German.label(), "Deutsch");
}

#[test]
fn status_messages() {
    assert_eq!(clean_status(Language::English, 3, 0), "Removed 3 character(s).");
    assert_eq!(
        clean_status(Language::English, 0, 2),
        "Removed 0 character(s). Replaced 2 dash(es)."
    );
    assert_eq!(clean_status(Language::German, 12, 0), "12 Zeichen entfernt.");
    assert_eq!(
        clean_status(Language::German, 1, 1),
        "1 Zeichen entfernt. 1 Strich(e) ersetzt."
    );
    assert_eq!(
        saved_status(Language::English, "/tmp/out.txt"),
        "Saved cleaned text to /tmp/out.txt."
    );
    assert_eq!(
        saved_status(Language::German, "a.docx"),
        "Bereinigter Text gespeichert unter a.docx."
    );
    assert_eq!(save_failed_status(Language::English, "denied"), "Save failed: denied");
    assert_eq!(
        save_failed_status(Language::German, "denied"),
        "Speichern fehlgeschlagen: denied"
    );
    assert_eq!(
        gptzero_open_failed_status(Language::English, "no browser"),
        "Cleaned text copied, but GPTZero could not be opened: no browser"
    );
    assert_eq!(
        gptzero_open_failed_status(Language::German, "no browser"),
        "Bereinigter Text kopiert, aber GPTZero konnte nicht geoeffnet werden: no browser"
    );
}

#[test]
fn locale_detection_edge_cases() {
    assert_eq!(Language::from_locale("DE"), Language::German);
    assert_eq!(Language::from_locale("dE.UTF-8"), Language::German);
    assert_eq!(Language::from_locale("de"), Language::German);
    assert_eq!(Language::from_locale("deu-DE"), Language::English);
    assert_eq!(Language::from_locale("de@euro"), Language::English);
    assert_eq!(Language::from_locale(""), Language::English);
    assert_eq!(Language::from_locale("-de"), Language::English);
    assert_eq!(Language::from_optional_locale(None), Language::English);
    assert_eq!(
        Language::from_optional_locale(Some("de_CH".to_string())),
        Language::German
    );
}

#[test]
fn docx_builds_for_ordinary_texts() {
    for text in ["", "Hello\nworld", "tab\there & <there>", "\u{00E9}\u{4E2D}\u{1F600}"] {
        let docx = build_docx(text).expect("docx should be built");
        assert!(docx.starts_with(b"PK"));
    }
}
