use hidden_char_cleaner::{
    count_text, preview_segments, save_dialog_texts, CleanOptions, CleanerApp, Language, OutputFormat, TextKey,
};

fn window(text: &str) -> CleanerApp {
    CleanerApp {
        original_text: text.to_string(),
        cleaned_text: String::new(),
        options: CleanOptions::default(),
        status: String::new(),
        last_cleaned_signature: None,
        language: Language::English,
    }
}

#[test]
fn cleaning_sets_text_status_and_signature() {
    let mut app = window("a\u{200B}b");
    app.clean();
    assert_eq!(app.cleaned_text, "ab");
    assert_eq!(app.status, "Removed 1 character(s).");
    assert_eq!(
        app.last_cleaned_signature.as_deref(),
        Some("a\u{200B}b\u{1F}true\u{1F}true\u{1F}true\u{1F}false")
    );
}

#[test]
fn signature_lists_text_and_options() {
    let mut app = window("x");
    app.options.replace_em_dashes = true;
    app.options.remove_controls = false;
    assert_eq!(app.clean_signature(), "x\u{1F}true\u{1F}false\u{1F}true\u{1F}true");
}

#[test]
fn clean_if_needed_after_clean_changes_nothing() {
    let mut app = window("a\u{200B}b");
    app.clean();
    app.cleaned_text = "edited".to_string();
    app.clean_if_needed();
    assert_eq!(app.cleaned_text, "edited");
}

#[test]
fn clean_if_needed_cleans_after_a_change() {
    let mut app = window("a\u{2014}b");
    app.clean();
    assert_eq!(app.cleaned_text, "a\u{2014}b");
    app.options.replace_em_dashes = true;
    app.clean_if_needed();
    assert_eq!(app.cleaned_text, "a-b");
    assert_eq!(app.status, "Removed 0 character(s). Replaced 1 dash(es).");
    app.original_text.push('\u{FEFF}');
    app.clean_if_needed();
    assert_eq!(app.status, "Removed 1 character(s). Replaced 1 dash(es).");
}

#[test]
fn clearing_empties_and_counts_as_cleaned() {
    let mut app = window("abc");
    app.language = Language::German;
    app.clean();
    app.clear();
    assert_eq!(app.original_text, "");
    assert_eq!(app.cleaned_text, "");
    assert_eq!(app.status, "Geleert.");
    app.cleaned_text = "kept".to_string();
    app.clean_if_needed();
    assert_eq!(app.cleaned_text, "kept");
}

#[test]
fn status_reports() {
    let mut app = window("");
    app.mark_copied();
    assert_eq!(app.status, "Cleaned text copied to clipboard.");
    app.record_gptzero_result(None);
    assert_eq!(
        app.status,
        "Cleaned text copied. GPTZero opened; paste manually to check."
    );
    app.record_gptzero_result(Some("boom".to_string()));
    assert_eq!(
        app.status,
        "Cleaned text copied, but GPTZero could not be opened: boom"
    );
    app.record_save_result(Ok("out.txt".to_string()));
    assert_eq!(app.status, "Saved cleaned text to out.txt.");
    app.record_save_result(Err("disk full".to_string()));
    assert_eq!(app.status, "Save failed: disk full");
}

#[test]
fn preview_marks_changed_characters() {
    let options = CleanOptions {
        replace_em_dashes: true,
        ..CleanOptions::default()
    };
    let segments = preview_segments("a\u{200B}\u{2014}\u{2066}", &options);
    let texts: Vec<&str> = segments.iter().map(|s| s.text.as_str()).collect();
    let marks: Vec<bool> = segments.iter().map(|s| s.marked).collect();
    assert_eq!(texts, vec!["a", "[ZWSP]", "[\u{2014}->-]", "[U+2066]"]);
    assert_eq!(marks, vec![false, true, true, true]);
}

#[test]
fn preview_of_empty_text_is_one_empty_segment() {
    let segments = preview_segments("", &CleanOptions::default());
    assert_eq!(segments.len(), 1);
    assert_eq!(segments[0].text, "");
    assert!(!segments[0].marked);
}

#[test]
fn save_dialog_texts_per_format() {
    assert_eq!(
        save_dialog_texts(OutputFormat::Txt, Language::English),
        ("txt", "Text files", "cleaned.txt")
    );
    assert_eq!(
        save_dialog_texts(OutputFormat::Docx, Language::German),
        ("docx", "Microsoft Word-Dokumente", "cleaned.docx")
    );
}

#[test]
fn status_line_falls_back_to_the_first_hint() {
    let mut app = window("");
    assert_eq!(
        app.status_line(),
        "Paste text on the left. Cleaning runs automatically."
    );
    app.language = Language::German;
    assert_eq!(
        app.status_line(),
        "Text links einfuegen. Die Bereinigung laeuft automatisch."
    );
    app.mark_copied();
    assert_eq!(
        app.status_line(),
        "Bereinigter Text wurde in die Zwischenablage kopiert."
    );
}

#[test]
fn counts_with_labels() {
    assert_eq!(count_text(3, Language::English, TextKey::Marked), "3 marked");
    assert_eq!(count_text(0, Language::German, TextKey::Marked), "0 markiert");
    assert_eq!(
        count_text(12, Language::English, TextKey::ChangeableCharacters),
        "12 changeable character(s)"
    );
}
