//! Interface languages and the texts shown in them.

use crate::fmt::{numeral, push_decimal};
use vstd::prelude::*;
use vstd::utf8::is_ascii_chars;

verus! {

/// The languages of the interface.
#[derive(Debug, Clone, Copy, PartialEq, Eq, Structural)]
pub enum Language {
    English,
    German,
}

/// The characters that end the language part of a locale tag.
pub open spec fn is_locale_separator(c: char) -> bool {
    c == '-' || c == '_' || c == '.'
}

/// The part of a locale tag before its first `-`, `_` or `.`.
pub open spec fn locale_language_part(s: Seq<char>) -> Seq<char>
    decreases s.len(),
{
    if s.len() == 0 || is_locale_separator(s[0]) {
        Seq::empty()
    } else {
        seq![s[0]] + locale_language_part(s.drop_first())
    }
}

/// `c` with an ASCII capital letter turned into its small letter.
pub open spec fn ascii_lower(c: char) -> char {
    if 'A' <= c && c <= 'Z' {
        ((c as u32) + 32) as char
    } else {
        c
    }
}

/// The language that a locale tag selects: German when its language part is
/// `de` in any letter case, English otherwise.
pub open spec fn language_of_locale(s: Seq<char>) -> Language {
    if locale_language_part(s).map_values(|c: char| ascii_lower(c)) == seq!['d', 'e'] {
        Language::German
    } else {
        Language::English
    }
}

proof fn lemma_language_part_is_prefix(s: Seq<char>, k: int)
    requires
        0 <= k <= s.len(),
        forall|j: int| 0 <= j < k ==> !is_locale_separator(#[trigger] s[j]),
        k == s.len() || is_locale_separator(s[k]),
    ensures
        locale_language_part(s) == s.take(k),
    decreases k,
{
    if k > 0 {
        let t = s.drop_first();
        assert forall|j: int| 0 <= j < k - 1 implies !is_locale_separator(#[trigger] t[j]) by {
            assert(t[j] == s[j + 1]);
        }
        lemma_language_part_is_prefix(t, k - 1);
        assert(s.take(k) =~= seq![s[0]] + t.take(k - 1));
    } else {
        assert(s.take(0) =~= Seq::<char>::empty());
    }
}

/// The language part of a locale tag is the run of characters before the
/// first separator, or the whole tag when it has none.
proof fn lemma_language_part_shape(s: Seq<char>)
    ensures
        locale_language_part(s).len() <= s.len(),
        locale_language_part(s) == s.take(locale_language_part(s).len() as int),
        forall|j: int|
            0 <= j < locale_language_part(s).len() ==> !is_locale_separator(#[trigger] s[j]),
        locale_language_part(s).len() == s.len() || is_locale_separator(
            s[locale_language_part(s).len() as int],
        ),
    decreases s.len(),
{
    if s.len() > 0 && !is_locale_separator(s[0]) {
        let t = s.drop_first();
        lemma_language_part_shape(t);
        let n = locale_language_part(t).len() as int;
        assert(s.take(n + 1) =~= seq![s[0]] + t.take(n));
        assert forall|j: int| 0 <= j < n + 1 implies !is_locale_separator(#[trigger] s[j]) by {
            if j > 0 {
                assert(s[j] == t[j - 1]);
            }
        }
        if n + 1 < s.len() {
            assert(s[n + 1] == t[n]);
        }
    } else {
        assert(s.take(0) =~= Seq::<char>::empty());
    }
}

/// A locale tag selects German exactly when it starts with `de` in any
/// letter case and that is its whole language part: the tag ends there or
/// goes on with `-`, `_` or `.`. Every other tag, such as `da_DK.UTF-8`,
/// `d`, `deu` or `en-DE`, selects English.
pub proof fn law_german_exactly_for_de(s: Seq<char>)
    ensures
        (language_of_locale(s) == Language::German) <==> (s.len() >= 2 && (s[0] == 'd' || s[0]
            == 'D') && (s[1] == 'e' || s[1] == 'E') && (s.len() == 2 || s[2] == '-' || s[2]
            == '_' || s[2] == '.')),
{
    lemma_language_part_shape(s);
    let p = locale_language_part(s);
    let m = p.map_values(|c: char| ascii_lower(c));
    if s.len() >= 2 && (s[0] == 'd' || s[0] == 'D') && (s[1] == 'e' || s[1] == 'E') && (s.len()
        == 2 || s[2] == '-' || s[2] == '_' || s[2] == '.') {
        lemma_language_part_is_prefix(s, 2);
        assert(ascii_lower('D') == 'd');
        assert(ascii_lower('E') == 'e');
        assert(m =~= seq!['d', 'e']);
    }
    if m == seq!['d', 'e'] {
        assert(m.len() == 2);
        assert(p.len() == 2);
        assert(p[0] == s[0] && p[1] == s[1]);
        assert(m[0] == ascii_lower(s[0]));
        assert(m[1] == ascii_lower(s[1]));
        assert(s[0] == 'd' || s[0] == 'D');
        assert(s[1] == 'e' || s[1] == 'E');
    }
}

fn lower_ascii_char(c: char) -> (r: char)
    ensures
        r == ascii_lower(c),
{
    if 'A' <= c && c <= 'Z' {
        (((c as u32) + 32) as u8) as char
    } else {
        c
    }
}

impl Language {
    /// The language of the system locale; English when no locale is known.
    pub fn detect() -> (r: Self) {
        Self::from_optional_locale(system_locale())
    }

    /// The language for a locale that may be missing: English without one.
    pub fn from_optional_locale(locale: Option<String>) -> (r: Self)
        ensures
            r == match locale {
                Some(l) => language_of_locale(l@),
                None => Language::English,
            },
    {
        match locale {
            Some(l) => Self::from_locale(l.as_str()),
            None => Language::English,
        }
    }

    /// The language that a locale tag such as `de-DE` or `de_AT.UTF-8`
    /// selects.
    pub fn from_locale(locale: &str) -> (r: Self)
        ensures
            r == language_of_locale(locale@),
    {
        let mut part = String::new();
        let mut done = false;
        let ghost mut end: int = 0;
        for character in it: locale.chars()
            invariant
                it.seq() == locale@,
                0 <= end <= it.index(),
                forall|j: int| 0 <= j < end ==> !is_locale_separator(#[trigger] locale@[j]),
                !done ==> end == it.index(),
                done ==> is_locale_separator(locale@[end]) && end < locale@.len(),
                part@ == locale@.take(end).map_values(|c: char| ascii_lower(c)),
        {
            if !done {
                if character == '-' || character == '_' || character == '.' {
                    done = true;
                } else {
                    part.push(lower_ascii_char(character));
                    proof {
                        end = end + 1;
                        assert(locale@.take(end).map_values(|c: char| ascii_lower(c)) =~= locale@.take(
                            end - 1,
                        ).map_values(|c: char| ascii_lower(c)).push(ascii_lower(character)));
                    }
                }
            }
        }
        proof {
            lemma_language_part_is_prefix(locale@, end);
        }
        let two_chars = part.as_str().unicode_len() == 2;
        if two_chars && part.as_str().get_char(0) == 'd' && part.as_str().get_char(1) == 'e' {
            proof {
                assert(part@ =~= seq!['d', 'e']);
            }
            Language::German
        } else {
            Language::English
        }
    }

    /// The name of the language in that language.
    pub fn label(self) -> (r: &'static str)
        ensures
            r@ == match self {
                Language::English => "English"@,
                Language::German => "Deutsch"@,
            },
    {
        match self {
            Language::English => "English",
            Language::German => "Deutsch",
        }
    }
}

/// `sys_locale::get_locale` reads the preferred locale of the system; what it
/// returns depends on the machine, so nothing is stated of it.
#[verifier::external_body]
fn system_locale() -> (r: Option<String>) {
    sys_locale::get_locale()
}

/// The texts of the interface.
#[derive(Debug, Clone, Copy, PartialEq, Eq, Structural)]
pub enum TextKey {
    AppTitle,
    Subtitle,
    Clean,
    CopyCleaned,
    CopyOpenGptzero,
    SaveTxt,
    SaveDocx,
    Clear,
    FormatChars,
    Controls,
    NormalizeUnicode,
    ReplaceEmDashes,
    OriginalText,
    PasteSource,
    MarkedOriginal,
    CleanedText,
    ReadyToExport,
    Status,
    InitialStatus,
    Copied,
    GptzeroOpened,
    Cleared,
    SaveDialogTitle,
    TextFiles,
    WordDocuments,
    Language,
    Marked,
    ChangeableCharacters,
}

/// The text for `key` in `language`.
pub open spec fn localized_text(language: Language, key: TextKey) -> Seq<char> {
    match language {
        Language::English => match key {
            TextKey::AppTitle => "Hidden Character Cleaner"@,
            TextKey::Subtitle => "Clean pasted text, inspect removals, and export results."@,
            TextKey::Clean => "Clean"@,
            TextKey::CopyCleaned => "Copy Cleaned"@,
            TextKey::CopyOpenGptzero => "Copy + Open GPTZero"@,
            TextKey::SaveTxt => "Save TXT"@,
            TextKey::SaveDocx => "Save DOCX"@,
            TextKey::Clear => "Clear"@,
            TextKey::FormatChars => "Format chars"@,
            TextKey::Controls => "Controls"@,
            TextKey::NormalizeUnicode => "Normalize Unicode"@,
            TextKey::ReplaceEmDashes => "Replace em dashes"@,
            TextKey::OriginalText => "Original Text"@,
            TextKey::PasteSource => "Paste source text here"@,
            TextKey::MarkedOriginal => "Marked Original"@,
            TextKey::CleanedText => "Cleaned Text"@,
            TextKey::ReadyToExport => "Ready to copy or export"@,
            TextKey::Status => "Status"@,
            TextKey::InitialStatus => "Paste text on the left. Cleaning runs automatically."@,
            TextKey::Copied => "Cleaned text copied to clipboard."@,
            TextKey::GptzeroOpened => "Cleaned text copied. GPTZero opened; paste manually to check."@,
            TextKey::Cleared => "Cleared."@,
            TextKey::SaveDialogTitle => "Save cleaned text"@,
            TextKey::TextFiles => "Text files"@,
            TextKey::WordDocuments => "Microsoft Word documents"@,
            TextKey::Language => "Language"@,
            TextKey::Marked => "marked"@,
            TextKey::ChangeableCharacters => "changeable character(s)"@,
        },
        Language::German => match key {
            TextKey::AppTitle => "Cleaner fuer versteckte Zeichen"@,
            TextKey::Subtitle => "Text bereinigen, Aenderungen pruefen und Ergebnisse exportieren."@,
            TextKey::Clean => "Bereinigen"@,
            TextKey::CopyCleaned => "Bereinigten Text kopieren"@,
            TextKey::CopyOpenGptzero => "Kopieren + GPTZero oeffnen"@,
            TextKey::SaveTxt => "TXT speichern"@,
            TextKey::SaveDocx => "DOCX speichern"@,
            TextKey::Clear => "Leeren"@,
            TextKey::FormatChars => "Formatzeichen"@,
            TextKey::Controls => "Steuerzeichen"@,
            TextKey::NormalizeUnicode => "Unicode normalisieren"@,
            TextKey::ReplaceEmDashes => "Geviertstriche ersetzen"@,
            TextKey::OriginalText => "Originaltext"@,
            TextKey::PasteSource => "Quelltext hier einfuegen"@,
            TextKey::MarkedOriginal => "Markiertes Original"@,
            TextKey::CleanedText => "Bereinigter Text"@,
            TextKey::ReadyToExport => "Bereit zum Kopieren oder Exportieren"@,
            TextKey::Status => "Status"@,
            TextKey::InitialStatus => "Text links einfuegen. Die Bereinigung laeuft automatisch."@,
            TextKey::Copied => "Bereinigter Text wurde in die Zwischenablage kopiert."@,
            TextKey::GptzeroOpened => "Bereinigter Text kopiert. GPTZero wurde geoeffnet; bitte manuell einfuegen."@,
            TextKey::Cleared => "Geleert."@,
            TextKey::SaveDialogTitle => "Bereinigten Text speichern"@,
            TextKey::TextFiles => "Textdateien"@,
            TextKey::WordDocuments => "Microsoft Word-Dokumente"@,
            TextKey::Language => "Sprache"@,
            TextKey::Marked => "markiert"@,
            TextKey::ChangeableCharacters => "aenderbare Zeichen"@,
        },
    }
}

/// Every text of the interface is non-empty ASCII (German is written
/// with ae, oe and ue); within a language no two keys share a text, and the
/// two languages share only the text for `Status`.
pub proof fn law_interface_texts(language: Language, k1: TextKey, k2: TextKey)
    ensures
        localized_text(language, k1).len() > 0,
        is_ascii_chars(localized_text(language, k1)),
        localized_text(language, k1) == localized_text(language, k2) ==> k1 == k2,
        (localized_text(Language::English, k1) == localized_text(Language::German, k1)) == (k1
            == TextKey::Status),
{
    reveal_strlit("Bereinigen");
    reveal_strlit("Bereinigten Text kopieren");
    reveal_strlit("Bereinigten Text speichern");
    reveal_strlit("Bereinigter Text kopiert. GPTZero wurde geoeffnet; bitte manuell einfuegen.");
    reveal_strlit("Bereinigter Text wurde in die Zwischenablage kopiert.");
    reveal_strlit("Bereinigter Text");
    reveal_strlit("Bereit zum Kopieren oder Exportieren");
    reveal_strlit("Clean pasted text, inspect removals, and export results.");
    reveal_strlit("Clean");
    reveal_strlit("Cleaned Text");
    reveal_strlit("Cleaned text copied to clipboard.");
    reveal_strlit("Cleaned text copied. GPTZero opened; paste manually to check.");
    reveal_strlit("Cleaner fuer versteckte Zeichen");
    reveal_strlit("Clear");
    reveal_strlit("Cleared.");
    reveal_strlit("Controls");
    reveal_strlit("Copy + Open GPTZero");
    reveal_strlit("Copy Cleaned");
    reveal_strlit("DOCX speichern");
    reveal_strlit("Format chars");
    reveal_strlit("Formatzeichen");
    reveal_strlit("Geleert.");
    reveal_strlit("Geviertstriche ersetzen");
    reveal_strlit("Hidden Character Cleaner");
    reveal_strlit("Kopieren + GPTZero oeffnen");
    reveal_strlit("Language");
    reveal_strlit("Leeren");
    reveal_strlit("Marked Original");
    reveal_strlit("Markiertes Original");
    reveal_strlit("Microsoft Word documents");
    reveal_strlit("Microsoft Word-Dokumente");
    reveal_strlit("Normalize Unicode");
    reveal_strlit("Original Text");
    reveal_strlit("Originaltext");
    reveal_strlit("Paste source text here");
    reveal_strlit("Paste text on the left. Cleaning runs automatically.");
    reveal_strlit("Quelltext hier einfuegen");
    reveal_strlit("Ready to copy or export");
    reveal_strlit("Replace em dashes");
    reveal_strlit("Save DOCX");
    reveal_strlit("Save TXT");
    reveal_strlit("Save cleaned text");
    reveal_strlit("Sprache");
    reveal_strlit("Status");
    reveal_strlit("Steuerzeichen");
    reveal_strlit("TXT speichern");
    reveal_strlit("Text bereinigen, Aenderungen pruefen und Ergebnisse exportieren.");
    reveal_strlit("Text files");
    reveal_strlit("Text links einfuegen. Die Bereinigung laeuft automatisch.");
    reveal_strlit("Textdateien");
    reveal_strlit("Unicode normalisieren");
    reveal_strlit("aenderbare Zeichen");
    reveal_strlit("changeable character(s)");
    reveal_strlit("marked");
    reveal_strlit("markiert");
    let t1 = localized_text(language, k1);
    let t2 = localized_text(language, k2);
    if t1 == t2 {
        assert(t1.len() == t2.len());
        assert(t1[0] == t2[0] && t1[1] == t2[1] && t1[2] == t2[2] && t1[3] == t2[3] && t1[4]
            == t2[4]);
    }
    let e = localized_text(Language::English, k1);
    let g = localized_text(Language::German, k1);
    if e == g {
        assert(e.len() == g.len());
        assert(e[0] == g[0]);
        if e.len() > 14 {
            assert(e[14] == g[14]);
        }
    }
}

/// The text for `key` in `language`.
pub fn tr(language: Language, key: TextKey) -> (r: &'static str)
    ensures
        r@ == localized_text(language, key),
{
    match language {
        Language::English => match key {
            TextKey::AppTitle => "Hidden Character Cleaner",
            TextKey::Subtitle => "Clean pasted text, inspect removals, and export results.",
            TextKey::Clean => "Clean",
            TextKey::CopyCleaned => "Copy Cleaned",
            TextKey::CopyOpenGptzero => "Copy + Open GPTZero",
            TextKey::SaveTxt => "Save TXT",
            TextKey::SaveDocx => "Save DOCX",
            TextKey::Clear => "Clear",
            TextKey::FormatChars => "Format chars",
            TextKey::Controls => "Controls",
            TextKey::NormalizeUnicode => "Normalize Unicode",
            TextKey::ReplaceEmDashes => "Replace em dashes",
            TextKey::OriginalText => "Original Text",
            TextKey::PasteSource => "Paste source text here",
            TextKey::MarkedOriginal => "Marked Original",
            TextKey::CleanedText => "Cleaned Text",
            TextKey::ReadyToExport => "Ready to copy or export",
            TextKey::Status => "Status",
            TextKey::InitialStatus => "Paste text on the left. Cleaning runs automatically.",
            TextKey::Copied => "Cleaned text copied to clipboard.",
            TextKey::GptzeroOpened => "Cleaned text copied. GPTZero opened; paste manually to check.",
            TextKey::Cleared => "Cleared.",
            TextKey::SaveDialogTitle => "Save cleaned text",
            TextKey::TextFiles => "Text files",
            TextKey::WordDocuments => "Microsoft Word documents",
            TextKey::Language => "Language",
            TextKey::Marked => "marked",
            TextKey::ChangeableCharacters => "changeable character(s)",
        },
        Language::German => match key {
            TextKey::AppTitle => "Cleaner fuer versteckte Zeichen",
            TextKey::Subtitle => "Text bereinigen, Aenderungen pruefen und Ergebnisse exportieren.",
            TextKey::Clean => "Bereinigen",
            TextKey::CopyCleaned => "Bereinigten Text kopieren",
            TextKey::CopyOpenGptzero => "Kopieren + GPTZero oeffnen",
            TextKey::SaveTxt => "TXT speichern",
            TextKey::SaveDocx => "DOCX speichern",
            TextKey::Clear => "Leeren",
            TextKey::FormatChars => "Formatzeichen",
            TextKey::Controls => "Steuerzeichen",
            TextKey::NormalizeUnicode => "Unicode normalisieren",
            TextKey::ReplaceEmDashes => "Geviertstriche ersetzen",
            TextKey::OriginalText => "Originaltext",
            TextKey::PasteSource => "Quelltext hier einfuegen",
            TextKey::MarkedOriginal => "Markiertes Original",
            TextKey::CleanedText => "Bereinigter Text",
            TextKey::ReadyToExport => "Bereit zum Kopieren oder Exportieren",
            TextKey::Status => "Status",
            TextKey::InitialStatus => "Text links einfuegen. Die Bereinigung laeuft automatisch.",
            TextKey::Copied => "Bereinigter Text wurde in die Zwischenablage kopiert.",
            TextKey::GptzeroOpened => "Bereinigter Text kopiert. GPTZero wurde geoeffnet; bitte manuell einfuegen.",
            TextKey::Cleared => "Geleert.",
            TextKey::SaveDialogTitle => "Bereinigten Text speichern",
            TextKey::TextFiles => "Textdateien",
            TextKey::WordDocuments => "Microsoft Word-Dokumente",
            TextKey::Language => "Sprache",
            TextKey::Marked => "markiert",
            TextKey::ChangeableCharacters => "aenderbare Zeichen",
        },
    }
}

/// The status after cleaning: how many characters were removed and, when
/// any were, how many dashes were replaced.
pub open spec fn clean_status_text(language: Language, removed: nat, replaced: nat) -> Seq<char> {
    match language {
        Language::English => if replaced == 0 {
            "Removed "@ + numeral(removed, 10) + " character(s)."@
        } else {
            "Removed "@ + numeral(removed, 10) + " character(s). Replaced "@ + numeral(replaced, 10)
                + " dash(es)."@
        },
        Language::German => if replaced == 0 {
            numeral(removed, 10) + " Zeichen entfernt."@
        } else {
            numeral(removed, 10) + " Zeichen entfernt. "@ + numeral(replaced, 10)
                + " Strich(e) ersetzt."@
        },
    }
}

/// The status message after a cleaning pass.
pub fn clean_status(language: Language, removed: usize, replaced: usize) -> (r: String)
    ensures
        r@ == clean_status_text(language, removed as nat, replaced as nat),
{
    let mut s = String::new();
    match language {
        Language::English => {
            s.append("Removed ");
            push_decimal(&mut s, removed);
            if replaced == 0 {
                s.append(" character(s).");
            } else {
                s.append(" character(s). Replaced ");
                push_decimal(&mut s, replaced);
                s.append(" dash(es).");
            }
        },
        Language::German => {
            push_decimal(&mut s, removed);
            if replaced == 0 {
                s.append(" Zeichen entfernt.");
            } else {
                s.append(" Zeichen entfernt. ");
                push_decimal(&mut s, replaced);
                s.append(" Strich(e) ersetzt.");
            }
        },
    }
    s
}

/// The status after saving to `path` (the path as it is displayed).
pub open spec fn saved_status_text(language: Language, path: Seq<char>) -> Seq<char> {
    match language {
        Language::English => "Saved cleaned text to "@ + path + "."@,
        Language::German => "Bereinigter Text gespeichert unter "@ + path + "."@,
    }
}

/// The status message after the cleaned text was saved to `path`.
pub fn saved_status(language: Language, path: &str) -> (r: String)
    ensures
        r@ == saved_status_text(language, path@),
{
    let mut s = String::new();
    match language {
        Language::English => s.append("Saved cleaned text to "),
        Language::German => s.append("Bereinigter Text gespeichert unter "),
    }
    s.append(path);
    s.append(".");
    s
}

/// The status after saving failed with the message `error`.
pub open spec fn save_failed_status_text(language: Language, error: Seq<char>) -> Seq<char> {
    match language {
        Language::English => "Save failed: "@ + error,
        Language::German => "Speichern fehlgeschlagen: "@ + error,
    }
}

/// The status message when saving failed.
pub fn save_failed_status(language: Language, error: &str) -> (r: String)
    ensures
        r@ == save_failed_status_text(language, error@),
{
    let mut s = String::new();
    match language {
        Language::English => s.append("Save failed: "),
        Language::German => s.append("Speichern fehlgeschlagen: "),
    }
    s.append(error);
    s
}

/// The status after the text was copied but GPTZero could not be opened.
pub open spec fn gptzero_open_failed_status_text(language: Language, error: Seq<char>) -> Seq<
    char,
> {
    match language {
        Language::English => "Cleaned text copied, but GPTZero could not be opened: "@ + error,
        Language::German => "Bereinigter Text kopiert, aber GPTZero konnte nicht geoeffnet werden: "@
            + error,
    }
}

/// The status message when the browser could not open GPTZero.
pub fn gptzero_open_failed_status(language: Language, error: &str) -> (r: String)
    ensures
        r@ == gptzero_open_failed_status_text(language, error@),
{
    let mut s = String::new();
    match language {
        Language::English => s.append("Cleaned text copied, but GPTZero could not be opened: "),
        Language::German => s.append(
            "Bereinigter Text kopiert, aber GPTZero konnte nicht geoeffnet werden: ",
        ),
    }
    s.append(error);
    s
}

} // verus!
