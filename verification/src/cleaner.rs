//! The state of the cleaner window and the decisions it makes: when to clean
//! again, what the status line says, and how the marked preview reads.

use crate::clean::{
    clean_action, clean_text, cleaned_chars, cleaning_source, count_removed, count_replaced,
    is_affected, law_length_accounting, removal_kind_of, replacement_of, CleanAction, CleanOptions, RemovalKind,
};
use crate::fmt::{codepoint_label, codepoint_label_spec, numeral, push_decimal};
use crate::i18n::{
    clean_status, clean_status_text, gptzero_open_failed_status, gptzero_open_failed_status_text,
    save_failed_status, save_failed_status_text, saved_status, saved_status_text, tr, localized_text,
    Language, TextKey,
};
use vstd::prelude::*;

verus! {

/// The text of a flag in a cleaning signature.
pub open spec fn bool_text(b: bool) -> Seq<char> {
    if b {
        seq!['t', 'r', 'u', 'e']
    } else {
        seq!['f', 'a', 'l', 's', 'e']
    }
}

/// The unit separator that divides the fields of a cleaning signature.
pub open spec fn unit_separator() -> Seq<char> {
    seq!['\u{1F}']
}

/// What a cleaning depends on, written as one string: the text, then the
/// four options, each after a unit separator.
pub open spec fn signature_of(text: Seq<char>, o: CleanOptions) -> Seq<char> {
    text + unit_separator() + bool_text(o.remove_format_chars) + unit_separator() + bool_text(
        o.remove_controls,
    ) + unit_separator() + bool_text(o.normalize_unicode) + unit_separator() + bool_text(
        o.replace_em_dashes,
    )
}

/// The number of characters that cleaning `text` under `o` removes.
pub open spec fn removed_count_of(text: Seq<char>, o: CleanOptions) -> nat {
    let s = cleaning_source(text, o);
    count_removed(s, o, RemovalKind::ExplicitInvisible) + count_removed(
        s,
        o,
        RemovalKind::FormatCharacter,
    ) + count_removed(s, o, RemovalKind::ControlCharacter) + count_removed(
        s,
        o,
        RemovalKind::VariationSelector,
    )
}

/// The number of dashes that cleaning `text` under `o` replaces.
pub open spec fn replaced_count_of(text: Seq<char>, o: CleanOptions) -> nat {
    count_replaced(cleaning_source(text, o), o)
}

/// The state of the cleaner window.
pub struct CleanerApp {
    pub original_text: String,
    pub cleaned_text: String,
    pub options: CleanOptions,
    pub status: String,
    pub last_cleaned_signature: Option<String>,
    pub language: Language,
}

/// `after` is `before` cleaned: the cleaned text and the status are those of
/// cleaning the original text under the options, and the signature records
/// what was cleaned. Nothing else changes.
pub open spec fn is_cleaning(before: CleanerApp, after: CleanerApp) -> bool {
    &&& after.cleaned_text@ == cleaned_chars(
        cleaning_source(before.original_text@, before.options),
        before.options,
    )
    &&& after.status@ == clean_status_text(
        before.language,
        removed_count_of(before.original_text@, before.options),
        replaced_count_of(before.original_text@, before.options),
    )
    &&& after.last_cleaned_signature matches Some(s) && s@ == signature_of(
        before.original_text@,
        before.options,
    )
    &&& after.original_text == before.original_text
    &&& after.options == before.options
    &&& after.language == before.language
}

/// The last cleaning was of the current text under the current options.
pub open spec fn is_up_to_date(app: CleanerApp) -> bool {
    app.last_cleaned_signature matches Some(s) && s@ == signature_of(
        app.original_text@,
        app.options,
    )
}

/// `after` is `before` after `clean_if_needed`: unchanged when `before` was
/// up to date, cleaned otherwise.
pub open spec fn is_cleaning_if_needed(before: CleanerApp, after: CleanerApp) -> bool {
    &&& is_up_to_date(before) ==> after == before
    &&& !is_up_to_date(before) ==> is_cleaning(before, after)
}

impl Default for CleanerApp {
    /// An empty window with the default options, in the system's language.
    fn default() -> (r: Self)
        ensures
            r.original_text@ == Seq::<char>::empty(),
            r.cleaned_text@ == Seq::<char>::empty(),
            r.status@ == Seq::<char>::empty(),
            r.last_cleaned_signature is None,
            r.options == (CleanOptions {
                remove_format_chars: true,
                remove_controls: true,
                normalize_unicode: true,
                replace_em_dashes: false,
            }),
    {
        CleanerApp {
            original_text: String::new(),
            cleaned_text: String::new(),
            options: CleanOptions::default(),
            status: String::new(),
            last_cleaned_signature: None,
            language: Language::detect(),
        }
    }
}

impl CleanerApp {
    /// Cleans the original text and reports the counts in the status line.
    pub fn clean(&mut self)
        ensures
            is_cleaning(*old(self), *final(self)),
    {
        let result = clean_text(self.original_text.as_str(), &self.options);
        let removed = result.counts.total();
        let replaced = result.counts.em_dashes_replaced;
        self.cleaned_text = result.text;
        self.status = clean_status(self.language, removed, replaced);
        self.last_cleaned_signature = Some(self.clean_signature());
    }

    /// Cleans again unless the last cleaning was of the current text under
    /// the current options.
    pub fn clean_if_needed(&mut self)
        ensures
            is_cleaning_if_needed(*old(self), *final(self)),
    {
        let signature = self.clean_signature();
        let up_to_date = match &self.last_cleaned_signature {
            Some(last) => *last == signature,
            None => false,
        };
        if !up_to_date {
            self.clean();
        }
    }

    /// The signature of the current text and options.
    pub fn clean_signature(&self) -> (r: String)
        ensures
            r@ == signature_of(self.original_text@, self.options),
    {
        proof {
            reveal_strlit("true");
            reveal_strlit("false");
        }
        let mut s = String::new();
        s.append(self.original_text.as_str());
        s.push('\u{1F}');
        s.append(if self.options.remove_format_chars { "true" } else { "false" });
        s.push('\u{1F}');
        s.append(if self.options.remove_controls { "true" } else { "false" });
        s.push('\u{1F}');
        s.append(if self.options.normalize_unicode { "true" } else { "false" });
        s.push('\u{1F}');
        s.append(if self.options.replace_em_dashes { "true" } else { "false" });
        s
    }

    /// Empties both texts; the empty text counts as cleaned.
    pub fn clear(&mut self)
        ensures
            final(self).original_text@ == Seq::<char>::empty(),
            final(self).cleaned_text@ == Seq::<char>::empty(),
            final(self).status@ == localized_text(old(self).language, TextKey::Cleared),
            final(self).options == old(self).options,
            final(self).language == old(self).language,
            is_up_to_date(*final(self)),
    {
        self.original_text = String::new();
        self.cleaned_text = String::new();
        self.status = String::new();
        self.status.append(tr(self.language, TextKey::Cleared));
        self.last_cleaned_signature = Some(self.clean_signature());
    }

    /// The text of the status line: the last status, or the first hint when
    /// there is none yet.
    pub fn status_line(&self) -> (r: String)
        ensures
            r@ == if self.status@.len() == 0 {
                localized_text(self.language, TextKey::InitialStatus)
            } else {
                self.status@
            },
    {
        let mut line = String::new();
        if self.status.as_str().unicode_len() == 0 {
            line.append(tr(self.language, TextKey::InitialStatus));
        } else {
            line.append(self.status.as_str());
        }
        line
    }

    /// Reports that the cleaned text was copied to the clipboard.
    pub fn mark_copied(&mut self)
        ensures
            final(self).status@ == localized_text(old(self).language, TextKey::Copied),
            *final(self) == (CleanerApp { status: final(self).status, ..*old(self) }),
    {
        let mut status = String::new();
        status.append(tr(self.language, TextKey::Copied));
        self.status = status;
    }

    /// Reports how opening GPTZero in the browser went, after the cleaned
    /// text was copied: `error` holds the browser's error message, if any.
    pub fn record_gptzero_result(&mut self, error: Option<String>)
        ensures
            final(self).status@ == match error {
                None => localized_text(old(self).language, TextKey::GptzeroOpened),
                Some(e) => gptzero_open_failed_status_text(old(self).language, e@),
            },
            *final(self) == (CleanerApp { status: final(self).status, ..*old(self) }),
    {
        match error {
            None => {
                let mut status = String::new();
                status.append(tr(self.language, TextKey::GptzeroOpened));
                self.status = status;
            },
            Some(e) => {
                self.status = gptzero_open_failed_status(self.language, e.as_str());
            },
        }
    }

    /// Reports how saving went: the displayed path of the file written, or
    /// the error message.
    pub fn record_save_result(&mut self, outcome: Result<String, String>)
        ensures
            final(self).status@ == match outcome {
                Ok(path) => saved_status_text(old(self).language, path@),
                Err(e) => save_failed_status_text(old(self).language, e@),
            },
            *final(self) == (CleanerApp { status: final(self).status, ..*old(self) }),
    {
        match outcome {
            Ok(path) => {
                self.status = saved_status(self.language, path.as_str());
            },
            Err(e) => {
                self.status = save_failed_status(self.language, e.as_str());
            },
        }
    }
}

/// Right after cleaning, cleaning again when needed changes nothing.
pub proof fn law_clean_if_needed_after_clean_is_noop(
    start: CleanerApp,
    cleaned: CleanerApp,
    end: CleanerApp,
)
    requires
        is_cleaning(start, cleaned),
        is_cleaning_if_needed(cleaned, end),
    ensures
        end == cleaned,
{
}

/// After cleaning when needed, the window is up to date.
pub proof fn law_clean_if_needed_brings_up_to_date(before: CleanerApp, after: CleanerApp)
    requires
        is_cleaning_if_needed(before, after),
    ensures
        is_up_to_date(after),
{
}

/// The signature tells texts and options apart: two states with the same
/// signature have the same text and the same options, so a change of either
/// makes `clean_if_needed` clean again.
pub proof fn law_signature_is_injective(t1: Seq<char>, o1: CleanOptions, t2: Seq<char>, o2: CleanOptions)
    requires
        signature_of(t1, o1) == signature_of(t2, o2),
    ensures
        t1 == t2,
        o1 == o2,
{
    let a1 = t1 + unit_separator() + bool_text(o1.remove_format_chars) + unit_separator()
        + bool_text(o1.remove_controls) + unit_separator() + bool_text(o1.normalize_unicode);
    let a2 = t2 + unit_separator() + bool_text(o2.remove_format_chars) + unit_separator()
        + bool_text(o2.remove_controls) + unit_separator() + bool_text(o2.normalize_unicode);
    lemma_flag_suffix(a1, o1.replace_em_dashes, a2, o2.replace_em_dashes);
    let b1 = t1 + unit_separator() + bool_text(o1.remove_format_chars) + unit_separator()
        + bool_text(o1.remove_controls);
    let b2 = t2 + unit_separator() + bool_text(o2.remove_format_chars) + unit_separator()
        + bool_text(o2.remove_controls);
    lemma_flag_suffix(b1, o1.normalize_unicode, b2, o2.normalize_unicode);
    let c1 = t1 + unit_separator() + bool_text(o1.remove_format_chars);
    let c2 = t2 + unit_separator() + bool_text(o2.remove_format_chars);
    lemma_flag_suffix(c1, o1.remove_controls, c2, o2.remove_controls);
    lemma_flag_suffix(t1, o1.remove_format_chars, t2, o2.remove_format_chars);
}

/// Without dash replacement, the number that cleaning reports as removed in
/// the status line is the number of characters dropped from the text that
/// was cleaned: the cleaned text is that many characters shorter than the
/// (normalized, when asked) original, and no dash is reported.
pub proof fn law_reported_removals_are_the_dropped_characters(before: CleanerApp, after: CleanerApp)
    requires
        is_cleaning(before, after),
        !before.options.replace_em_dashes,
    ensures
        after.cleaned_text@.len() <= cleaning_source(before.original_text@, before.options).len(),
        after.status@ == clean_status_text(
            before.language,
            (cleaning_source(before.original_text@, before.options).len()
                - after.cleaned_text@.len()) as nat,
            0,
        ),
{
    law_length_accounting(cleaning_source(before.original_text@, before.options), before.options);
}

/// A string followed by a separator and a flag determines both.
proof fn lemma_flag_suffix(a1: Seq<char>, f1: bool, a2: Seq<char>, f2: bool)
    requires
        a1 + unit_separator() + bool_text(f1) == a2 + unit_separator() + bool_text(f2),
    ensures
        a1 == a2,
        f1 == f2,
{
    let s1 = a1 + unit_separator() + bool_text(f1);
    let s2 = a2 + unit_separator() + bool_text(f2);
    assert(s1[s1.len() - 2] == (if f1 { 'u' } else { 's' }));
    assert(s2[s2.len() - 2] == (if f2 { 'u' } else { 's' }));
    assert(f1 == f2);
    assert(a1.len() == a2.len());
    assert forall|i: int| 0 <= i < a1.len() implies a1[i] == a2[i] by {
        assert(s1[i] == a1[i]);
        assert(s2[i] == a2[i]);
    }
    assert(a1 =~= a2);
}

/// One piece of the marked preview: a character kept as it is, or a marker
/// for a character that cleaning removes or replaces.
pub struct PreviewSegment {
    pub text: String,
    pub marked: bool,
}

/// The preview text for `c`: `[label]` for a removed character,
/// `[c->replacement]` for a replaced dash, the character itself otherwise.
pub open spec fn preview_text_of(c: char, o: CleanOptions) -> Seq<char> {
    if removal_kind_of(c, o) is Some {
        seq!['['] + codepoint_label_spec(c) + seq![']']
    } else {
        match replacement_of(c, o) {
            Some(r) => seq!['[', c, '-', '>'] + r + seq![']'],
            None => seq![c],
        }
    }
}

/// The marked preview of `input`: one segment per character, marked where
/// cleaning changes it; a single empty unmarked segment for empty input.
pub fn preview_segments(input: &str, options: &CleanOptions) -> (r: Vec<PreviewSegment>)
    ensures
        input@.len() == 0 ==> r@.len() == 1 && r@[0].text@ == Seq::<char>::empty()
            && !r@[0].marked,
        input@.len() > 0 ==> r@.len() == input@.len(),
        input@.len() > 0 ==> forall|i: int|
            0 <= i < input@.len() ==> (#[trigger] r@[i]).text@ == preview_text_of(
                input@[i],
                *options,
            ) && r@[i].marked == is_affected(input@[i], *options),
{
    let mut segments: Vec<PreviewSegment> = Vec::new();
    for character in it: input.chars()
        invariant
            it.seq() == input@,
            segments@.len() == it.index(),
            forall|i: int|
                0 <= i < it.index() ==> (#[trigger] segments@[i]).text@ == preview_text_of(
                    input@[i],
                    *options,
                ) && segments@[i].marked == is_affected(input@[i], *options),
    {
        proof {
            assert(input@[it.index() as int] == character);
        }
        let mut text = String::new();
        let marked = match clean_action(character, options) {
            Some(CleanAction::Remove(_)) => {
                text.push('[');
                let label = codepoint_label(character);
                text.append(label.as_str());
                text.push(']');
                true
            },
            Some(CleanAction::ReplaceEmDash(replacement)) => {
                text.push('[');
                text.push(character);
                text.push('-');
                text.push('>');
                text.append(replacement);
                text.push(']');
                true
            },
            None => {
                text.push(character);
                false
            },
        };
        segments.push(PreviewSegment { text, marked });
    }
    if input.unicode_len() == 0 {
        segments.push(PreviewSegment { text: String::new(), marked: false });
    }
    segments
}

/// A count followed by a label, as the badge ("3 marked") and the preview's
/// title ("3 changeable character(s)") show it.
pub fn count_text(count: usize, language: Language, label: TextKey) -> (r: String)
    ensures
        r@ == numeral(count as nat, 10) + seq![' '] + localized_text(language, label),
{
    let mut text = String::new();
    push_decimal(&mut text, count);
    text.push(' ');
    text.append(tr(language, label));
    text
}

/// The formats the cleaned text can be saved in.
#[derive(Debug, Clone, Copy, PartialEq, Eq, Structural)]
pub enum OutputFormat {
    Txt,
    Docx,
}

/// What the save dialog offers for a format: the file extension, the filter
/// description and the suggested file name.
pub fn save_dialog_texts(format: OutputFormat, language: Language) -> (r: (
    &'static str,
    &'static str,
    &'static str,
))
    ensures
        r.0@ == match format {
            OutputFormat::Txt => "txt"@,
            OutputFormat::Docx => "docx"@,
        },
        r.1@ == match format {
            OutputFormat::Txt => localized_text(language, TextKey::TextFiles),
            OutputFormat::Docx => localized_text(language, TextKey::WordDocuments),
        },
        r.2@ == match format {
            OutputFormat::Txt => "cleaned.txt"@,
            OutputFormat::Docx => "cleaned.docx"@,
        },
{
    match format {
        OutputFormat::Txt => ("txt", tr(language, TextKey::TextFiles), "cleaned.txt"),
        OutputFormat::Docx => ("docx", tr(language, TextKey::WordDocuments), "cleaned.docx"),
    }
}

} // verus!
