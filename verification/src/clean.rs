//! The cleaning rules: which characters are removed or replaced, the cleaned
//! text, and the counts of what was changed.

use crate::unicode::{
    category_class, dash_replacement, em_dash_replacement, is_allowed_control,
    is_allowed_control_spec, is_control_category, is_explicit_invisible, is_explicit_invisible_char,
    is_format_category, is_variation_selector, is_variation_selector_spec, nfc_of, nfc_string,
    CategoryClass,
};
use vstd::prelude::*;

verus! {

/// How many characters of each kind a cleaning pass removed or replaced.
#[derive(Debug, Clone, Copy, PartialEq, Eq, Structural)]
pub struct CleanCounts {
    pub explicit_invisible: usize,
    pub format_chars: usize,
    pub control_chars: usize,
    pub variation_selectors: usize,
    pub em_dashes_replaced: usize,
}

impl CleanCounts {
    /// The number of removed characters, as a mathematical integer.
    pub open spec fn removed_sum(self) -> int {
        self.explicit_invisible + self.format_chars + self.control_chars + self.variation_selectors
    }

    /// The number of removed or replaced characters, as a mathematical integer.
    pub open spec fn affected_sum(self) -> int {
        self.removed_sum() + self.em_dashes_replaced
    }

    /// The number of removed characters of all kinds.
    pub fn total(self) -> (r: usize)
        requires
            self.removed_sum() <= usize::MAX,
        ensures
            r == self.removed_sum(),
    {
        self.explicit_invisible + self.format_chars + self.control_chars + self.variation_selectors
    }

    /// The number of removed characters plus the number of replaced dashes.
    pub fn affected_total(self) -> (r: usize)
        requires
            self.affected_sum() <= usize::MAX,
        ensures
            r == self.affected_sum(),
    {
        self.total() + self.em_dashes_replaced
    }

    /// Counts one more removal of the given kind.
    pub fn add(&mut self, kind: RemovalKind)
        requires
            old(self).count_of(kind) < usize::MAX,
        ensures
            *final(self) == old(self).with_one_more(kind),
            final(self).removed_sum() == old(self).removed_sum() + 1,
    {
        match kind {
            RemovalKind::ExplicitInvisible => self.explicit_invisible = self.explicit_invisible + 1,
            RemovalKind::FormatCharacter => self.format_chars = self.format_chars + 1,
            RemovalKind::ControlCharacter => self.control_chars = self.control_chars + 1,
            RemovalKind::VariationSelector => self.variation_selectors = self.variation_selectors + 1,
        }
    }

    /// The count of removals of `kind`.
    pub open spec fn count_of(self, kind: RemovalKind) -> usize {
        match kind {
            RemovalKind::ExplicitInvisible => self.explicit_invisible,
            RemovalKind::FormatCharacter => self.format_chars,
            RemovalKind::ControlCharacter => self.control_chars,
            RemovalKind::VariationSelector => self.variation_selectors,
        }
    }

    /// These counts with the count of `kind` raised by one.
    pub open spec fn with_one_more(self, kind: RemovalKind) -> CleanCounts {
        match kind {
            RemovalKind::ExplicitInvisible => CleanCounts {
                explicit_invisible: (self.explicit_invisible + 1) as usize,
                ..self
            },
            RemovalKind::FormatCharacter => CleanCounts {
                format_chars: (self.format_chars + 1) as usize,
                ..self
            },
            RemovalKind::ControlCharacter => CleanCounts {
                control_chars: (self.control_chars + 1) as usize,
                ..self
            },
            RemovalKind::VariationSelector => CleanCounts {
                variation_selectors: (self.variation_selectors + 1) as usize,
                ..self
            },
        }
    }
}

impl Default for CleanCounts {
    fn default() -> (r: Self)
        ensures
            r.explicit_invisible == 0,
            r.format_chars == 0,
            r.control_chars == 0,
            r.variation_selectors == 0,
            r.em_dashes_replaced == 0,
    {
        CleanCounts {
            explicit_invisible: 0,
            format_chars: 0,
            control_chars: 0,
            variation_selectors: 0,
            em_dashes_replaced: 0,
        }
    }
}

/// Which optional rules a cleaning pass applies.
#[derive(Debug, Clone, PartialEq, Eq, Structural)]
pub struct CleanOptions {
    pub remove_format_chars: bool,
    pub remove_controls: bool,
    pub normalize_unicode: bool,
    pub replace_em_dashes: bool,
}

impl Default for CleanOptions {
    /// Format characters and controls are removed and the text is
    /// NFC-normalized; em dashes are kept.
    fn default() -> (r: Self)
        ensures
            r.remove_format_chars,
            r.remove_controls,
            r.normalize_unicode,
            !r.replace_em_dashes,
    {
        CleanOptions {
            remove_format_chars: true,
            remove_controls: true,
            normalize_unicode: true,
            replace_em_dashes: false,
        }
    }
}

/// The cleaned text and what was changed to produce it.
#[derive(Debug, Clone, PartialEq, Eq)]
pub struct CleanResult {
    pub text: String,
    pub counts: CleanCounts,
}

impl Default for CleanResult {
    fn default() -> (r: Self)
        ensures
            r.text@ == Seq::<char>::empty(),
            r.counts == (CleanCounts {
                explicit_invisible: 0,
                format_chars: 0,
                control_chars: 0,
                variation_selectors: 0,
                em_dashes_replaced: 0,
            }),
    {
        CleanResult { text: String::new(), counts: CleanCounts::default() }
    }
}

/// Why a character is removed.
#[derive(Debug, Clone, Copy, PartialEq, Eq, Structural)]
pub enum RemovalKind {
    ExplicitInvisible,
    FormatCharacter,
    ControlCharacter,
    VariationSelector,
}

/// What cleaning does with one character, when it does anything.
#[derive(Debug, Clone, Copy, PartialEq, Eq)]
pub enum CleanAction {
    Remove(RemovalKind),
    ReplaceEmDash(&'static str),
}

/// The reason `c` is removed under `o`, if it is. The rules apply in order:
/// explicit invisible code points, variation selectors, dashes that are to be
/// replaced (never removed), format characters, then control characters other
/// than tab, newline and carriage return.
pub open spec fn removal_kind_of(c: char, o: CleanOptions) -> Option<RemovalKind> {
    if is_explicit_invisible(c) {
        Some(RemovalKind::ExplicitInvisible)
    } else if is_variation_selector_spec(c) {
        Some(RemovalKind::VariationSelector)
    } else if o.replace_em_dashes && dash_replacement(c) is Some {
        None
    } else if o.remove_format_chars && is_format_category(c) {
        Some(RemovalKind::FormatCharacter)
    } else if o.remove_controls && is_control_category(c) && !is_allowed_control_spec(c) {
        Some(RemovalKind::ControlCharacter)
    } else {
        None
    }
}

/// The hyphens that replace `c` under `o`, if it is a replaced dash.
pub open spec fn replacement_of(c: char, o: CleanOptions) -> Option<Seq<char>> {
    if is_explicit_invisible(c) || is_variation_selector_spec(c) || !o.replace_em_dashes {
        None
    } else {
        dash_replacement(c)
    }
}

/// Whether cleaning under `o` removes or replaces `c`.
pub open spec fn is_affected(c: char, o: CleanOptions) -> bool {
    removal_kind_of(c, o) is Some || replacement_of(c, o) is Some
}

/// What `c` becomes in the cleaned text.
pub open spec fn output_of(c: char, o: CleanOptions) -> Seq<char> {
    if removal_kind_of(c, o) is Some {
        Seq::empty()
    } else {
        match replacement_of(c, o) {
            Some(r) => r,
            None => seq![c],
        }
    }
}

/// The cleaned text: each character replaced by what it becomes.
pub open spec fn cleaned_chars(s: Seq<char>, o: CleanOptions) -> Seq<char>
    decreases s.len(),
{
    if s.len() == 0 {
        Seq::empty()
    } else {
        cleaned_chars(s.drop_last(), o) + output_of(s.last(), o)
    }
}

/// The number of characters of `s` removed for reason `kind`.
pub open spec fn count_removed(s: Seq<char>, o: CleanOptions, kind: RemovalKind) -> nat
    decreases s.len(),
{
    if s.len() == 0 {
        0
    } else {
        count_removed(s.drop_last(), o, kind) + if removal_kind_of(s.last(), o) == Some(kind) {
            1nat
        } else {
            0nat
        }
    }
}

/// The number of dashes of `s` replaced by hyphens.
pub open spec fn count_replaced(s: Seq<char>, o: CleanOptions) -> nat
    decreases s.len(),
{
    if s.len() == 0 {
        0
    } else {
        count_replaced(s.drop_last(), o) + if replacement_of(s.last(), o) is Some {
            1nat
        } else {
            0nat
        }
    }
}

/// The number of characters of `s` that cleaning removes or replaces.
pub open spec fn affected_count(s: Seq<char>, o: CleanOptions) -> nat
    decreases s.len(),
{
    if s.len() == 0 {
        0
    } else {
        affected_count(s.drop_last(), o) + if is_affected(s.last(), o) {
            1nat
        } else {
            0nat
        }
    }
}

/// `c` holds exactly the counts of cleaning `s` under `o`.
pub open spec fn counts_of(c: CleanCounts, s: Seq<char>, o: CleanOptions) -> bool {
    &&& c.explicit_invisible == count_removed(s, o, RemovalKind::ExplicitInvisible)
    &&& c.format_chars == count_removed(s, o, RemovalKind::FormatCharacter)
    &&& c.control_chars == count_removed(s, o, RemovalKind::ControlCharacter)
    &&& c.variation_selectors == count_removed(s, o, RemovalKind::VariationSelector)
    &&& c.em_dashes_replaced == count_replaced(s, o)
}

/// The text that the cleaning rules run over: the NFC form of the input when
/// normalization is on, the input itself otherwise.
pub open spec fn cleaning_source(s: Seq<char>, o: CleanOptions) -> Seq<char> {
    if o.normalize_unicode {
        nfc_of(s)
    } else {
        s
    }
}

/// `action` is what cleaning under `o` does with `c`.
pub open spec fn is_action_for(action: Option<CleanAction>, c: char, o: CleanOptions) -> bool {
    match action {
        Some(CleanAction::Remove(kind)) => removal_kind_of(c, o) == Some(kind),
        Some(CleanAction::ReplaceEmDash(r)) => removal_kind_of(c, o) is None && replacement_of(c, o)
            == Some(r@),
        None => removal_kind_of(c, o) is None && replacement_of(c, o) is None,
    }
}

/// Decides what cleaning does with one character.
pub fn clean_action(character: char, options: &CleanOptions) -> (r: Option<CleanAction>)
    ensures
        is_action_for(r, character, *options),
{
    if is_explicit_invisible_char(character) {
        return Some(CleanAction::Remove(RemovalKind::ExplicitInvisible));
    }
    if is_variation_selector(character) {
        return Some(CleanAction::Remove(RemovalKind::VariationSelector));
    }
    if options.replace_em_dashes {
        if let Some(replacement) = em_dash_replacement(character) {
            return Some(CleanAction::ReplaceEmDash(replacement));
        }
    }
    match category_class(character) {
        CategoryClass::Format if options.remove_format_chars => {
            Some(CleanAction::Remove(RemovalKind::FormatCharacter))
        },
        CategoryClass::Control if options.remove_controls && !is_allowed_control(character) => {
            Some(CleanAction::Remove(RemovalKind::ControlCharacter))
        },
        _ => None,
    }
}

/// The counts of all kinds add up to the number of affected characters.
pub proof fn lemma_counts_add_up(s: Seq<char>, o: CleanOptions)
    ensures
        count_removed(s, o, RemovalKind::ExplicitInvisible) + count_removed(
            s,
            o,
            RemovalKind::FormatCharacter,
        ) + count_removed(s, o, RemovalKind::ControlCharacter) + count_removed(
            s,
            o,
            RemovalKind::VariationSelector,
        ) + count_replaced(s, o) == affected_count(s, o),
        affected_count(s, o) <= s.len(),
    decreases s.len(),
{
    if s.len() > 0 {
        lemma_counts_add_up(s.drop_last(), o);
    }
}

/// Applies the cleaning rules to `source` as it is, without normalization.
pub fn clean_chars(source: &str, options: &CleanOptions) -> (r: CleanResult)
    ensures
        r.text@ == cleaned_chars(source@, *options),
        counts_of(r.counts, source@, *options),
        r.counts.affected_sum() == affected_count(source@, *options),
        r.counts.affected_sum() <= usize::MAX,
{
    let len = source.unicode_len();
    let mut result = CleanResult::default();
    for character in it: source.chars()
        invariant
            it.seq() == source@,
            len == source@.len(),
            result.text@ == cleaned_chars(it.seq().take(it.index() as int), *options),
            counts_of(result.counts, it.seq().take(it.index() as int), *options),
    {
        let ghost prefix = it.seq().take(it.index() as int);
        let ghost next = it.seq().take(it.index() + 1);
        proof {
            assert(next.drop_last() == prefix);
            assert(next.last() == character);
            lemma_counts_add_up(prefix, *options);
        }
        match clean_action(character, options) {
            Some(CleanAction::Remove(kind)) => result.counts.add(kind),
            Some(CleanAction::ReplaceEmDash(replacement)) => {
                result.counts.em_dashes_replaced = result.counts.em_dashes_replaced + 1;
                result.text.append(replacement);
            },
            None => result.text.push(character),
        }
    }
    proof {
        assert(source@.take(source@.len() as int) == source@);
        lemma_counts_add_up(source@, *options);
    }
    result
}

/// Cleans `input`: NFC-normalizes it when the options ask for it, then
/// removes invisible, format, control and variation-selector characters and
/// replaces dashes as the options say, counting each change.
pub fn clean_text(input: &str, options: &CleanOptions) -> (r: CleanResult)
    ensures
        r.text@ == cleaned_chars(cleaning_source(input@, *options), *options),
        counts_of(r.counts, cleaning_source(input@, *options), *options),
        r.counts.affected_sum() == affected_count(cleaning_source(input@, *options), *options),
        r.counts.affected_sum() <= usize::MAX,
{
    if options.normalize_unicode {
        let normalized = nfc_string(input);
        clean_chars(normalized.as_str(), options)
    } else {
        clean_chars(input, options)
    }
}

/// The number of characters of `input` that cleaning would remove or replace,
/// without normalization.
pub fn removal_count(input: &str, options: &CleanOptions) -> (r: usize)
    ensures
        r == affected_count(input@, *options),
{
    let len = input.unicode_len();
    let mut count: usize = 0;
    for character in it: input.chars()
        invariant
            it.seq() == input@,
            len == input@.len(),
            count == affected_count(it.seq().take(it.index() as int), *options),
    {
        let ghost prefix = it.seq().take(it.index() as int);
        let ghost next = it.seq().take(it.index() + 1);
        proof {
            assert(next.drop_last() == prefix);
            lemma_counts_add_up(prefix, *options);
        }
        if clean_action(character, options).is_some() {
            count = count + 1;
        }
    }
    proof {
        assert(input@.take(input@.len() as int) == input@);
    }
    count
}

/// What cleaning produces from one character is never itself removed or
/// replaced.
proof fn lemma_output_unaffected(c: char, o: CleanOptions)
    ensures
        forall|i: int| 0 <= i < output_of(c, o).len() ==> !is_affected(#[trigger] output_of(c, o)[i], o),
{
    if removal_kind_of(c, o) is None {
        if let Some(r) = replacement_of(c, o) {
            assert forall|i: int| 0 <= i < r.len() implies r[i] == '-' by {}
        }
    }
}

/// Cleaned text holds no character that cleaning would remove or replace.
pub proof fn law_cleaned_text_holds_nothing_to_clean(s: Seq<char>, o: CleanOptions)
    ensures
        forall|i: int|
            0 <= i < cleaned_chars(s, o).len() ==> !is_affected(#[trigger] cleaned_chars(s, o)[i], o),
    decreases s.len(),
{
    if s.len() > 0 {
        law_cleaned_text_holds_nothing_to_clean(s.drop_last(), o);
        lemma_output_unaffected(s.last(), o);
        let prev = cleaned_chars(s.drop_last(), o);
        let out = output_of(s.last(), o);
        assert forall|i: int| 0 <= i < cleaned_chars(s, o).len() implies !is_affected(
            #[trigger] cleaned_chars(s, o)[i],
            o,
        ) by {
            if i < prev.len() {
                assert(cleaned_chars(s, o)[i] == prev[i]);
            } else {
                assert(cleaned_chars(s, o)[i] == out[i - prev.len()]);
            }
        }
    }
}

/// Text in which cleaning finds nothing to remove or replace comes out
/// unchanged, with every count zero.
pub proof fn law_text_with_nothing_to_clean_is_unchanged(s: Seq<char>, o: CleanOptions)
    requires
        forall|i: int| 0 <= i < s.len() ==> !is_affected(#[trigger] s[i], o),
    ensures
        cleaned_chars(s, o) == s,
        affected_count(s, o) == 0,
    decreases s.len(),
{
    if s.len() > 0 {
        let p = s.drop_last();
        assert forall|i: int| 0 <= i < p.len() implies !is_affected(#[trigger] p[i], o) by {
            assert(p[i] == s[i]);
        }
        law_text_with_nothing_to_clean_is_unchanged(p, o);
        assert(!is_affected(s[s.len() - 1], o));
        assert(p.push(s.last()) == s);
    }
}

/// Cleaning twice gives the same text as cleaning once, and the second pass
/// changes nothing.
pub proof fn law_cleaning_is_idempotent(s: Seq<char>, o: CleanOptions)
    ensures
        cleaned_chars(cleaned_chars(s, o), o) == cleaned_chars(s, o),
        affected_count(cleaned_chars(s, o), o) == 0,
{
    law_cleaned_text_holds_nothing_to_clean(s, o);
    law_text_with_nothing_to_clean_is_unchanged(cleaned_chars(s, o), o);
}

/// The number of characters marked in the preview equals the number of
/// characters that cleaning (without normalization) removes or replaces.
pub proof fn law_marked_count_equals_changed_count(counts: CleanCounts, s: Seq<char>, o: CleanOptions)
    requires
        counts_of(counts, s, o),
    ensures
        counts.affected_sum() == affected_count(s, o),
{
    lemma_counts_add_up(s, o);
}

/// When dashes are not replaced, no dash is counted and every character of
/// the input is either kept or counted as removed.
pub proof fn law_length_accounting(s: Seq<char>, o: CleanOptions)
    requires
        !o.replace_em_dashes,
    ensures
        count_replaced(s, o) == 0,
        cleaned_chars(s, o).len() + count_removed(s, o, RemovalKind::ExplicitInvisible)
            + count_removed(s, o, RemovalKind::FormatCharacter) + count_removed(
            s,
            o,
            RemovalKind::ControlCharacter,
        ) + count_removed(s, o, RemovalKind::VariationSelector) == s.len(),
    decreases s.len(),
{
    if s.len() > 0 {
        law_length_accounting(s.drop_last(), o);
    }
}

/// Tab, newline, carriage return and the printable ASCII characters are
/// kept as they are, whatever the options.
pub proof fn law_plain_ascii_is_kept(s: Seq<char>, o: CleanOptions)
    requires
        forall|i: int|
            0 <= i < s.len() ==> is_allowed_control_spec(#[trigger] s[i]) || (' ' <= s[i]
                && s[i] <= '~'),
    ensures
        cleaned_chars(s, o) == s,
        affected_count(s, o) == 0,
{
    law_text_with_nothing_to_clean_is_unchanged(s, o);
}

/// An option that is off removes or replaces nothing of its kind: format
/// characters stay without `remove_format_chars`, control characters without
/// `remove_controls`, dashes without `replace_em_dashes`.
pub proof fn law_disabled_options_change_nothing_of_their_kind(s: Seq<char>, o: CleanOptions)
    ensures
        !o.remove_format_chars ==> count_removed(s, o, RemovalKind::FormatCharacter) == 0,
        !o.remove_controls ==> count_removed(s, o, RemovalKind::ControlCharacter) == 0,
        !o.replace_em_dashes ==> count_replaced(s, o) == 0,
    decreases s.len(),
{
    if s.len() > 0 {
        law_disabled_options_change_nothing_of_their_kind(s.drop_last(), o);
    }
}

/// Cleaning works character by character: what a text followed by one more
/// character becomes is what the text becomes, followed by what that
/// character becomes.
proof fn lemma_cleaned_push(s: Seq<char>, c: char, o: CleanOptions)
    ensures
        cleaned_chars(s.push(c), o) == cleaned_chars(s, o) + output_of(c, o),
        affected_count(s.push(c), o) == affected_count(s, o) + if is_affected(c, o) {
            1nat
        } else {
            0nat
        },
        count_replaced(s.push(c), o) == count_replaced(s, o) + if replacement_of(c, o) is Some {
            1nat
        } else {
            0nat
        },
        forall|kind: RemovalKind|
            #[trigger] count_removed(s.push(c), o, kind) == count_removed(s, o, kind) + if removal_kind_of(c, o)
                == Some(kind) {
                1nat
            } else {
                0nat
            },
{
    assert(s.push(c).drop_last() =~= s);
    assert(s.push(c).last() == c);
}

/// A character that is not one of the listed invisible code points (U+00AD,
/// U+034F, U+061C, U+115F, U+1160, U+17B4, U+17B5, U+180B..U+180F,
/// U+200B..U+200F, U+202A..U+202E, U+2060..U+2064, U+2066..U+206F, U+2800,
/// U+3164, U+FEFF, U+FFA0), not a variation selector (U+FE00..U+FE0F,
/// U+E0100..U+E01EF), of neither general category Cf nor Cc, and not a dash
/// that is to be replaced, is kept as it is under every options: it is
/// appended to the cleaned text unchanged and counted nowhere.
pub proof fn law_other_characters_are_kept(s: Seq<char>, c: char, o: CleanOptions)
    requires
        ({
            let u = c as u32;
            !(u == 0x00AD || u == 0x034F || u == 0x061C || u == 0x115F || u == 0x1160 || u
                == 0x17B4 || u == 0x17B5 || (0x180B <= u && u <= 0x180F) || (0x200B <= u && u
                <= 0x200F) || (0x202A <= u && u <= 0x202E) || (0x2060 <= u && u <= 0x2064) || (
            0x2066 <= u && u <= 0x206F) || u == 0x2800 || u == 0x3164 || u == 0xFEFF || u
                == 0xFFA0)
        }),
        !((0xFE00 <= c as u32 && c as u32 <= 0xFE0F) || (0xE0100 <= c as u32 && c as u32
            <= 0xE01EF)),
        !is_format_category(c),
        !is_control_category(c),
        o.replace_em_dashes ==> c != '\u{2014}' && c != '\u{2E3A}' && c != '\u{2E3B}',
    ensures
        cleaned_chars(s.push(c), o) == cleaned_chars(s, o).push(c),
        affected_count(s.push(c), o) == affected_count(s, o),
{
    lemma_cleaned_push(s, c, o);
    assert(output_of(c, o) == seq![c]);
    assert(cleaned_chars(s, o) + seq![c] =~= cleaned_chars(s, o).push(c));
}

/// The quotation marks U+2018..U+201F (the curly quotes and apostrophes of
/// pasted text) are never removed or replaced, whatever the options.
pub proof fn law_quotation_marks_are_kept(s: Seq<char>, c: char, o: CleanOptions)
    requires
        0x2018 <= c as u32 && c as u32 <= 0x201F,
    ensures
        cleaned_chars(s.push(c), o) == cleaned_chars(s, o).push(c),
        affected_count(s.push(c), o) == affected_count(s, o),
{
    assert(c != '\u{2014}' && c != '\u{2E3A}' && c != '\u{2E3B}');
    law_other_characters_are_kept(s, c, o);
}

/// Each listed invisible code point is removed under every options and
/// counted as an explicit invisible character.
pub proof fn law_listed_invisible_characters_are_removed(s: Seq<char>, c: char, o: CleanOptions)
    requires
        ({
            let u = c as u32;
            u == 0x00AD || u == 0x034F || u == 0x061C || u == 0x115F || u == 0x1160 || u
                == 0x17B4 || u == 0x17B5 || (0x180B <= u && u <= 0x180F) || (0x200B <= u && u
                <= 0x200F) || (0x202A <= u && u <= 0x202E) || (0x2060 <= u && u <= 0x2064) || (
            0x2066 <= u && u <= 0x206F) || u == 0x2800 || u == 0x3164 || u == 0xFEFF || u
                == 0xFFA0
        }),
    ensures
        cleaned_chars(s.push(c), o) == cleaned_chars(s, o),
        count_removed(s.push(c), o, RemovalKind::ExplicitInvisible) == count_removed(
            s,
            o,
            RemovalKind::ExplicitInvisible,
        ) + 1,
{
    lemma_cleaned_push(s, c, o);
    assert(count_removed(s.push(c), o, RemovalKind::ExplicitInvisible) == count_removed(
        s,
        o,
        RemovalKind::ExplicitInvisible,
    ) + 1);
    assert(cleaned_chars(s, o) + Seq::<char>::empty() =~= cleaned_chars(s, o));
}

/// When dash replacement is on, whatever the other options say, an em dash
/// U+2014 becomes `-`, a two-em dash U+2E3A becomes `--` and a three-em dash
/// U+2E3B becomes `---`, and each is counted as one replaced dash and as no
/// removal.
pub proof fn law_dashes_are_replaced_when_asked(s: Seq<char>, o: CleanOptions)
    requires
        o.replace_em_dashes,
    ensures
        cleaned_chars(s.push('\u{2014}'), o) == cleaned_chars(s, o) + seq!['-'],
        cleaned_chars(s.push('\u{2E3A}'), o) == cleaned_chars(s, o) + seq!['-', '-'],
        cleaned_chars(s.push('\u{2E3B}'), o) == cleaned_chars(s, o) + seq!['-', '-', '-'],
        count_replaced(s.push('\u{2014}'), o) == count_replaced(s, o) + 1,
        count_replaced(s.push('\u{2E3A}'), o) == count_replaced(s, o) + 1,
        count_replaced(s.push('\u{2E3B}'), o) == count_replaced(s, o) + 1,
        forall|kind: RemovalKind|
            #![trigger count_removed(s, o, kind)]
            count_removed(s.push('\u{2014}'), o, kind) == count_removed(s, o, kind)
                && count_removed(s.push('\u{2E3A}'), o, kind) == count_removed(s, o, kind)
                && count_removed(s.push('\u{2E3B}'), o, kind) == count_removed(s, o, kind),
{
    lemma_cleaned_push(s, '\u{2014}', o);
    lemma_cleaned_push(s, '\u{2E3A}', o);
    lemma_cleaned_push(s, '\u{2E3B}', o);
}

} // verus!
