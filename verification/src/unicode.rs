//! Character classification used by the cleaner.

use unicode_general_category::{get_general_category, GeneralCategory};
use unicode_normalization::UnicodeNormalization;
use vstd::prelude::*;

verus! {

/// The code points that are always removed: invisible separators, joiners,
/// direction marks and fillers.
pub open spec fn is_explicit_invisible(c: char) -> bool {
    let u = c as u32;
    ||| u == 0x00AD
    ||| u == 0x034F
    ||| u == 0x061C
    ||| u == 0x115F
    ||| u == 0x1160
    ||| u == 0x17B4
    ||| u == 0x17B5
    ||| 0x180B <= u <= 0x180F
    ||| 0x200B <= u <= 0x200F
    ||| 0x202A <= u <= 0x202E
    ||| 0x2060 <= u <= 0x2064
    ||| 0x2066 <= u <= 0x206F
    ||| u == 0x2800
    ||| u == 0x3164
    ||| u == 0xFEFF
    ||| u == 0xFFA0
}

/// Whether `c` is one of the explicitly listed invisible code points.
pub fn is_explicit_invisible_char(c: char) -> (r: bool)
    ensures
        r == is_explicit_invisible(c),
{
    let u = c as u32;
    u == 0x00AD || u == 0x034F || u == 0x061C || u == 0x115F || u == 0x1160 || u == 0x17B4
        || u == 0x17B5 || (0x180B <= u && u <= 0x180F) || (0x200B <= u && u <= 0x200F) || (
    0x202A <= u && u <= 0x202E) || (0x2060 <= u && u <= 0x2064) || (0x2066 <= u && u
        <= 0x206F) || u == 0x2800 || u == 0x3164 || u == 0xFEFF || u == 0xFFA0
}

/// Variation selectors VS1..VS16 and VS17..VS256.
pub open spec fn is_variation_selector_spec(c: char) -> bool {
    let u = c as u32;
    (0xFE00 <= u <= 0xFE0F) || (0xE0100 <= u <= 0xE01EF)
}

/// Whether `c` is a variation selector.
pub fn is_variation_selector(c: char) -> (r: bool)
    ensures
        r == is_variation_selector_spec(c),
{
    let u = c as u32;
    (0xFE00 <= u && u <= 0xFE0F) || (0xE0100 <= u && u <= 0xE01EF)
}

/// Control characters that the cleaner keeps: newline, carriage return and tab.
pub open spec fn is_allowed_control_spec(c: char) -> bool {
    c == '\n' || c == '\r' || c == '\t'
}

/// Whether `c` is a control character that is never removed.
pub fn is_allowed_control(c: char) -> (r: bool)
    ensures
        r == is_allowed_control_spec(c),
{
    c == '\n' || c == '\r' || c == '\t'
}

/// The ASCII replacement of an em dash, a two-em dash or a three-em dash.
pub open spec fn dash_replacement(c: char) -> Option<Seq<char>> {
    if c == '\u{2014}' {
        Some(seq!['-'])
    } else if c == '\u{2E3A}' {
        Some(seq!['-', '-'])
    } else if c == '\u{2E3B}' {
        Some(seq!['-', '-', '-'])
    } else {
        None
    }
}

/// The ASCII hyphens that stand for an em dash (one), a two-em dash (two)
/// or a three-em dash (three); `None` for every other character.
pub fn em_dash_replacement(c: char) -> (r: Option<&'static str>)
    ensures
        match r {
            Some(s) => dash_replacement(c) == Some(s@),
            None => dash_replacement(c) is None,
        },
{
    proof {
        reveal_strlit("-");
        reveal_strlit("--");
        reveal_strlit("---");
    }
    if c == '\u{2014}' {
        Some("-")
    } else if c == '\u{2E3A}' {
        Some("--")
    } else if c == '\u{2E3B}' {
        Some("---")
    } else {
        None
    }
}

/// The code points of general category Cf (format) in Unicode 16.0.
pub open spec fn is_format_category(c: char) -> bool {
    let u = c as u32;
    ||| u == 173
    ||| 1536 <= u <= 1541
    ||| u == 1564
    ||| u == 1757
    ||| u == 1807
    ||| 2192 <= u <= 2193
    ||| u == 2274
    ||| u == 6158
    ||| 8203 <= u <= 8207
    ||| 8234 <= u <= 8238
    ||| 8288 <= u <= 8292
    ||| 8294 <= u <= 8303
    ||| u == 65279
    ||| 65529 <= u <= 65531
    ||| u == 69821
    ||| u == 69837
    ||| 78896 <= u <= 78911
    ||| 113824 <= u <= 113827
    ||| 119155 <= u <= 119162
    ||| u == 917505
    ||| 917536 <= u <= 917631
}

/// The code points of general category Cc (control) in Unicode 16.0.
pub open spec fn is_control_category(c: char) -> bool {
    let u = c as u32;
    u <= 31 || (127 <= u <= 159)
}

/// The general categories that the cleaner tells apart.
#[derive(Debug, Clone, Copy, PartialEq, Eq, Structural)]
pub enum CategoryClass {
    Format,
    Control,
    Other,
}

/// `unicode_general_category::get_general_category` looks `c` up in the
/// crate's Unicode 16.0 General_Category table. The contract states the code
/// points to which that table gives Format (Cf) and Control (Cc); every other
/// category is reported as `Other`.
#[verifier::external_body]
pub(crate) fn category_class(c: char) -> (r: CategoryClass)
    ensures
        (r == CategoryClass::Format) == is_format_category(c),
        (r == CategoryClass::Control) == is_control_category(c),
{
    match get_general_category(c) {
        GeneralCategory::Format => CategoryClass::Format,
        GeneralCategory::Control => CategoryClass::Control,
        _ => CategoryClass::Other,
    }
}

/// The Unicode Normalization Form C (canonical decomposition followed by
/// canonical composition) of a character sequence, as computed by the
/// `unicode-normalization` crate.
pub uninterp spec fn nfc_of(s: Seq<char>) -> Seq<char>;

/// `UnicodeNormalization::nfc` iterates over the NFC form of `s`; the
/// characters are collected into a `String`. The contract names the result:
/// it is a function of the input text alone.
#[verifier::external_body]
pub(crate) fn nfc_string(s: &str) -> (r: String)
    ensures
        r@ == nfc_of(s@),
{
    s.nfc().collect::<String>()
}

} // verus!
