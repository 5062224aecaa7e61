use hidden_char_cleaner::unicode::is_explicit_invisible_char;
use hidden_char_cleaner::{
    clean_action, clean_chars, clean_text, em_dash_replacement, is_allowed_control,
    is_variation_selector, removal_count, CleanAction, CleanCounts, CleanOptions, RemovalKind,
};
use unicode_general_category::{get_general_category, GeneralCategory};

fn options(format: bool, controls: bool, normalize: bool, dashes: bool) -> CleanOptions {
    CleanOptions {
        remove_format_chars: format,
        remove_controls: controls,
        normalize_unicode: normalize,
        replace_em_dashes: dashes,
    }
}

#[test]
fn default_options_match_the_documented_defaults() {
    assert_eq!(CleanOptions::default(), options(true, true, true, false));
}

#[test]
fn counts_totals_add_their_fields() {
    let counts = CleanCounts {
        explicit_invisible: 1,
        format_chars: 2,
        control_chars: 3,
        variation_selectors: 4,
        em_dashes_replaced: 5,
    };
    assert_eq!(counts.total(), 10);
    assert_eq!(counts.affected_total(), 15);
    assert_eq!(CleanCounts::default().affected_total(), 0);
}

#[test]
fn counts_add_raises_one_field() {
    let mut counts = CleanCounts::default();
    counts.add(RemovalKind::FormatCharacter);
    counts.add(RemovalKind::FormatCharacter);
    counts.add(RemovalKind::VariationSelector);
    assert_eq!(counts.format_chars, 2);
    assert_eq!(counts.variation_selectors, 1);
    assert_eq!(counts.explicit_invisible, 0);
    assert_eq!(counts.control_chars, 0);
    assert_eq!(counts.total(), 3);
}

#[test]
fn normalization_composes_before_cleaning() {
    let composed = clean_text("e\u{0301}", &options(true, true, true, false));
    assert_eq!(composed.text, "\u{00E9}");
    let kept = clean_text("e\u{0301}", &options(true, true, false, false));
    assert_eq!(kept.text, "e\u{0301}");
}

#[test]
fn format_characters_follow_their_option() {
    let removed = clean_chars("a\u{0600}b\u{E0001}c", &options(true, false, false, false));
    assert_eq!(removed.text, "abc");
    assert_eq!(removed.counts.format_chars, 2);
    let kept = clean_chars("a\u{0600}b", &options(false, true, false, false));
    assert_eq!(kept.text, "a\u{0600}b");
    assert_eq!(kept.counts.total(), 0);
}

#[test]
fn control_characters_follow_their_option() {
    let removed = clean_chars("a\u{007F}b\u{0085}c\u{0007}", &options(false, true, false, false));
    assert_eq!(removed.text, "abc");
    assert_eq!(removed.counts.control_chars, 3);
    let kept = clean_chars("a\u{0007}b", &options(true, false, false, false));
    assert_eq!(kept.text, "a\u{0007}b");
}

#[test]
fn explicit_invisibles_and_selectors_go_whatever_the_options() {
    let result = clean_chars("x\u{00AD}\u{2800}\u{FE00}\u{E01EF}y", &options(false, false, false, false));
    assert_eq!(result.text, "xy");
    assert_eq!(result.counts.explicit_invisible, 2);
    assert_eq!(result.counts.variation_selectors, 2);
}

#[test]
fn variation_selector_bounds() {
    assert!(is_variation_selector('\u{FE00}'));
    assert!(is_variation_selector('\u{FE0F}'));
    assert!(!is_variation_selector('\u{FDFF}'));
    assert!(!is_variation_selector('\u{FE10}'));
    assert!(is_variation_selector('\u{E0100}'));
    assert!(is_variation_selector('\u{E01EF}'));
    assert!(!is_variation_selector('\u{E01F0}'));
}

#[test]
fn allowed_controls_are_the_three_line_and_tab_characters() {
    assert!(is_allowed_control('\n'));
    assert!(is_allowed_control('\r'));
    assert!(is_allowed_control('\t'));
    assert!(!is_allowed_control('\u{000B}'));
    let result = clean_chars("\t\n\r\u{000B}", &options(true, true, false, false));
    assert_eq!(result.text, "\t\n\r");
    assert_eq!(result.counts.control_chars, 1);
}

#[test]
fn em_dash_replacements() {
    assert_eq!(em_dash_replacement('\u{2014}'), Some("-"));
    assert_eq!(em_dash_replacement('\u{2E3A}'), Some("--"));
    assert_eq!(em_dash_replacement('\u{2E3B}'), Some("---"));
    assert_eq!(em_dash_replacement('\u{2013}'), None);
    assert_eq!(
        clean_action('\u{2E3A}', &options(true, true, false, true)),
        Some(CleanAction::ReplaceEmDash("--"))
    );
    assert_eq!(clean_action('\u{2E3A}', &options(true, true, false, false)), None);
    assert_eq!(
        clean_action('\u{200B}', &options(false, false, false, false)),
        Some(CleanAction::Remove(RemovalKind::ExplicitInvisible))
    );
}

#[test]
fn cleaning_twice_changes_nothing_more() {
    let o = options(true, true, false, true);
    let input = "a\u{200B}b\u{2014}\u{0000}c\u{FE0F}\u{0600}d\r\n";
    let once = clean_chars(input, &o);
    let twice = clean_chars(&once.text, &o);
    assert_eq!(once.text, "ab-cd\r\n");
    assert_eq!(twice.text, once.text);
    assert_eq!(twice.counts.affected_total(), 0);
}

#[test]
fn cleaned_text_holds_nothing_to_clean() {
    let o = options(true, true, false, true);
    let result = clean_chars("\u{2066}q\u{2E3B}\u{0001}\u{180E}z", &o);
    for character in result.text.chars() {
        assert_eq!(clean_action(character, &o), None);
    }
}

#[test]
fn marked_count_equals_changed_count() {
    let o = options(true, true, false, true);
    let input = "a\u{200B}b\u{2014}\u{0000}c\u{FE0F}d";
    assert_eq!(removal_count(input, &o), 4);
    assert_eq!(clean_chars(input, &o).counts.affected_total(), 4);
}

#[test]
fn length_accounting_without_dash_replacement() {
    let o = options(true, true, false, false);
    let input = "a\u{200B}b\u{2014}\u{0000}c\u{FE0F}d";
    let result = clean_chars(input, &o);
    assert_eq!(result.counts.em_dashes_replaced, 0);
    assert_eq!(
        result.text.chars().count() + result.counts.total(),
        input.chars().count()
    );
}

#[test]
fn plain_ascii_is_kept() {
    let input = "Plain ASCII: tabs\tand\nnew lines\r\n~!@#$%^&*()";
    for o in [options(true, true, false, true), options(false, false, false, false)] {
        let result = clean_chars(input, &o);
        assert_eq!(result.text, input);
        assert_eq!(result.counts.affected_total(), 0);
    }
}

#[test]
fn removal_count_of_empty_text_is_zero() {
    assert_eq!(removal_count("", &CleanOptions::default()), 0);
    let result = clean_text("", &CleanOptions::default());
    assert_eq!(result.text, "");
    assert_eq!(result.counts.affected_total(), 0);
}

fn stated_format(u: u32) -> bool {
    matches!(
        u,
        173 | 1536..=1541
            | 1564
            | 1757
            | 1807
            | 2192..=2193
            | 2274
            | 6158
            | 8203..=8207
            | 8234..=8238
            | 8288..=8292
            | 8294..=8303
            | 65279
            | 65529..=65531
            | 69821
            | 69837
            | 78896..=78911
            | 113824..=113827
            | 119155..=119162
            | 917505
            | 917536..=917631
    )
}

#[test]
fn category_rules_agree_with_the_unicode_table() {
    let o = options(true, true, false, false);
    for u in 0..=0x10FFFFu32 {
        let Some(c) = char::from_u32(u) else { continue };
        let category = get_general_category(c);
        assert_eq!(category == GeneralCategory::Format, stated_format(u), "U+{u:04X}");
        assert_eq!(
            category == GeneralCategory::Control,
            u <= 31 || (127..=159).contains(&u),
            "U+{u:04X}"
        );
        if is_explicit_invisible_char(c) || is_variation_selector(c) {
            continue;
        }
        let expected = if category == GeneralCategory::Format {
            Some(CleanAction::Remove(RemovalKind::FormatCharacter))
        } else if category == GeneralCategory::Control && !is_allowed_control(c) {
            Some(CleanAction::Remove(RemovalKind::ControlCharacter))
        } else {
            None
        };
        assert_eq!(clean_action(c, &o), expected, "U+{u:04X}");
    }
}

#[test]
fn normalization_can_change_a_second_pass() {
    let o = CleanOptions::default();
    let once = clean_text("e\u{200B}\u{0301}", &o);
    assert_eq!(once.text, "e\u{0301}");
    let twice = clean_text(&once.text, &o);
    assert_eq!(twice.text, "\u{00E9}");
}

#[test]
fn disabled_options_change_nothing_of_their_kind() {
    let input = "\u{0600}a\u{0007}b\u{2014}c\u{2E3B}";
    let result = clean_chars(input, &options(false, false, false, false));
    assert_eq!(result.text, input);
    assert_eq!(result.counts.format_chars, 0);
    assert_eq!(result.counts.control_chars, 0);
    assert_eq!(result.counts.em_dashes_replaced, 0);
}

#[test]
fn counts_add_needs_room_only_in_the_raised_field() {
    let mut counts = CleanCounts {
        explicit_invisible: usize::MAX,
        ..CleanCounts::default()
    };
    counts.add(RemovalKind::ControlCharacter);
    assert_eq!(counts.control_chars, 1);
    assert_eq!(counts.explicit_invisible, usize::MAX);
}
