use karakuri_bridge::order::comes_before;
use karakuri_bridge::text::{deck_letter, numeral, plural_ending, same_text};

#[test]
fn numerals_are_what_format_writes() {
    for n in [0u64, 1, 9, 10, 99, 100, 12345, u64::MAX] {
        assert_eq!(numeral(n), format!("{n}"));
    }
}

#[test]
fn one_takes_no_plural_ending() {
    assert_eq!(plural_ending(1), "");
    assert_eq!(plural_ending(0), "s");
    assert_eq!(plural_ending(2), "s");
}

#[test]
fn decks_are_lettered() {
    assert_eq!(deck_letter(0), "A");
    assert_eq!(deck_letter(1), "B");
    assert_eq!(deck_letter(2), "C");
    assert_eq!(deck_letter(3), "D");
    assert_eq!(deck_letter(4), "?");
}

#[test]
fn texts_compare_by_characters() {
    assert!(same_text("abc", "abc"));
    assert!(!same_text("abc", "abd"));
    assert!(!same_text("ab", "abc"));
    assert!(same_text("", ""));
}

#[test]
fn the_order_is_the_order_strings_have() {
    let words = ["", "a", "ab", "b", "B", "é", "z", "ä", "aa"];
    for a in words {
        for b in words {
            assert_eq!(comes_before(a, b), a < b, "{a:?} {b:?}");
        }
    }
}
