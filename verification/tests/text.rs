use diff_harness::text::{decimal_string, pad_left_string, same_text};

#[test]
fn numbers_are_written_in_decimal() {
    assert_eq!(decimal_string(0), "0");
    assert_eq!(decimal_string(7), "7");
    assert_eq!(decimal_string(10), "10");
    assert_eq!(decimal_string(120), "120");
    assert_eq!(decimal_string(9_007_199_254_740_993), "9007199254740993");
    assert_eq!(decimal_string(u128::MAX), "340282366920938463463374607431768211455");
}

#[test]
fn short_text_is_padded_on_the_left() {
    assert_eq!(pad_left_string("7", 2), " 7");
    assert_eq!(pad_left_string("42", 9), "       42");
    assert_eq!(pad_left_string("", 3), "   ");
}

#[test]
fn long_text_is_not_cut() {
    assert_eq!(pad_left_string("12", 2), "12");
    assert_eq!(pad_left_string("1234567890", 9), "1234567890");
    assert_eq!(pad_left_string("abc", 0), "abc");
}

#[test]
fn padding_counts_characters_not_bytes() {
    assert_eq!(pad_left_string("\u{39b}", 3), "  \u{39b}");
}

#[test]
fn texts_are_compared() {
    assert!(same_text("a/b", "a/b"));
    assert!(!same_text("a/b", "a/c"));
    assert!(same_text("", ""));
    assert!(!same_text("", " "));
}
