use phips_game::render::{cursor_reset_string, decimal_len, repeat_char, usize_to_decimal};

#[test]
fn decimal_of_zero() {
    assert_eq!(usize_to_decimal(0), "0");
}

#[test]
fn decimal_of_larger_numbers() {
    assert_eq!(usize_to_decimal(7), "7");
    assert_eq!(usize_to_decimal(10), "10");
    assert_eq!(usize_to_decimal(907), "907");
    assert_eq!(usize_to_decimal(123456789), "123456789");
}

#[test]
fn decimal_len_counts_digits() {
    assert_eq!(decimal_len(0), 1);
    assert_eq!(decimal_len(9), 1);
    assert_eq!(decimal_len(10), 2);
    assert_eq!(decimal_len(99), 2);
    assert_eq!(decimal_len(100), 3);
}

#[test]
fn repeat_char_builds_rules() {
    assert_eq!(repeat_char('#', 5), "#####");
    assert_eq!(repeat_char('#', 0), "");
    assert_eq!(repeat_char(' ', 2), "  ");
}

#[test]
fn cursor_reset_emits_the_ansi_escapes() {
    assert_eq!(cursor_reset_string(24, 3), "\u{1b}[24D\u{1b}[3A");
    assert_eq!(cursor_reset_string(45, 25), "\u{1b}[45D\u{1b}[25A");
}
