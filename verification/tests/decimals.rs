use tmux_status::decimal::digit;

#[test]
fn digits_have_their_values() {
    for (value, c) in "0123456789".chars().enumerate() {
        assert_eq!(digit(c), Some(value as u32));
    }
}

#[test]
fn other_characters_are_no_digits() {
    for c in ['/', ':', '.', '-', '+', ' ', 'a', 'e', 'E', '\n', '\0', '٣', '３', '²', '\u{10FFFF}'] {
        assert_eq!(digit(c), None, "{:?}", c);
    }
}
