use hexbytes::digit::{c_to_hex, classify, hex_digit};
use hexbytes::error::HexError;

#[test]
fn decimal_digits_have_their_values() {
    let digits = ['0', '1', '2', '3', '4', '5', '6', '7', '8', '9'];
    for (value, c) in digits.iter().enumerate() {
        assert_eq!(hex_digit(*c), Some(value as u8));
        assert_eq!(c_to_hex(*c), Ok(Some(value as u8)));
    }
}

#[test]
fn letters_have_their_values_in_lower_case() {
    let letters = ['a', 'b', 'c', 'd', 'e', 'f'];
    for (offset, c) in letters.iter().enumerate() {
        assert_eq!(hex_digit(*c), Some(10 + offset as u8));
        assert_eq!(c_to_hex(*c), Ok(Some(10 + offset as u8)));
    }
}

#[test]
fn letters_have_their_values_in_upper_case() {
    let letters = ['A', 'B', 'C', 'D', 'E', 'F'];
    for (offset, c) in letters.iter().enumerate() {
        assert_eq!(hex_digit(*c), Some(10 + offset as u8));
        assert_eq!(c_to_hex(*c), Ok(Some(10 + offset as u8)));
    }
}

#[test]
fn neighbours_of_the_digit_ranges_are_no_digits() {
    for c in ['/', ':', '@', 'G', '`', 'g', 'x', '"', ' ', '\u{ff10}', '\u{ff21}'] {
        assert_eq!(hex_digit(c), None);
    }
}

#[test]
fn exactly_twenty_two_characters_are_hex_digits() {
    let mut count = 0;
    for code in 0..=0x10ffffu32 {
        if let Some(c) = char::from_u32(code) {
            if let Some(value) = hex_digit(c) {
                assert!(value < 16);
                assert_eq!(Some(value as u32), c.to_digit(16));
                count += 1;
            }
        }
    }
    assert_eq!(count, 22);
}

#[test]
fn whitespace_is_a_gap() {
    for c in [' ', '\t', '\n', '\r', '\u{b}', '\u{c}', '\u{85}', '\u{a0}', '\u{2003}', '\u{3000}'] {
        assert_eq!(c_to_hex(c), Ok(None));
    }
}

#[test]
fn other_characters_are_invalid() {
    for c in ['g', 'G', 'x', '-', ',', '\\', '\u{0}', '\u{200b}', '\u{8d8a}'] {
        assert_eq!(c_to_hex(c), Err(HexError::InvalidCharacter(c)));
    }
}

#[test]
fn the_quote_is_invalid_as_a_digit() {
    assert_eq!(c_to_hex('"'), Err(HexError::InvalidCharacter('"')));
}

#[test]
fn classify_goes_by_what_it_is_told_of_whitespace() {
    assert_eq!(classify('x', true), Ok(None));
    assert_eq!(classify('x', false), Err(HexError::InvalidCharacter('x')));
    assert_eq!(classify(' ', false), Err(HexError::InvalidCharacter(' ')));
    assert_eq!(classify(' ', true), Ok(None));
}

#[test]
fn classify_reads_a_digit_whatever_it_is_told() {
    assert_eq!(classify('c', true), Ok(Some(12)));
    assert_eq!(classify('c', false), Ok(Some(12)));
    assert_eq!(classify('7', true), Ok(Some(7)));
}

#[test]
fn c_to_hex_is_classify_with_the_unicode_answer() {
    for code in 0..=0x10ffffu32 {
        if let Some(c) = char::from_u32(code) {
            assert_eq!(c_to_hex(c), classify(c, c.is_whitespace()));
        }
    }
}
