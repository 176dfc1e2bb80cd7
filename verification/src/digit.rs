//! Hex digits and the characters that may stand between them.

use crate::error::HexError;
use vstd::prelude::*;

verus! {

/// What `char::is_whitespace` answers for `c`: whether the character has
/// the Unicode property `White_Space`.
pub uninterp spec fn unicode_white_space(c: char) -> bool;

/// Taken on trust of `char::is_whitespace`: its answer depends on the
/// character alone, so it is the value that `unicode_white_space` names.
/// Of no character is it said here what that answer is.
pub assume_specification[ char::is_whitespace ](c: char) -> (b: bool)
    ensures
        b == unicode_white_space(c),
;

/// The value of a hex digit, in either case; `None` for any other character.
pub open spec fn hex_value(c: char) -> Option<u8> {
    if '0' <= c <= '9' {
        Some((c as int - '0' as int) as u8)
    } else if 'a' <= c <= 'f' {
        Some((c as int - 'a' as int + 10) as u8)
    } else if 'A' <= c <= 'F' {
        Some((c as int - 'A' as int + 10) as u8)
    } else {
        None
    }
}

/// What a character inside the literal stands for, given whether it counts
/// as whitespace: a nibble, a gap between bytes, or nothing at all. A hex
/// digit is a nibble whatever `whitespace` says.
pub open spec fn nibble_or_gap(c: char, whitespace: bool) -> Result<Option<u8>, HexError> {
    match hex_value(c) {
        Some(v) => Ok(Some(v)),
        None => if whitespace {
            Ok(None)
        } else {
            Err(HexError::InvalidCharacter(c))
        },
    }
}

/// The value of a hex digit, in either case; `None` for any other character.
pub fn hex_digit(c: char) -> (r: Option<u8>)
    ensures
        r == hex_value(c),
        r matches Some(v) ==> v < 16,
{
    match c {
        '0' => Some(0),
        '1' => Some(1),
        '2' => Some(2),
        '3' => Some(3),
        '4' => Some(4),
        '5' => Some(5),
        '6' => Some(6),
        '7' => Some(7),
        '8' => Some(8),
        '9' => Some(9),
        'a' | 'A' => Some(10),
        'b' | 'B' => Some(11),
        'c' | 'C' => Some(12),
        'd' | 'D' => Some(13),
        'e' | 'E' => Some(14),
        'f' | 'F' => Some(15),
        _ => None,
    }
}

/// Reads one character of the literal, told whether it counts as
/// whitespace: `Ok(Some(v))` for a hex digit of value `v`, `Ok(None)` for
/// whitespace, and `InvalidCharacter` for anything else.
pub fn classify(c: char, whitespace: bool) -> (r: Result<Option<u8>, HexError>)
    ensures
        r == nibble_or_gap(c, whitespace),
        r matches Ok(Some(v)) ==> v < 16,
{
    match hex_digit(c) {
        Some(v) => Ok(Some(v)),
        None => if whitespace {
            Ok(None)
        } else {
            Err(HexError::InvalidCharacter(c))
        },
    }
}

/// Reads one character of the literal: `Ok(Some(v))` for a hex digit of
/// value `v`, `Ok(None)` for whitespace as Unicode defines it, and
/// `InvalidCharacter` for anything else.
pub fn c_to_hex(c: char) -> (r: Result<Option<u8>, HexError>)
    ensures
        r == nibble_or_gap(c, unicode_white_space(c)),
        r matches Ok(Some(v)) ==> v < 16,
{
    classify(c, c.is_whitespace())
}

} // verus!
