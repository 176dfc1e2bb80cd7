//! The output formatter: bytes rendered as the text of a `u8` array.

use vstd::prelude::*;

verus! {

/// Taken on trust of `String::push`: it appends the character at the end
/// of the string and leaves what was there as it was.
pub assume_specification[ String::push ](s: &mut String, ch: char)
    ensures
        final(s)@ == old(s)@.push(ch),
;

/// The character that writes the decimal digit `d`.
pub open spec fn digit_char(d: nat) -> char
    recommends
        d < 10,
{
    ('0' as nat + d) as char
}

/// The decimal numeral of `n`, without leading zeros.
pub open spec fn decimal(n: nat) -> Seq<char>
    decreases n,
{
    if n < 10 {
        seq![digit_char(n)]
    } else {
        decimal(n / 10).push(digit_char(n % 10))
    }
}

/// One entry of the array: the decimal numeral of the byte, then `u8`.
pub open spec fn entry(byte: u8) -> Seq<char> {
    decimal(byte as nat) + seq!['u', '8']
}

/// The entries of the array, each two separated by a comma and a space.
pub open spec fn entries(bytes: Seq<u8>) -> Seq<char>
    decreases bytes.len(),
{
    if bytes.len() == 0 {
        Seq::empty()
    } else if bytes.len() == 1 {
        entry(bytes[0])
    } else {
        entries(bytes.drop_last()) + seq![',', ' '] + entry(bytes.last())
    }
}

/// The text of the array: the entries between square brackets.
pub open spec fn array_text(bytes: Seq<u8>) -> Seq<char> {
    seq!['['] + entries(bytes) + seq![']']
}

/// The character that writes the decimal digit `d`.
fn digit(d: u8) -> (c: char)
    requires
        d < 10,
    ensures
        c == digit_char(d as nat),
{
    (48u8 + d) as char
}

/// Appends the decimal numeral of `value` to `text`.
fn push_decimal(text: &mut String, value: u8)
    ensures
        final(text)@ == old(text)@ + decimal(value as nat),
{
    proof {
        reveal_with_fuel(decimal, 3);
    }
    if value >= 100 {
        text.push(digit(value / 100));
    }
    if value >= 10 {
        text.push(digit(value / 10 % 10));
    }
    text.push(digit(value % 10));
}

/// Renders the bytes as the text of an array of `u8` literals: `[]` for no
/// bytes, `[10u8, 11u8]` for the bytes 10 and 11.
pub fn format_bytes(bytes: &[u8]) -> (text: String)
    ensures
        text@ == array_text(bytes@),
{
    let mut text = String::new();
    text.push('[');
    let mut i: usize = 0;
    while i < bytes.len()
        invariant
            i <= bytes.len(),
            text@ == seq!['['] + entries(bytes@.take(i as int)),
        decreases bytes.len() - i,
    {
        if i > 0 {
            text.push(',');
            text.push(' ');
        }
        push_decimal(&mut text, bytes[i]);
        text.push('u');
        text.push('8');
        proof {
            assert(bytes@.take(i + 1).drop_last() =~= bytes@.take(i as int));
        }
        i += 1;
    }
    text.push(']');
    proof {
        assert(bytes@.take(bytes@.len() as int) =~= bytes@);
    }
    text
}

} // verus!
