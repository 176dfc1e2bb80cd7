//! Bytes written in hex decode to themselves.

use crate::decode::{decode_spec, scan_spec, State};
use crate::digit::hex_value;
use crate::error::HexError;
use crate::wellformed::quoted;
use vstd::prelude::*;

verus! {

/// The hex digit of value `v`, a letter in upper case if `upper` says so.
pub open spec fn hex_digit_char(v: nat, upper: bool) -> char
    recommends
        v < 16,
{
    if v < 10 {
        ('0' as nat + v) as char
    } else if upper {
        ('A' as nat + v - 10) as char
    } else {
        ('a' as nat + v - 10) as char
    }
}

/// The bytes written in hex: two digits for each byte, the high nibble
/// first, and nothing in between.
pub open spec fn hex_text(bytes: Seq<u8>, upper: bool) -> Seq<char>
    decreases bytes.len(),
{
    if bytes.len() == 0 {
        Seq::empty()
    } else {
        seq![
            hex_digit_char((bytes[0] / 16) as nat, upper),
            hex_digit_char((bytes[0] % 16) as nat, upper),
        ] + hex_text(bytes.drop_first(), upper)
    }
}

/// Whether `digits` writes `bytes` in hex: two digits for each byte, the
/// high nibble first, each letter in either case, and nothing in between.
pub open spec fn spells(digits: Seq<char>, bytes: Seq<u8>) -> bool {
    &&& digits.len() == 2 * bytes.len()
    &&& forall|i: int|
        0 <= i < bytes.len() ==> {
            &&& hex_value(digits[2 * i]) == Some((#[trigger] bytes[i] / 16) as u8)
            &&& hex_value(digits[2 * i + 1]) == Some((bytes[i] % 16) as u8)
        }
}

/// A hex digit is read back as its value.
proof fn lemma_hex_digit_char_value(v: nat, upper: bool)
    requires
        v < 16,
    ensures
        hex_value(hex_digit_char(v, upper)) == Some(v as u8),
{
}

/// `hex_text` writes the bytes in hex.
pub proof fn lemma_hex_text_spells(bytes: Seq<u8>, upper: bool)
    ensures
        spells(hex_text(bytes, upper), bytes),
    decreases bytes.len(),
{
    if bytes.len() > 0 {
        let tail = bytes.drop_first();
        lemma_hex_text_spells(tail, upper);
        lemma_hex_digit_char_value((bytes[0] / 16) as nat, upper);
        lemma_hex_digit_char_value((bytes[0] % 16) as nat, upper);
        let digits = hex_text(bytes, upper);
        let rest = hex_text(tail, upper);
        assert forall|i: int| 0 <= i < bytes.len() implies {
            &&& hex_value(digits[2 * i]) == Some((#[trigger] bytes[i] / 16) as u8)
            &&& hex_value(digits[2 * i + 1]) == Some((bytes[i] % 16) as u8)
        } by {
            if i > 0 {
                assert(tail[i - 1] == bytes[i]);
            }
        }
    }
}

/// Scanning hex digits that write `bytes`, followed by the closing quote,
/// gives `bytes`.
proof fn lemma_scan_spelled(digits: Seq<char>, bytes: Seq<u8>)
    requires
        spells(digits, bytes),
    ensures
        scan_spec(digits + seq!['"'], State::ExpectHighNibble) == Ok::<Seq<u8>, HexError>(bytes),
    decreases bytes.len(),
{
    let text = digits + seq!['"'];
    if bytes.len() == 0 {
        assert(bytes =~= Seq::<u8>::empty());
    } else {
        let byte = bytes[0];
        let later_digits = digits.subrange(2, digits.len() as int);
        let later_bytes = bytes.drop_first();
        assert(spells(later_digits, later_bytes)) by {
            assert forall|i: int| 0 <= i < later_bytes.len() implies {
                &&& hex_value(later_digits[2 * i]) == Some((#[trigger] later_bytes[i] / 16) as u8)
                &&& hex_value(later_digits[2 * i + 1]) == Some((later_bytes[i] % 16) as u8)
            } by {
                assert(later_bytes[i] == bytes[i + 1]);
            }
        }
        lemma_scan_spelled(later_digits, later_bytes);
        let after_high = text.drop_first();
        assert(after_high.drop_first() =~= later_digits + seq!['"']);
        assert(scan_spec(after_high, State::ExpectLowNibble((byte / 16) as u8)) == Ok::<
            Seq<u8>,
            HexError,
        >(seq![byte] + later_bytes));
        assert(seq![byte] + later_bytes =~= bytes);
    }
}

/// Every text that writes `bytes` in hex, put between quotes, decodes to
/// `bytes`, whatever the case of its letters.
pub proof fn lemma_spelled_bytes_decode(digits: Seq<char>, bytes: Seq<u8>)
    requires
        spells(digits, bytes),
    ensures
        decode_spec(quoted(digits)) == Ok::<Seq<u8>, HexError>(bytes),
{
    lemma_scan_spelled(digits, bytes);
    assert(quoted(digits).drop_first() =~= digits + seq!['"']);
}

/// Round trip: every sequence of bytes, written in hex with two digits for
/// each byte and no separators, and put between quotes, decodes to itself.
pub proof fn lemma_roundtrip(bytes: Seq<u8>, upper: bool)
    ensures
        decode_spec(quoted(hex_text(bytes, upper))) == Ok::<Seq<u8>, HexError>(bytes),
{
    lemma_hex_text_spells(bytes, upper);
    lemma_spelled_bytes_decode(hex_text(bytes, upper), bytes);
}

} // verus!
