//! Hex byte literals: the text of one string literal made of hex digit
//! pairs is decoded into bytes and rendered as the text of a `u8` array.
//!
//! An expansion runs in four steps, each on the result of the one before:
//! the argument is taken out of the argument list, it is found to be a
//! string literal, the literal's text is decoded, and the bytes are
//! rendered. [`hb`] runs all four.

pub mod decode;
pub mod digit;
pub mod error;
pub mod format;
pub mod roundtrip;
pub mod token;
pub mod wellformed;

use crate::decode::{decode, decode_spec};
use crate::error::{agrees, HexError};
use crate::format::{array_text, format_bytes};
use crate::token::{extract_argument, literal_text_spec, sole_argument, Token};
use vstd::prelude::*;

verus! {

/// What an argument list expands to: the text of the array that the one
/// string literal in it spells, or the failure of the first step that fails.
pub open spec fn expansion(tokens: Seq<Token>) -> Result<Seq<char>, HexError> {
    match sole_argument(tokens) {
        Err(e) => Err(e),
        Ok(token) => match literal_text_spec(token) {
            Err(e) => Err(e),
            Ok(text) => match decode_spec(text) {
                Err(e) => Err(e),
                Ok(bytes) => Ok(array_text(bytes)),
            },
        },
    }
}

/// Expands an argument list that holds one string literal of hex digit
/// pairs into the text of a `u8` array: `"0a0B1C"` gives `[10u8, 11u8, 28u8]`.
pub fn hb(tokens: &[Token]) -> (r: Result<String, HexError>)
    ensures
        agrees(r, expansion(tokens@)),
{
    let token = match extract_argument(tokens) {
        Ok(token) => token,
        Err(e) => {
            return Err(e);
        },
    };
    let text = match token.literal_text() {
        Ok(text) => text,
        Err(e) => {
            return Err(e);
        },
    };
    match decode(text) {
        Ok(bytes) => Ok(format_bytes(bytes.as_slice())),
        Err(e) => Err(e),
    }
}

} // verus!
