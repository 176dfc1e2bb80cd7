//! The ways an expansion can fail.

use vstd::prelude::*;

verus! {

/// Why an expansion was given up. Every failure is final: nothing is
/// retried and no partial output is produced.
#[derive(Clone, Copy, Debug, PartialEq, Eq)]
pub enum HexError {
    /// The argument list held no token, or more than one.
    ArgumentCount,
    /// The argument is not a string literal.
    NotAStringLiteral,
    /// A character inside the literal is neither a hex digit, nor
    /// whitespace, nor the closing quote.
    InvalidCharacter(char),
    /// Whitespace stands between the two digits of one byte.
    WhitespaceMidByte,
    /// A character follows the closing quote.
    TrailingCharacters(char),
    /// The literal has no closing quote.
    UnterminatedLiteral,
    /// The literal holds an odd number of hex digits.
    IncompleteByte,
}

/// Whether an executable result is the one that `model` gives: the same
/// failure, or a value whose view is the model's value.
pub open spec fn agrees<T: View>(r: Result<T, HexError>, model: Result<T::V, HexError>) -> bool {
    match r {
        Ok(value) => model == Ok::<T::V, HexError>(value@),
        Err(e) => model == Err::<T::V, HexError>(e),
    }
}

} // verus!
