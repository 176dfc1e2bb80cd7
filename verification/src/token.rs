//! The argument of an expansion: one token, which must be a string literal.

use crate::error::{agrees, HexError};
use vstd::prelude::*;

verus! {

/// The kinds of token an argument list is made of.
#[derive(Clone, Copy, Debug, PartialEq, Eq)]
pub enum TokenKind {
    /// A delimited group of tokens.
    Group,
    /// An identifier or a keyword.
    Ident,
    /// A punctuation character.
    Punct,
    /// A literal: a string, a character, a number.
    Literal,
}

/// One token of the argument list, with its kind and its source text. The
/// text of a string literal includes its quotes.
#[derive(Debug, PartialEq, Eq)]
pub struct Token {
    pub kind: TokenKind,
    pub text: String,
}

/// A token as contracts speak of it.
pub ghost struct TokenView {
    pub kind: TokenKind,
    pub text: Seq<char>,
}

impl View for Token {
    type V = TokenView;

    open spec fn view(&self) -> TokenView {
        TokenView { kind: self.kind, text: self.text@ }
    }
}

/// The argument of an expansion: the one token of the list, where the list
/// holds exactly one.
pub open spec fn sole_argument(tokens: Seq<Token>) -> Result<TokenView, HexError> {
    if tokens.len() == 1 {
        Ok(tokens[0]@)
    } else {
        Err(HexError::ArgumentCount)
    }
}

/// The text of a token that is a string literal: the token is of kind
/// `Literal` and its text begins with a double quote.
pub open spec fn literal_text_spec(token: TokenView) -> Result<Seq<char>, HexError> {
    if token.kind is Literal && token.text.len() > 0 && token.text[0] == '"' {
        Ok(token.text)
    } else {
        Err(HexError::NotAStringLiteral)
    }
}

/// Takes the argument out of the argument list: the first token, if and
/// only if it is the only one; `ArgumentCount` for an empty list and for a
/// list of two or more.
pub fn extract_argument(tokens: &[Token]) -> (r: Result<&Token, HexError>)
    ensures
        agrees(r, sole_argument(tokens@)),
        r matches Ok(token) ==> *token == tokens@[0],
{
    if tokens.len() == 1 {
        Ok(&tokens[0])
    } else {
        Err(HexError::ArgumentCount)
    }
}

impl Token {
    /// The text of the token, if it is a string literal: `NotAStringLiteral`
    /// for a token of another kind, and for a literal whose text does not
    /// begin with a double quote.
    pub fn literal_text(&self) -> (r: Result<&str, HexError>)
        ensures
            agrees(r, literal_text_spec(self@)),
    {
        match self.kind {
            TokenKind::Literal => {},
            _ => {
                return Err(HexError::NotAStringLiteral);
            },
        }
        let text = self.text.as_str();
        let mut chars = text.chars();
        match chars.next() {
            Some(c) => {
                if c == '"' {
                    Ok(text)
                } else {
                    Err(HexError::NotAStringLiteral)
                }
            },
            None => Err(HexError::NotAStringLiteral),
        }
    }
}

} // verus!
