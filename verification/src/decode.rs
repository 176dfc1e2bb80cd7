//! The hex decoder: a two-state scanner over the characters of a literal.

use crate::digit::{c_to_hex, nibble_or_gap, unicode_white_space};
use crate::error::{agrees, HexError};
use crate::wellformed::{
    interior, lemma_decode_reads_nibbles, lemma_decodes_iff_well_formed, nibbles, nibbles_of,
    quoted, well_formed,
};
use vstd::prelude::*;
use vstd::std_specs::iter::IteratorSpec;

verus! {

/// What a character of the literal is to the scanner.
#[derive(Clone, Copy, Debug, PartialEq, Eq)]
pub enum Symbol {
    /// A hex digit, with its value.
    Nibble(u8),
    /// Whitespace.
    Gap,
    /// The double quote.
    Quote,
    /// Any other character, with the character.
    Invalid(char),
}

/// Where the scanner stands between two characters.
#[derive(Clone, Copy, Debug, PartialEq, Eq)]
pub enum State {
    /// The next hex digit opens a byte.
    ExpectHighNibble,
    /// The next hex digit completes the byte whose high nibble is held here.
    ExpectLowNibble(u8),
}

/// What one character makes of a state.
#[derive(Clone, Copy, Debug, PartialEq, Eq)]
pub enum Step {
    /// Scanning goes on in the given state; no byte was completed.
    Continue(State),
    /// A byte was completed; scanning goes on with `ExpectHighNibble`.
    Emit(u8),
    /// The closing quote was read: scanning stops.
    Stop,
}

impl Symbol {
    /// The value of a nibble is below 16.
    pub open spec fn wf(self) -> bool {
        self matches Symbol::Nibble(v) ==> v < 16
    }
}

impl State {
    /// A held high nibble is below 16.
    pub open spec fn wf(self) -> bool {
        self matches State::ExpectLowNibble(high) ==> high < 16
    }
}

/// What the character `c` is to the scanner, where `whitespace` says
/// whether it counts as whitespace. The quote is looked for first, then a
/// hex digit; `whitespace` decides only for a character that is neither.
pub open spec fn symbol_spec(c: char, whitespace: bool) -> Symbol {
    if c == '"' {
        Symbol::Quote
    } else {
        match nibble_or_gap(c, whitespace) {
            Ok(Some(v)) => Symbol::Nibble(v),
            Ok(None) => Symbol::Gap,
            Err(_) => Symbol::Invalid(c),
        }
    }
}

/// The transition table of the scanner.
pub open spec fn step_spec(state: State, symbol: Symbol) -> Result<Step, HexError> {
    match (state, symbol) {
        (_, Symbol::Quote) => Ok(Step::Stop),
        (_, Symbol::Invalid(c)) => Err(HexError::InvalidCharacter(c)),
        (State::ExpectHighNibble, Symbol::Nibble(high)) => Ok(
            Step::Continue(State::ExpectLowNibble(high)),
        ),
        (State::ExpectHighNibble, Symbol::Gap) => Ok(Step::Continue(State::ExpectHighNibble)),
        (State::ExpectLowNibble(high), Symbol::Nibble(low)) => Ok(
            Step::Emit((high * 16 + low) as u8),
        ),
        (State::ExpectLowNibble(_), Symbol::Gap) => Err(HexError::WhitespaceMidByte),
    }
}

/// What is asked of a scan once it is over, in this order: nothing may
/// follow the closing quote, the quote must have been found, and no byte may
/// be left half read. `trailing` is the character after the closing quote,
/// if there is one.
pub open spec fn conclude_spec(state: State, terminated: bool, trailing: Option<char>) -> Result<
    (),
    HexError,
> {
    match trailing {
        Some(c) => Err(HexError::TrailingCharacters(c)),
        None => if !terminated {
            Err(HexError::UnterminatedLiteral)
        } else if state is ExpectLowNibble {
            Err(HexError::IncompleteByte)
        } else {
            Ok(())
        },
    }
}

/// The first character of a sequence, if it has one.
pub open spec fn head(chars: Seq<char>) -> Option<char> {
    if chars.len() > 0 {
        Some(chars[0])
    } else {
        None
    }
}

/// The bytes of a scan that completes no further byte: none, unless the
/// scan is found to end badly.
pub open spec fn no_more_bytes(ending: Result<(), HexError>) -> Result<Seq<u8>, HexError> {
    match ending {
        Ok(_) => Ok(Seq::empty()),
        Err(e) => Err(e),
    }
}

/// `bytes` put in front of what a scan gives.
pub open spec fn preceded_by(bytes: Seq<u8>, scanned: Result<Seq<u8>, HexError>) -> Result<
    Seq<u8>,
    HexError,
> {
    match scanned {
        Ok(rest) => Ok(bytes + rest),
        Err(e) => Err(e),
    }
}

/// What scanning `rest`, the characters not yet read, gives from `state`:
/// the bytes completed from here on, or the first failure.
pub open spec fn scan_spec(rest: Seq<char>, state: State) -> Result<Seq<u8>, HexError>
    decreases rest.len(),
{
    if rest.len() == 0 {
        no_more_bytes(conclude_spec(state, false, None))
    } else {
        let later = rest.drop_first();
        match step_spec(state, symbol_spec(rest[0], unicode_white_space(rest[0]))) {
            Err(e) => Err(e),
            Ok(Step::Stop) => no_more_bytes(conclude_spec(state, true, head(later))),
            Ok(Step::Continue(next)) => scan_spec(later, next),
            Ok(Step::Emit(byte)) => preceded_by(
                seq![byte],
                scan_spec(later, State::ExpectHighNibble),
            ),
        }
    }
}

/// What the text of a literal, quotes included, decodes to.
pub open spec fn decode_spec(text: Seq<char>) -> Result<Seq<u8>, HexError> {
    if text.len() > 0 && text[0] == '"' {
        scan_spec(text.drop_first(), State::ExpectHighNibble)
    } else {
        Err(HexError::NotAStringLiteral)
    }
}

/// Putting `byte` in front of a scan's result and `bytes` in front of that
/// is putting `bytes` followed by `byte` in front of it.
proof fn lemma_preceded_by_push(bytes: Seq<u8>, byte: u8)
    ensures
        forall|scanned: Result<Seq<u8>, HexError>| #[trigger]
            preceded_by(bytes, preceded_by(seq![byte], scanned)) == preceded_by(
                bytes.push(byte),
                scanned,
            ),
{
    assert forall|scanned: Result<Seq<u8>, HexError>| #[trigger]
        preceded_by(bytes, preceded_by(seq![byte], scanned)) == preceded_by(
            bytes.push(byte),
            scanned,
        ) by {
        if let Ok(rest) = scanned {
            assert(bytes + (seq![byte] + rest) =~= bytes.push(byte) + rest);
        }
    }
}

/// What the character `c` is to the scanner: the quote, a hex digit,
/// whitespace as Unicode defines it, or none of these.
pub fn symbol_of(c: char) -> (symbol: Symbol)
    ensures
        symbol == symbol_spec(c, unicode_white_space(c)),
        symbol.wf(),
{
    if c == '"' {
        Symbol::Quote
    } else {
        match c_to_hex(c) {
            Ok(Some(v)) => Symbol::Nibble(v),
            Ok(None) => Symbol::Gap,
            Err(_) => Symbol::Invalid(c),
        }
    }
}

/// One transition of the scanner: what `symbol` makes of `state`.
pub fn step(state: State, symbol: Symbol) -> (r: Result<Step, HexError>)
    requires
        state.wf(),
        symbol.wf(),
    ensures
        r == step_spec(state, symbol),
        r matches Ok(Step::Continue(next)) ==> next.wf(),
{
    match symbol {
        Symbol::Quote => Ok(Step::Stop),
        Symbol::Invalid(c) => Err(HexError::InvalidCharacter(c)),
        Symbol::Nibble(v) => match state {
            State::ExpectHighNibble => Ok(Step::Continue(State::ExpectLowNibble(v))),
            State::ExpectLowNibble(high) => Ok(Step::Emit(high * 16 + v)),
        },
        Symbol::Gap => match state {
            State::ExpectHighNibble => Ok(Step::Continue(State::ExpectHighNibble)),
            State::ExpectLowNibble(_) => Err(HexError::WhitespaceMidByte),
        },
    }
}

/// Judges a scan that is over: `trailing` is the character found after the
/// closing quote, if any; `terminated` says whether the closing quote was
/// found; `state` is the state that scanning ended in. A trailing character
/// is reported first, then a missing quote, then a half read byte.
pub fn conclude(state: State, terminated: bool, trailing: Option<char>) -> (r: Result<(), HexError>)
    ensures
        r == conclude_spec(state, terminated, trailing),
{
    match trailing {
        Some(c) => Err(HexError::TrailingCharacters(c)),
        None => {
            if !terminated {
                Err(HexError::UnterminatedLiteral)
            } else {
                match state {
                    State::ExpectLowNibble(_) => Err(HexError::IncompleteByte),
                    State::ExpectHighNibble => Ok(()),
                }
            }
        },
    }
}

/// Decodes the text of a string literal, quotes included, into the bytes
/// that its hex digit pairs spell. Whitespace may stand between two bytes,
/// not between the two digits of one.
pub fn decode(text: &str) -> (r: Result<Vec<u8>, HexError>)
    ensures
        agrees(r, decode_spec(text@)),
        r is Ok <==> text@.len() >= 2 && text@ == quoted(interior(text@)) && well_formed(
            interior(text@),
        ),
        r matches Ok(bytes) ==> nibbles(interior(text@)) == nibbles_of(bytes@),
        r matches Ok(bytes) ==> nibbles(interior(text@)).len() == 2 * bytes@.len(),
        r matches Ok(bytes) ==> forall|i: int|
            0 <= i < bytes@.len() ==> 0 <= #[trigger] bytes@[i] <= 255,
{
    proof {
        lemma_decodes_iff_well_formed(text@);
    }
    let mut chars = text.chars();
    match chars.next() {
        Some(c) => {
            if c != '"' {
                return Err(HexError::NotAStringLiteral);
            }
        },
        None => {
            return Err(HexError::NotAStringLiteral);
        },
    }
    let mut state = State::ExpectHighNibble;
    let mut bytes: Vec<u8> = Vec::new();
    let mut terminated = false;
    loop
        invariant_except_break
            !terminated,
            decode_spec(text@) == preceded_by(bytes@, scan_spec(chars.remaining(), state)),
        invariant
            state.wf(),
            chars.obeys_prophetic_iter_laws(),
            chars.decrease() is Some,
        ensures
            decode_spec(text@) == preceded_by(
                bytes@,
                no_more_bytes(conclude_spec(state, terminated, head(chars.remaining()))),
            ),
        decreases chars.decrease()->0,
    {
        match chars.next() {
            None => {
                break;
            },
            Some(c) => {
                match step(state, symbol_of(c)) {
                    Err(e) => {
                        proof {
                            lemma_decodes_iff_well_formed(text@);
                        }
                        return Err(e);
                    },
                    Ok(Step::Stop) => {
                        terminated = true;
                        break;
                    },
                    Ok(Step::Continue(next)) => {
                        state = next;
                    },
                    Ok(Step::Emit(byte)) => {
                        proof {
                            lemma_preceded_by_push(bytes@, byte);
                        }
                        bytes.push(byte);
                        state = State::ExpectHighNibble;
                    },
                }
            },
        }
    }
    match conclude(state, terminated, chars.next()) {
        Err(e) => Err(e),
        Ok(_) => {
            proof {
                lemma_decode_reads_nibbles(text@);
            }
            Ok(bytes)
        },
    }
}

} // verus!
