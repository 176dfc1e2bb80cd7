use hexbytes::decode::{conclude, step, symbol_of, State, Step, Symbol};
use hexbytes::error::HexError;

#[test]
fn symbols_of_characters() {
    assert_eq!(symbol_of('"'), Symbol::Quote);
    assert_eq!(symbol_of('0'), Symbol::Nibble(0));
    assert_eq!(symbol_of('f'), Symbol::Nibble(15));
    assert_eq!(symbol_of('F'), Symbol::Nibble(15));
    assert_eq!(symbol_of(' '), Symbol::Gap);
    assert_eq!(symbol_of('\n'), Symbol::Gap);
    assert_eq!(symbol_of('g'), Symbol::Invalid('g'));
    assert_eq!(symbol_of('\''), Symbol::Invalid('\''));
    assert_eq!(symbol_of('\\'), Symbol::Invalid('\\'));
}

#[test]
fn high_nibble_is_stored() {
    assert_eq!(
        step(State::ExpectHighNibble, Symbol::Nibble(10)),
        Ok(Step::Continue(State::ExpectLowNibble(10)))
    );
    assert_eq!(
        step(State::ExpectHighNibble, Symbol::Nibble(0)),
        Ok(Step::Continue(State::ExpectLowNibble(0)))
    );
}

#[test]
fn low_nibble_completes_the_byte() {
    assert_eq!(step(State::ExpectLowNibble(10), Symbol::Nibble(11)), Ok(Step::Emit(0xab)));
    assert_eq!(step(State::ExpectLowNibble(0), Symbol::Nibble(0)), Ok(Step::Emit(0)));
    assert_eq!(step(State::ExpectLowNibble(15), Symbol::Nibble(15)), Ok(Step::Emit(255)));
    assert_eq!(step(State::ExpectLowNibble(1), Symbol::Nibble(0)), Ok(Step::Emit(16)));
    assert_eq!(step(State::ExpectLowNibble(0), Symbol::Nibble(1)), Ok(Step::Emit(1)));
}

#[test]
fn every_pair_of_nibbles_makes_its_byte() {
    for high in 0..16u8 {
        for low in 0..16u8 {
            assert_eq!(
                step(State::ExpectLowNibble(high), Symbol::Nibble(low)),
                Ok(Step::Emit(high * 16 + low))
            );
        }
    }
}

#[test]
fn gap_before_a_byte_is_skipped() {
    assert_eq!(
        step(State::ExpectHighNibble, Symbol::Gap),
        Ok(Step::Continue(State::ExpectHighNibble))
    );
}

#[test]
fn gap_inside_a_byte_fails() {
    assert_eq!(step(State::ExpectLowNibble(3), Symbol::Gap), Err(HexError::WhitespaceMidByte));
}

#[test]
fn quote_stops_in_either_state() {
    assert_eq!(step(State::ExpectHighNibble, Symbol::Quote), Ok(Step::Stop));
    assert_eq!(step(State::ExpectLowNibble(3), Symbol::Quote), Ok(Step::Stop));
}

#[test]
fn invalid_character_fails_in_either_state() {
    assert_eq!(
        step(State::ExpectHighNibble, Symbol::Invalid('g')),
        Err(HexError::InvalidCharacter('g'))
    );
    assert_eq!(
        step(State::ExpectLowNibble(3), Symbol::Invalid('z')),
        Err(HexError::InvalidCharacter('z'))
    );
}

#[test]
fn conclude_accepts_a_closed_literal_of_whole_bytes() {
    assert_eq!(conclude(State::ExpectHighNibble, true, None), Ok(()));
}

#[test]
fn conclude_reports_a_half_read_byte() {
    assert_eq!(conclude(State::ExpectLowNibble(0), true, None), Err(HexError::IncompleteByte));
}

#[test]
fn conclude_reports_a_missing_quote_before_a_half_read_byte() {
    assert_eq!(conclude(State::ExpectHighNibble, false, None), Err(HexError::UnterminatedLiteral));
    assert_eq!(
        conclude(State::ExpectLowNibble(0), false, None),
        Err(HexError::UnterminatedLiteral)
    );
}

#[test]
fn conclude_reports_a_trailing_character_first() {
    assert_eq!(
        conclude(State::ExpectHighNibble, true, Some('x')),
        Err(HexError::TrailingCharacters('x'))
    );
    assert_eq!(
        conclude(State::ExpectLowNibble(0), true, Some('x')),
        Err(HexError::TrailingCharacters('x'))
    );
    assert_eq!(
        conclude(State::ExpectLowNibble(0), false, Some('"')),
        Err(HexError::TrailingCharacters('"'))
    );
}
