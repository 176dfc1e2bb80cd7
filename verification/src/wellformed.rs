//! Which literals decode, and to which bytes.

use crate::decode::{decode_spec, scan_spec, step_spec, symbol_spec, State, Step};
use crate::digit::{hex_value, unicode_white_space};
use vstd::prelude::*;

verus! {

/// The text of the string literal whose content is `content`.
pub open spec fn quoted(content: Seq<char>) -> Seq<char> {
    seq!['"'] + content + seq!['"']
}

/// What stands between the quotes of a literal's text.
pub open spec fn interior(text: Seq<char>) -> Seq<char>
    recommends
        text.len() >= 2,
{
    text.subrange(1, text.len() - 1)
}

/// The values of the hex digits among the characters, in their order;
/// every other character is passed over.
pub open spec fn nibbles(chars: Seq<char>) -> Seq<u8>
    decreases chars.len(),
{
    if chars.len() == 0 {
        Seq::empty()
    } else {
        match hex_value(chars[0]) {
            Some(v) => seq![v] + nibbles(chars.drop_first()),
            None => nibbles(chars.drop_first()),
        }
    }
}

/// The bytes cut into nibbles, the high nibble of each byte first.
pub open spec fn nibbles_of(bytes: Seq<u8>) -> Seq<u8>
    decreases bytes.len(),
{
    if bytes.len() == 0 {
        Seq::empty()
    } else {
        seq![bytes[0] / 16, bytes[0] % 16] + nibbles_of(bytes.drop_first())
    }
}

/// The high nibble that a state holds, as a sequence of one or none.
pub open spec fn held(state: State) -> Seq<u8> {
    match state {
        State::ExpectHighNibble => Seq::empty(),
        State::ExpectLowNibble(high) => seq![high],
    }
}

/// Whether a character may stand between the quotes of a literal: a hex
/// digit or whitespace, and not the quote.
pub open spec fn hex_or_gap(c: char) -> bool {
    c != '"' && (hex_value(c) is Some || unicode_white_space(c))
}

/// Whether `content` can be scanned to its end from `state`: it holds hex
/// digits and whitespace only, no whitespace where a byte is half read, and
/// no byte is half read at its end.
pub open spec fn well_formed_from(content: Seq<char>, state: State) -> bool {
    &&& forall|i: int| 0 <= i < content.len() ==> hex_or_gap(#[trigger] content[i])
    &&& forall|i: int|
        0 <= i < content.len() && hex_value(content[i]) is None ==> (held(state).len()
            + #[trigger] nibbles(content.take(i)).len()) % 2 == 0
    &&& (held(state).len() + nibbles(content).len()) % 2 == 0
}

/// Whether `content` is the content of a literal that decodes: it holds hex
/// digits and whitespace only, whitespace only before, between and after
/// pairs of hex digits, and an even number of hex digits.
pub open spec fn well_formed(content: Seq<char>) -> bool {
    well_formed_from(content, State::ExpectHighNibble)
}

/// Bytes have two nibbles each.
pub proof fn lemma_nibbles_of_len(bytes: Seq<u8>)
    ensures
        nibbles_of(bytes).len() == 2 * bytes.len(),
    decreases bytes.len(),
{
    if bytes.len() > 0 {
        lemma_nibbles_of_len(bytes.drop_first());
    }
}

/// The hex digits of a text that begins with `c` are those of `c`, if it
/// is one, and those of what follows.
proof fn lemma_nibbles_after_first(content: Seq<char>, i: int)
    requires
        0 < i <= content.len(),
    ensures
        nibbles(content.take(i)) == match hex_value(content[0]) {
            Some(v) => seq![v] + nibbles(content.drop_first().take(i - 1)),
            None => nibbles(content.drop_first().take(i - 1)),
        },
{
    assert(content.take(i).drop_first() =~= content.drop_first().take(i - 1));
}

/// What is left of a well-formed content after its first character is
/// well-formed from the state that the character leads to.
proof fn lemma_well_formed_later(content: Seq<char>, state: State, next: State)
    requires
        content.len() > 0,
        well_formed_from(content, state),
        held(next).len() == (held(state).len() + nibbles(content.take(1)).len()) % 2,
    ensures
        well_formed_from(content.drop_first(), next),
{
    let later = content.drop_first();
    lemma_nibbles_after_first(content, 1);
    assert forall|i: int| 0 <= i < later.len() implies hex_or_gap(#[trigger] later[i]) by {
        assert(later[i] == content[i + 1]);
    }
    assert forall|i: int| 0 <= i < later.len() && hex_value(later[i]) is None implies (held(
        next,
    ).len() + #[trigger] nibbles(later.take(i)).len()) % 2 == 0 by {
        lemma_nibbles_after_first(content, i + 1);
        assert((held(state).len() + nibbles(content.take(i + 1)).len()) % 2 == 0);
    }
    lemma_nibbles_after_first(content, content.len() as int);
}

/// A content is well-formed from a state if its first character is a hex
/// digit, or whitespace where no byte is half read, and what follows is
/// well-formed from the state that the character leads to.
proof fn lemma_well_formed_sooner(content: Seq<char>, state: State, next: State)
    requires
        content.len() > 0,
        hex_or_gap(content[0]),
        hex_value(content[0]) is None ==> state is ExpectHighNibble,
        held(next).len() == (held(state).len() + nibbles(content.take(1)).len()) % 2,
        well_formed_from(content.drop_first(), next),
    ensures
        well_formed_from(content, state),
{
    let later = content.drop_first();
    lemma_nibbles_after_first(content, 1);
    assert forall|i: int| 0 <= i < content.len() implies hex_or_gap(#[trigger] content[i]) by {
        if i > 0 {
            assert(content[i] == later[i - 1]);
        }
    }
    assert forall|i: int| 0 <= i < content.len() && hex_value(content[i]) is None implies (held(
        state,
    ).len() + #[trigger] nibbles(content.take(i)).len()) % 2 == 0 by {
        if i > 0 {
            lemma_nibbles_after_first(content, i);
        }
    }
    lemma_nibbles_after_first(content, content.len() as int);
}

/// A content that is well-formed from a state, followed by the closing
/// quote, is scanned from that state without failure.
proof fn lemma_well_formed_scans(content: Seq<char>, state: State)
    requires
        state.wf(),
        well_formed_from(content, state),
    ensures
        scan_spec(content + seq!['"'], state) is Ok,
    decreases content.len(),
{
    let rest = content + seq!['"'];
    if content.len() > 0 {
        let c = content[0];
        let later = content.drop_first();
        assert(rest.drop_first() =~= later + seq!['"']);
        lemma_nibbles_after_first(content, 1);
        if hex_value(c) is None {
            assert((held(state).len() + nibbles(content.take(0)).len()) % 2 == 0);
        }
        match step_spec(state, symbol_spec(c, unicode_white_space(c))) {
            Ok(Step::Continue(next)) => {
                lemma_well_formed_later(content, state, next);
                lemma_well_formed_scans(later, next);
            },
            Ok(Step::Emit(_)) => {
                lemma_well_formed_later(content, state, State::ExpectHighNibble);
                lemma_well_formed_scans(later, State::ExpectHighNibble);
            },
            _ => {},
        }
    }
}

/// Where a scan succeeds, the characters end with the closing quote, what
/// stands before it is well-formed from the state, and the nibble held on
/// entry followed by the hex digits before that quote are the nibbles of the
/// bytes that the scan gives.
proof fn lemma_scan_reads_nibbles(rest: Seq<char>, state: State)
    requires
        state.wf(),
        scan_spec(rest, state) is Ok,
    ensures
        rest.len() >= 1,
        rest.last() == '"',
        well_formed_from(rest.drop_last(), state),
        held(state) + nibbles(rest.drop_last()) == nibbles_of(scan_spec(rest, state)->Ok_0),
    decreases rest.len(),
{
    let content = rest.drop_last();
    let later = rest.drop_first();
    match step_spec(state, symbol_spec(rest[0], unicode_white_space(rest[0]))) {
        Err(_) => {},
        Ok(Step::Stop) => {},
        Ok(Step::Continue(next)) => {
            lemma_scan_reads_nibbles(later, next);
            assert(content.drop_first() =~= later.drop_last());
            lemma_nibbles_after_first(content, 1);
            lemma_well_formed_sooner(content, state, next);
        },
        Ok(Step::Emit(byte)) => {
            lemma_scan_reads_nibbles(later, State::ExpectHighNibble);
            let bytes = scan_spec(later, State::ExpectHighNibble)->Ok_0;
            assert(content.drop_first() =~= later.drop_last());
            assert((seq![byte] + bytes).drop_first() =~= bytes);
            assert(held(state) + nibbles(content) =~= seq![byte / 16, byte % 16] + nibbles(
                later.drop_last(),
            ));
            lemma_nibbles_after_first(content, 1);
            lemma_well_formed_sooner(content, state, State::ExpectHighNibble);
        },
    }
}

/// Where decoding succeeds, the text is a well-formed content between two
/// quotes, and the bytes are its hex digits taken two by two, in their
/// order: there are half as many bytes as hex digits, and each is a value
/// from 0 to 255.
pub proof fn lemma_decode_reads_nibbles(text: Seq<char>)
    requires
        decode_spec(text) is Ok,
    ensures
        text.len() >= 2,
        text == quoted(interior(text)),
        well_formed(interior(text)),
        nibbles(interior(text)) == nibbles_of(decode_spec(text)->Ok_0),
        nibbles(interior(text)).len() == 2 * decode_spec(text)->Ok_0.len(),
        forall|i: int|
            0 <= i < decode_spec(text)->Ok_0.len() ==> 0 <= #[trigger] decode_spec(text)->Ok_0[i]
                <= 255,
{
    let rest = text.drop_first();
    lemma_scan_reads_nibbles(rest, State::ExpectHighNibble);
    lemma_nibbles_of_len(decode_spec(text)->Ok_0);
    assert(rest.drop_last() =~= interior(text));
}

/// Every well-formed content between two quotes decodes.
pub proof fn lemma_well_formed_decodes(content: Seq<char>)
    requires
        well_formed(content),
    ensures
        decode_spec(quoted(content)) is Ok,
{
    lemma_well_formed_scans(content, State::ExpectHighNibble);
    assert(quoted(content).drop_first() =~= content + seq!['"']);
}

/// A text decodes if and only if it is a well-formed content between two
/// quotes.
pub proof fn lemma_decodes_iff_well_formed(text: Seq<char>)
    ensures
        decode_spec(text) is Ok <==> text.len() >= 2 && text == quoted(interior(text))
            && well_formed(interior(text)),
{
    if decode_spec(text) is Ok {
        lemma_decode_reads_nibbles(text);
    }
    if text.len() >= 2 && text == quoted(interior(text)) && well_formed(interior(text)) {
        lemma_well_formed_decodes(interior(text));
    }
}

} // verus!
