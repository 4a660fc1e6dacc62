//! The count as its file mirrors it: a decimal numeral and nothing else.

use crate::decimal::{
    decimal, is_digit, lemma_decimal_round_trip, lemma_decimal_value, parse_unsigned,
    unsigned_value,
};
use vstd::prelude::*;

verus! {

/// Whether every byte of `bytes` is an ASCII character.
pub open spec fn is_ascii_bytes(bytes: Seq<u8>) -> bool {
    forall|i: int| 0 <= i < bytes.len() ==> #[trigger] bytes[i] < 128
}

/// The text that ASCII bytes spell.
pub open spec fn ascii_text(bytes: Seq<u8>) -> Seq<char> {
    bytes.map_values(|b: u8| b as char)
}

/// The bytes that spell an ASCII text.
pub open spec fn ascii_bytes(text: Seq<char>) -> Seq<u8> {
    text.map_values(|c: char| c as u8)
}

/// The count that the contents of a counter file stand for: the contents are
/// an unsigned numeral that fits the count's type, with nothing before or
/// behind it. Contents that are not, a trailing line feed included, stand for
/// no count.
pub open spec fn stored_count(contents: Seq<u8>) -> Option<usize> {
    if is_ascii_bytes(contents) {
        match unsigned_value(ascii_text(contents), usize::MAX as nat) {
            Some(v) => Some(v as usize),
            None => None,
        }
    } else {
        None
    }
}

/// Reads the count from the contents of the counter file.
pub fn read_number(contents: &[u8]) -> (count: Option<usize>)
    ensures
        count == stored_count(contents@),
{
    let mut chars: Vec<char> = Vec::new();
    let mut i: usize = 0;
    while i < contents.len()
        invariant
            i <= contents@.len(),
            is_ascii_bytes(contents@.take(i as int)),
            chars@ == ascii_text(contents@.take(i as int)),
        decreases contents@.len() - i,
    {
        let b = contents[i];
        if b >= 128 {
            return None;
        }
        chars.push(b as char);
        proof {
            assert(chars@ =~= ascii_text(contents@.take(i as int + 1)));
        }
        i = i + 1;
    }
    proof {
        assert(contents@.take(i as int) =~= contents@);
    }
    match parse_unsigned(chars.as_slice(), usize::MAX as u64) {
        Some(v) => Some(v as usize),
        None => None,
    }
}

/// The numeral of a count, written to the file as it is, reads back as that
/// count.
pub proof fn lemma_count_survives_storage(count: usize)
    ensures
        stored_count(ascii_bytes(decimal(count as nat))) == Some(count),
{
    let text = decimal(count as nat);
    let bytes = ascii_bytes(text);
    lemma_decimal_value(count as nat);
    lemma_decimal_round_trip(count as nat, usize::MAX as nat);
    assert forall|i: int| 0 <= i < bytes.len() implies #[trigger] bytes[i] < 128 by {
        assert(is_digit(text[i]));
    }
    assert(ascii_text(bytes) =~= text) by {
        assert forall|i: int| 0 <= i < text.len() implies ascii_text(bytes)[i] == text[i] by {
            assert(is_digit(text[i]));
        }
    }
}

} // verus!
