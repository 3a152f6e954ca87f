//! The six-bit armoring of AIS payloads: one printable character for six bits.

use vstd::prelude::*;
use vstd::string::*;
use crate::bits::{max_bits, Bits};
use crate::error::{ParseError, ParseErrorView};
use crate::text::to_chars;

verus! {

/// The six-bit value that the armor character `c` stands for: its code less
/// 48, and less a further 8 where that is more than 40. `None` where the
/// result lies outside 0 to 63.
pub open spec fn sextet_of(c: char) -> Option<int> {
    let low = c as int - 48;
    let value = if low > 40 {
        low - 8
    } else {
        low
    };
    if 0 <= value <= 63 {
        Some(value)
    } else {
        None
    }
}

/// Every character of `payload` stands for a six-bit value.
pub open spec fn is_armored(payload: Seq<char>) -> bool {
    forall|i: int| 0 <= i < payload.len() ==> sextet_of(#[trigger] payload[i]) is Some
}

/// Bit `k` of the six-bit value `value`, the most significant bit being bit 0.
pub open spec fn sextet_bit(value: int, k: int) -> bool {
    if k == 0 {
        value / 32 % 2 == 1
    } else if k == 1 {
        value / 16 % 2 == 1
    } else if k == 2 {
        value / 8 % 2 == 1
    } else if k == 3 {
        value / 4 % 2 == 1
    } else if k == 4 {
        value / 2 % 2 == 1
    } else {
        value % 2 == 1
    }
}

/// The bits that `payload` stands for: six for each character, in the order
/// of the characters, the most significant bit of each value first.
pub open spec fn armor_bits(payload: Seq<char>) -> Seq<bool> {
    Seq::new(
        6 * payload.len(),
        |i: int| sextet_bit(sextet_of(payload[i / 6]).unwrap_or(0), i % 6),
    )
}

/// The longest payload whose bits a `Bits` can hold.
pub open spec fn max_payload_len() -> int {
    max_bits() / 6
}

/// The message of the error for a character that is no armor character.
pub open spec fn bad_armor_message() -> Seq<char> {
    "Invalid character in AIS payload"@
}

/// The message of the error for a payload of more than `max_payload_len()`
/// characters.
pub open spec fn long_payload_message() -> Seq<char> {
    "AIS payload too long"@
}

/// What `decode` returns for `payload`, the bits taken by their view.
pub open spec fn decoded(payload: Seq<char>) -> Result<Seq<bool>, ParseErrorView> {
    if payload.len() > max_payload_len() {
        Err(ParseErrorView::InvalidSentence(long_payload_message()))
    } else if !is_armored(payload) {
        Err(ParseErrorView::InvalidSentence(bad_armor_message()))
    } else {
        Ok(armor_bits(payload))
    }
}

/// The bits of a payload are six times as many as its characters.
pub proof fn lemma_decoded_length(payload: Seq<char>)
    ensures
        decoded(payload) matches Ok(bits) ==> bits.len() == 6 * payload.len(),
{
}

/// A payload with a character that stands for no six-bit value is refused.
pub proof fn lemma_decoded_refuses(payload: Seq<char>, at: int)
    requires
        0 <= at < payload.len(),
        sextet_of(payload[at]) is None,
    ensures
        decoded(payload) is Err,
{
}

/// The armor characters are those with the codes 48 to 119.
pub proof fn lemma_armor_characters(c: char)
    ensures
        sextet_of(c) is Some <==> 48 <= c as int <= 119,
{
}

/// The six-bit value of the armor character `c`.
pub fn sextet(c: char) -> (value: Option<u8>)
    ensures
        value is Some == sextet_of(c) is Some,
        value matches Some(v) ==> sextet_of(c) == Some(v as int),
{
    let code: u32 = c as u32;
    if code < 48 {
        return None;
    }
    let low = code - 48;
    let value = if low > 40 {
        low - 8
    } else {
        low
    };
    if value <= 63 {
        Some(value as u8)
    } else {
        None
    }
}

/// Turns an armored payload into its bits: six for each character, none
/// trimmed at the end. A payload with a character that stands for no six-bit
/// value is refused, and so is one too long for its bits to be held.
pub fn decode(payload: &str) -> (result: Result<Bits, ParseError>)
    ensures
        match result {
            Ok(bits) => decoded(payload@) == Ok::<Seq<bool>, ParseErrorView>(bits@),
            Err(e) => decoded(payload@) == Err::<Seq<bool>, ParseErrorView>(e@),
        },
        result matches Ok(bits) ==> bits@.len() == 6 * payload@.len(),
{
    let chars = to_chars(payload);
    if chars.len() > usize::MAX / 8 / 6 {
        return Err(ParseError::InvalidSentence(String::from_str("AIS payload too long")));
    }
    let mut bits = Bits::raw_new();
    let mut i: usize = 0;
    while i < chars.len()
        invariant
            i <= chars.len() <= max_payload_len(),
            chars@ == payload@,
            is_armored(chars@.take(i as int)),
            bits@ == armor_bits(chars@.take(i as int)),
        decreases chars.len() - i,
    {
        let ghost before = chars@.take(i as int);
        let ghost after = chars@.take(i + 1);
        match sextet(chars[i]) {
            None => {
                return Err(
                    ParseError::InvalidSentence(
                        String::from_str("Invalid character in AIS payload"),
                    ),
                );
            },
            Some(v) => {
                bits.raw_push(v / 32 % 2 == 1);
                bits.raw_push(v / 16 % 2 == 1);
                bits.raw_push(v / 8 % 2 == 1);
                bits.raw_push(v / 4 % 2 == 1);
                bits.raw_push(v / 2 % 2 == 1);
                bits.raw_push(v % 2 == 1);
                proof {
                    assert(is_armored(after)) by {
                        assert forall|j: int| 0 <= j < after.len() implies sextet_of(
                            #[trigger] after[j],
                        ) is Some by {
                            if j < i {
                                assert(after[j] == before[j]);
                            }
                        }
                    }
                    assert(bits@ =~= armor_bits(after)) by {
                        assert forall|j: int| 0 <= j < 6 * (i + 1) implies bits@[j] == armor_bits(
                            after,
                        )[j] by {
                            if j < 6 * i {
                                assert(armor_bits(before)[j] == armor_bits(after)[j]) by {
                                    assert(before[j / 6] == after[j / 6]);
                                }
                            }
                        }
                    }
                }
            },
        }
        i += 1;
    }
    assert(chars@.take(i as int) =~= chars@);
    Ok(bits)
}

} // verus!
