//! The one-byte checksum of NMEA sentences: the exclusive or of their bytes.

use vstd::prelude::*;
use vstd::string::*;
use crate::error::{ParseError, ParseErrorView};
use crate::text::{digit_of, hex, hex_text, to_chars};

verus! {

/// The exclusive or of all of `bytes`; zero for none.
pub open spec fn xor_of(bytes: Seq<u8>) -> u8
    decreases bytes.len(),
{
    if bytes.len() == 0 {
        0
    } else {
        xor_of(bytes.drop_last()) ^ bytes.last()
    }
}

/// The byte that a character counts as in a sentence's checksum: the low
/// eight bits of its code, which for an ASCII character is the code itself.
pub open spec fn low_byte(c: char) -> u8 {
    (c as u32 & 0xff) as u8
}

/// The checksum bytes of a text, one for each character.
pub open spec fn low_bytes(text: Seq<char>) -> Seq<u8> {
    Seq::new(text.len(), |i: int| low_byte(text[i]))
}

/// The checksum of a text.
pub open spec fn checksum_of(text: Seq<char>) -> u8 {
    xor_of(low_bytes(text))
}

/// `expected` is two hexadecimal digits, in either case, that write `sum`.
pub open spec fn hex_matches(expected: Seq<char>, sum: u8) -> bool {
    &&& expected.len() == 2
    &&& digit_of(expected[0]) < 16
    &&& digit_of(expected[1]) < 16
    &&& digit_of(expected[0]) * 16 + digit_of(expected[1]) == sum
}

/// A text as `{:?}` formats it: between double quotes, with the characters
/// that cannot stand there as they are written as escapes.
pub uninterp spec fn debug_text(text: Seq<char>) -> Seq<char>;

/// The message of the error for a checksum `sum` where `expected` was given.
pub open spec fn corrupted_message(sum: u8, expected: Seq<char>) -> Seq<char> {
    "Corrupted NMEA sentence: \""@ + hex_text(sum) + "\" != "@ + debug_text(expected)
}

/// What `validate` returns for a text and the checksum given with it.
pub open spec fn validated(text: Seq<char>, expected: Seq<char>) -> Result<(), ParseErrorView> {
    if expected.len() == 0 || hex_matches(expected, checksum_of(text)) {
        Ok(())
    } else {
        Err(ParseErrorView::CorruptedSentence(corrupted_message(checksum_of(text), expected)))
    }
}

/// Two hexadecimal digits match a byte exactly when they are the digits of
/// that byte.
pub proof fn lemma_hex_matches_itself(written: u8, sum: u8)
    ensures
        hex_matches(hex_text(written), sum) <==> written == sum,
{
}

/// The checksum of a text, written in hexadecimal digits, passes for that
/// text.
pub proof fn lemma_checksum_round_trip(text: Seq<char>)
    ensures
        validated(text, hex_text(checksum_of(text))) == Ok::<(), ParseErrorView>(()),
{
    lemma_hex_matches_itself(checksum_of(text), checksum_of(text));
}

/// Where one byte of a sequence changes by the mask `mask`, so does the
/// exclusive or of the sequence.
pub proof fn lemma_xor_of_changed_byte(bytes: Seq<u8>, other: Seq<u8>, at: int, mask: u8)
    requires
        bytes.len() == other.len(),
        0 <= at < bytes.len(),
        forall|i: int| 0 <= i < bytes.len() && i != at ==> other[i] == bytes[i],
        other[at] == bytes[at] ^ mask,
    ensures
        xor_of(other) == xor_of(bytes) ^ mask,
    decreases bytes.len(),
{
    let (rest, last) = (xor_of(bytes.drop_last()), bytes.last());
    if at == bytes.len() - 1 {
        assert(other.drop_last() =~= bytes.drop_last());
        assert(rest ^ (last ^ mask) == (rest ^ last) ^ mask) by (bit_vector);
    } else {
        lemma_xor_of_changed_byte(bytes.drop_last(), other.drop_last(), at, mask);
        assert((rest ^ mask) ^ last == (rest ^ last) ^ mask) by (bit_vector);
    }
}

/// A text in which one bit of one character's byte was flipped no longer
/// passes against the checksum of the text as it was: that is a corrupted
/// sentence. For an ASCII character the byte is the character itself.
pub proof fn lemma_checksum_detects_flipped_bit(
    text: Seq<char>,
    other: Seq<char>,
    at: int,
    bit: u8,
)
    requires
        text.len() == other.len(),
        0 <= at < text.len(),
        forall|i: int| 0 <= i < text.len() && i != at ==> other[i] == text[i],
        bit < 8,
        low_byte(other[at]) == low_byte(text[at]) ^ (1u8 << bit),
    ensures
        validated(other, hex_text(checksum_of(text))) == Err::<(), ParseErrorView>(
            ParseErrorView::CorruptedSentence(
                corrupted_message(checksum_of(other), hex_text(checksum_of(text))),
            ),
        ),
{
    let mask = 1u8 << bit;
    lemma_xor_of_changed_byte(low_bytes(text), low_bytes(other), at, mask);
    let sum = checksum_of(text);
    assert(sum ^ mask != sum) by (bit_vector)
        requires
            mask == 1u8 << bit,
            bit < 8,
    ;
    lemma_hex_matches_itself(sum, checksum_of(other));
}

/// `format!` with `{:?}` on a string slice: the text that `Debug` writes for it.
#[verifier::external_body]
fn debug_string(text: &str) -> (quoted: String)
    ensures
        quoted@ == debug_text(text@),
{
    format!("{:?}", text)
}

/// The checksum of `chars[from..to]`.
pub fn checksum_range(chars: &Vec<char>, from: usize, to: usize) -> (sum: u8)
    requires
        from <= to <= chars.len(),
    ensures
        sum == checksum_of(chars@.subrange(from as int, to as int)),
{
    let ghost text = chars@.subrange(from as int, to as int);
    let mut sum: u8 = 0;
    let mut i: usize = from;
    while i < to
        invariant
            from <= i <= to <= chars.len(),
            text == chars@.subrange(from as int, to as int),
            sum == xor_of(low_bytes(text).take(i - from)),
        decreases to - i,
    {
        let byte = (chars[i] as u32 & 0xff) as u8;
        proof {
            let longer = low_bytes(text).take(i - from + 1);
            assert(longer.drop_last() =~= low_bytes(text).take(i - from));
            assert(longer.last() == byte);
        }
        sum = sum ^ byte;
        i += 1;
    }
    assert(low_bytes(text).take(i - from) =~= low_bytes(text));
    sum
}

/// The checksum of `text`: the exclusive or of the byte values of its
/// characters.
pub fn checksum(text: &str) -> (sum: u8)
    ensures
        sum == checksum_of(text@),
{
    let chars = to_chars(text);
    let sum = checksum_range(&chars, 0, chars.len());
    assert(chars@.subrange(0, chars.len() as int) =~= text@);
    sum
}

/// Whether `expected`, two characters, writes `sum` in hexadecimal digits.
pub fn matches_hex(expected: &Vec<char>, sum: u8) -> (same: bool)
    ensures
        same == hex_matches(expected@, sum),
{
    if expected.len() != 2 {
        return false;
    }
    let high = crate::text::digit_value(expected[0]);
    let low = crate::text::digit_value(expected[1]);
    high < 16 && low < 16 && high * 16 + low == sum as u64
}

/// Holds the checksum of `text` against `expected_hex`, the two hexadecimal
/// digits that came with it. An empty `expected_hex` stands for a sentence
/// without a checksum, which passes unchecked.
pub fn validate(text: &str, expected_hex: &str) -> (result: Result<(), ParseError>)
    ensures
        match result {
            Ok(()) => validated(text@, expected_hex@) is Ok,
            Err(e) => validated(text@, expected_hex@) == Err::<(), ParseErrorView>(e@),
        },
{
    let expected = to_chars(expected_hex);
    let sum = checksum(text);
    if expected.len() == 0 || matches_hex(&expected, sum) {
        Ok(())
    } else {
        Err(ParseError::CorruptedSentence(corrupted(sum, expected_hex)))
    }
}

/// The message of the error for a checksum `sum` where `expected` was given.
pub fn corrupted(sum: u8, expected: &str) -> (message: String)
    ensures
        message@ == corrupted_message(sum, expected@),
{
    let message = String::from_str("Corrupted NMEA sentence: \"").concat(hex(sum).as_str()).concat(
        "\" != ",
    ).concat(debug_string(expected).as_str());
    assert(message@ =~= corrupted_message(sum, expected@));
    message
}

} // verus!
