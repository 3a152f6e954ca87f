//! The tag block of NMEA 4.10: a line of metadata in front of a sentence,
//! between two backslashes, such as
//! `\g:1-2-73874,n:157036,s:r003669945,c:1241544035*4A\`.

use vstd::prelude::*;
use vstd::string::*;
use vstd::utf8::encode_utf8;
use crate::checksum::xor_of;
use crate::error::{ParseError, ParseErrorView};
use crate::text::{
    find_char, hex, hex_text, number_of, parse_number, parse_u32, parse_u64, parts_of,
    ranges_within, rfind_char, split, split_ranges, text_of, to_chars, u32_of, u64_of,
};

verus! {

/// The place of a sentence in a group of sentences (field `g`).
#[derive(Clone, Copy, Debug, PartialEq)]
pub struct SentenceGrouping {
    /// Number of the sentence within its group.
    pub sentence_number: u32,
    /// Number of sentences in the group.
    pub total_sentences: u32,
    /// Identifier of the group.
    pub group_id: u32,
}

/// What a tag block says. A field that the block does not hold is `None`.
#[derive(Clone, Debug, PartialEq)]
pub struct TagBlock {
    /// UNIX time in seconds or milliseconds (field `c`).
    pub timestamp: Option<u64>,
    /// Destination identifier, 15 characters at most (field `d`).
    pub destination: Option<String>,
    /// Sentence grouping (field `g`).
    pub grouping: Option<SentenceGrouping>,
    /// Line count (field `n`).
    pub line_count: Option<u32>,
    /// Relative time (field `r`).
    pub relative_time: Option<u32>,
    /// Source or station identifier (field `s`).
    pub source: Option<String>,
    /// Free text, 15 characters at most (field `t` or `i`).
    pub text: Option<String>,
}

/// A `TagBlock` with its texts as sequences of characters.
pub struct TagBlockView {
    pub timestamp: Option<u64>,
    pub destination: Option<Seq<char>>,
    pub grouping: Option<SentenceGrouping>,
    pub line_count: Option<u32>,
    pub relative_time: Option<u32>,
    pub source: Option<Seq<char>>,
    pub text: Option<Seq<char>>,
}

impl View for TagBlock {
    type V = TagBlockView;

    open spec fn view(&self) -> TagBlockView {
        TagBlockView {
            timestamp: self.timestamp,
            destination: text_of(self.destination),
            grouping: self.grouping,
            line_count: self.line_count,
            relative_time: self.relative_time,
            source: text_of(self.source),
            text: text_of(self.text),
        }
    }
}

/// The tag block without any field.
pub open spec fn empty_tag_block() -> TagBlockView {
    TagBlockView {
        timestamp: None,
        destination: None,
        grouping: None,
        line_count: None,
        relative_time: None,
        source: None,
        text: None,
    }
}

/// The longest destination or free text that a tag block takes.
pub const MAX_TEXT_LEN: usize = 15;

/// What the value of a field `g` says. A value that is not three parts
/// between hyphens says nothing; one of three parts is an error unless each
/// part is an unsigned number of 32 bits.
pub open spec fn grouping_of(value: Seq<char>) -> Result<Option<SentenceGrouping>, ParseErrorView> {
    let parts = split(value, '-');
    if parts.len() != 3 {
        Ok(None)
    } else {
        match (u32_of(parts[0]), u32_of(parts[1]), u32_of(parts[2])) {
            (None, _, _) => Err(
                ParseErrorView::InvalidSentence("Invalid sentence number in grouping"@),
            ),
            (_, None, _) => Err(
                ParseErrorView::InvalidSentence("Invalid total sentences in grouping"@),
            ),
            (_, _, None) => Err(ParseErrorView::InvalidSentence("Invalid group ID in grouping"@)),
            (Some(sentence_number), Some(total_sentences), Some(group_id)) => Ok(
                Some(SentenceGrouping { sentence_number, total_sentences, group_id }),
            ),
        }
    }
}

/// The tag block `tag` after the field `field`, a key and a value with a
/// colon between them. A field without a colon, or with a key that is not
/// one of `c`, `d`, `g`, `n`, `r`, `s`, `t`, `i`, changes nothing, and neither
/// does a destination or a free text of more than 15 characters. A timestamp,
/// line count or relative time that is no number leaves that field absent.
pub open spec fn with_field(tag: TagBlockView, field: Seq<char>) -> Result<
    TagBlockView,
    ParseErrorView,
> {
    match field.index_of_first(':') {
        None => Ok(tag),
        Some(colon) => {
            let value = field.skip(colon + 1);
            if colon != 1 {
                Ok(tag)
            } else if field[0] == 'c' {
                Ok(TagBlockView { timestamp: u64_of(value), ..tag })
            } else if field[0] == 'd' {
                if value.len() <= MAX_TEXT_LEN {
                    Ok(TagBlockView { destination: Some(value), ..tag })
                } else {
                    Ok(tag)
                }
            } else if field[0] == 'g' {
                match grouping_of(value) {
                    Ok(grouping) => Ok(TagBlockView { grouping, ..tag }),
                    Err(e) => Err(e),
                }
            } else if field[0] == 'n' {
                Ok(TagBlockView { line_count: u32_of(value), ..tag })
            } else if field[0] == 'r' {
                Ok(TagBlockView { relative_time: u32_of(value), ..tag })
            } else if field[0] == 's' {
                Ok(TagBlockView { source: Some(value), ..tag })
            } else if field[0] == 't' || field[0] == 'i' {
                if value.len() <= MAX_TEXT_LEN {
                    Ok(TagBlockView { text: Some(value), ..tag })
                } else {
                    Ok(tag)
                }
            } else {
                Ok(tag)
            }
        },
    }
}

/// The tag block `tag` after each of `fields` in turn, up to the first that
/// is an error.
pub open spec fn with_fields(tag: TagBlockView, fields: Seq<Seq<char>>) -> Result<
    TagBlockView,
    ParseErrorView,
>
    decreases fields.len(),
{
    if fields.len() == 0 {
        Ok(tag)
    } else {
        match with_field(tag, fields.first()) {
            Ok(next) => with_fields(next, fields.drop_first()),
            Err(e) => Err(e),
        }
    }
}

/// The message of the error for a tag block whose fields have the checksum
/// `calculated` where its own checksum says `expected`.
pub open spec fn mismatch_message(calculated: u8, expected: u8) -> Seq<char> {
    "Tag block checksum mismatch: calculated "@ + hex_text(calculated) + ", expected "@ + hex_text(
        expected,
    )
}

/// The fields of a tag block, once its ends and its checksum have been
/// found in order. `raw` is the block with the backslashes at its ends.
///
/// Between the backslashes stand the fields, then the last `*` and behind it
/// the checksum: a hexadecimal number of two characters or more, which is to
/// be the exclusive or of the bytes of the fields.
pub open spec fn checked_fields(raw: Seq<char>) -> Result<Seq<char>, ParseErrorView> {
    if raw.len() < 2 || raw.first() != '\\' || raw.last() != '\\' {
        Err(ParseErrorView::InvalidSentence("Tag block must start and end with backslashes"@))
    } else {
        let content = raw.subrange(1, raw.len() - 1);
        match content.index_of_last('*') {
            None => Err(ParseErrorView::InvalidSentence("Missing checksum in tag block"@)),
            Some(star) => {
                let fields = content.take(star);
                let sum = content.skip(star + 1);
                let calculated = xor_of(encode_utf8(fields));
                if sum.len() < 2 {
                    Err(ParseErrorView::InvalidSentence("Invalid checksum in tag block"@))
                } else {
                    match number_of(sum, 16, 255) {
                        None => Err(
                            ParseErrorView::InvalidSentence(
                                "Invalid checksum format in tag block"@,
                            ),
                        ),
                        Some(expected) => if calculated != expected {
                            Err(
                                ParseErrorView::CorruptedSentence(
                                    mismatch_message(calculated, expected as u8),
                                ),
                            )
                        } else {
                            Ok(fields)
                        },
                    }
                }
            },
        }
    }
}

/// What a tag block says, the backslashes at its ends included in `raw`: what
/// its fields say, taken in their order; the fields are separated by commas.
pub open spec fn parsed(raw: Seq<char>) -> Result<TagBlockView, ParseErrorView> {
    match checked_fields(raw) {
        Ok(fields) => with_fields(empty_tag_block(), split(fields, ',')),
        Err(e) => Err(e),
    }
}

impl TagBlock {
    /// A tag block without any field.
    pub fn new() -> (tag: TagBlock)
        ensures
            tag@ == empty_tag_block(),
    {
        TagBlock {
            timestamp: None,
            destination: None,
            grouping: None,
            line_count: None,
            relative_time: None,
            source: None,
            text: None,
        }
    }

    /// Reads a tag block, given with the backslashes at its two ends.
    pub fn parse(tag_block_str: &str) -> (result: Result<TagBlock, ParseError>)
        ensures
            match result {
                Ok(tag) => parsed(tag_block_str@) == Ok::<TagBlockView, ParseErrorView>(tag@),
                Err(e) => parsed(tag_block_str@) == Err::<TagBlockView, ParseErrorView>(e@),
            },
    {
        let chars = to_chars(tag_block_str);
        let end = match Self::check(tag_block_str, &chars) {
            Ok(end) => end,
            Err(e) => {
                return Err(e);
            },
        };
        let ranges = split_ranges(&chars, 1, end, ',');
        let ghost fields = split(chars@.subrange(1, end as int), ',');
        let mut tag = TagBlock::new();
        let mut k: usize = 0;
        assert(fields.skip(0) =~= fields);
        while k < ranges.len()
            invariant
                k <= ranges.len(),
                chars@ == tag_block_str@,
                end <= chars.len(),
                ranges_within(ranges@, 1, end as int),
                parts_of(chars@, ranges@) == fields,
                parsed(tag_block_str@) == with_fields(tag@, fields.skip(k as int)),
            decreases ranges.len() - k,
        {
            let (from, to) = ranges[k];
            proof {
                assert(fields.skip(k as int).first() == chars@.subrange(from as int, to as int));
                assert(fields.skip(k as int).drop_first() =~= fields.skip(k + 1));
            }
            match Self::add_field(&mut tag, tag_block_str, &chars, from, to) {
                Ok(()) => {},
                Err(e) => {
                    return Err(e);
                },
            }
            k += 1;
        }
        Ok(tag)
    }

    /// Finds the ends of the block and holds its checksum against its
    /// fields, which are `chars[1..end]`.
    fn check(raw: &str, chars: &Vec<char>) -> (result: Result<usize, ParseError>)
        requires
            chars@ == raw@,
        ensures
            match result {
                Ok(end) => 1 <= end <= chars.len() && checked_fields(raw@) == Ok::<
                    Seq<char>,
                    ParseErrorView,
                >(chars@.subrange(1, end as int)),
                Err(e) => checked_fields(raw@) == Err::<Seq<char>, ParseErrorView>(e@),
            },
    {
        let n = chars.len();
        if n < 2 || chars[0] != '\\' || chars[n - 1] != '\\' {
            return Err(
                ParseError::InvalidSentence(
                    String::from_str("Tag block must start and end with backslashes"),
                ),
            );
        }
        let ghost content = chars@.subrange(1, n - 1);
        let star = match rfind_char(chars, 1, n - 1, '*') {
            Some(star) => star,
            None => {
                return Err(
                    ParseError::InvalidSentence(String::from_str("Missing checksum in tag block")),
                );
            },
        };
        proof {
            content.index_of_last_ensures('*');
            assert(content.take(star - 1) =~= chars@.subrange(1, star as int));
            assert(content.skip(star - 1 + 1) =~= chars@.subrange(star + 1, n - 1));
        }
        if n - 1 - (star + 1) < 2 {
            return Err(
                ParseError::InvalidSentence(String::from_str("Invalid checksum in tag block")),
            );
        }
        let expected = match parse_number(chars, star + 1, n - 1, 16, 255) {
            Some(expected) => expected as u8,
            None => {
                return Err(
                    ParseError::InvalidSentence(
                        String::from_str("Invalid checksum format in tag block"),
                    ),
                );
            },
        };
        let calculated = Self::calculate_checksum(raw.substring_char(1, star));
        if calculated != expected {
            let message = String::from_str("Tag block checksum mismatch: calculated ").concat(
                hex(calculated).as_str(),
            ).concat(", expected ").concat(hex(expected).as_str());
            assert(message@ =~= mismatch_message(calculated, expected));
            return Err(ParseError::CorruptedSentence(message));
        }
        Ok(star)
    }

    /// Takes the field `chars[from..to]` into `tag`.
    fn add_field(tag: &mut TagBlock, raw: &str, chars: &Vec<char>, from: usize, to: usize) -> (result:
        Result<(), ParseError>)
        requires
            chars@ == raw@,
            from <= to <= chars.len(),
        ensures
            match result {
                Ok(()) => with_field(old(tag)@, chars@.subrange(from as int, to as int)) == Ok::<
                    TagBlockView,
                    ParseErrorView,
                >(final(tag)@),
                Err(e) => with_field(old(tag)@, chars@.subrange(from as int, to as int)) == Err::<
                    TagBlockView,
                    ParseErrorView,
                >(e@),
            },
    {
        let ghost field = chars@.subrange(from as int, to as int);
        let colon = match find_char(chars, from, to, ':') {
            Some(colon) => colon,
            None => {
                return Ok(());
            },
        };
        proof {
            field.index_of_first_ensures(':');
            assert(field.skip(colon - from + 1) =~= chars@.subrange(colon + 1, to as int));
        }
        if colon - from != 1 {
            return Ok(());
        }
        let key = chars[from];
        let start = colon + 1;
        if key == 'c' {
            tag.timestamp = parse_u64(chars, start, to);
        } else if key == 'd' {
            if to - start <= MAX_TEXT_LEN {
                tag.destination = Some(String::from_str(raw.substring_char(start, to)));
            }
        } else if key == 'g' {
            match Self::grouping_in(chars, start, to) {
                Ok(grouping) => {
                    tag.grouping = grouping;
                },
                Err(e) => {
                    return Err(e);
                },
            }
        } else if key == 'n' {
            tag.line_count = parse_u32(chars, start, to);
        } else if key == 'r' {
            tag.relative_time = parse_u32(chars, start, to);
        } else if key == 's' {
            tag.source = Some(String::from_str(raw.substring_char(start, to)));
        } else if key == 't' || key == 'i' {
            if to - start <= MAX_TEXT_LEN {
                tag.text = Some(String::from_str(raw.substring_char(start, to)));
            }
        }
        Ok(())
    }

    /// Reads `chars[from..to]` as the value of a field `g`.
    fn grouping_in(chars: &Vec<char>, from: usize, to: usize) -> (result: Result<
        Option<SentenceGrouping>,
        ParseError,
    >)
        requires
            from <= to <= chars.len(),
        ensures
            match result {
                Ok(grouping) => grouping_of(chars@.subrange(from as int, to as int)) == Ok::<
                    Option<SentenceGrouping>,
                    ParseErrorView,
                >(grouping),
                Err(e) => grouping_of(chars@.subrange(from as int, to as int)) == Err::<
                    Option<SentenceGrouping>,
                    ParseErrorView,
                >(e@),
            },
    {
        let ranges = split_ranges(chars, from, to, '-');
        if ranges.len() != 3 {
            return Ok(None);
        }
        let ghost parts = split(chars@.subrange(from as int, to as int), '-');
        proof {
            assert(parts[0] == chars@.subrange(ranges[0].0 as int, ranges[0].1 as int));
            assert(parts[1] == chars@.subrange(ranges[1].0 as int, ranges[1].1 as int));
            assert(parts[2] == chars@.subrange(ranges[2].0 as int, ranges[2].1 as int));
        }
        let sentence_number = match parse_u32(chars, ranges[0].0, ranges[0].1) {
            Some(n) => n,
            None => {
                return Err(
                    ParseError::InvalidSentence(
                        String::from_str("Invalid sentence number in grouping"),
                    ),
                );
            },
        };
        let total_sentences = match parse_u32(chars, ranges[1].0, ranges[1].1) {
            Some(n) => n,
            None => {
                return Err(
                    ParseError::InvalidSentence(
                        String::from_str("Invalid total sentences in grouping"),
                    ),
                );
            },
        };
        let group_id = match parse_u32(chars, ranges[2].0, ranges[2].1) {
            Some(n) => n,
            None => {
                return Err(
                    ParseError::InvalidSentence(String::from_str("Invalid group ID in grouping")),
                );
            },
        };
        Ok(Some(SentenceGrouping { sentence_number, total_sentences, group_id }))
    }

    /// Reads the value of a field `g`, such as `1-2-73874`.
    pub fn parse_grouping(value: &str) -> (result: Result<Option<SentenceGrouping>, ParseError>)
        ensures
            match result {
                Ok(grouping) => grouping_of(value@) == Ok::<
                    Option<SentenceGrouping>,
                    ParseErrorView,
                >(grouping),
                Err(e) => grouping_of(value@) == Err::<Option<SentenceGrouping>, ParseErrorView>(
                    e@,
                ),
            },
    {
        let chars = to_chars(value);
        assert(chars@.subrange(0, chars.len() as int) =~= value@);
        Self::grouping_in(&chars, 0, chars.len())
    }

    /// The checksum of the fields of a tag block: the exclusive or of the
    /// bytes of `data`.
    pub fn calculate_checksum(data: &str) -> (checksum: u8)
        ensures
            checksum == xor_of(encode_utf8(data@)),
    {
        let bytes = data.as_bytes();
        let mut checksum: u8 = 0;
        let mut i: usize = 0;
        while i < bytes.len()
            invariant
                i <= bytes.len(),
                bytes@ == encode_utf8(data@),
                checksum == xor_of(bytes@.take(i as int)),
            decreases bytes.len() - i,
        {
            proof {
                assert(bytes@.take(i + 1).drop_last() =~= bytes@.take(i as int));
            }
            checksum = checksum ^ bytes[i];
            i += 1;
        }
        assert(bytes@.take(i as int) =~= bytes@);
        checksum
    }
}

impl Default for TagBlock {
    fn default() -> (tag: TagBlock)
        ensures
            tag@ == empty_tag_block(),
    {
        TagBlock::new()
    }
}

} // verus!
