use nmea_parser::fragments::make_fragment_key;
use nmea_parser::json_output::Augmentation;
use nmea_parser::message::NmeaMessage;
use nmea_parser::tag_block::{SentenceGrouping, TagBlock};
use nmea_parser::{NmeaParser, ParseError, ParsedMessage};

#[test]
fn test_make_fragment_key() {
    assert_eq!(make_fragment_key("!VDM", 3, 2, 1, "B"), "!VDM,2,1,3,B");
    assert_eq!(make_fragment_key("!VDO", 18446744073709551615, 2, 2, ""), "!VDO,2,2,18446744073709551615,");
    assert!(make_fragment_key("!VDM", 3, 2, 1, "B") != make_fragment_key("!VDM", 3, 2, 2, "B"));
}

#[test]
fn test_fragments_are_kept_under_their_keys() {
    let mut p = NmeaParser::new();
    p.parse_sentence("!AIVDO,2,2,9,A,1@0000000000000,2").unwrap();
    assert!(p.contains_key(make_fragment_key("!VDO", 9, 2, 2, "A")));
    assert!(!p.contains_key(make_fragment_key("!VDM", 9, 2, 2, "A")));
    assert_eq!(
        p.pull_string(make_fragment_key("!VDO", 9, 2, 2, "A")),
        Some("1@0000000000000".to_string())
    );
    assert_eq!(p.strings_count(), 0);
}

#[test]
fn test_later_part_replaces_the_one_that_waits() {
    let mut p = NmeaParser::new();
    p.parse_sentence("!AIVDM,2,1,3,B,1111111,0").unwrap();
    p.parse_sentence("!AIVDM,2,1,3,B,55P5TL01VIaAL@7WKO@mBplU@<PDhh000000001S;AJ::4A80?4i@E53,0").unwrap();
    assert_eq!(p.strings_count(), 1);
    let joined = p.parse_sentence("!AIVDM,2,2,3,B,1@0000000000000,2").unwrap();
    let mut q = NmeaParser::new();
    let whole = q
        .parse_sentence("!AIVDM,1,1,,B,55P5TL01VIaAL@7WKO@mBplU@<PDhh000000001S;AJ::4A80?4i@E531@0000000000000,0")
        .unwrap();
    assert_eq!(joined, whole);
}

#[test]
fn test_default_parser_keeps_nothing() {
    let p = NmeaParser::default();
    assert_eq!(p.strings_count(), 0);
    assert_eq!(p.vsds_count(), 0);
}

#[test]
fn test_nmea_message_constructors() {
    let tag = TagBlock::parse(r"\n:7*63\").unwrap();
    let both = NmeaMessage::new(ParsedMessage::Incomplete, Some(tag.clone()));
    assert_eq!(both.message, ParsedMessage::Incomplete);
    assert_eq!(both.tag_block, Some(tag));
    let alone = NmeaMessage::without_tag_block(ParsedMessage::Incomplete);
    assert_eq!(alone.tag_block, None);
}

#[test]
fn test_error_message() {
    assert_eq!(ParseError::InvalidSentence("a".to_string()).message(), "a");
    assert_eq!(ParseError::CorruptedSentence("b".to_string()).message(), "b");
    assert_eq!(ParseError::UnsupportedSentenceType("c".to_string()).message(), "c");
}

#[test]
fn test_augmentation_holds_its_fields() {
    let note = Augmentation { timestamp: 1241544035, description: "position smoothed".to_string() };
    let copy = note.clone();
    assert_eq!(copy.timestamp, 1241544035);
    assert_eq!(copy.description, "position smoothed");
}

#[test]
fn test_new_tag_block_is_empty() {
    let tag = TagBlock::new();
    assert_eq!(tag, TagBlock::default());
    assert_eq!(tag.timestamp, None);
    assert_eq!(tag.destination, None);
    assert_eq!(tag.grouping, None);
    assert_eq!(tag.line_count, None);
    assert_eq!(tag.relative_time, None);
    assert_eq!(tag.source, None);
    assert_eq!(tag.text, None);
}

fn block(fields: &str) -> String {
    format!("\\{}*{:02X}\\", fields, TagBlock::calculate_checksum(fields))
}

#[test]
fn test_tag_block_fields() {
    let tag = TagBlock::parse(&block("c:12,d:dest,g:3-4-5,n:6,r:7,s:src,t:text,x:unknown,novalue,,")).unwrap();
    assert_eq!(tag.timestamp, Some(12));
    assert_eq!(tag.destination, Some("dest".to_string()));
    assert_eq!(
        tag.grouping,
        Some(SentenceGrouping { sentence_number: 3, total_sentences: 4, group_id: 5 })
    );
    assert_eq!(tag.line_count, Some(6));
    assert_eq!(tag.relative_time, Some(7));
    assert_eq!(tag.source, Some("src".to_string()));
    assert_eq!(tag.text, Some("text".to_string()));

    let tag = TagBlock::parse(&block("i:from i")).unwrap();
    assert_eq!(tag.text, Some("from i".to_string()));
    let tag = TagBlock::parse(&block("")).unwrap();
    assert_eq!(tag, TagBlock::new());
}

#[test]
fn test_tag_block_text_length_limit() {
    let tag = TagBlock::parse(&block("d:123456789012345,t:123456789012345")).unwrap();
    assert_eq!(tag.destination, Some("123456789012345".to_string()));
    assert_eq!(tag.text, Some("123456789012345".to_string()));
    let tag = TagBlock::parse(&block("d:1234567890123456,t:1234567890123456,s:1234567890123456")).unwrap();
    assert_eq!(tag.destination, None);
    assert_eq!(tag.text, None);
    assert_eq!(tag.source, Some("1234567890123456".to_string()));
    let tag = TagBlock::parse(&block("d:short,d:1234567890123456")).unwrap();
    assert_eq!(tag.destination, Some("short".to_string()));
}

#[test]
fn test_tag_block_later_field_wins() {
    let tag = TagBlock::parse(&block("c:1,c:2,n:5,n:x,t:a,i:b,g:1-2-3,g:1-2")).unwrap();
    assert_eq!(tag.timestamp, Some(2));
    assert_eq!(tag.line_count, None);
    assert_eq!(tag.text, Some("b".to_string()));
    assert_eq!(tag.grouping, None);
}

#[test]
fn test_tag_block_unparsable_numbers_are_absent() {
    let tag = TagBlock::parse(&block("c:abc,n:-1,r:4294967296")).unwrap();
    assert_eq!(tag.timestamp, None);
    assert_eq!(tag.line_count, None);
    assert_eq!(tag.relative_time, None);
    let tag = TagBlock::parse(&block("cc:1,:2,c1:3")).unwrap();
    assert_eq!(tag, TagBlock::new());
    let tag = TagBlock::parse(&block("s:a:b")).unwrap();
    assert_eq!(tag.source, Some("a:b".to_string()));
}

#[test]
fn test_tag_block_grouping_errors() {
    assert_eq!(
        TagBlock::parse(&block("g:x-2-3")),
        Err(ParseError::InvalidSentence("Invalid sentence number in grouping".to_string()))
    );
    assert_eq!(
        TagBlock::parse_grouping("1-x-3"),
        Err(ParseError::InvalidSentence("Invalid total sentences in grouping".to_string()))
    );
    assert_eq!(
        TagBlock::parse_grouping("1-2-"),
        Err(ParseError::InvalidSentence("Invalid group ID in grouping".to_string()))
    );
    assert_eq!(
        TagBlock::parse_grouping("x-y-z"),
        Err(ParseError::InvalidSentence("Invalid sentence number in grouping".to_string()))
    );
    assert_eq!(TagBlock::parse_grouping("1-2-3-4"), Ok(None));
    assert_eq!(TagBlock::parse_grouping(""), Ok(None));
    assert_eq!(TagBlock::parse_grouping("x-y"), Ok(None));
}

#[test]
fn test_tag_block_framing_errors() {
    let delimiters = Err(ParseError::InvalidSentence(
        "Tag block must start and end with backslashes".to_string(),
    ));
    assert_eq!(TagBlock::parse(""), delimiters);
    assert_eq!(TagBlock::parse("\\"), delimiters);
    assert_eq!(TagBlock::parse("\\c:1*00"), delimiters);
    assert_eq!(TagBlock::parse("c:1*00\\"), delimiters);
    assert_eq!(
        TagBlock::parse("\\\\"),
        Err(ParseError::InvalidSentence("Missing checksum in tag block".to_string()))
    );
    assert_eq!(
        TagBlock::parse("\\c:1\\"),
        Err(ParseError::InvalidSentence("Missing checksum in tag block".to_string()))
    );
    assert_eq!(
        TagBlock::parse("\\c:1*5\\"),
        Err(ParseError::InvalidSentence("Invalid checksum in tag block".to_string()))
    );
    assert_eq!(
        TagBlock::parse("\\c:1*\\"),
        Err(ParseError::InvalidSentence("Invalid checksum in tag block".to_string()))
    );
    assert_eq!(
        TagBlock::parse("\\c:1*ZZ\\"),
        Err(ParseError::InvalidSentence("Invalid checksum format in tag block".to_string()))
    );
    assert_eq!(
        TagBlock::parse("\\c:1*100\\"),
        Err(ParseError::InvalidSentence("Invalid checksum format in tag block".to_string()))
    );
    assert_eq!(
        TagBlock::parse("\\c:1241544035*FF\\"),
        Err(ParseError::CorruptedSentence(
            "Tag block checksum mismatch: calculated 5C, expected FF".to_string()
        ))
    );
}

#[test]
fn test_tag_block_checksum_forms() {
    assert!(TagBlock::parse("\\c:1241544035*5c\\").is_ok());
    assert!(TagBlock::parse("\\c:1241544035*+5C\\").is_ok());
    assert!(TagBlock::parse("\\c:1241544035*005C\\").is_ok());
    let tag = TagBlock::parse("\\s:a*b,c:1*24\\").unwrap();
    assert_eq!(tag.source, Some("a*b".to_string()));
    assert_eq!(tag.timestamp, Some(1));
}

#[test]
fn test_tag_block_checksum_is_taken_over_bytes() {
    assert_eq!(TagBlock::calculate_checksum(""), 0);
    assert_eq!(TagBlock::calculate_checksum("\u{7b4}"), 0xDE ^ 0xB4);
    let tag = TagBlock::parse(&block("s:\u{7b4}")).unwrap();
    assert_eq!(tag.source, Some("\u{7b4}".to_string()));
}
