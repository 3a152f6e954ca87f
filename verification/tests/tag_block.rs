use nmea_parser::error::ParseError;
use nmea_parser::tag_block::TagBlock;

#[test]
fn test_parse_complete_tag_block() {
    let tag_block_str = r"\g:1-2-73874,n:157036,s:r003669945,c:1241544035*4A\";
    let result = TagBlock::parse(tag_block_str);

    assert!(result.is_ok());
    let tag_block = result.unwrap();

    assert_eq!(tag_block.timestamp, Some(1241544035));
    assert_eq!(tag_block.line_count, Some(157036));
    assert_eq!(tag_block.source, Some("r003669945".to_string()));

    assert!(tag_block.grouping.is_some());
    let grouping = tag_block.grouping.unwrap();
    assert_eq!(grouping.sentence_number, 1);
    assert_eq!(grouping.total_sentences, 2);
    assert_eq!(grouping.group_id, 73874);
}

#[test]
fn test_parse_simple_tag_block() {
    let tag_block_str = r"\c:1241544035*5C\";
    let result = TagBlock::parse(tag_block_str);

    assert!(result.is_ok());
    let tag_block = result.unwrap();

    assert_eq!(tag_block.timestamp, Some(1241544035));
    assert_eq!(tag_block.line_count, None);
    assert_eq!(tag_block.source, None);
    assert_eq!(tag_block.grouping, None);
}

#[test]
fn test_parse_tag_block_with_text() {
    let tag_block_str = r"\s:station1,t:hello*02\";
    let result = TagBlock::parse(tag_block_str);

    assert!(result.is_ok());
    let tag_block = result.unwrap();

    assert_eq!(tag_block.source, Some("station1".to_string()));
    assert_eq!(tag_block.text, Some("hello".to_string()));
}

#[test]
fn test_parse_invalid_checksum() {
    let tag_block_str = r"\c:1241544035*FF\";
    let result = TagBlock::parse(tag_block_str);

    assert!(result.is_err());
    match result.unwrap_err() {
        ParseError::CorruptedSentence(_) => {}
        _ => panic!("Expected CorruptedSentence error"),
    }
}

#[test]
fn test_parse_missing_backslashes() {
    let tag_block_str = "c:1241544035*53";
    let result = TagBlock::parse(tag_block_str);

    assert!(result.is_err());
}

#[test]
fn tag_block_test_parse_missing_checksum() {
    let tag_block_str = r"\c:1241544035\";
    let result = TagBlock::parse(tag_block_str);

    assert!(result.is_err());
}

#[test]
fn test_calculate_checksum() {
    let data = "g:1-2-73874,n:157036,s:r003669945,c:1241544035";
    let checksum = TagBlock::calculate_checksum(data);
    assert_eq!(checksum, 0x4A);
}

#[test]
fn test_parse_grouping() {
    let result = TagBlock::parse_grouping("1-2-73874");
    assert!(result.is_ok());

    let grouping = result.unwrap().unwrap();
    assert_eq!(grouping.sentence_number, 1);
    assert_eq!(grouping.total_sentences, 2);
    assert_eq!(grouping.group_id, 73874);
}

#[test]
fn test_parse_invalid_grouping() {
    let result = TagBlock::parse_grouping("1-2");
    assert!(result.is_ok());
    assert!(result.unwrap().is_none());
}
