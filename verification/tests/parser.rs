use nmea_parser::ais::vdm_t8::Type8Payload;
use nmea_parser::ais::{AisLayout, Station};
use nmea_parser::gnss::{GnssSentenceKind, NavigationSystem};
use nmea_parser::message::GnssSentence;
use nmea_parser::static_data::VesselStaticData;
use nmea_parser::{parse_sentence_with_tags, NmeaParser, ParseError, ParsedMessage};

#[test]
fn test_parse_vdm_type8_basic() {
    let mut p = NmeaParser::new();

    match p.parse_sentence("!AIVDM,1,1,,A,85M:Ih1KmPAU6jAs85`03cJm,0*6A") {
        Ok(ps) => match ps {
            ParsedMessage::BinaryBroadcastMessage(bbm) => {
                assert!(bbm.mmsi > 0);
                assert!(bbm.dac <= 1023);
                assert!(bbm.fid <= 63);
            }
            ParsedMessage::Incomplete => {
                panic!("Message should be complete");
            }
            _ => {
                panic!("Expected BinaryBroadcastMessage, got: {:?}", ps);
            }
        },
        Err(e) => {
            panic!("Parse error: {}", e.message());
        }
    }
}

#[test]
fn test_parse_vdm_type8_data_extraction() {
    let mut p = NmeaParser::new();

    match p.parse_sentence("!AIVDM,1,1,,A,85M:Ih1KmPAU6jAs85`03cJm,0*6A") {
        Ok(ps) => match ps {
            ParsedMessage::BinaryBroadcastMessage(bbm) => {
                if bbm.data_bit_length > 0 {
                    assert!(!bbm.data.is_empty());
                    let expected_bytes = (bbm.data_bit_length + 7) / 8;
                    assert_eq!(bbm.data.len(), expected_bytes);
                }
            }
            _ => {
                panic!("Expected BinaryBroadcastMessage");
            }
        },
        Err(e) => {
            panic!("Parse error: {}", e.message());
        }
    }
}

#[test]
fn test_type8_header_and_payload_bytes() {
    let mut p = NmeaParser::new();
    let message = p.parse_sentence("!AIVDM,1,1,,A,85M:Ih1KmPAU6jAs85`03cJm,0*6A").unwrap();
    match message {
        ParsedMessage::BinaryBroadcastMessage(bbm) => {
            assert!(!bbm.own_vessel);
            assert_eq!(bbm.station, Station::MobileStation);
            assert_eq!(bbm.mmsi, 366123456);
            assert_eq!(bbm.dac, 367);
            assert_eq!(bbm.fid, 22);
            assert_eq!(bbm.data_bit_length, 88);
            assert_eq!(bbm.data, vec![4, 101, 27, 36, 123, 32, 90, 0, 14, 182, 181]);
            assert_eq!(bbm.parsed_payload, Some(Type8Payload::Unsupported { dac: 367, fid: 22 }));
        }
        other => panic!("Expected BinaryBroadcastMessage, got: {:?}", other),
    }
}

#[test]
fn test_parse_prefix_chars() {
    let mut p = NmeaParser::new();
    assert!(p
        .parse_sentence(",1277,-106*35\r\n!AIVDM,1,1,,A,152IS=iP?w<tSF0l4Q@>4?wp0H:;,0*2")
        .ok()
        .is_some());
}

#[test]
fn test_parse_corrupted() {
    let mut p = NmeaParser::new();
    assert!(p
        .parse_sentence("!AIVDM,1,1,,A,38Id705000rRVJhE7cl9n;160000,0*41")
        .ok()
        .is_none());
}

#[test]
fn lib_test_parse_missing_checksum() {
    let mut p = NmeaParser::new();
    assert!(p
        .parse_sentence("!AIVDM,1,1,,A,38Id705000rRVJhE7cl9n;160000,0")
        .ok()
        .is_some());
}

#[test]
fn test_parse_invalid_talker() {
    let mut p = NmeaParser::new();
    assert_eq!(
        p.parse_sentence("$QQ,*2C"),
        Err(ParseError::UnsupportedSentenceType(String::from(
            "Unsupported sentence type: $QQ"
        )))
    );
    assert_eq!(
        p.parse_sentence("$A,a0,*10"),
        Err(ParseError::InvalidSentence(String::from(
            "Invalid talker identifier"
        )))
    );
    assert_eq!(
        p.parse_sentence("$,0a,*51"),
        Err(ParseError::InvalidSentence(String::from(
            "Invalid talker identifier"
        )))
    );
}

#[test]
fn test_nmea_parser() {
    let mut p = NmeaParser::new();

    p.push_string("a".into(), "b".into());
    assert_eq!(p.strings_count(), 1);
    p.push_string("c".into(), "d".into());
    assert_eq!(p.strings_count(), 2);
    p.pull_string("a".into());
    assert_eq!(p.strings_count(), 1);
    p.pull_string("c".into());
    assert_eq!(p.strings_count(), 0);

    p.push_vsd(1, Default::default());
    assert_eq!(p.vsds_count(), 1);
    p.push_vsd(2, Default::default());
    assert_eq!(p.vsds_count(), 2);
    p.pull_vsd(1);
    assert_eq!(p.vsds_count(), 1);
    p.pull_vsd(2);
    assert_eq!(p.vsds_count(), 0);
}

#[test]
fn test_parse_invalid_tag_block() {
    let mut p = NmeaParser::new();

    let sentence1 = r"\c:1241544035*53!AIVDM,1,1,,B,15N4cJ`005Jrek0H@9n`DW5608EP,0*13";
    let result1 = p.parse_sentence_with_tags(sentence1);
    assert!(result1.is_err());

    let sentence2 = r"\c:1241544035*FF\!AIVDM,1,1,,B,15N4cJ`005Jrek0H@9n`DW5608EP,0*13";
    let result2 = p.parse_sentence_with_tags(sentence2);
    assert!(result2.is_err());
}

#[test]
fn test_parse_proprietary() {
    let mut p = NmeaParser::new();
    assert_eq!(
        p.parse_sentence("$PGRME,15.0,M,45.0,M,25.0,M*1C"),
        Err(ParseError::UnsupportedSentenceType(String::from(
            "Unsupported sentence type: $RME"
        )))
    );
    assert_eq!(
        p.parse_sentence("$PGRM,00,1,,,*15"),
        Err(ParseError::UnsupportedSentenceType(String::from(
            "Unsupported sentence type: $PGRM"
        )))
    );
}

#[test]
fn test_checksum_in_lower_case_passes() {
    let mut p = NmeaParser::new();
    assert!(p
        .parse_sentence("!AIVDM,1,1,,A,85M:Ih1KmPAU6jAs85`03cJm,0*6a")
        .is_ok());
}

#[test]
fn test_line_without_start_marker() {
    let mut p = NmeaParser::new();
    assert_eq!(
        p.parse_sentence("AIVDM,1,1,,A,0,0"),
        Err(ParseError::InvalidSentence(
            "Invalid NMEA sentence: AIVDM,1,1,,A,0,0".to_string()
        ))
    );
}

#[test]
fn test_short_station_identifier() {
    let mut p = NmeaParser::new();
    assert_eq!(
        p.parse_sentence("!A,1,1,,A,0,0"),
        Err(ParseError::InvalidSentence(
            "Invalid station identifier".to_string()
        ))
    );
}

#[test]
fn test_fragment_count_that_is_no_number() {
    let mut p = NmeaParser::new();
    assert_eq!(
        p.parse_sentence("!AIVDM,x,1,,A,0,0"),
        Err(ParseError::CorruptedSentence(
            "Failed to parse fragment count: x".to_string()
        ))
    );
    assert_eq!(
        p.parse_sentence("!AIVDM,1,300,,A,0,0"),
        Err(ParseError::CorruptedSentence(
            "Failed to parse fragment count: 300".to_string()
        ))
    );
}

#[test]
fn test_position_report_is_routed_by_type() {
    let mut p = NmeaParser::new();
    let message = p
        .parse_sentence("!AIVDM,1,1,,B,15N4cJ`005Jrek0H@9n`DW5608EP,0*13")
        .unwrap();
    match message {
        ParsedMessage::Ais(ais) => {
            assert_eq!(ais.layout, AisLayout::PositionReport);
            assert_eq!(ais.message_type, 1);
            assert_eq!(ais.station, Station::MobileStation);
            assert!(!ais.own_vessel);
            assert_eq!(ais.bits.len(), 28 * 6);
        }
        other => panic!("Expected an AIS message, got: {:?}", other),
    }
}

#[test]
fn test_own_vessel_sentence() {
    let mut p = NmeaParser::new();
    let message = p
        .parse_sentence("!AIVDO,1,1,,B,15N4cJ`005Jrek0H@9n`DW5608EP,0")
        .unwrap();
    match message {
        ParsedMessage::Ais(ais) => assert!(ais.own_vessel),
        other => panic!("Expected an AIS message, got: {:?}", other),
    }
}

#[test]
fn test_message_type_7_is_unsupported() {
    let mut p = NmeaParser::new();
    assert_eq!(
        p.parse_sentence("!AIVDM,1,1,,A,70000000000,0"),
        Err(ParseError::UnsupportedSentenceType(
            "Unsupported !VDM message type: 7".to_string()
        ))
    );
    assert_eq!(
        p.parse_sentence("!AIVDO,1,1,,A,w0000000000,0"),
        Err(ParseError::UnsupportedSentenceType(
            "Unsupported !VDO message type: 63".to_string()
        ))
    );
}

#[test]
fn test_empty_payload_has_message_type_0() {
    let mut p = NmeaParser::new();
    assert_eq!(
        p.parse_sentence("!AIVDM,1,1,,A,,0"),
        Err(ParseError::UnsupportedSentenceType(
            "Unsupported !VDM message type: 0".to_string()
        ))
    );
}

#[test]
fn test_type8_shorter_than_its_header() {
    let mut p = NmeaParser::new();
    assert_eq!(
        p.parse_sentence("!AIVDM,1,1,,A,8000,0"),
        Err(ParseError::InvalidSentence(
            "Type 8 message too short: 24 bits (minimum 56 required)".to_string()
        ))
    );
}

#[test]
fn test_payload_with_invalid_character() {
    let mut p = NmeaParser::new();
    assert_eq!(
        p.parse_sentence("!AIVDM,1,1,,A,8\u{7f}00,0"),
        Err(ParseError::InvalidSentence(
            "Invalid character in AIS payload".to_string()
        ))
    );
    p.parse_sentence("!AIVDM,2,1,5,A,8000,0").unwrap();
    assert_eq!(
        p.parse_sentence("!AIVDM,2,2,5,A,00 0,0"),
        Err(ParseError::InvalidSentence(
            "Invalid character in AIS payload".to_string()
        ))
    );
    assert_eq!(p.strings_count(), 0);
}

#[test]
fn test_more_than_two_fragments_are_not_joined() {
    let mut p = NmeaParser::new();
    assert_eq!(
        p.parse_sentence("!AIVDM,3,1,7,A,85M:Ih1KmPAU6jAs85`03cJm,0"),
        Ok(ParsedMessage::Incomplete)
    );
    assert_eq!(p.strings_count(), 0);
}

#[test]
fn test_stray_fragment_number_changes_nothing() {
    let mut p = NmeaParser::new();
    assert_eq!(
        p.parse_sentence("!AIVDM,2,3,7,A,85M:Ih1KmPAU6jAs85`03cJm,0"),
        Ok(ParsedMessage::Incomplete)
    );
    assert_eq!(p.strings_count(), 0);
}

#[test]
fn test_two_fragments_without_message_id_change_nothing() {
    let mut p = NmeaParser::new();
    assert_eq!(
        p.parse_sentence("!AIVDM,2,1,,A,85M:Ih1KmPAU6jAs85`03cJm,0"),
        Ok(ParsedMessage::Incomplete)
    );
    assert_eq!(p.strings_count(), 0);
}

#[test]
fn test_fragments_in_order() {
    let mut p = NmeaParser::new();
    let first = p
        .parse_sentence("!AIVDM,2,1,3,B,55P5TL01VIaAL@7WKO@mBplU@<PDhh000000001S;AJ::4A80?4i@E53,0*3E")
        .unwrap();
    assert_eq!(first, ParsedMessage::Incomplete);
    assert_eq!(p.strings_count(), 1);
    assert!(p.contains_key("!VDM,2,1,3,B".to_string()));

    let joined = p
        .parse_sentence("!AIVDM,2,2,3,B,1@0000000000000,2*55")
        .unwrap();
    assert_eq!(p.strings_count(), 0);

    let mut q = NmeaParser::new();
    let whole = q
        .parse_sentence(
            "!AIVDM,1,1,,B,55P5TL01VIaAL@7WKO@mBplU@<PDhh000000001S;AJ::4A80?4i@E531@0000000000000,0",
        )
        .unwrap();
    assert_eq!(joined, whole);
    match joined {
        ParsedMessage::Ais(ais) => {
            assert_eq!(ais.layout, AisLayout::StaticAndVoyageData);
            assert_eq!(ais.bits.len(), 71 * 6);
        }
        other => panic!("Expected an AIS message, got: {:?}", other),
    }
}

#[test]
fn test_fragments_in_reverse_order() {
    let mut p = NmeaParser::new();
    let second = p
        .parse_sentence("!AIVDM,2,2,3,B,1@0000000000000,2*55")
        .unwrap();
    assert_eq!(second, ParsedMessage::Incomplete);
    assert_eq!(p.strings_count(), 1);
    assert!(p.contains_key("!VDM,2,2,3,B".to_string()));
    let joined = p
        .parse_sentence("!AIVDM,2,1,3,B,55P5TL01VIaAL@7WKO@mBplU@<PDhh000000001S;AJ::4A80?4i@E53,0*3E")
        .unwrap();
    assert_eq!(p.strings_count(), 0);

    let mut q = NmeaParser::new();
    q.parse_sentence("!AIVDM,2,1,3,B,55P5TL01VIaAL@7WKO@mBplU@<PDhh000000001S;AJ::4A80?4i@E53,0*3E")
        .unwrap();
    let in_order = q
        .parse_sentence("!AIVDM,2,2,3,B,1@0000000000000,2*55")
        .unwrap();
    assert_eq!(joined, in_order);
}

#[test]
fn test_part_one_alone_stays_incomplete() {
    let mut p = NmeaParser::new();
    p.push_string("other".into(), "x".into());
    let before = p.strings_count();
    for _ in 0..5 {
        let message = p
            .parse_sentence("!AIVDM,2,1,3,B,55P5TL01VIaAL@7WKO@mBplU@<PDhh000000001S;AJ::4A80?4i@E53,0*3E")
            .unwrap();
        assert_eq!(message, ParsedMessage::Incomplete);
        assert_eq!(p.strings_count(), before + 1);
    }
}

#[test]
fn test_fragments_of_different_channels_are_not_joined() {
    let mut p = NmeaParser::new();
    p.parse_sentence("!AIVDM,2,1,3,A,55P5TL01VIaAL@7WKO@mBplU@<PDhh000000001S;AJ::4A80?4i@E53,0")
        .unwrap();
    let other = p
        .parse_sentence("!AIVDM,2,2,3,B,1@0000000000000,2")
        .unwrap();
    assert_eq!(other, ParsedMessage::Incomplete);
    assert_eq!(p.strings_count(), 2);
}

#[test]
fn test_reset_clears_both_stores() {
    let mut p = NmeaParser::new();
    p.parse_sentence("!AIVDM,2,1,3,B,55P5TL01VIaAL@7WKO@mBplU@<PDhh000000001S;AJ::4A80?4i@E53,0*3E")
        .unwrap();
    p.parse_sentence("!AIVDM,2,2,4,A,1@0000000000000,2")
        .unwrap();
    p.push_vsd(230992580, VesselStaticData::default());
    assert_eq!(p.strings_count(), 2);
    assert_eq!(p.vsds_count(), 1);
    p.reset();
    assert_eq!(p.strings_count(), 0);
    assert_eq!(p.vsds_count(), 0);
}

#[test]
fn test_clone_keeps_what_waits() {
    let mut p = NmeaParser::new();
    p.parse_sentence("!AIVDM,2,1,3,B,55P5TL01VIaAL@7WKO@mBplU@<PDhh000000001S;AJ::4A80?4i@E53,0*3E")
        .unwrap();
    p.push_vsd(1, VesselStaticData::default());
    let mut q = p.clone();
    assert_eq!(q.strings_count(), 1);
    assert_eq!(q.vsds_count(), 1);
    let joined = q.parse_sentence("!AIVDM,2,2,3,B,1@0000000000000,2*55").unwrap();
    assert!(joined != ParsedMessage::Incomplete);
    assert_eq!(p.strings_count(), 1);
}

#[test]
fn test_pull_returns_what_was_pushed() {
    let mut p = NmeaParser::new();
    p.push_string("a".into(), "b".into());
    assert_eq!(p.pull_string("c".into()), None);
    assert_eq!(p.pull_string("a".into()), Some("b".to_string()));
    assert_eq!(p.pull_string("a".into()), None);
    let mut vsd = VesselStaticData::default();
    vsd.mmsi = 230992580;
    vsd.name = Some("AURORA".to_string());
    p.push_vsd(230992580, vsd.clone());
    assert_eq!(p.pull_vsd(1), None);
    assert_eq!(p.pull_vsd(230992580), Some(vsd));
}

#[test]
fn test_gnss_sentence_is_told_by_its_type() {
    let mut p = NmeaParser::new();
    let message = p
        .parse_sentence(
            "$GPRMC,123519,A,4807.038,N,01131.000,E,022.4,084.4,230394,003.1,W*6A",
        )
        .unwrap();
    match message {
        ParsedMessage::Gnss(gnss) => {
            assert_eq!(gnss.kind, GnssSentenceKind::Rmc);
            assert_eq!(gnss.nav_system, NavigationSystem::Gps);
            assert_eq!(
                gnss.sentence,
                "$GPRMC,123519,A,4807.038,N,01131.000,E,022.4,084.4,230394,003.1,W"
            );
        }
        other => panic!("Expected a GNSS sentence, got: {:?}", other),
    }
    match p.parse_sentence("$WIMWV,295.4,T,").unwrap() {
        ParsedMessage::Gnss(gnss) => {
            assert_eq!(gnss.kind, GnssSentenceKind::Mwv);
            assert_eq!(gnss.nav_system, NavigationSystem::Other);
        }
        other => panic!("Expected a GNSS sentence, got: {:?}", other),
    }
}

#[test]
fn test_white_space_behind_tag_block() {
    let mut p = NmeaParser::new();
    let nmea_message = p
        .parse_sentence_with_tags("\\c:1241544035*5C\\ \t!AIVDM,1,1,,B,15N4cJ`005Jrek0H@9n`DW5608EP,0*13")
        .unwrap();
    assert_eq!(nmea_message.tag_block.unwrap().timestamp, Some(1241544035));
    assert_eq!(
        p.parse_sentence_with_tags("\\c:1241544035*5C\\ \u{3000}no sentence"),
        Err(ParseError::InvalidSentence(
            "Invalid NMEA sentence: no sentence".to_string()
        ))
    );
}

#[test]
fn test_tag_block_that_is_not_closed() {
    let mut p = NmeaParser::new();
    assert_eq!(
        p.parse_sentence_with_tags("\\c:1241544035*5C!AIVDM,1,1,,B,15N4cJ`005Jrek0H@9n`DW5608EP,0*13"),
        Err(ParseError::InvalidSentence(
            "Tag block not properly closed".to_string()
        ))
    );
}

#[test]
fn test_free_function_keeps_nothing() {
    let first = parse_sentence_with_tags(
        "!AIVDM,2,1,3,B,55P5TL01VIaAL@7WKO@mBplU@<PDhh000000001S;AJ::4A80?4i@E53,0*3E",
    )
    .unwrap();
    assert_eq!(first.message, ParsedMessage::Incomplete);
    let second = parse_sentence_with_tags("!AIVDM,2,2,3,B,1@0000000000000,2*55").unwrap();
    assert_eq!(second.message, ParsedMessage::Incomplete);
}

#[test]
fn test_parse_invalid_sentence() {
    let mut p = NmeaParser::new();
    assert_eq!(
        p.parse_sentence("$\u{7b4}GAGSV,,"),
        Err(ParseError::InvalidSentence(
            "Invalid characters in sentence type: $\u{7b4}GAGSV".to_string()
        ))
    );
    assert_eq!(
        p.parse_sentence("$WIMWV,295.4,T,"),
        Ok(ParsedMessage::Gnss(GnssSentence {
            kind: GnssSentenceKind::Mwv,
            nav_system: NavigationSystem::Other,
            sentence: "$WIMWV,295.4,T,".to_string(),
        }))
    );
    assert_eq!(
        p.parse_sentence("!AIVDM,not,a,valid,nmea,string,0*00"),
        Err(ParseError::CorruptedSentence(
            "Corrupted NMEA sentence: \"17\" != \"00\"".to_string()
        ))
    );
    assert_eq!(
        p.parse_sentence("!"),
        Err(ParseError::InvalidSentence(
            "Invalid NMEA sentence: !".to_string()
        ))
    );
}

#[test]
fn test_parse_sentence_with_tag_block() {
    let mut p = NmeaParser::new();
    let sentence = r"\g:1-2-73874,n:157036,s:r003669945,c:1241544035*4A\!AIVDM,1,1,,B,15N4cJ`005Jrek0H@9n`DW5608EP,0*13";

    let result = p.parse_sentence_with_tags(sentence);
    assert!(result.is_ok());

    let nmea_message = result.unwrap();
    assert!(nmea_message.tag_block.is_some());

    let tag_block = nmea_message.tag_block.unwrap();
    assert_eq!(tag_block.timestamp, Some(1241544035));
    assert_eq!(tag_block.line_count, Some(157036));
    assert_eq!(tag_block.source, Some("r003669945".to_string()));

    assert!(tag_block.grouping.is_some());
    let grouping = tag_block.grouping.unwrap();
    assert_eq!(grouping.sentence_number, 1);
    assert_eq!(grouping.total_sentences, 2);
    assert_eq!(grouping.group_id, 73874);

    match nmea_message.message {
        ParsedMessage::Ais(ais) => assert_eq!(ais.layout, AisLayout::PositionReport),
        _ => panic!("Expected a position report"),
    }
}

#[test]
fn test_parse_sentence_without_tag_block() {
    let mut p = NmeaParser::new();
    let sentence = "!AIVDM,1,1,,B,15N4cJ`005Jrek0H@9n`DW5608EP,0*13";

    let result = p.parse_sentence_with_tags(sentence);
    assert!(result.is_ok());

    let nmea_message = result.unwrap();
    assert!(nmea_message.tag_block.is_none());

    match nmea_message.message {
        ParsedMessage::Ais(ais) => assert_eq!(ais.layout, AisLayout::PositionReport),
        _ => panic!("Expected a position report"),
    }
}

#[test]
fn test_parse_sentence_backward_compatibility() {
    let mut p = NmeaParser::new();
    let sentence_with_tag = r"\c:1241544035*5C\!AIVDM,1,1,,B,15N4cJ`005Jrek0H@9n`DW5608EP,0*13";
    let sentence_without_tag = "!AIVDM,1,1,,B,15N4cJ`005Jrek0H@9n`DW5608EP,0*13";

    let result1 = p.parse_sentence(sentence_with_tag);
    let result2 = p.parse_sentence(sentence_without_tag);

    assert!(result1.is_ok());
    assert!(result2.is_ok());

    assert_eq!(result1.unwrap(), result2.unwrap());
}

#[test]
fn test_parse_gnss_sentence_with_tag_block() {
    let mut p = NmeaParser::new();
    let sentence = r"\s:station1,t:test*76\$GPRMC,123519,A,4807.038,N,01131.000,E,022.4,084.4,230394,003.1,W*6A";

    let result = p.parse_sentence_with_tags(sentence);
    assert!(result.is_ok());

    let nmea_message = result.unwrap();
    assert!(nmea_message.tag_block.is_some());

    let tag_block = nmea_message.tag_block.unwrap();
    assert_eq!(tag_block.source, Some("station1".to_string()));
    assert_eq!(tag_block.text, Some("test".to_string()));

    match nmea_message.message {
        ParsedMessage::Gnss(gnss) => assert_eq!(gnss.kind, GnssSentenceKind::Rmc),
        _ => panic!("Expected RMC message"),
    }
}

#[test]
fn test_tag_block_with_multipart_message() {
    let mut p = NmeaParser::new();

    let sentence1 = r"\g:1-2-12345*6F\!AIVDM,2,1,3,B,55P5TL01VIaAL@7WKO@mBplU@<PDhh000000001S;AJ::4A80?4i@E53,0*3E";
    let result1 = p.parse_sentence_with_tags(sentence1);
    assert!(result1.is_ok());

    let nmea_message1 = result1.unwrap();
    assert!(nmea_message1.tag_block.is_some());
    assert_eq!(nmea_message1.message, ParsedMessage::Incomplete);

    let sentence2 = r"\g:2-2-12345*6C\!AIVDM,2,2,3,B,1@0000000000000,2*55";
    let result2 = p.parse_sentence_with_tags(sentence2);
    assert!(result2.is_ok());

    let nmea_message2 = result2.unwrap();
    assert!(nmea_message2.tag_block.is_some());

    match nmea_message2.message {
        ParsedMessage::Ais(ref ais) => assert_eq!(ais.layout, AisLayout::StaticAndVoyageData),
        _ => panic!("Expected static and voyage data after completing multipart"),
    }

    let tag_block1 = nmea_message1.tag_block.unwrap();
    let grouping1 = tag_block1.grouping.unwrap();
    assert_eq!(grouping1.sentence_number, 1);
    assert_eq!(grouping1.total_sentences, 2);
    assert_eq!(grouping1.group_id, 12345);

    let tag_block2 = nmea_message2.tag_block.unwrap();
    let grouping2 = tag_block2.grouping.unwrap();
    assert_eq!(grouping2.sentence_number, 2);
    assert_eq!(grouping2.total_sentences, 2);
    assert_eq!(grouping2.group_id, 12345);
}
