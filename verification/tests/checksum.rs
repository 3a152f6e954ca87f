use nmea_parser::checksum::{checksum, validate};
use nmea_parser::text::hex;
use nmea_parser::ParseError;

#[test]
fn test_checksum_is_the_exclusive_or() {
    assert_eq!(checksum(""), 0);
    assert_eq!(checksum("A"), 0x41);
    assert_eq!(checksum("AB"), 0x03);
    assert_eq!(checksum("AIVDM,1,1,,A,85M:Ih1KmPAU6jAs85`03cJm,0"), 0x6A);
    assert_eq!(checksum("AIVDM,not,a,valid,nmea,string,0"), 0x17);
}

#[test]
fn test_hex_writes_two_digits_in_upper_case() {
    assert_eq!(hex(0), "00");
    assert_eq!(hex(0x0A), "0A");
    assert_eq!(hex(0x6A), "6A");
    assert_eq!(hex(0xFF), "FF");
}

#[test]
fn test_validate_round_trip() {
    for text in ["", "AIVDM,1,1,,A,85M:Ih1KmPAU6jAs85`03cJm,0", "GPRMC,123519,A", "x"] {
        let sum = hex(checksum(text));
        assert_eq!(validate(text, &sum), Ok(()));
        assert_eq!(validate(text, &sum.to_lowercase()), Ok(()));
    }
}

#[test]
fn test_validate_finds_each_flipped_bit() {
    let text = "AIVDM,1,1,,A,85M:Ih1KmPAU6jAs85`03cJm,0";
    let sum = hex(checksum(text));
    for at in 0..text.len() {
        for bit in 0..7 {
            let mut bytes = text.as_bytes().to_vec();
            bytes[at] ^= 1 << bit;
            let other = String::from_utf8(bytes).unwrap();
            match validate(&other, &sum) {
                Err(ParseError::CorruptedSentence(_)) => {}
                result => panic!("Expected CorruptedSentence, got: {:?}", result),
            }
        }
    }
}

#[test]
fn test_validate_without_expected_checksum() {
    assert_eq!(validate("AIVDM,1,1,,A,0,0", ""), Ok(()));
}

#[test]
fn test_validate_message() {
    assert_eq!(
        validate("AIVDM,not,a,valid,nmea,string,0", "00"),
        Err(ParseError::CorruptedSentence(
            "Corrupted NMEA sentence: \"17\" != \"00\"".to_string()
        ))
    );
    assert_eq!(
        validate("A", "\"\n"),
        Err(ParseError::CorruptedSentence(
            "Corrupted NMEA sentence: \"41\" != \"\\\"\\n\"".to_string()
        ))
    );
    assert_eq!(
        validate("A", "4"),
        Err(ParseError::CorruptedSentence(
            "Corrupted NMEA sentence: \"41\" != \"4\"".to_string()
        ))
    );
    assert_eq!(
        validate("A", "+41"),
        Err(ParseError::CorruptedSentence(
            "Corrupted NMEA sentence: \"41\" != \"+41\"".to_string()
        ))
    );
}
