//! Decoder for NMEA 0183 sentences that carry AIS messages.
//!
//! A sentence is taken through its framing (an optional tag block, the start
//! marker, the checksum, the talker and sentence type), its armored payload is
//! turned into bits, the fragments of a two-part message are joined, and the
//! message is routed by its type code. Binary broadcast messages are decoded
//! in full, down to the meteorological and hydrological record.

pub mod ais;
pub mod armor;
pub mod bits;
pub mod checksum;
pub mod error;
pub mod fragments;
pub mod gnss;
pub mod json_output;
pub mod message;
pub mod parser;
pub mod sentence;
pub mod static_data;
pub mod tag_block;
pub mod text;

pub use error::ParseError;
pub use message::{NmeaMessage, ParsedMessage};
pub use parser::{parse_sentence_with_tags, NmeaParser};
pub use tag_block::TagBlock;
