//! AIS message type 8, the binary broadcast message.
//!
//! The message starts with a header of 56 bits: the message type (6 bits, 8),
//! the repeat indicator (2), the MMSI of the sender (30), two spare bits, the
//! designated area code (10) and the functional identifier (6). What follows,
//! up to 952 bits, is the payload, whose layout the last two decide.

use vstd::prelude::*;
use vstd::arithmetic::power2::lemma2_to64;
use vstd::string::*;
use crate::ais::Station;
use crate::bits::{field_value, lemma_field_value_bounds, unsigned_field, Bits};
use crate::error::{ParseError, ParseErrorView};
use crate::text::{decimal, decimal_text};

pub mod vdm_t8_payloads;

pub use vdm_t8_payloads::Type8Payload;

verus! {

/// A binary broadcast message.
#[derive(Clone, Debug, PartialEq)]
pub struct BinaryBroadcastMessage {
    /// Whether the message is about the own vessel.
    pub own_vessel: bool,
    /// The kind of station that the sentence came from.
    pub station: Station,
    /// MMSI of the sender (30 bits).
    pub mmsi: u32,
    /// Designated area code (10 bits): 1 for international messages.
    pub dac: u16,
    /// Functional identifier (6 bits): the kind of message within the area.
    pub fid: u8,
    /// The payload as it came, eight bits to the byte, first bit most
    /// significant; the last byte is filled up with zero bits.
    pub data: Vec<u8>,
    /// The number of bits of the payload.
    pub data_bit_length: usize,
    /// The payload as a record, where the layout for DAC and FID is known and
    /// the payload is long enough for it.
    pub parsed_payload: Option<Type8Payload>,
}

/// A `BinaryBroadcastMessage` with its payload as a sequence of bytes.
pub struct BinaryBroadcastMessageView {
    pub own_vessel: bool,
    pub station: Station,
    pub mmsi: u32,
    pub dac: u16,
    pub fid: u8,
    pub data: Seq<u8>,
    pub data_bit_length: usize,
    pub parsed_payload: Option<Type8Payload>,
}

impl View for BinaryBroadcastMessage {
    type V = BinaryBroadcastMessageView;

    open spec fn view(&self) -> BinaryBroadcastMessageView {
        BinaryBroadcastMessageView {
            own_vessel: self.own_vessel,
            station: self.station,
            mmsi: self.mmsi,
            dac: self.dac,
            fid: self.fid,
            data: self.data@,
            data_bit_length: self.data_bit_length,
            parsed_payload: self.parsed_payload,
        }
    }
}

/// The number of bits of the header.
pub const HEADER_BITS: usize = 56;

/// The bits of `bits` from bit `at` on, eight to the byte, first bit most
/// significant, the last byte filled up with zero bits.
pub open spec fn packed(bits: Seq<bool>, at: int) -> Seq<u8> {
    Seq::new(
        ((bits.len() - at + 7) / 8) as nat,
        |k: int| field_value(bits, at + 8 * k, 8) as u8,
    )
}

/// The message that `bits` holds, which are 56 or more.
pub open spec fn broadcast_of(bits: Seq<bool>, station: Station, own_vessel: bool) -> BinaryBroadcastMessageView {
    let dac = field_value(bits, 40, 10) as u16;
    let fid = field_value(bits, 50, 6) as u8;
    BinaryBroadcastMessageView {
        own_vessel,
        station,
        mmsi: field_value(bits, 8, 30) as u32,
        dac,
        fid,
        data: packed(bits, HEADER_BITS as int),
        data_bit_length: (bits.len() - HEADER_BITS) as usize,
        parsed_payload: if bits.len() > HEADER_BITS {
            vdm_t8_payloads::payload_of(dac, fid, bits, HEADER_BITS as int)
        } else {
            None
        },
    }
}

/// The message of the error for a message of `len` bits, fewer than the
/// header has.
pub open spec fn too_short_message(len: nat) -> Seq<char> {
    "Type 8 message too short: "@ + decimal_text(len) + " bits (minimum 56 required)"@
}

/// What `handle` returns for `bits`.
pub open spec fn handled(bits: Seq<bool>, station: Station, own_vessel: bool) -> Result<
    BinaryBroadcastMessageView,
    ParseErrorView,
> {
    if bits.len() < HEADER_BITS {
        Err(ParseErrorView::InvalidSentence(too_short_message(bits.len())))
    } else {
        Ok(broadcast_of(bits, station, own_vessel))
    }
}

/// The fields of the header stay within their widths, and the payload takes
/// as many bytes as its bits need.
pub proof fn lemma_broadcast_ranges(bits: Seq<bool>, station: Station, own_vessel: bool)
    requires
        HEADER_BITS <= bits.len() <= usize::MAX,
    ensures
        broadcast_of(bits, station, own_vessel).mmsi < 0x4000_0000,
        broadcast_of(bits, station, own_vessel).dac <= 1023,
        broadcast_of(bits, station, own_vessel).fid <= 63,
        broadcast_of(bits, station, own_vessel).data.len() == (broadcast_of(
            bits,
            station,
            own_vessel,
        ).data_bit_length + 7) / 8,
{
    lemma2_to64();
    lemma_field_value_bounds(bits, 8, 30);
    lemma_field_value_bounds(bits, 40, 10);
    lemma_field_value_bounds(bits, 50, 6);
}

/// Reads a binary broadcast message from the bits of its sentence. A message
/// shorter than the header is refused.
pub fn handle(bits: &Bits, station: Station, own_vessel: bool) -> (result: Result<
    BinaryBroadcastMessage,
    ParseError,
>)
    ensures
        match result {
            Ok(message) => handled(bits@, station, own_vessel) == Ok::<
                BinaryBroadcastMessageView,
                ParseErrorView,
            >(message@),
            Err(e) => handled(bits@, station, own_vessel) == Err::<
                BinaryBroadcastMessageView,
                ParseErrorView,
            >(e@),
        },
{
    let len = bits.len();
    if len < HEADER_BITS {
        let message = String::from_str("Type 8 message too short: ").concat(
            decimal(len as u64).as_str(),
        ).concat(" bits (minimum 56 required)");
        assert(message@ =~= too_short_message(len as nat));
        return Err(ParseError::InvalidSentence(message));
    }
    proof {
        lemma2_to64();
        lemma_field_value_bounds(bits@, 8, 30);
        lemma_field_value_bounds(bits@, 40, 10);
        lemma_field_value_bounds(bits@, 50, 6);
    }
    let mmsi = unsigned_field(bits, 8, 30) as u32;
    let dac = unsigned_field(bits, 40, 10) as u16;
    let fid = unsigned_field(bits, 50, 6) as u8;
    let data_bit_length = len - HEADER_BITS;
    let byte_count = data_bit_length / 8 + if data_bit_length % 8 == 0 {
        0
    } else {
        1
    };
    let mut data: Vec<u8> = Vec::new();
    let mut k: usize = 0;
    while k < byte_count
        invariant
            k <= byte_count,
            len == bits@.len(),
            len <= usize::MAX / 8,
            HEADER_BITS + 8 * byte_count <= len + 7,
            data@ == packed(bits@, HEADER_BITS as int).take(k as int),
            byte_count == packed(bits@, HEADER_BITS as int).len(),
        decreases byte_count - k,
    {
        proof {
            lemma2_to64();
            lemma_field_value_bounds(bits@, HEADER_BITS + 8 * k, 8);
        }
        let byte = unsigned_field(bits, HEADER_BITS + 8 * k, 8) as u8;
        data.push(byte);
        k += 1;
        assert(data@ =~= packed(bits@, HEADER_BITS as int).take(k as int));
    }
    assert(data@ =~= packed(bits@, HEADER_BITS as int));
    let parsed_payload = if data_bit_length > 0 {
        vdm_t8_payloads::parse_payload(dac, fid, bits, HEADER_BITS)
    } else {
        None
    };
    Ok(
        BinaryBroadcastMessage {
            own_vessel,
            station,
            mmsi,
            dac,
            fid,
            data,
            data_bit_length,
            parsed_payload,
        },
    )
}

} // verus!
