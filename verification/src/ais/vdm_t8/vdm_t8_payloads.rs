//! The payloads of binary broadcast messages, told apart by the designated
//! area code (DAC) and the functional identifier (FID) of the message.
//!
//! A payload of a known kind is a record of fixed layout. Each of its fields
//! has a width in bits, is signed or not, and has a sentinel: a pattern of
//! its bits, given as the unsigned integer that they write, that stands for
//! "not available". What is available is shifted by the offset of the field
//! and kept as an integer in the unit that the field is sent in.

use vstd::prelude::*;
use vstd::arithmetic::power2::{lemma2_to64, pow2};
use crate::bits::{
    field_value, lemma_field_value_bounds, lemma_signed_value_sign, signed_field, signed_value,
    unsigned_field, Bits,
};

verus! {

/// The integer that a field holds as it is sent.
pub open spec fn raw_field(bits: Seq<bool>, start: int, width: nat, signed: bool) -> int {
    if signed {
        signed_value(bits, start, width)
    } else {
        field_value(bits, start, width) as int
    }
}

/// The value of a field: absent where the bits of the field, read as an
/// unsigned integer, write `sentinel` (or, with `at_least`, `sentinel` or
/// more); else the integer that the field holds, signed or not, plus
/// `offset`.
pub open spec fn field_or_absent(
    bits: Seq<bool>,
    start: int,
    width: nat,
    signed: bool,
    sentinel: int,
    at_least: bool,
    offset: int,
) -> Option<int> {
    let sent = field_value(bits, start, width) as int;
    if sent == sentinel || (at_least && sent > sentinel) {
        None
    } else {
        Some(raw_field(bits, start, width, signed) + offset)
    }
}

/// The least integer that a field of this width can hold.
pub open spec fn raw_min(width: nat, signed: bool) -> int {
    if signed {
        -pow2((width - 1) as nat)
    } else {
        0
    }
}

/// The greatest integer that a field of this width can hold.
pub open spec fn raw_max(width: nat, signed: bool) -> int {
    if signed {
        pow2((width - 1) as nat) - 1
    } else {
        pow2(width) - 1
    }
}

/// What a field holds lies between the least and the greatest integer of its
/// width.
pub proof fn lemma_raw_field_range(bits: Seq<bool>, start: int, width: nat, signed: bool)
    requires
        width >= 1,
    ensures
        raw_min(width, signed) <= raw_field(bits, start, width, signed) <= raw_max(width, signed),
{
    lemma_field_value_bounds(bits, start, width);
    lemma_signed_value_sign(bits, start, width);
}

/// A field's value as an unbounded integer.
pub open spec fn as_int(value: Option<i64>) -> Option<int> {
    match value {
        Some(v) => Some(v as int),
        None => None,
    }
}

/// A field's value as an `i32`.
pub open spec fn as_i32(value: Option<int>) -> Option<i32> {
    match value {
        Some(v) => Some(v as i32),
        None => None,
    }
}

/// A field's value as an `i16`.
pub open spec fn as_i16(value: Option<int>) -> Option<i16> {
    match value {
        Some(v) => Some(v as i16),
        None => None,
    }
}

/// A field's value as a `u16`.
pub open spec fn as_u16(value: Option<int>) -> Option<u16> {
    match value {
        Some(v) => Some(v as u16),
        None => None,
    }
}

/// A field's value as a `u8`.
pub open spec fn as_u8(value: Option<int>) -> Option<u8> {
    match value {
        Some(v) => Some(v as u8),
        None => None,
    }
}

/// Reads one field: `None` where its bits are the sentinel that stands for
/// "not available", else what it holds plus `offset`.
pub fn decode_or_absent(
    bits: &Bits,
    start: usize,
    width: usize,
    signed: bool,
    sentinel: i64,
    at_least: bool,
    offset: i64,
) -> (value: Option<i64>)
    requires
        1 <= width <= 32,
        start + width <= usize::MAX,
        i32::MIN <= offset <= i32::MAX,
    ensures
        as_int(value) == field_or_absent(
            bits@,
            start as int,
            width as nat,
            signed,
            sentinel as int,
            at_least,
            offset as int,
        ),
        value matches Some(v) ==> raw_min(width as nat, signed) + offset <= v <= raw_max(
            width as nat,
            signed,
        ) + offset,
{
    proof {
        lemma_raw_field_range(bits@, start as int, width as nat, signed);
        lemma2_to64();
        vstd::arithmetic::power2::lemma_pow2_strictly_increases((width - 1) as nat, 32);
    }
    proof {
        lemma_field_value_bounds(bits@, start as int, width as nat);
    }
    let sent: i64 = unsigned_field(bits, start, width) as i64;
    if sent == sentinel || (at_least && sent > sentinel) {
        None
    } else if signed {
        Some(signed_field(bits, start, width) + offset)
    } else {
        Some(sent + offset)
    }
}

/// Reads one field whose values fit in an `i32`.
pub fn i32_or_absent(
    bits: &Bits,
    start: usize,
    width: usize,
    signed: bool,
    sentinel: i64,
    at_least: bool,
    offset: i64,
) -> (value: Option<i32>)
    requires
        1 <= width <= 32,
        start + width <= usize::MAX,
        i32::MIN <= raw_min(width as nat, signed) + offset,
        raw_max(width as nat, signed) + offset <= i32::MAX,
        i32::MIN <= offset <= i32::MAX,
    ensures
        value == as_i32(
            field_or_absent(
                bits@,
                start as int,
                width as nat,
                signed,
                sentinel as int,
                at_least,
                offset as int,
            ),
        ),
{
    match decode_or_absent(bits, start, width, signed, sentinel, at_least, offset) {
        Some(v) => Some(v as i32),
        None => None,
    }
}

/// Reads one field whose values fit in an `i16`.
pub fn i16_or_absent(
    bits: &Bits,
    start: usize,
    width: usize,
    signed: bool,
    sentinel: i64,
    at_least: bool,
    offset: i64,
) -> (value: Option<i16>)
    requires
        1 <= width <= 32,
        start + width <= usize::MAX,
        i16::MIN <= raw_min(width as nat, signed) + offset,
        raw_max(width as nat, signed) + offset <= i16::MAX,
        i32::MIN <= offset <= i32::MAX,
    ensures
        value == as_i16(
            field_or_absent(
                bits@,
                start as int,
                width as nat,
                signed,
                sentinel as int,
                at_least,
                offset as int,
            ),
        ),
{
    match decode_or_absent(bits, start, width, signed, sentinel, at_least, offset) {
        Some(v) => Some(v as i16),
        None => None,
    }
}

/// Reads one field whose values fit in an `u16`.
pub fn u16_or_absent(
    bits: &Bits,
    start: usize,
    width: usize,
    signed: bool,
    sentinel: i64,
    at_least: bool,
    offset: i64,
) -> (value: Option<u16>)
    requires
        1 <= width <= 32,
        start + width <= usize::MAX,
        u16::MIN <= raw_min(width as nat, signed) + offset,
        raw_max(width as nat, signed) + offset <= u16::MAX,
        i32::MIN <= offset <= i32::MAX,
    ensures
        value == as_u16(
            field_or_absent(
                bits@,
                start as int,
                width as nat,
                signed,
                sentinel as int,
                at_least,
                offset as int,
            ),
        ),
{
    match decode_or_absent(bits, start, width, signed, sentinel, at_least, offset) {
        Some(v) => Some(v as u16),
        None => None,
    }
}

/// Reads one field whose values fit in an `u8`.
pub fn u8_or_absent(
    bits: &Bits,
    start: usize,
    width: usize,
    signed: bool,
    sentinel: i64,
    at_least: bool,
    offset: i64,
) -> (value: Option<u8>)
    requires
        1 <= width <= 32,
        start + width <= usize::MAX,
        u8::MIN <= raw_min(width as nat, signed) + offset,
        raw_max(width as nat, signed) + offset <= u8::MAX,
        i32::MIN <= offset <= i32::MAX,
    ensures
        value == as_u8(
            field_or_absent(
                bits@,
                start as int,
                width as nat,
                signed,
                sentinel as int,
                at_least,
                offset as int,
            ),
        ),
{
    match decode_or_absent(bits, start, width, signed, sentinel, at_least, offset) {
        Some(v) => Some(v as u8),
        None => None,
    }
}

/// DAC 1, FID 11: meteorological and hydrological data, in the layout that
/// FID 31 has since replaced. Each field is `None` where the sender had no
/// value for it.
#[derive(Clone, Copy, Debug, PartialEq)]
pub struct MeteoHydroData11 {
    /// Latitude in thousandths of a minute of arc, north positive; 60000 to the degree.
    pub latitude: Option<i32>,
    /// Longitude in thousandths of a minute of arc, east positive; 60000 to the degree.
    pub longitude: Option<i32>,
    /// Day of the month.
    pub day: Option<u8>,
    /// Hour of the day.
    pub hour: Option<u8>,
    /// Minute of the hour.
    pub minute: Option<u8>,
    /// Average wind speed in knots.
    pub wind_speed_avg: Option<u8>,
    /// Wind gust speed in knots.
    pub wind_gust: Option<u8>,
    /// Wind direction in degrees.
    pub wind_direction: Option<u16>,
    /// Wind gust direction in degrees.
    pub wind_gust_direction: Option<u16>,
    /// Air temperature in tenths of a degree Celsius.
    pub air_temperature: Option<i16>,
    /// Relative humidity in percent.
    pub humidity: Option<u8>,
    /// Dew point in tenths of a degree Celsius.
    pub dew_point: Option<i16>,
    /// Air pressure in hectopascal.
    pub air_pressure: Option<u16>,
    /// Pressure tendency: 0 steady, 1 decreasing, 2 increasing.
    pub pressure_tendency: Option<u8>,
    /// Horizontal visibility in tenths of a nautical mile.
    pub visibility: Option<u8>,
    /// Water level in tenths of a metre.
    pub water_level: Option<i16>,
    /// Water level trend: 0 steady, 1 decreasing, 2 increasing.
    pub water_level_trend: Option<u8>,
    /// Surface current speed in tenths of a knot.
    pub surface_current_speed: Option<u8>,
    /// Surface current direction in degrees.
    pub surface_current_direction: Option<u16>,
    /// Speed of the second current in tenths of a knot.
    pub current_speed_2: Option<u8>,
    /// Direction of the second current in degrees.
    pub current_direction_2: Option<u16>,
    /// Depth at which the second current was measured, in tenths of a metre.
    pub current_depth_2: Option<u8>,
    /// Speed of the third current in tenths of a knot.
    pub current_speed_3: Option<u8>,
    /// Direction of the third current in degrees.
    pub current_direction_3: Option<u16>,
    /// Depth at which the third current was measured, in tenths of a metre.
    pub current_depth_3: Option<u8>,
    /// Significant wave height in tenths of a metre.
    pub wave_height: Option<u8>,
    /// Wave period in seconds.
    pub wave_period: Option<u8>,
    /// Wave direction in degrees.
    pub wave_direction: Option<u16>,
    /// Swell height in tenths of a metre.
    pub swell_height: Option<u8>,
    /// Swell period in seconds.
    pub swell_period: Option<u8>,
    /// Swell direction in degrees.
    pub swell_direction: Option<u16>,
    /// Sea state on the Beaufort scale.
    pub sea_state: Option<u8>,
    /// Water temperature in tenths of a degree Celsius.
    pub water_temperature: Option<i16>,
    /// Kind of precipitation.
    pub precipitation_type: Option<u8>,
    /// Salinity in tenths of a percent.
    pub salinity: Option<u16>,
    /// Ice: 0 no, 1 yes.
    pub ice: Option<u8>,
}

/// The number of bits that a record of DAC 1, FID 11 takes.
pub const METEO_HYDRO_11_BITS: usize = 352;

/// The record of DAC 1, FID 11 whose first bit is bit `at` of `bits`.
pub open spec fn meteo_hydro_11_at(bits: Seq<bool>, at: int) -> MeteoHydroData11 {
    MeteoHydroData11 {
        latitude: as_i32(field_or_absent(bits, at, 24, true, 0x7FFFFF, false, 0)),
        longitude: as_i32(field_or_absent(bits, at + 24, 25, true, 0x1FFFFFF, false, 0)),
        day: as_u8(field_or_absent(bits, at + 49, 5, false, 31, false, 0)),
        hour: as_u8(field_or_absent(bits, at + 54, 5, false, 31, false, 0)),
        minute: as_u8(field_or_absent(bits, at + 59, 6, false, 63, false, 0)),
        wind_speed_avg: as_u8(field_or_absent(bits, at + 65, 7, false, 127, false, 0)),
        wind_gust: as_u8(field_or_absent(bits, at + 72, 7, false, 127, false, 0)),
        wind_direction: as_u16(field_or_absent(bits, at + 79, 9, false, 511, true, 0)),
        wind_gust_direction: as_u16(field_or_absent(bits, at + 88, 9, false, 511, true, 0)),
        air_temperature: as_i16(field_or_absent(bits, at + 97, 11, false, 2047, false, -600)),
        humidity: as_u8(field_or_absent(bits, at + 108, 7, false, 127, false, 0)),
        dew_point: as_i16(field_or_absent(bits, at + 115, 10, false, 1023, false, -200)),
        air_pressure: as_u16(field_or_absent(bits, at + 125, 9, false, 511, false, 800)),
        pressure_tendency: as_u8(field_or_absent(bits, at + 134, 2, false, 3, false, 0)),
        visibility: as_u8(field_or_absent(bits, at + 136, 8, false, 255, false, 0)),
        water_level: as_i16(field_or_absent(bits, at + 144, 9, true, 511, false, -100)),
        water_level_trend: as_u8(field_or_absent(bits, at + 153, 2, false, 3, false, 0)),
        surface_current_speed: as_u8(field_or_absent(bits, at + 155, 8, false, 255, false, 0)),
        surface_current_direction: as_u16(field_or_absent(bits, at + 163, 9, false, 511, true, 0)),
        current_speed_2: as_u8(field_or_absent(bits, at + 172, 8, false, 255, false, 0)),
        current_direction_2: as_u16(field_or_absent(bits, at + 180, 9, false, 511, true, 0)),
        current_depth_2: as_u8(field_or_absent(bits, at + 189, 5, false, 31, false, 0)),
        current_speed_3: as_u8(field_or_absent(bits, at + 194, 8, false, 255, false, 0)),
        current_direction_3: as_u16(field_or_absent(bits, at + 202, 9, false, 511, true, 0)),
        current_depth_3: as_u8(field_or_absent(bits, at + 211, 5, false, 31, false, 0)),
        wave_height: as_u8(field_or_absent(bits, at + 216, 8, false, 255, false, 0)),
        wave_period: as_u8(field_or_absent(bits, at + 224, 6, false, 63, false, 0)),
        wave_direction: as_u16(field_or_absent(bits, at + 230, 9, false, 511, true, 0)),
        swell_height: as_u8(field_or_absent(bits, at + 239, 8, false, 255, false, 0)),
        swell_period: as_u8(field_or_absent(bits, at + 247, 6, false, 63, false, 0)),
        swell_direction: as_u16(field_or_absent(bits, at + 253, 9, false, 511, true, 0)),
        sea_state: as_u8(field_or_absent(bits, at + 262, 4, false, 13, true, 0)),
        water_temperature: as_i16(field_or_absent(bits, at + 266, 10, false, 1023, false, -100)),
        precipitation_type: as_u8(field_or_absent(bits, at + 276, 3, false, 7, false, 0)),
        salinity: as_u16(field_or_absent(bits, at + 279, 9, false, 511, true, 0)),
        ice: as_u8(field_or_absent(bits, at + 288, 2, false, 3, false, 0)),
    }
}

/// The three signed fields of the record: each is absent exactly where its
/// bits write its sentinel as an unsigned integer, which for the longitude
/// and the water level is all bits set, and else holds the two's-complement
/// integer of its bits, shifted by its offset.
pub proof fn lemma_signed_fields(bits: Seq<bool>, at: int)
    ensures
        meteo_hydro_11_at(bits, at).latitude == if field_value(bits, at, 24) == 0x7FFFFF {
            None
        } else {
            Some(signed_value(bits, at, 24) as i32)
        },
        meteo_hydro_11_at(bits, at).longitude == if field_value(bits, at + 24, 25) == 0x1FFFFFF {
            None
        } else {
            Some(signed_value(bits, at + 24, 25) as i32)
        },
        meteo_hydro_11_at(bits, at).water_level == if field_value(bits, at + 144, 9) == 511 {
            None
        } else {
            Some((signed_value(bits, at + 144, 9) - 100) as i16)
        },
{
}

/// What `parse_meteo_hydro_11` returns: the record, where `bits` holds the
/// 352 bits of one from bit `at` on, else nothing.
pub open spec fn meteo_hydro_11_of(bits: Seq<bool>, at: int) -> Option<MeteoHydroData11> {
    if bits.len() < at + METEO_HYDRO_11_BITS {
        None
    } else {
        Some(meteo_hydro_11_at(bits, at))
    }
}

/// Reads the record of DAC 1, FID 11 that starts at bit `offset`.
pub fn parse_meteo_hydro_11(bits: &Bits, offset: usize) -> (record: Option<MeteoHydroData11>)
    ensures
        record == meteo_hydro_11_of(bits@, offset as int),
{
    let len = bits.len();
    if len < offset || len - offset < METEO_HYDRO_11_BITS {
        return None;
    }
    proof {
        lemma2_to64();
    }
    Some(MeteoHydroData11 {
        latitude: i32_or_absent(bits, offset, 24, true, 0x7FFFFF, false, 0),
        longitude: i32_or_absent(bits, offset + 24, 25, true, 0x1FFFFFF, false, 0),
        day: u8_or_absent(bits, offset + 49, 5, false, 31, false, 0),
        hour: u8_or_absent(bits, offset + 54, 5, false, 31, false, 0),
        minute: u8_or_absent(bits, offset + 59, 6, false, 63, false, 0),
        wind_speed_avg: u8_or_absent(bits, offset + 65, 7, false, 127, false, 0),
        wind_gust: u8_or_absent(bits, offset + 72, 7, false, 127, false, 0),
        wind_direction: u16_or_absent(bits, offset + 79, 9, false, 511, true, 0),
        wind_gust_direction: u16_or_absent(bits, offset + 88, 9, false, 511, true, 0),
        air_temperature: i16_or_absent(bits, offset + 97, 11, false, 2047, false, -600),
        humidity: u8_or_absent(bits, offset + 108, 7, false, 127, false, 0),
        dew_point: i16_or_absent(bits, offset + 115, 10, false, 1023, false, -200),
        air_pressure: u16_or_absent(bits, offset + 125, 9, false, 511, false, 800),
        pressure_tendency: u8_or_absent(bits, offset + 134, 2, false, 3, false, 0),
        visibility: u8_or_absent(bits, offset + 136, 8, false, 255, false, 0),
        water_level: i16_or_absent(bits, offset + 144, 9, true, 511, false, -100),
        water_level_trend: u8_or_absent(bits, offset + 153, 2, false, 3, false, 0),
        surface_current_speed: u8_or_absent(bits, offset + 155, 8, false, 255, false, 0),
        surface_current_direction: u16_or_absent(bits, offset + 163, 9, false, 511, true, 0),
        current_speed_2: u8_or_absent(bits, offset + 172, 8, false, 255, false, 0),
        current_direction_2: u16_or_absent(bits, offset + 180, 9, false, 511, true, 0),
        current_depth_2: u8_or_absent(bits, offset + 189, 5, false, 31, false, 0),
        current_speed_3: u8_or_absent(bits, offset + 194, 8, false, 255, false, 0),
        current_direction_3: u16_or_absent(bits, offset + 202, 9, false, 511, true, 0),
        current_depth_3: u8_or_absent(bits, offset + 211, 5, false, 31, false, 0),
        wave_height: u8_or_absent(bits, offset + 216, 8, false, 255, false, 0),
        wave_period: u8_or_absent(bits, offset + 224, 6, false, 63, false, 0),
        wave_direction: u16_or_absent(bits, offset + 230, 9, false, 511, true, 0),
        swell_height: u8_or_absent(bits, offset + 239, 8, false, 255, false, 0),
        swell_period: u8_or_absent(bits, offset + 247, 6, false, 63, false, 0),
        swell_direction: u16_or_absent(bits, offset + 253, 9, false, 511, true, 0),
        sea_state: u8_or_absent(bits, offset + 262, 4, false, 13, true, 0),
        water_temperature: i16_or_absent(bits, offset + 266, 10, false, 1023, false, -100),
        precipitation_type: u8_or_absent(bits, offset + 276, 3, false, 7, false, 0),
        salinity: u16_or_absent(bits, offset + 279, 9, false, 511, true, 0),
        ice: u8_or_absent(bits, offset + 288, 2, false, 3, false, 0),
    })
}

/// DAC 1, FID 31: meteorological and hydrological data in the current
/// layout, which adds the accuracy of the position and a flag for visibility
/// beyond the range of its field.
#[derive(Clone, Copy, Debug, PartialEq)]
pub struct MeteoHydroData31 {
    /// Longitude in thousandths of a minute of arc, east positive; 60000 to the degree.
    pub longitude: Option<i32>,
    /// Latitude in thousandths of a minute of arc, north positive; 60000 to the degree.
    pub latitude: Option<i32>,
    /// Whether the position is accurate to 10 metres.
    pub position_accuracy: bool,
    /// Day of the month.
    pub day: Option<u8>,
    /// Hour of the day.
    pub hour: Option<u8>,
    /// Minute of the hour.
    pub minute: Option<u8>,
    /// Average wind speed in knots.
    pub wind_speed_avg: Option<u8>,
    /// Wind gust speed in knots.
    pub wind_gust: Option<u8>,
    /// Wind direction in degrees.
    pub wind_direction: Option<u16>,
    /// Wind gust direction in degrees.
    pub wind_gust_direction: Option<u16>,
    /// Air temperature in tenths of a degree Celsius.
    pub air_temperature: Option<i16>,
    /// Relative humidity in percent.
    pub humidity: Option<u8>,
    /// Dew point in tenths of a degree Celsius.
    pub dew_point: Option<i16>,
    /// Air pressure in hectopascal.
    pub air_pressure: Option<u16>,
    /// Pressure tendency: 0 steady, 1 decreasing, 2 increasing.
    pub pressure_tendency: Option<u8>,
    /// Whether the visibility is greater than the value given.
    pub visibility_greater_than: bool,
    /// Horizontal visibility in tenths of a nautical mile.
    pub visibility: Option<u8>,
    /// Water level in tenths of a metre.
    pub water_level: Option<i16>,
    /// Water level trend: 0 steady, 1 decreasing, 2 increasing.
    pub water_level_trend: Option<u8>,
    /// Surface current speed in tenths of a knot.
    pub surface_current_speed: Option<u8>,
    /// Surface current direction in degrees.
    pub surface_current_direction: Option<u16>,
    /// Speed of the second current in tenths of a knot.
    pub current_speed_2: Option<u8>,
    /// Direction of the second current in degrees.
    pub current_direction_2: Option<u16>,
    /// Depth at which the second current was measured, in tenths of a metre.
    pub current_depth_2: Option<u8>,
    /// Speed of the third current in tenths of a knot.
    pub current_speed_3: Option<u8>,
    /// Direction of the third current in degrees.
    pub current_direction_3: Option<u16>,
    /// Depth at which the third current was measured, in tenths of a metre.
    pub current_depth_3: Option<u8>,
    /// Significant wave height in tenths of a metre.
    pub wave_height: Option<u8>,
    /// Wave period in seconds.
    pub wave_period: Option<u8>,
    /// Wave direction in degrees.
    pub wave_direction: Option<u16>,
    /// Swell height in tenths of a metre.
    pub swell_height: Option<u8>,
    /// Swell period in seconds.
    pub swell_period: Option<u8>,
    /// Swell direction in degrees.
    pub swell_direction: Option<u16>,
    /// Sea state on the Beaufort scale.
    pub sea_state: Option<u8>,
    /// Water temperature in tenths of a degree Celsius.
    pub water_temperature: Option<i16>,
    /// Kind of precipitation.
    pub precipitation_type: Option<u8>,
    /// Salinity in tenths of a percent.
    pub salinity: Option<u16>,
    /// Ice: 0 no, 1 yes.
    pub ice: Option<u8>,
}

/// The payload of a binary broadcast message, by DAC and FID.
#[derive(Clone, Copy, Debug, PartialEq)]
pub enum Type8Payload {
    /// DAC 1, FID 11: meteorological and hydrological data, former layout.
    MeteoHydro11(MeteoHydroData11),
    /// DAC 1, FID 31: meteorological and hydrological data, current layout.
    MeteoHydro31(MeteoHydroData31),
    /// A pair of DAC and FID whose layout is not known here.
    Unsupported { dac: u16, fid: u8 },
}

/// What `parse_payload` returns. A record of DAC 1, FID 31 is never read, so
/// that pair gives nothing; a pair without a known layout gives itself back.
pub open spec fn payload_of(dac: u16, fid: u8, bits: Seq<bool>, at: int) -> Option<Type8Payload> {
    if dac == 1 && fid == 11 {
        match meteo_hydro_11_of(bits, at) {
            Some(record) => Some(Type8Payload::MeteoHydro11(record)),
            None => None,
        }
    } else if dac == 1 && fid == 31 {
        None
    } else {
        Some(Type8Payload::Unsupported { dac, fid })
    }
}

/// Reads the payload of a binary broadcast message with the given DAC and
/// FID, which starts at bit `bit_offset` of `bv`.
pub fn parse_payload(dac: u16, fid: u8, bv: &Bits, bit_offset: usize) -> (payload: Option<
    Type8Payload,
>)
    ensures
        payload == payload_of(dac, fid, bv@, bit_offset as int),
{
    if dac == 1 && fid == 11 {
        match parse_meteo_hydro_11(bv, bit_offset) {
            Some(record) => Some(Type8Payload::MeteoHydro11(record)),
            None => None,
        }
    } else if dac == 1 && fid == 31 {
        match parse_meteo_hydro_31(bv, bit_offset) {
            Some(record) => Some(Type8Payload::MeteoHydro31(record)),
            None => None,
        }
    } else {
        Some(Type8Payload::Unsupported { dac, fid })
    }
}

/// Reads the record of DAC 1, FID 31 that starts at bit `offset`. The layout
/// of its fields is not taken up here: no record is ever returned, whether
/// the 360 bits of one are there or not.
pub fn parse_meteo_hydro_31(bits: &Bits, offset: usize) -> (record: Option<MeteoHydroData31>)
    ensures
        record is None,
{
    None
}

} // verus!
