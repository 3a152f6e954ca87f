//! AIS messages: the stations that send them and the layouts they come in.

use vstd::prelude::*;
use vstd::string::*;
use crate::ais::vdm_t8::handled;
use crate::bits::{field_value, lemma_field_value_bounds, unsigned_field, Bits};
use crate::error::{ParseError, ParseErrorView};
use crate::fragments::sentence_name;
use crate::message::{AisMessage, AisMessageView, ParsedMessage, ParsedMessageView};
use crate::text::{decimal, decimal_text, to_chars};

pub mod vdm_t8;

verus! {

/// The kind of AIS station that a talker identifier names.
#[derive(Clone, Copy, Debug, PartialEq, Eq, Structural)]
pub enum Station {
    /// Base station (`AB`).
    BaseStation,
    /// Dependent base station (`AD`).
    DependentAisBaseStation,
    /// Mobile station, the most common (`AI`).
    MobileStation,
    /// Aid to navigation station (`AN`).
    AidToNavigationStation,
    /// Receiving station (`AR`).
    AisReceivingStation,
    /// Limited base station (`AS`).
    LimitedBaseStation,
    /// Transmitting station (`AT`).
    AisTransmittingStation,
    /// Repeater station (`AX`).
    RepeaterStation,
    /// Any other talker.
    Other,
}

/// The station that the two characters of a talker identifier name.
pub open spec fn station_for(first: char, second: char) -> Station {
    if first != 'A' {
        Station::Other
    } else if second == 'B' {
        Station::BaseStation
    } else if second == 'D' {
        Station::DependentAisBaseStation
    } else if second == 'I' {
        Station::MobileStation
    } else if second == 'N' {
        Station::AidToNavigationStation
    } else if second == 'R' {
        Station::AisReceivingStation
    } else if second == 'S' {
        Station::LimitedBaseStation
    } else if second == 'T' {
        Station::AisTransmittingStation
    } else if second == 'X' {
        Station::RepeaterStation
    } else {
        Station::Other
    }
}

/// The station that a talker names by its first two characters; an error for
/// a talker of fewer than two.
pub open spec fn station_of(talker: Seq<char>) -> Result<Station, ParseErrorView> {
    if talker.len() < 2 {
        Err(ParseErrorView::InvalidSentence("Invalid station identifier"@))
    } else {
        Ok(station_for(talker[0], talker[1]))
    }
}

impl Station {
    /// The station named by the two characters `first` and `second`.
    pub fn for_letters(first: char, second: char) -> (station: Station)
        ensures
            station == station_for(first, second),
    {
        if first != 'A' {
            Station::Other
        } else if second == 'B' {
            Station::BaseStation
        } else if second == 'D' {
            Station::DependentAisBaseStation
        } else if second == 'I' {
            Station::MobileStation
        } else if second == 'N' {
            Station::AidToNavigationStation
        } else if second == 'R' {
            Station::AisReceivingStation
        } else if second == 'S' {
            Station::LimitedBaseStation
        } else if second == 'T' {
            Station::AisTransmittingStation
        } else if second == 'X' {
            Station::RepeaterStation
        } else {
            Station::Other
        }
    }

    /// The station that a talker identifier names, such as `AI` or the
    /// `AIVDM` that starts with it.
    pub fn from_talker(talker: &str) -> (result: Result<Station, ParseError>)
        ensures
            match result {
                Ok(station) => station_of(talker@) == Ok::<Station, ParseErrorView>(station),
                Err(e) => station_of(talker@) == Err::<Station, ParseErrorView>(e@),
            },
    {
        let chars = to_chars(talker);
        if chars.len() < 2 {
            Err(ParseError::InvalidSentence(String::from_str("Invalid station identifier")))
        } else {
            Ok(Station::for_letters(chars[0], chars[1]))
        }
    }
}

impl Default for Station {
    fn default() -> (station: Station)
        ensures
            station == Station::Other,
    {
        Station::Other
    }
}

/// The layout of an AIS message, by its message type. Types 7 and 8 are not
/// among them: type 7 is not handled, type 8 is read in full.
#[derive(Clone, Copy, Debug, PartialEq, Eq, Structural)]
pub enum AisLayout {
    /// Position report with SOTDMA or ITDMA (types 1, 2 and 3).
    PositionReport,
    /// Base station report (type 4).
    BaseStationReport,
    /// Ship static and voyage related data (type 5).
    StaticAndVoyageData,
    /// Addressed binary message (type 6).
    AddressedBinaryMessage,
    /// Standard SAR aircraft position report (type 9).
    StandardSarAircraftPositionReport,
    /// UTC and date inquiry (type 10).
    UtcDateInquiry,
    /// UTC and date response (type 11).
    UtcDateResponse,
    /// Addressed safety related message (type 12).
    AddressedSafetyRelatedMessage,
    /// Safety related acknowledge (type 13).
    SafetyRelatedAcknowledge,
    /// Safety related broadcast message (type 14).
    SafetyRelatedBroadcastMessage,
    /// Interrogation (type 15).
    Interrogation,
    /// Assigned mode command (type 16).
    AssignedModeCommand,
    /// GNSS binary broadcast message (type 17).
    GnssBinaryBroadcastMessage,
    /// Standard class B CS position report (type 18).
    StandardClassBPositionReport,
    /// Extended class B equipment position report (type 19).
    ExtendedClassBPositionReport,
    /// Data link management (type 20).
    DataLinkManagement,
    /// Aid to navigation report (type 21).
    AidToNavigationReport,
    /// Channel management (type 22).
    ChannelManagement,
    /// Group assignment command (type 23).
    GroupAssignmentCommand,
    /// Class B CS static data report (type 24).
    ClassBStaticDataReport,
    /// Single slot binary message (type 25).
    SingleSlotBinaryMessage,
    /// Multiple slot binary message (type 26).
    MultipleSlotBinaryMessage,
    /// Long range AIS broadcast message (type 27).
    LongRangeBroadcastMessage,
}

/// The layout that the message type `code` has, if it is one handed on.
pub open spec fn layout_for(code: int) -> Option<AisLayout> {
    if 1 <= code && code <= 3 {
        Some(AisLayout::PositionReport)
    } else if code == 4 {
        Some(AisLayout::BaseStationReport)
    } else if code == 5 {
        Some(AisLayout::StaticAndVoyageData)
    } else if code == 6 {
        Some(AisLayout::AddressedBinaryMessage)
    } else if code == 9 {
        Some(AisLayout::StandardSarAircraftPositionReport)
    } else if code == 10 {
        Some(AisLayout::UtcDateInquiry)
    } else if code == 11 {
        Some(AisLayout::UtcDateResponse)
    } else if code == 12 {
        Some(AisLayout::AddressedSafetyRelatedMessage)
    } else if code == 13 {
        Some(AisLayout::SafetyRelatedAcknowledge)
    } else if code == 14 {
        Some(AisLayout::SafetyRelatedBroadcastMessage)
    } else if code == 15 {
        Some(AisLayout::Interrogation)
    } else if code == 16 {
        Some(AisLayout::AssignedModeCommand)
    } else if code == 17 {
        Some(AisLayout::GnssBinaryBroadcastMessage)
    } else if code == 18 {
        Some(AisLayout::StandardClassBPositionReport)
    } else if code == 19 {
        Some(AisLayout::ExtendedClassBPositionReport)
    } else if code == 20 {
        Some(AisLayout::DataLinkManagement)
    } else if code == 21 {
        Some(AisLayout::AidToNavigationReport)
    } else if code == 22 {
        Some(AisLayout::ChannelManagement)
    } else if code == 23 {
        Some(AisLayout::GroupAssignmentCommand)
    } else if code == 24 {
        Some(AisLayout::ClassBStaticDataReport)
    } else if code == 25 {
        Some(AisLayout::SingleSlotBinaryMessage)
    } else if code == 26 {
        Some(AisLayout::MultipleSlotBinaryMessage)
    } else if code == 27 {
        Some(AisLayout::LongRangeBroadcastMessage)
    } else {
        None
    }
}

/// The message of the error for a message type that is not handled.
pub open spec fn unsupported_type_message(own_vessel: bool, code: nat) -> Seq<char> {
    "Unsupported "@ + sentence_name(own_vessel) + " message type: "@ + decimal_text(code)
}

/// What `dispatch` returns for `bits`. The message type is the unsigned
/// integer of the first six bits. A message of type 8 is read in full; one of
/// a type from 1 to 27 other than 7 and 8 is handed on with its layout told;
/// any other type is an error.
pub open spec fn dispatched(bits: Seq<bool>, station: Station, own_vessel: bool) -> Result<
    ParsedMessageView,
    ParseErrorView,
> {
    let code = field_value(bits, 0, 6);
    if code == 8 {
        match handled(bits, station, own_vessel) {
            Ok(message) => Ok(ParsedMessageView::BinaryBroadcastMessage(message)),
            Err(e) => Err(e),
        }
    } else {
        match layout_for(code as int) {
            Some(layout) => Ok(
                ParsedMessageView::Ais(
                    AisMessageView { layout, message_type: code as u8, station, own_vessel, bits },
                ),
            ),
            None => Err(
                ParseErrorView::UnsupportedSentenceType(unsupported_type_message(own_vessel, code)),
            ),
        }
    }
}

impl AisLayout {
    /// The layout that the message type `code` has.
    pub fn for_type(code: u64) -> (layout: Option<AisLayout>)
        ensures
            layout == layout_for(code as int),
    {
        if 1 <= code && code <= 3 {
            Some(AisLayout::PositionReport)
        } else if code == 4 {
            Some(AisLayout::BaseStationReport)
        } else if code == 5 {
            Some(AisLayout::StaticAndVoyageData)
        } else if code == 6 {
            Some(AisLayout::AddressedBinaryMessage)
        } else if code == 9 {
            Some(AisLayout::StandardSarAircraftPositionReport)
        } else if code == 10 {
            Some(AisLayout::UtcDateInquiry)
        } else if code == 11 {
            Some(AisLayout::UtcDateResponse)
        } else if code == 12 {
            Some(AisLayout::AddressedSafetyRelatedMessage)
        } else if code == 13 {
            Some(AisLayout::SafetyRelatedAcknowledge)
        } else if code == 14 {
            Some(AisLayout::SafetyRelatedBroadcastMessage)
        } else if code == 15 {
            Some(AisLayout::Interrogation)
        } else if code == 16 {
            Some(AisLayout::AssignedModeCommand)
        } else if code == 17 {
            Some(AisLayout::GnssBinaryBroadcastMessage)
        } else if code == 18 {
            Some(AisLayout::StandardClassBPositionReport)
        } else if code == 19 {
            Some(AisLayout::ExtendedClassBPositionReport)
        } else if code == 20 {
            Some(AisLayout::DataLinkManagement)
        } else if code == 21 {
            Some(AisLayout::AidToNavigationReport)
        } else if code == 22 {
            Some(AisLayout::ChannelManagement)
        } else if code == 23 {
            Some(AisLayout::GroupAssignmentCommand)
        } else if code == 24 {
            Some(AisLayout::ClassBStaticDataReport)
        } else if code == 25 {
            Some(AisLayout::SingleSlotBinaryMessage)
        } else if code == 26 {
            Some(AisLayout::MultipleSlotBinaryMessage)
        } else if code == 27 {
            Some(AisLayout::LongRangeBroadcastMessage)
        } else {
            None
        }
    }
}

/// Routes a message by its type, the first six bits of `bits`.
pub fn dispatch(bits: Bits, station: Station, own_vessel: bool) -> (result: Result<
    ParsedMessage,
    ParseError,
>)
    ensures
        match result {
            Ok(message) => dispatched(bits@, station, own_vessel) == Ok::<
                ParsedMessageView,
                ParseErrorView,
            >(message@),
            Err(e) => dispatched(bits@, station, own_vessel) == Err::<
                ParsedMessageView,
                ParseErrorView,
            >(e@),
        },
{
    proof {
        vstd::arithmetic::power2::lemma2_to64();
        lemma_field_value_bounds(bits@, 0, 6);
    }
    let code = unsigned_field(&bits, 0, 6);
    if code == 8 {
        match vdm_t8::handle(&bits, station, own_vessel) {
            Ok(message) => Ok(ParsedMessage::BinaryBroadcastMessage(message)),
            Err(e) => Err(e),
        }
    } else {
        match AisLayout::for_type(code) {
            Some(layout) => Ok(
                ParsedMessage::Ais(
                    AisMessage { layout, message_type: code as u8, station, own_vessel, bits },
                ),
            ),
            None => {
                let name = if own_vessel {
                    "!VDO"
                } else {
                    "!VDM"
                };
                let message = String::from_str("Unsupported ").concat(name).concat(
                    " message type: ",
                ).concat(decimal(code).as_str());
                assert(message@ =~= unsupported_type_message(own_vessel, code as nat));
                Err(ParseError::UnsupportedSentenceType(message))
            },
        }
    }
}

} // verus!
