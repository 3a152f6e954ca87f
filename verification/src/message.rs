//! What a sentence parses to.

use vstd::prelude::*;
use crate::ais::vdm_t8::{BinaryBroadcastMessage, BinaryBroadcastMessageView};
use crate::ais::{AisLayout, Station};
use crate::bits::Bits;
use crate::gnss::{GnssSentenceKind, NavigationSystem};
use crate::tag_block::{TagBlock, TagBlockView};

verus! {

/// An AIS message of a type other than 8: its layout has been told, its
/// fields are still in its bits, for a reader of that layout to take out.
#[derive(Debug, PartialEq)]
pub struct AisMessage {
    /// The layout of the message.
    pub layout: AisLayout,
    /// The message type, a number from 1 to 27.
    pub message_type: u8,
    /// The kind of station that the sentence came from.
    pub station: Station,
    /// Whether the message is about the own vessel.
    pub own_vessel: bool,
    /// The bits of the message, those of the message type first.
    pub bits: Bits,
}

/// An `AisMessage` with its bits as a sequence.
pub struct AisMessageView {
    pub layout: AisLayout,
    pub message_type: u8,
    pub station: Station,
    pub own_vessel: bool,
    pub bits: Seq<bool>,
}

impl View for AisMessage {
    type V = AisMessageView;

    open spec fn view(&self) -> AisMessageView {
        AisMessageView {
            layout: self.layout,
            message_type: self.message_type,
            station: self.station,
            own_vessel: self.own_vessel,
            bits: self.bits@,
        }
    }
}

impl Clone for AisMessage {
    fn clone(&self) -> (copy: AisMessage)
        ensures
            copy@ == self@,
    {
        AisMessage {
            layout: self.layout,
            message_type: self.message_type,
            station: self.station,
            own_vessel: self.own_vessel,
            bits: self.bits.clone(),
        }
    }
}

/// A GNSS sentence: its type has been told, its fields are still in its text,
/// for a reader of that type to take out.
#[derive(Clone, Debug, PartialEq)]
pub struct GnssSentence {
    /// The type of the sentence.
    pub kind: GnssSentenceKind,
    /// The satellite system that the talker names.
    pub nav_system: NavigationSystem,
    /// The sentence from its `$` on, without its checksum.
    pub sentence: String,
}

/// A `GnssSentence` with its text as a sequence of characters.
pub struct GnssSentenceView {
    pub kind: GnssSentenceKind,
    pub nav_system: NavigationSystem,
    pub sentence: Seq<char>,
}

impl View for GnssSentence {
    type V = GnssSentenceView;

    open spec fn view(&self) -> GnssSentenceView {
        GnssSentenceView {
            kind: self.kind,
            nav_system: self.nav_system,
            sentence: self.sentence@,
        }
    }
}

/// What a sentence parses to.
#[derive(Clone, Debug, PartialEq)]
pub enum ParsedMessage {
    /// The sentence is one part of a message, and the message is not
    /// complete with it.
    Incomplete,
    /// AIS message type 8.
    BinaryBroadcastMessage(BinaryBroadcastMessage),
    /// An AIS message of another type.
    Ais(AisMessage),
    /// A GNSS sentence.
    Gnss(GnssSentence),
}

/// A `ParsedMessage` by the views of what it holds.
pub enum ParsedMessageView {
    Incomplete,
    BinaryBroadcastMessage(BinaryBroadcastMessageView),
    Ais(AisMessageView),
    Gnss(GnssSentenceView),
}

impl View for ParsedMessage {
    type V = ParsedMessageView;

    open spec fn view(&self) -> ParsedMessageView {
        match self {
            ParsedMessage::Incomplete => ParsedMessageView::Incomplete,
            ParsedMessage::BinaryBroadcastMessage(m) => ParsedMessageView::BinaryBroadcastMessage(
                m@,
            ),
            ParsedMessage::Ais(m) => ParsedMessageView::Ais(m@),
            ParsedMessage::Gnss(s) => ParsedMessageView::Gnss(s@),
        }
    }
}

/// A parsed message with the tag block that stood in front of its sentence.
#[derive(Clone, Debug, PartialEq)]
pub struct NmeaMessage {
    /// The message.
    pub message: ParsedMessage,
    /// The tag block, if there was one.
    pub tag_block: Option<TagBlock>,
}

/// An `NmeaMessage` by the views of what it holds.
pub struct NmeaMessageView {
    pub message: ParsedMessageView,
    pub tag_block: Option<TagBlockView>,
}

/// The view of a tag block that may be absent.
pub open spec fn tag_view(tag_block: Option<TagBlock>) -> Option<TagBlockView> {
    match tag_block {
        Some(tag) => Some(tag@),
        None => None,
    }
}

impl View for NmeaMessage {
    type V = NmeaMessageView;

    open spec fn view(&self) -> NmeaMessageView {
        NmeaMessageView { message: self.message@, tag_block: tag_view(self.tag_block) }
    }
}

impl NmeaMessage {
    /// A message with the tag block that came with it, if any.
    pub fn new(message: ParsedMessage, tag_block: Option<TagBlock>) -> (both: NmeaMessage)
        ensures
            both.message == message,
            both.tag_block == tag_block,
    {
        NmeaMessage { message, tag_block }
    }

    /// A message that came without a tag block.
    pub fn without_tag_block(message: ParsedMessage) -> (alone: NmeaMessage)
        ensures
            alone.message == message,
            alone.tag_block is None,
    {
        NmeaMessage { message, tag_block: None }
    }
}

} // verus!
