//! The ways in which a sentence can fail to parse.

use vstd::prelude::*;

verus! {

/// Why a sentence was refused. Each variant carries a message for a person.
#[derive(Clone, Debug, PartialEq)]
pub enum ParseError {
    /// The checksum does not match, or a field holds text of the wrong type.
    CorruptedSentence(String),
    /// The sentence is not built as a sentence has to be.
    InvalidSentence(String),
    /// The framing is sound, the sentence or message type is not handled.
    UnsupportedSentenceType(String),
}

/// A `ParseError` with its message as a sequence of characters.
pub enum ParseErrorView {
    CorruptedSentence(Seq<char>),
    InvalidSentence(Seq<char>),
    UnsupportedSentenceType(Seq<char>),
}

impl View for ParseError {
    type V = ParseErrorView;

    open spec fn view(&self) -> ParseErrorView {
        match self {
            ParseError::CorruptedSentence(m) => ParseErrorView::CorruptedSentence(m@),
            ParseError::InvalidSentence(m) => ParseErrorView::InvalidSentence(m@),
            ParseError::UnsupportedSentenceType(m) => ParseErrorView::UnsupportedSentenceType(m@),
        }
    }
}

/// A result by the view of what it holds.
pub open spec fn outcome<T: View>(result: Result<T, ParseError>) -> Result<T::V, ParseErrorView> {
    match result {
        Ok(value) => Ok(value@),
        Err(e) => Err(e@),
    }
}

impl ParseErrorView {
    /// The message, whatever the variant.
    pub open spec fn message(self) -> Seq<char> {
        match self {
            ParseErrorView::CorruptedSentence(m) => m,
            ParseErrorView::InvalidSentence(m) => m,
            ParseErrorView::UnsupportedSentenceType(m) => m,
        }
    }
}

impl ParseError {
    /// The message that the error carries.
    pub fn message(&self) -> (text: String)
        ensures
            text@ == self@.message(),
    {
        match self {
            ParseError::CorruptedSentence(m) => m.clone(),
            ParseError::InvalidSentence(m) => m.clone(),
            ParseError::UnsupportedSentenceType(m) => m.clone(),
        }
    }
}

} // verus!
