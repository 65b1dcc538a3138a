//! When things don't go as planned.

use vstd::prelude::*;

use crate::de::DeserializationError;
use crate::entities::EntityError;
use crate::event::push_text;
use crate::transforms::NormalizationError;

verus! {

/// The error type for all parsing and deserialization errors.
#[derive(Clone, Debug, PartialEq, Eq)]
pub enum Error {
    /// An error occurred when parsing SGML data.
    ///
    /// Parsing errors are at this point simplified, so that this error type
    /// has no dependencies on transient state.
    /// If you wish to capture more details from the parser, see
    /// [`Parser::parse_with_detailed_errors`](crate::parser::Parser::parse_with_detailed_errors).
    ParseError(String),
    /// An error occurred when deseralizing.
    DeserializationError(DeserializationError),
    /// An error occurred when normalizing end tags.
    NormalizationError(NormalizationError),
    /// An error occurred when decoding an entity reference.
    EntityError(EntityError),
    /// An error ocurred when processing a marked section.
    InvalidMarkedSectionKeyword(String),
}

/// The mathematical value of an [`Error`]: the same cases, with the texts
/// that the parser's errors hold as sequences of characters.
pub enum ErrorView {
    ParseError(Seq<char>),
    DeserializationError(DeserializationError),
    NormalizationError(NormalizationError),
    EntityError(Seq<char>),
    InvalidMarkedSectionKeyword(Seq<char>),
}

impl View for Error {
    type V = ErrorView;

    open spec fn view(&self) -> ErrorView {
        match *self {
            Error::ParseError(s) => ErrorView::ParseError(s@),
            Error::DeserializationError(e) => ErrorView::DeserializationError(e),
            Error::NormalizationError(e) => ErrorView::NormalizationError(e),
            Error::EntityError(e) => ErrorView::EntityError(e.0@),
            Error::InvalidMarkedSectionKeyword(s) => ErrorView::InvalidMarkedSectionKeyword(s@),
        }
    }
}

impl Error {
    /// The message of an error.
    pub open spec fn message(e: ErrorView) -> Seq<char> {
        match e {
            ErrorView::ParseError(s) => s,
            ErrorView::DeserializationError(e) => e.message(),
            ErrorView::NormalizationError(e) => e.message(),
            ErrorView::EntityError(name) => EntityError::message(name),
            ErrorView::InvalidMarkedSectionKeyword(s) => "invalid marked section keyword: "@ + s,
        }
    }

    /// Appends to `out` the message of the error.
    pub fn write_to(&self, out: &mut String)
        ensures
            final(out)@ == old(out)@ + Self::message(self@),
    {
        match self {
            Error::ParseError(s) => {
                push_text(out, s.as_str());
            },
            Error::DeserializationError(e) => {
                let s = e.to_string();
                push_text(out, s.as_str());
            },
            Error::NormalizationError(e) => {
                let s = e.to_string();
                push_text(out, s.as_str());
            },
            Error::EntityError(e) => {
                let s = e.to_string();
                push_text(out, s.as_str());
            },
            Error::InvalidMarkedSectionKeyword(s) => {
                push_text(out, "invalid marked section keyword: ");
                push_text(out, s.as_str());
                assert(out@ == old(out)@ + ("invalid marked section keyword: "@ + s@));
            },
        }
    }

    /// The message of the error.
    pub fn to_string(&self) -> (s: String)
        ensures
            s@ == Self::message(self@),
    {
        let mut s = String::new();
        self.write_to(&mut s);
        s
    }
}

} // verus!
