//! The ways in which parsing a link, or one of its fields, can fail.

use vstd::prelude::*;

verus! {

/// Why a link or one of its fields was rejected.
#[derive(Debug, PartialEq, Eq)]
pub enum ParseError {
    /// The link does not begin with `magnet:?`.
    MissingHeader,
    /// An exact topic names a hashing technology that is not known; holds the token.
    UnknownHashTechnology(String),
    /// An exact topic does not have the shape `urn:<tech>:<hash>`; holds the reason.
    MalformedExactTopic(String),
    /// A tracker address names a protocol that is not supported; holds the token.
    UnsupportedProtocol(String),
    /// A tracker address does not have the shape `<protocol>://<domain>:<port>`;
    /// holds the address.
    MalformedTrackerAddress(String),
    /// The port of a tracker address does not fit in sixteen bits.
    InvalidPort,
    /// The `xl` field is present but is not an unsigned 128-bit integer.
    InvalidLength,
    /// The pattern engine did not accept the pattern that a field is found by.
    InvalidPattern,
}

/// A `ParseError` with the text it carries as a sequence of characters.
pub ghost enum ParseFault {
    MissingHeader,
    UnknownHashTechnology(Seq<char>),
    MalformedExactTopic(Seq<char>),
    UnsupportedProtocol(Seq<char>),
    MalformedTrackerAddress(Seq<char>),
    InvalidPort,
    InvalidLength,
    InvalidPattern,
}

impl View for ParseError {
    type V = ParseFault;

    open spec fn view(&self) -> ParseFault {
        match self {
            ParseError::MissingHeader => ParseFault::MissingHeader,
            ParseError::UnknownHashTechnology(token) => ParseFault::UnknownHashTechnology(token@),
            ParseError::MalformedExactTopic(reason) => ParseFault::MalformedExactTopic(reason@),
            ParseError::UnsupportedProtocol(token) => ParseFault::UnsupportedProtocol(token@),
            ParseError::MalformedTrackerAddress(address) => ParseFault::MalformedTrackerAddress(
                address@,
            ),
            ParseError::InvalidPort => ParseFault::InvalidPort,
            ParseError::InvalidLength => ParseFault::InvalidLength,
            ParseError::InvalidPattern => ParseFault::InvalidPattern,
        }
    }
}

impl Clone for ParseError {
    /// An error of the same kind that carries the same text.
    fn clone(&self) -> (r: ParseError)
        ensures
            r@ == self@,
    {
        match self {
            ParseError::MissingHeader => ParseError::MissingHeader,
            ParseError::UnknownHashTechnology(token) => ParseError::UnknownHashTechnology(
                token.clone(),
            ),
            ParseError::MalformedExactTopic(reason) => ParseError::MalformedExactTopic(
                reason.clone(),
            ),
            ParseError::UnsupportedProtocol(token) => ParseError::UnsupportedProtocol(
                token.clone(),
            ),
            ParseError::MalformedTrackerAddress(address) => ParseError::MalformedTrackerAddress(
                address.clone(),
            ),
            ParseError::InvalidPort => ParseError::InvalidPort,
            ParseError::InvalidLength => ParseError::InvalidLength,
            ParseError::InvalidPattern => ParseError::InvalidPattern,
        }
    }
}

/// The outcome of a parse with its value and its error taken by their views.
pub open spec fn outcome<T: View>(r: Result<T, ParseError>) -> Result<T::V, ParseFault> {
    match r {
        Ok(value) => Ok(value@),
        Err(e) => Err(e@),
    }
}

} // verus!
