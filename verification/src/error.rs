//! Error type of email parsing.

use vstd::prelude::*;
use vstd::string::*;

verus! {

/// Errors that can occur during email parsing.
#[derive(Debug, Clone, PartialEq, Eq)]
pub enum ParseError {
    /// Failed to parse the email structure.
    Structure(String),
    /// Failed to decode email content.
    Decode(String),
    /// Missing required header.
    MissingHeader(String),
    /// Invalid header format.
    InvalidHeader { header: String, details: String },
    /// Invalid date format.
    InvalidDate(String),
}

/// The message of an error.
pub open spec fn error_message(e: ParseError) -> Seq<char> {
    match e {
        ParseError::Structure(m) => "Failed to parse email structure: "@ + m@,
        ParseError::Decode(m) => "Failed to decode content: "@ + m@,
        ParseError::MissingHeader(h) => "Missing required header: "@ + h@,
        ParseError::InvalidHeader { header, details } => "Invalid header format for "@ + header@
            + ": "@ + details@,
        ParseError::InvalidDate(d) => "Invalid date format: "@ + d@,
    }
}

impl ParseError {
    /// The message of this error.
    pub fn to_string(&self) -> (r: String)
        ensures
            r@ == error_message(*self),
    {
        match self {
            ParseError::Structure(m) => "Failed to parse email structure: ".to_owned().concat(
                m.as_str(),
            ),
            ParseError::Decode(m) => "Failed to decode content: ".to_owned().concat(m.as_str()),
            ParseError::MissingHeader(h) => "Missing required header: ".to_owned().concat(
                h.as_str(),
            ),
            ParseError::InvalidHeader { header, details } => "Invalid header format for ".to_owned(
            ).concat(header.as_str()).concat(": ").concat(details.as_str()),
            ParseError::InvalidDate(d) => "Invalid date format: ".to_owned().concat(d.as_str()),
        }
    }
}

} // verus!
