//! Why encoding or decoding a message fails.

use vstd::prelude::*;
use vstd::string::StringExecFns;
use crate::text::{decimal_string, spec_decimal_text};

verus! {

/// The two broad classes a decode failure falls into.
#[derive(Clone, Copy, Debug, PartialEq, Eq, Structural)]
pub enum ErrorKind {
    /// The buffer ended before the value was complete.
    UnexpectedEof,
    /// The bytes were there but do not form a valid message.
    InvalidData,
}

/// Why a message, or a part of one, could not be decoded.
#[derive(Clone, Copy, Debug, PartialEq, Eq, Structural)]
pub enum DecodeError {
    /// The buffer ended before the value was complete.
    UnexpectedEof,
    /// The header's operation code is not an assigned one.
    InvalidOpcode,
    /// The header's response code is not an assigned one.
    InvalidResponseCode,
    /// The record or query type code, carried along, is not a known one.
    InvalidQueryType(u16),
    /// The class code is not a known one.
    InvalidDomainClass,
    /// A name is not valid UTF-8.
    InvalidUtf8,
    /// A name chains more compression pointers than a decoder follows.
    TooManyPointers,
}

impl DecodeError {
    pub open spec fn spec_kind(self) -> ErrorKind {
        match self {
            DecodeError::UnexpectedEof => ErrorKind::UnexpectedEof,
            _ => ErrorKind::InvalidData,
        }
    }

    /// The class of this failure: running out of bytes, or bad bytes.
    pub fn kind(&self) -> (k: ErrorKind)
        ensures
            k == self.spec_kind(),
    {
        match self {
            DecodeError::UnexpectedEof => ErrorKind::UnexpectedEof,
            _ => ErrorKind::InvalidData,
        }
    }
}

impl DecodeError {
    /// What went wrong, in words.
    pub open spec fn spec_message(self) -> Seq<char> {
        match self {
            DecodeError::UnexpectedEof => "failed to fill whole buffer"@,
            DecodeError::InvalidOpcode => "Invalid query operation code"@,
            DecodeError::InvalidResponseCode => "Invalid response code"@,
            DecodeError::InvalidQueryType(code) => "Invalid query type: "@ + spec_decimal_text(
                code as nat,
            ),
            DecodeError::InvalidDomainClass => "Invalid domain class"@,
            DecodeError::InvalidUtf8 => "Invalid UTF-8 in a name"@,
            DecodeError::TooManyPointers => "Too many compression pointers in a name"@,
        }
    }

    /// Says in words what went wrong.
    pub fn message(&self) -> (text: String)
        ensures
            text@ == self.spec_message(),
    {
        match self {
            DecodeError::UnexpectedEof => "failed to fill whole buffer".to_owned(),
            DecodeError::InvalidOpcode => "Invalid query operation code".to_owned(),
            DecodeError::InvalidResponseCode => "Invalid response code".to_owned(),
            DecodeError::InvalidQueryType(code) => {
                let mut text = "Invalid query type: ".to_owned();
                text.append(decimal_string(*code as u64).as_str());
                text
            },
            DecodeError::InvalidDomainClass => "Invalid domain class".to_owned(),
            DecodeError::InvalidUtf8 => "Invalid UTF-8 in a name".to_owned(),
            DecodeError::TooManyPointers => "Too many compression pointers in a name".to_owned(),
        }
    }
}

impl EncodeError {
    /// What went wrong, in words.
    pub open spec fn spec_message(self) -> Seq<char> {
        "label length greater than 255"@
    }

    /// Says in words what went wrong.
    pub fn message(&self) -> (text: String)
        ensures
            text@ == self.spec_message(),
    {
        "label length greater than 255".to_owned()
    }
}

/// Why a message could not be encoded.
#[derive(Clone, Copy, Debug, PartialEq, Eq, Structural)]
pub enum EncodeError {
    /// A label of the name is longer than the 255 bytes a length byte can state.
    LabelTooLong,
}

} // verus!
