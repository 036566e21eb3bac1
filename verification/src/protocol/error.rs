//! What can go wrong while bytes are exchanged with a server.

use crate::number;
use vstd::prelude::*;
use vstd::string::*;

verus! {

/// The kinds of fields that bytes are read for.
#[derive(Clone, Copy, Debug)]
pub enum Field {
    /// A byte of a `VarInt`, or a number of a fixed width.
    Number,
    /// Bytes, the count of which was read before.
    Bytes,
}

/// Why no further byte could be read or written.
#[derive(Debug)]
pub enum IoError {
    /// The bytes at hand ended inside a field, and at least `missing` more are needed.
    UnexpectedEof {
        /// The field that the bytes ended in.
        field: Field,
        /// The number of bytes that have to follow before reading on is of any use.
        missing: usize,
    },
    /// The packet that this field belongs to ended inside the field.
    FrameEnd(Field),
    /// The underlying byte stream reported this failure.
    Stream(String),
}

/// The internal error type for all errors related to the protocol communication.
///
/// This includes errors with the expected packets, packet contents or encoding of the exchanged fields.
#[derive(Debug)]
pub enum Error {
    /// An error occurred while reading or writing to the underlying byte stream.
    Io(IoError),
    /// The received packet is of an invalid length that we cannot process.
    IllegalPacketLength,
    /// The received `VarInt` cannot be correctly decoded (was formed incorrectly).
    InvalidVarInt,
    /// The received packet ID is not mapped to an expected packet.
    IllegalPacketId {
        /// The expected value that should be present.
        expected: usize,
        /// The actual value that was observed.
        actual: usize,
    },
    /// The JSON response of the status packet is incorrectly encoded (not UTF-8).
    InvalidEncoding,
    /// The current time is before the unix epoch: should not happen.
    TimeUnavailable(String),
}

impl IoError {
    /// The text that describes this error.
    pub open spec fn text(&self) -> Seq<char> {
        match self {
            IoError::UnexpectedEof { field: Field::Number, .. } => "unexpected end of file"@,
            IoError::UnexpectedEof { field: Field::Bytes, .. } => "early eof"@,
            IoError::FrameEnd(Field::Number) => "unexpected end of file"@,
            IoError::FrameEnd(Field::Bytes) => "early eof"@,
            IoError::Stream(cause) => cause@,
        }
    }

    /// Returns the text that describes this error.
    pub fn message(&self) -> (text: String)
        ensures
            text@ == self.text(),
    {
        let field = match self {
            IoError::UnexpectedEof { field, .. } => field,
            IoError::FrameEnd(field) => field,
            IoError::Stream(cause) => return cause.clone(),
        };
        match field {
            Field::Number => "unexpected end of file".to_owned(),
            Field::Bytes => "early eof".to_owned(),
        }
    }
}

impl Error {
    /// The text that describes this error.
    pub open spec fn text(&self) -> Seq<char> {
        match self {
            Error::Io(error) => "error reading or writing data: "@ + error.text(),
            Error::IllegalPacketLength => "illegal packet length"@,
            Error::InvalidVarInt => "invalid VarInt data"@,
            Error::IllegalPacketId { expected, actual } => "illegal packet ID: "@ + number::decimal(
                *actual as nat,
            ) + " (expected "@ + number::decimal(*expected as nat) + ")"@,
            Error::InvalidEncoding => "invalid ServerListPing response body (invalid encoding)"@,
            Error::TimeUnavailable(cause) => "unix epoch could not be calculated: "@ + cause@,
        }
    }

    /// Returns the text that describes this error.
    pub fn message(&self) -> (text: String)
        ensures
            text@ == self.text(),
    {
        match self {
            Error::Io(error) => {
                let mut text = "error reading or writing data: ".to_owned();
                text.append(error.message().as_str());
                text
            },
            Error::IllegalPacketLength => "illegal packet length".to_owned(),
            Error::InvalidVarInt => "invalid VarInt data".to_owned(),
            Error::IllegalPacketId { expected, actual } => {
                let mut text = "illegal packet ID: ".to_owned();
                text.append(number::to_decimal(*actual as u64).as_str());
                text.append(" (expected ");
                text.append(number::to_decimal(*expected as u64).as_str());
                text.append(")");
                text
            },
            Error::InvalidEncoding => "invalid ServerListPing response body (invalid encoding)".to_owned(),
            Error::TimeUnavailable(cause) => {
                let mut text = "unix epoch could not be calculated: ".to_owned();
                text.append(cause.as_str());
                text
            },
        }
    }
}

} // verus!
