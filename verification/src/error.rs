//! Error values reported by the codec.

use vstd::prelude::*;

verus! {

/// Why a byte buffer or a text could not be read as a chunk or a chunk type.
#[derive(Debug, Clone, Copy, PartialEq, Eq, Structural)]
pub enum FormatError {
    /// The buffer is shorter than the smallest possible chunk.
    InvalidChunkLength,
    /// The length field promises more payload than the buffer holds.
    DataOutOfBounds,
    /// The stored checksum differs from the one computed over type and payload.
    CrcMismatch,
    /// The text is not exactly four ASCII letters.
    InvalidChunkType,
}

/// The bytes asked for as text are not valid UTF-8.
#[derive(Debug, Clone, Copy, PartialEq, Eq, Structural)]
pub enum EncodingError {
    /// The byte sequence is not a valid UTF-8 encoding.
    InvalidUtf8,
}

impl FormatError {
    /// The text of the message for each error.
    pub open spec fn message_text(self) -> Seq<char> {
        match self {
            FormatError::InvalidChunkLength => "invalid chunk length"@,
            FormatError::DataOutOfBounds => "chunk data out of bounds"@,
            FormatError::CrcMismatch => "CRC mismatch"@,
            FormatError::InvalidChunkType => "invalid chunk type"@,
        }
    }

    /// A short message that says what was wrong.
    pub fn message(&self) -> (text: &'static str)
        ensures
            text@ == self.message_text(),
    {
        match self {
            FormatError::InvalidChunkLength => "invalid chunk length",
            FormatError::DataOutOfBounds => "chunk data out of bounds",
            FormatError::CrcMismatch => "CRC mismatch",
            FormatError::InvalidChunkType => "invalid chunk type",
        }
    }
}

impl EncodingError {
    /// The text of the message.
    pub open spec fn message_text(self) -> Seq<char> {
        "not valid utf8"@
    }

    /// A short message that says what was wrong.
    pub fn message(&self) -> (text: &'static str)
        ensures
            text@ == self.message_text(),
    {
        "not valid utf8"
    }
}

} // verus!
