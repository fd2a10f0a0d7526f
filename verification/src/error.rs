use vstd::prelude::*;

verus! {

/// Every way an operation of this crate can fail.
#[derive(Debug, Clone, Copy, PartialEq, Eq, Structural)]
pub enum Error {
    /// A chunk type code holds a byte that is not an ASCII letter.
    InvalidChunkType,
    /// The input ends before a field or the declared data does.
    Truncated,
    /// The stored checksum differs from the one computed over type and data.
    CrcMismatch,
    /// The input does not start with the PNG signature.
    SignatureMismatch,
    /// No chunk of the requested type is in the document.
    NotFound,
    /// The chunk data is not valid UTF-8.
    EncodingError,
}

impl Error {
    /// A short description of the failure.
    pub fn message(&self) -> (r: &'static str)
        ensures
            r@ == Self::message_of(*self)@,
    {
        match self {
            Error::InvalidChunkType => "Invalid ChunkType",
            Error::Truncated => "Unexpected end of input",
            Error::CrcMismatch => "CRC does not match",
            Error::SignatureMismatch => "Invalid PNG signature",
            Error::NotFound => "No chunk with the specified type was found in the file",
            Error::EncodingError => "Chunk data is not valid UTF-8",
        }
    }

    /// The description that `message` returns for each failure.
    pub open spec fn message_of(e: Error) -> &'static str {
        match e {
            Error::InvalidChunkType => "Invalid ChunkType",
            Error::Truncated => "Unexpected end of input",
            Error::CrcMismatch => "CRC does not match",
            Error::SignatureMismatch => "Invalid PNG signature",
            Error::NotFound => "No chunk with the specified type was found in the file",
            Error::EncodingError => "Chunk data is not valid UTF-8",
        }
    }
}

} // verus!
