//! The errors that encoding and decoding can end in.
//!
//! Every failure of the codec is one of the variants below. The variants that
//! carry a `String` report a failure of the value that is being encoded or of
//! the shape that receives a decoded value; the others are failures of the
//! codec itself or of the sink or source behind it.

use vstd::prelude::*;
use vstd::std_specs::convert::FromSpecImpl;

verus! {

/// The error of the sink or source behind the codec. The codec only carries
/// such a value from the place where it arose to the caller.
#[verifier::external_type_specification]
#[verifier::external_body]
pub struct ExIoError(std::io::Error);

/// The main error type, holds either an [EncodeError] or a [DecodeError].
#[derive(Debug)]
pub enum Error {
    /// Error while encoding a CBOR data sequence.
    Encode(EncodeError),
    /// Error while decoding a CBOR data sequence.
    Decode(DecodeError),
}

/// Represents an error while encoding a CBOR data sequence.
#[derive(Debug)]
pub enum EncodeError {
    /// The value that is being encoded cannot be represented; the text is the
    /// one that the value or its driver gave.
    Serialization(String),
    /// Writing to the sink failed.
    IO(std::io::Error),
    /// A length or magnitude does not fit in 64 bits, so no argument can hold it.
    LengthOutOfBounds,
}

/// Represents an error while decoding a CBOR data sequence.
#[derive(Debug)]
pub enum DecodeError {
    /// The shape that receives the decoded value refused it; the text is the
    /// one that the shape or its driver gave.
    Deserialization(String),
    /// Reading from the source failed.
    IO(std::io::Error),
    /// The bytes are no well-formed encoding: a reserved additional-information
    /// code, an indefinite length where none is allowed, an argument wider than
    /// its value needs, input that ends inside an item, text that is no UTF-8,
    /// a break where none may stand, or nesting beyond the ceiling.
    Malformed,
    /// The item is well-formed but of another kind than the one asked for.
    TypeMismatch,
    /// The number is well-formed but does not fit the width asked for.
    Overflow,
}

impl EncodeError {
    /// The text that describes the error, one fixed line for each variant.
    pub open spec fn message_text(&self) -> Seq<char> {
        match self {
            EncodeError::Serialization(_) => "Error when serializing"@,
            EncodeError::IO(_) => "Input/Output error"@,
            EncodeError::LengthOutOfBounds => "Cannot encode a length or magnitude of 2^64 or more"@,
        }
    }

    /// Describes the error in one line.
    pub fn message(&self) -> (text: String)
        ensures
            text@ == self.message_text(),
    {
        match self {
            EncodeError::Serialization(_) => "Error when serializing".to_owned(),
            EncodeError::IO(_) => "Input/Output error".to_owned(),
            EncodeError::LengthOutOfBounds => "Cannot encode a length or magnitude of 2^64 or more".to_owned(),
        }
    }

    /// The error by which a value reports that it cannot be encoded.
    pub fn custom(msg: &str) -> (error: EncodeError)
        ensures
            error matches EncodeError::Serialization(text) && text@ == msg@,
    {
        EncodeError::Serialization(msg.to_owned())
    }
}

impl DecodeError {
    /// The text that describes the error, one fixed line for each variant.
    pub open spec fn message_text(&self) -> Seq<char> {
        match self {
            DecodeError::Deserialization(_) => "Error when deserializing"@,
            DecodeError::IO(_) => "Input/Output error"@,
            DecodeError::Malformed => "Malformed CBOR encoding"@,
            DecodeError::TypeMismatch => "The item is not of the requested type"@,
            DecodeError::Overflow => "The number does not fit the requested width"@,
        }
    }

    /// Describes the error in one line.
    pub fn message(&self) -> (text: String)
        ensures
            text@ == self.message_text(),
    {
        match self {
            DecodeError::Deserialization(_) => "Error when deserializing".to_owned(),
            DecodeError::IO(_) => "Input/Output error".to_owned(),
            DecodeError::Malformed => "Malformed CBOR encoding".to_owned(),
            DecodeError::TypeMismatch => "The item is not of the requested type".to_owned(),
            DecodeError::Overflow => "The number does not fit the requested width".to_owned(),
        }
    }

    /// The error by which a receiving shape reports that it refuses a value.
    pub fn custom(msg: &str) -> (error: DecodeError)
        ensures
            error matches DecodeError::Deserialization(text) && text@ == msg@,
    {
        DecodeError::Deserialization(msg.to_owned())
    }
}

impl Error {
    /// The text that describes the error: which direction failed.
    pub open spec fn message_text(&self) -> Seq<char> {
        match self {
            Error::Encode(_) => "Error while encoding a CBOR data sequence"@,
            Error::Decode(_) => "Error while decoding a CBOR data sequence"@,
        }
    }

    /// Describes the error in one line.
    pub fn message(&self) -> (text: String)
        ensures
            text@ == self.message_text(),
    {
        match self {
            Error::Encode(_) => "Error while encoding a CBOR data sequence".to_owned(),
            Error::Decode(_) => "Error while decoding a CBOR data sequence".to_owned(),
        }
    }
}

impl From<EncodeError> for Error {
    fn from(source: EncodeError) -> (error: Error) {
        Error::Encode(source)
    }
}

impl FromSpecImpl<EncodeError> for Error {
    open spec fn obeys_from_spec() -> bool {
        true
    }

    open spec fn from_spec(source: EncodeError) -> Error {
        Error::Encode(source)
    }
}

impl From<DecodeError> for Error {
    fn from(source: DecodeError) -> (error: Error) {
        Error::Decode(source)
    }
}

impl FromSpecImpl<DecodeError> for Error {
    open spec fn obeys_from_spec() -> bool {
        true
    }

    open spec fn from_spec(source: DecodeError) -> Error {
        Error::Decode(source)
    }
}

impl From<std::io::Error> for EncodeError {
    fn from(source: std::io::Error) -> (error: EncodeError) {
        EncodeError::IO(source)
    }
}

impl FromSpecImpl<std::io::Error> for EncodeError {
    open spec fn obeys_from_spec() -> bool {
        true
    }

    open spec fn from_spec(source: std::io::Error) -> EncodeError {
        EncodeError::IO(source)
    }
}

impl From<std::io::Error> for DecodeError {
    fn from(source: std::io::Error) -> (error: DecodeError) {
        DecodeError::IO(source)
    }
}

impl FromSpecImpl<std::io::Error> for DecodeError {
    open spec fn obeys_from_spec() -> bool {
        true
    }

    open spec fn from_spec(source: std::io::Error) -> DecodeError {
        DecodeError::IO(source)
    }
}

} // verus!
