//! The errors of the library.

use vstd::prelude::*;

verus! {

/// The error with which the `base64` crate rejects text, carried along as
/// it is.
#[verifier::external_type_specification]
#[verifier::external_body]
pub struct ExDecodeError(base64::DecodeError);

/// The error of std's input and output, carried along as it is.
#[verifier::external_type_specification]
#[verifier::external_body]
pub struct ExIoError(std::io::Error);

/// What can go wrong in the library, or in the layers above it.
#[derive(Debug)]
pub enum Error {
    /// A payload was not valid base64.
    Base64Decode(base64::DecodeError),
    /// The payload does not have the size that the dimensions call for.
    InvalidDimensions { width: u32, height: u32 },
    /// An image id that cannot be used.
    InvalidImageId(u32),
    /// A placement id that cannot be used.
    InvalidPlacementId(u32),
    /// A chunk size that is not a multiple of four or is too large.
    InvalidChunkSize(usize),
    /// A field that the operation needs was not set.
    MissingField(&'static str),
    /// The terminal answered with an error.
    TerminalError(String),
    /// Reading or writing failed.
    Io(std::io::Error),
    /// Bytes that were to become an owned string are not UTF-8.
    Utf8(std::string::FromUtf8Error),
    /// Bytes that were to be read as text are not UTF-8.
    Utf8Error(std::str::Utf8Error),
    /// The terminal's answer does not have the expected shape.
    InvalidResponse(String),
    /// The protocol was not followed.
    Protocol(String),
}

impl Error {
    /// A protocol error with the given message.
    pub fn protocol(msg: &str) -> (e: Error)
        ensures
            e matches Error::Protocol(s) && s@ == msg@,
    {
        Error::Protocol(msg.to_owned())
    }

    /// A terminal error with the given message.
    pub fn terminal(msg: &str) -> (e: Error)
        ensures
            e matches Error::TerminalError(s) && s@ == msg@,
    {
        Error::TerminalError(msg.to_owned())
    }
}

} // verus!
