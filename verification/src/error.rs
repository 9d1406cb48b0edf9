//! Errors reported while discovering a target and talking to it.

use crate::transport::usb_error_text;
use vstd::prelude::*;
use vstd::std_specs::convert::FromSpecImpl;
use vstd::string::StringExecFns;

verus! {

/// Errors which can occur during target setup and communication.
#[derive(Debug, Copy, Clone, Eq, PartialEq)]
pub enum Error {
    /// An operation could not be performed because it was prohibited by safety checks (e.g.
    /// programming at an odd address).
    InvalidRequest,
    /// It was attempted to open a connection to a target which does not exist.
    TargetNotFound,
    /// The given USB device is not a supported bootloader target.
    UnsupportedTarget,
    /// The request was not specific enough and resulted in multiple matches where only a single
    /// one is supported.
    TooManyMatches,
    /// An error was reported by the target during a page erase.
    EraseError(EraseError),
    /// Verifying memory contents against a checksum failed.
    VerificationError,
    /// The target answered with a packet that cannot be decoded.
    MalformedResponse,
    /// An error occurred during the raw USB communication.
    IoError(rusb::Error),
}

/// Error during flash erasing.
#[derive(Debug, Copy, Clone, Eq, PartialEq)]
pub enum EraseError {
    /// Erasing an area which should or could not be erased was attempted.
    Prohibited,
    /// No problems during erasing, but the area turned out to be actually not erased.
    VerifyFailed,
    /// Used for all status codes the bootloader firmware does not use.
    Unknown,
}

/// Shorthand for a `Result` with the crate's own error type.
pub type Result<T> = std::result::Result<T, Error>;

impl Error {
    /// The words for an error of the library's own. For an error of the transport the words
    /// are the transport's, and none are given here.
    pub open spec fn message(self) -> Option<Seq<char>> {
        match self {
            Error::InvalidRequest => Some("Invalid request."@),
            Error::TargetNotFound => Some("Target not found"@),
            Error::UnsupportedTarget => Some("Target is unsupported"@),
            Error::TooManyMatches => Some("Too many matches"@),
            Error::EraseError(_) => Some("Flash erase error"@),
            Error::VerificationError => Some("Verification error"@),
            Error::MalformedResponse => Some("Malformed response"@),
            Error::IoError(_) => None,
        }
    }

    /// A short description of the error. An error of the transport is described in the
    /// transport's own words.
    pub fn description(&self) -> (text: String)
        ensures
            self.message() matches Some(words) ==> text@ == words,
    {
        match self {
            Error::InvalidRequest => String::from_str("Invalid request."),
            Error::TargetNotFound => String::from_str("Target not found"),
            Error::UnsupportedTarget => String::from_str("Target is unsupported"),
            Error::TooManyMatches => String::from_str("Too many matches"),
            Error::EraseError(_) => String::from_str("Flash erase error"),
            Error::VerificationError => String::from_str("Verification error"),
            Error::MalformedResponse => String::from_str("Malformed response"),
            Error::IoError(error) => usb_error_text(error),
        }
    }
}

impl EraseError {
    /// The sub-kind that a nonzero erase status code stands for.
    pub open spec fn of_code(code: u8) -> EraseError {
        if code == 1 {
            EraseError::Prohibited
        } else if code == 2 {
            EraseError::VerifyFailed
        } else {
            EraseError::Unknown
        }
    }
}

impl From<u8> for EraseError {
    fn from(code: u8) -> (kind: EraseError)
        ensures
            kind == EraseError::of_code(code),
    {
        if code == 1 {
            EraseError::Prohibited
        } else if code == 2 {
            EraseError::VerifyFailed
        } else {
            EraseError::Unknown
        }
    }
}

impl FromSpecImpl<u8> for EraseError {
    open spec fn obeys_from_spec() -> bool {
        true
    }

    open spec fn from_spec(code: u8) -> EraseError {
        EraseError::of_code(code)
    }
}

impl From<rusb::Error> for Error {
    fn from(error: rusb::Error) -> (wrapped: Error)
        ensures
            wrapped == Error::IoError(error),
    {
        Error::IoError(error)
    }
}

impl FromSpecImpl<rusb::Error> for Error {
    open spec fn obeys_from_spec() -> bool {
        true
    }

    open spec fn from_spec(error: rusb::Error) -> Error {
        Error::IoError(error)
    }
}

} // verus!
