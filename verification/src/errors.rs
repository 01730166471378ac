//! The error taxonomy of the verification workflow.
//!
//! Failures raised by outside collaborators (file access, decoders, the
//! proof-system verifiers) reach this crate as rendered messages; each
//! variant pairs such a message with the context in which it arose.

use vstd::prelude::*;

verus! {

/// Why a submitted proof could not be verified.
#[derive(Debug)]
pub enum VerificationError {
    /// An artifact file could not be read: the underlying error and the
    /// context of the read.
    IOError(String, String),
    /// A JSON payload could not be decoded.
    JSONError(String, String),
    /// A binary-encoded object could not be decoded.
    BincodeError(String, String),
    /// Both the JSON decode and the file read failed.
    JsonErrIOErr(String, String, String),
    /// A RISC Zero image id was not an 8-element list of numbers.
    InvalidImageID(String),
    /// A program hash could not be parsed.
    DigestError(String),
    /// A numeric field could not be parsed.
    ParseError(String),
}

} // verus!
