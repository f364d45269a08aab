//! Failure taxonomy of the submission client. Input-validation errors are
//! detected before any network activity; signature failures are expected
//! outcomes of untrusted input, never fatal.
use vstd::prelude::*;

verus! {

/// One error per failure class of the client.
#[derive(Clone, Debug)]
pub enum SubmitError {
    /// The stream to the batching service could not be established or dropped
    /// mid-flight. Surfaced to the caller, never retried internally.
    ConnectionError,
    /// An unrecognized proving-system tag; carries the offending tag.
    InvalidProvingSystem(String),
    /// A required auxiliary input was not supplied for the chosen proving
    /// system; carries the parameter's name.
    MissingParameter(String),
    /// An auxiliary input was supplied that the chosen proving system
    /// refuses; carries the parameter's name.
    UnexpectedParameter(String),
    /// A file could not be read or written; carries the offending path.
    IoError(String),
    /// A malformed wire message.
    SerializationError,
    /// Signature recovery or verification failed.
    SignatureError,
}

} // verus!
