//! The error type that every fallible operation of the library returns.

use vstd::prelude::*;

verus! {

/// What went wrong, with the underlying library's explanation where there
/// is one.
#[derive(Debug)]
pub enum VodozemacError {
    /// A key, message or session key did not decode from base64.
    InvalidBase64 { reason: String },
    /// A message could not be decrypted.
    DecryptError { reason: String },
    /// An Olm session could not be established.
    SessionError { reason: String },
    /// A pickle did not parse.
    InvalidPickle { reason: String },
    /// A decrypted plaintext is not valid UTF-8.
    InvalidUtf8 { reason: String },
    /// An Olm message type other than 0 (pre-key) or 1 (normal).
    InvalidMessageType { value: u8 },
    /// `take_session` was called a second time.
    SessionAlreadyTaken,
    /// Anything else: encryption or serialization failed.
    Internal { reason: String },
}

} // verus!
