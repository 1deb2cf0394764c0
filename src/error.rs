//! The failures of the protocol.
use openssl::error::ErrorStack;
use vstd::prelude::*;

use crate::codec::CodecError;

verus! {

#[verifier::external_type_specification]
#[verifier::external_body]
pub struct ExBitcodeError(bitcode::Error);

/// A failure during a packet exchange.
#[derive(Debug)]
pub enum ProtocolError {
    /// The input ended, or a frame was malformed.
    IoError(CodecError),
    /// A signature did not match on an established channel.
    VerificationError,
    /// A payload could not be encoded or decoded.
    SerializationError(bitcode::Error),
    /// The cryptographic backend failed.
    OpenSSLError(ErrorStack),
    /// A packet that had to be encrypted came without an initialisation vector.
    Unencrypted,
}

impl ProtocolError {
    /// Whether the failure is a bad signature.
    pub fn is_verification(&self) -> (r: bool)
        ensures
            r == (self is VerificationError),
    {
        match self {
            ProtocolError::VerificationError => true,
            _ => false,
        }
    }
}

} // verus!
