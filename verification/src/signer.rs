//! The Signer: the only module that may touch private keys.
//!
//! Other modules ask for signatures through these interfaces and never receive
//! private key bytes.

use vstd::prelude::*;

verus! {

/// Errors raised by Signer interfaces.
#[derive(Clone, Copy, Debug, PartialEq, Eq, Structural)]
pub enum SignerError {
    /// The requested key identifier is unknown or not available to the store.
    KeyNotFound,
    /// The key store rejected the operation and signing must fail closed.
    KeyStoreUnavailable,
    /// The signing backend could not produce a signature.
    SignatureFailed,
}

impl SignerError {
    /// The text of `message`.
    pub open spec fn message_text(self) -> Seq<char> {
        match self {
            SignerError::KeyNotFound => "key not found"@,
            SignerError::KeyStoreUnavailable => "key store unavailable"@,
            SignerError::SignatureFailed => "signature failed"@,
        }
    }

    /// The error in words.
    pub fn message(&self) -> (text: &'static str)
        ensures
            text@ == self.message_text(),
    {
        match self {
            SignerError::KeyNotFound => "key not found",
            SignerError::KeyStoreUnavailable => "key store unavailable",
            SignerError::SignatureFailed => "signature failed",
        }
    }
}

/// Public metadata for a signing key without exposing private material.
#[derive(Clone, Debug, PartialEq, Eq)]
pub struct SigningKeyHandle {
    /// Stable key identifier used by protocol artifacts.
    pub key_id: String,
}

/// Extension interface for key stores.
///
/// Implementations fail closed and never expose private key bytes. They resolve
/// keys by their stable id and deny unknown, revoked or unavailable keys. Which
/// keys those are may change while a store lives, so the contract leaves open
/// when resolving succeeds.
pub trait KeyStore: Send + Sync {
    /// Resolves a signing key handle by stable key id.
    fn resolve_key(&self, key_id: &str) -> (handle: Result<SigningKeyHandle, SignerError>)
        ensures
            handle matches Ok(handle) ==> handle.key_id@ == key_id@,
    ;
}

/// Extension interface for signing operations.
///
/// Implementations fail closed on canonicalization, key resolution and signing
/// failures. A signature binds the requested key id to the exact message bytes
/// supplied by the caller.
pub trait SignatureProvider: Send + Sync {
    /// The signature binds the key id to the message.
    open spec fn binds(&self, key_id: Seq<char>, message: Seq<u8>, signature: Seq<u8>) -> bool {
        arbitrary()
    }

    /// Signs the supplied canonical message bytes with the requested key.
    fn sign(&self, key_id: &str, message: &[u8]) -> (signature: Result<Vec<u8>, SignerError>)
        ensures
            signature matches Ok(signature) ==> self.binds(key_id@, message@, signature@),
    ;
}

} // verus!
