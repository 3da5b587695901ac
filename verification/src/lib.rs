//! An encrypted, password-protected document store: vaults of notes where
//! every file on disk is sealed with AES-256-GCM under a key derived from a
//! master password with Argon2id.

use vstd::prelude::*;

pub mod bytes;
pub mod codec;
pub mod crypto;
pub mod envelope;
pub mod laws;
pub mod notes;
pub mod records;
pub mod rotation;
pub mod vaults;

verus! {

/// The ways an operation on the store can fail.
#[derive(Clone, Copy, PartialEq, Eq, Debug)]
pub enum StoreError {
    /// A store, vault, note, or identifier is absent.
    NotFound,
    /// A file is too short for its required layout.
    CorruptData,
    /// AEAD verification failed: wrong password or tampered ciphertext.
    DecryptFailure,
    /// A filesystem operation failed.
    IoError,
    /// Bytes are not valid structured data, or a payload cannot be sealed.
    SerializationError,
}

impl StoreError {
    /// A short human-readable description of the failure.
    pub fn message(&self) -> &'static str {
        match self {
            StoreError::NotFound => "not found",
            StoreError::CorruptData => "corrupted data",
            StoreError::DecryptFailure => "decrypt failed",
            StoreError::IoError => "filesystem operation failed",
            StoreError::SerializationError => "invalid structured data",
        }
    }
}

} // verus!
