//! The on-disk envelope layout and its sealing and opening.
//!
//! The global index file is `salt(16) || nonce(12) || ciphertext+tag`; every
//! other encrypted file is `nonce(12) || ciphertext+tag`. The salt of the
//! store lives only in the global index file.

use vstd::prelude::*;

use crate::bytes::{append_bytes, sub_bytes};
use crate::crypto::{
    aead_decrypt, aead_encrypt, aead_plaintext_of, argon2_key_of, os_random_bytes, KEY_LEN,
    MAX_SEAL_LEN, NONCE_LEN, SALT_LEN,
};
use crate::records::{
    parse_vaults_top, ser_notes_top, ser_vaults_top, NoteRecordView, VaultRecordView,
};
use crate::StoreError;

verus! {

/// The least length of a valid global index file: salt, nonce and tag.
pub const MIN_GLOBAL_LEN: usize = 44;

/// The plaintext of an envelope file `nonce(12) || ciphertext` under `key`,
/// if it decrypts.
pub open spec fn env_plain(b: Seq<u8>, key: Seq<u8>) -> Option<Seq<u8>> {
    if b.len() >= NONCE_LEN {
        aead_plaintext_of(key, b.take(NONCE_LEN as int), b.skip(NONCE_LEN as int))
    } else {
        None
    }
}

/// Whether an envelope file holds exactly the serialized note list `l` under
/// `key`.
pub open spec fn n_encodes(b: Seq<u8>, key: Seq<u8>, l: Seq<NoteRecordView>) -> bool {
    env_plain(b, key) == Some(ser_notes_top(l))
}

/// The salt embedded in a global index file.
pub open spec fn g_salt(b: Seq<u8>) -> Seq<u8> {
    b.take(SALT_LEN as int)
}

/// The key a password derives against the salt of a global index file.
pub open spec fn g_key(b: Seq<u8>, password: Seq<u8>) -> Seq<u8> {
    argon2_key_of(password, g_salt(b))
}

/// The plaintext of a global index file `salt(16) || nonce(12) || ciphertext`
/// under a key, if it decrypts. A file shorter than salt, nonce and tag is
/// corrupt and has none.
pub open spec fn g_plain_key(b: Seq<u8>, key: Seq<u8>) -> Option<Seq<u8>> {
    if b.len() >= MIN_GLOBAL_LEN {
        aead_plaintext_of(key, b.subrange(SALT_LEN as int, (SALT_LEN + NONCE_LEN) as int), b.skip(
            (SALT_LEN + NONCE_LEN) as int,
        ))
    } else {
        None
    }
}

/// The plaintext of a global index file under a password: the key is derived
/// from the password and the file's own salt.
pub open spec fn g_plain(b: Seq<u8>, password: Seq<u8>) -> Option<Seq<u8>> {
    g_plain_key(b, g_key(b, password))
}

/// The vault list a password reads from a global index file, if the file
/// decrypts and its plaintext parses.
pub open spec fn g_vaults(b: Seq<u8>, password: Seq<u8>) -> Option<Seq<VaultRecordView>> {
    match g_plain(b, password) {
        Some(m) => parse_vaults_top(m),
        None => None,
    }
}

/// Whether a global index file holds exactly the serialized vault list `l`
/// under `key`.
pub open spec fn g_encodes_key(b: Seq<u8>, key: Seq<u8>, l: Seq<VaultRecordView>) -> bool {
    b.len() >= MIN_GLOBAL_LEN && g_plain_key(b, key) == Some(ser_vaults_top(l))
}

/// Whether a global index file holds exactly the serialized vault list `l`
/// under the key its own salt derives from `password`.
pub open spec fn g_encodes(b: Seq<u8>, password: Seq<u8>, l: Seq<VaultRecordView>) -> bool {
    b.len() >= MIN_GLOBAL_LEN && g_plain(b, password) == Some(ser_vaults_top(l))
}

/// Seals a plaintext under `key` with a fresh random nonce, producing
/// `nonce(12) || ciphertext+tag`. Fails only on a plaintext beyond the AEAD
/// message bound. Opening the result under the same key returns the
/// plaintext.
pub fn seal_blob(key: &[u8], plaintext: &[u8]) -> (r: Result<Vec<u8>, StoreError>)
    requires
        key@.len() == KEY_LEN,
    ensures
        match r {
            Ok(b) => plaintext@.len() <= MAX_SEAL_LEN && b@.len() == plaintext@.len() + NONCE_LEN
                + 16 && env_plain(b@, key@) == Some(plaintext@),
            Err(e) => e == StoreError::SerializationError && plaintext@.len() > MAX_SEAL_LEN,
        },
{
    if plaintext.len() as u64 > MAX_SEAL_LEN {
        return Err(StoreError::SerializationError);
    }
    let mut out = os_random_bytes(NONCE_LEN);
    let ghost nonce = out@;
    let ct = aead_encrypt(key, out.as_slice(), plaintext);
    append_bytes(&mut out, ct.as_slice());
    proof {
        assert(out@.take(NONCE_LEN as int) =~= nonce);
        assert(out@.skip(NONCE_LEN as int) =~= ct@);
    }
    Ok(out)
}

/// Opens an envelope file `nonce(12) || ciphertext+tag` under `key`. A file
/// too short for a nonce is corrupt; a file whose tag does not verify fails
/// with `DecryptFailure`, wrong key and tampered bytes alike.
pub fn open_blob(key: &[u8], data: &[u8]) -> (r: Result<Vec<u8>, StoreError>)
    requires
        key@.len() == KEY_LEN,
    ensures
        match r {
            Ok(p) => data@.len() >= NONCE_LEN && env_plain(data@, key@) == Some(p@) && data@.len()
                == p@.len() + NONCE_LEN + 16,
            Err(e) => (e == StoreError::CorruptData && data@.len() < NONCE_LEN) || (e
                == StoreError::DecryptFailure && data@.len() >= NONCE_LEN && env_plain(data@, key@)
                is None),
        },
{
    if data.len() < NONCE_LEN {
        return Err(StoreError::CorruptData);
    }
    let nonce = sub_bytes(data, 0, NONCE_LEN);
    let ct = sub_bytes(data, NONCE_LEN, data.len());
    proof {
        assert(nonce@ =~= data@.take(NONCE_LEN as int));
        assert(ct@ =~= data@.skip(NONCE_LEN as int));
    }
    match aead_decrypt(key, nonce.as_slice(), ct.as_slice()) {
        Some(p) => Ok(p),
        None => Err(StoreError::DecryptFailure),
    }
}

/// Seals a plaintext as a fresh global index body: the given salt, a fresh
/// random nonce, and the ciphertext, concatenated. The salt is embedded
/// verbatim; opening the result with the key returns the plaintext.
pub fn seal_global_blob(key: &[u8], salt: &[u8], plaintext: &[u8]) -> (r: Result<
    Vec<u8>,
    StoreError,
>)
    requires
        key@.len() == KEY_LEN,
        salt@.len() == SALT_LEN,
    ensures
        match r {
            Ok(b) => plaintext@.len() <= MAX_SEAL_LEN && b@.len() == plaintext@.len() + SALT_LEN
                + NONCE_LEN + 16 && g_salt(b@) == salt@ && g_plain_key(b@, key@) == Some(
                plaintext@,
            ),
            Err(e) => e == StoreError::SerializationError && plaintext@.len() > MAX_SEAL_LEN,
        },
{
    if plaintext.len() as u64 > MAX_SEAL_LEN {
        return Err(StoreError::SerializationError);
    }
    let mut out = sub_bytes(salt, 0, SALT_LEN);
    let nonce = os_random_bytes(NONCE_LEN);
    let ct = aead_encrypt(key, nonce.as_slice(), plaintext);
    append_bytes(&mut out, nonce.as_slice());
    append_bytes(&mut out, ct.as_slice());
    proof {
        assert(out@.take(SALT_LEN as int) =~= salt@);
        assert(out@.subrange(SALT_LEN as int, (SALT_LEN + NONCE_LEN) as int) =~= nonce@);
        assert(out@.skip((SALT_LEN + NONCE_LEN) as int) =~= ct@);
    }
    Ok(out)
}

} // verus!
