//! Key derivation and AEAD primitives.
//!
//! The outside calls (Argon2id, AES-256-GCM, the system's randomness source,
//! and UUID generation) stand behind trusted wrappers; everything around them
//! is verified.

use vstd::prelude::*;

use crate::StoreError;
use aes_gcm::aead::rand_core::RngCore;
use aes_gcm::aead::Aead;
use aes_gcm::KeyInit;

verus! {

/// Length in bytes of a store's salt.
pub const SALT_LEN: usize = 16;

/// Length in bytes of an AEAD nonce.
pub const NONCE_LEN: usize = 12;

/// Length in bytes of a derived symmetric key.
pub const KEY_LEN: usize = 32;

/// Length in bytes of an AEAD authentication tag.
pub const TAG_LEN: usize = 16;

/// The largest plaintext AES-GCM will seal (2^36 bytes).
pub const MAX_SEAL_LEN: u64 = 0x10_0000_0000;

/// The largest password Argon2 will hash (2^32 - 1 bytes).
pub const MAX_PASSWORD_LEN: u64 = 0xFFFF_FFFF;

/// The key that Argon2id (64 MiB memory, 3 iterations, 1 lane, 32-byte
/// output) derives from a password and a salt. A function of its arguments
/// alone: the same password and salt always give the same key.
pub uninterp spec fn argon2_key_of(password: Seq<u8>, salt: Seq<u8>) -> Seq<u8>;

/// What AES-256-GCM decryption (96-bit nonce, 128-bit tag, no associated
/// data) returns for a key, a nonce and a ciphertext-with-tag: `Some` of the
/// unique plaintext when the tag verifies, `None` otherwise. A function of
/// its arguments alone.
pub uninterp spec fn aead_plaintext_of(key: Seq<u8>, nonce: Seq<u8>, ct: Seq<u8>) -> Option<
    Seq<u8>,
>;

/// Relies on argon2's `Params::new` and `Argon2::hash_password_into`: with
/// the fixed parameters (m = 65536 KiB, t = 3, p = 1, no explicit output
/// length), a 16-byte salt, a password of at most 2^32 - 1 bytes and a
/// 32-byte output buffer, derivation always succeeds and fills the buffer
/// with a value determined by the password and the salt alone.
#[verifier::external_body]
pub(crate) fn argon2_derive(password: &[u8], salt: &[u8]) -> (r: Vec<u8>)
    requires
        salt@.len() == SALT_LEN,
        password@.len() <= MAX_PASSWORD_LEN,
    ensures
        r@ == argon2_key_of(password@, salt@),
        r@.len() == KEY_LEN,
{
    let params = argon2::Params::new(64 * 1024, 3, 1, None).expect("fixed Argon2 parameters");
    let argon = argon2::Argon2::new(argon2::Algorithm::Argon2id, argon2::Version::V0x13, params);
    let mut key = [0u8; 32];
    argon.hash_password_into(password, salt, &mut key).expect("Argon2 derivation");
    key.to_vec()
}

/// Relies on `Aes256Gcm::encrypt` (via `KeyInit::new_from_slice`): with a
/// 32-byte key, a 12-byte nonce and a plaintext of at most 2^36 bytes it
/// returns ciphertext || 16-byte tag, and `Aes256Gcm::decrypt` of that result
/// under the same key and nonce returns the plaintext.
#[verifier::external_body]
pub(crate) fn aead_encrypt(key: &[u8], nonce: &[u8], plaintext: &[u8]) -> (r: Vec<u8>)
    requires
        key@.len() == KEY_LEN,
        nonce@.len() == NONCE_LEN,
        plaintext@.len() <= MAX_SEAL_LEN,
    ensures
        r@.len() == plaintext@.len() + TAG_LEN,
        aead_plaintext_of(key@, nonce@, r@) == Some(plaintext@),
{
    let cipher = aes_gcm::Aes256Gcm::new_from_slice(key).expect("32-byte key");
    cipher.encrypt(aes_gcm::Nonce::from_slice(nonce), plaintext).expect(
        "plaintext within the AES-GCM bound",
    )
}

/// Relies on `Aes256Gcm::decrypt` (via `KeyInit::new_from_slice`): with a
/// 32-byte key and a 12-byte nonce it returns the plaintext exactly when the
/// tag verifies (the plaintext is 16 bytes shorter than the input), and fails
/// on every other input, wrong key and corrupted ciphertext alike.
#[verifier::external_body]
pub(crate) fn aead_decrypt(key: &[u8], nonce: &[u8], ct: &[u8]) -> (r: Option<Vec<u8>>)
    requires
        key@.len() == KEY_LEN,
        nonce@.len() == NONCE_LEN,
    ensures
        match r {
            Option::Some(p) => aead_plaintext_of(key@, nonce@, ct@) == Some(p@) && ct@.len()
                == p@.len() + TAG_LEN,
            Option::None => aead_plaintext_of(key@, nonce@, ct@) is None,
        },
{
    let cipher = aes_gcm::Aes256Gcm::new_from_slice(key).expect("32-byte key");
    cipher.decrypt(aes_gcm::Nonce::from_slice(nonce), ct).ok()
}

/// Relies on `OsRng::fill_bytes` (the operating system's randomness source):
/// it fills the buffer. Nothing is promised of the values.
#[verifier::external_body]
pub(crate) fn os_random_bytes(n: usize) -> (r: Vec<u8>)
    ensures
        r@.len() == n,
{
    let mut buf = vec![0u8; n];
    aes_gcm::aead::OsRng.fill_bytes(&mut buf);
    buf
}

/// Whether `b` is an ASCII lowercase hexadecimal digit.
pub open spec fn is_hex_lower(b: u8) -> bool {
    (48 <= b <= 57) || (97 <= b <= 102)
}

/// Whether `s` is the hyphenated lowercase text of an RFC 4122 version-4
/// UUID: 36 bytes, hyphens at positions 8, 13, 18 and 23, lowercase
/// hexadecimal digits elsewhere, version nibble `4`, variant nibble in
/// `8, 9, a, b`.
pub open spec fn is_uuid_v4(s: Seq<u8>) -> bool {
    &&& s.len() == 36
    &&& s[8] == 45 && s[13] == 45 && s[18] == 45 && s[23] == 45
    &&& forall|i: int|
        0 <= i < 36 && i != 8 && i != 13 && i != 18 && i != 23 ==> is_hex_lower(#[trigger] s[i])
    &&& s[14] == 52
    &&& (s[19] == 56 || s[19] == 57 || s[19] == 97 || s[19] == 98)
}

/// Relies on `Uuid::new_v4` and its `Display` impl: a fresh random UUID whose
/// version nibble is 4 and whose variant bits are `10`, written as 36
/// lowercase hyphenated hexadecimal bytes. Nothing is promised of the random
/// bits.
#[verifier::external_body]
pub(crate) fn fresh_uuid() -> (r: Vec<u8>)
    ensures
        is_uuid_v4(r@),
{
    uuid::Uuid::new_v4().to_string().into_bytes()
}

/// Checks at run time whether `s` is hyphenated lowercase version-4 UUID text.
pub fn check_uuid_v4(s: &[u8]) -> (r: bool)
    ensures
        r == is_uuid_v4(s@),
{
    if s.len() != 36 {
        return false;
    }
    if !(s[8] == 45 && s[13] == 45 && s[18] == 45 && s[23] == 45) {
        return false;
    }
    if s[14] != 52 {
        return false;
    }
    if !(s[19] == 56 || s[19] == 57 || s[19] == 97 || s[19] == 98) {
        return false;
    }
    let mut i: usize = 0;
    while i < 36
        invariant
            s@.len() == 36,
            0 <= i <= 36,
            forall|j: int|
                0 <= j < i && j != 8 && j != 13 && j != 18 && j != 23 ==> is_hex_lower(
                    #[trigger] s@[j],
                ),
        decreases 36 - i,
    {
        if i != 8 && i != 13 && i != 18 && i != 23 {
            let b = s[i];
            if !((48 <= b && b <= 57) || (97 <= b && b <= 102)) {
                return false;
            }
        }
        i = i + 1;
    }
    true
}

/// Derives the store's symmetric key from a password and the store's salt
/// (Argon2id, 64 MiB, 3 iterations, 1 lane). Deterministic: the result is
/// `argon2_key_of(password, salt)`, always 32 bytes. A salt of the wrong
/// length is rejected as corrupt data.
pub fn derive_key(password: &[u8], salt: &[u8]) -> (r: Result<Vec<u8>, StoreError>)
    requires
        password@.len() <= MAX_PASSWORD_LEN,
    ensures
        match r {
            Ok(k) => salt@.len() == SALT_LEN && k@ == argon2_key_of(password@, salt@) && k@.len()
                == KEY_LEN,
            Err(e) => e == StoreError::CorruptData && salt@.len() != SALT_LEN,
        },
{
    if salt.len() != SALT_LEN {
        return Err(StoreError::CorruptData);
    }
    Ok(argon2_derive(password, salt))
}

} // verus!
