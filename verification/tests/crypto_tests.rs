use noetiq_store::crypto::derive_key;
use noetiq_store::envelope::{open_blob, seal_blob};
use noetiq_store::StoreError;

fn key_for(password: &[u8], salt: &[u8]) -> Vec<u8> {
    derive_key(password, salt).expect("16-byte salt")
}

#[test]
fn derive_is_deterministic_and_32_bytes() {
    let salt = [7u8; 16];
    let k1 = key_for(b"correct horse", &salt);
    let k2 = key_for(b"correct horse", &salt);
    assert_eq!(k1, k2);
    assert_eq!(k1.len(), 32);
}

#[test]
fn derive_differs_per_password_and_salt() {
    let salt = [7u8; 16];
    let other_salt = [8u8; 16];
    let k1 = key_for(b"alpha", &salt);
    let k2 = key_for(b"beta", &salt);
    let k3 = key_for(b"alpha", &other_salt);
    assert_ne!(k1, k2);
    assert_ne!(k1, k3);
}

#[test]
fn derive_rejects_short_salt() {
    let salt = [7u8; 8];
    assert_eq!(derive_key(b"pw", &salt), Err(StoreError::CorruptData));
}

#[test]
fn seal_open_round_trip() {
    let key = key_for(b"pw", &[1u8; 16]);
    let message = b"attack at dawn";
    let blob = seal_blob(&key, message).expect("small plaintext");
    assert_eq!(blob.len(), message.len() + 28);
    let back = open_blob(&key, &blob).expect("same key");
    assert_eq!(back, message.to_vec());
}

#[test]
fn seal_uses_fresh_nonces() {
    let key = key_for(b"pw", &[1u8; 16]);
    let blob1 = seal_blob(&key, b"same message").unwrap();
    let blob2 = seal_blob(&key, b"same message").unwrap();
    assert_ne!(&blob1[0..12], &blob2[0..12]);
}

#[test]
fn open_with_wrong_key_fails() {
    let salt = [1u8; 16];
    let key = key_for(b"right password", &salt);
    let wrong = key_for(b"wrong password", &salt);
    let blob = seal_blob(&key, b"secret").unwrap();
    assert_eq!(open_blob(&wrong, &blob), Err(StoreError::DecryptFailure));
}

#[test]
fn open_tampered_blob_fails() {
    let key = key_for(b"pw", &[1u8; 16]);
    let mut blob = seal_blob(&key, b"secret").unwrap();
    let last = blob.len() - 1;
    blob[last] ^= 0x01;
    assert_eq!(open_blob(&key, &blob), Err(StoreError::DecryptFailure));
}

#[test]
fn open_too_short_is_corrupt() {
    let key = key_for(b"pw", &[1u8; 16]);
    assert_eq!(open_blob(&key, &[0u8; 11]), Err(StoreError::CorruptData));
    assert_eq!(open_blob(&key, &[]), Err(StoreError::CorruptData));
}
