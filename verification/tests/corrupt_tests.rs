//! A truncated global index must make every password-gated operation fail
//! with `CorruptData` — never `DecryptFailure`, never a panic.

use noetiq_store::notes::{
    create_note, delete_note, list_notes, read_note, set_note_icon, set_note_title, write_note,
};
use noetiq_store::records::VaultEntry;
use noetiq_store::rotation::rotate_global_index;
use noetiq_store::vaults::{create_vault, delete_vault, list_vaults, update_vault};
use noetiq_store::StoreError;

fn truncated() -> Vec<u8> {
    vec![0u8; 10]
}

fn sample_entry() -> VaultEntry {
    VaultEntry {
        icon: b"i".to_vec(),
        name: b"n".to_vec(),
        description: b"d".to_vec(),
    }
}

#[test]
fn truncated_index_fails_vault_operations_as_corrupt() {
    let bad = truncated();
    assert_eq!(list_vaults(b"pw", &bad), Err(StoreError::CorruptData));
    assert!(matches!(
        create_vault(b"pw", &bad, &sample_entry(), &vec![]),
        Err(StoreError::CorruptData)
    ));
    assert_eq!(update_vault(b"pw", &bad, b"id", b"n", b"d", b"i"), Err(StoreError::CorruptData));
    assert_eq!(delete_vault(b"pw", &bad, b"id"), Err(StoreError::CorruptData));
}

#[test]
fn truncated_index_fails_note_operations_as_corrupt() {
    let bad = truncated();
    let some_blob = vec![0u8; 64];
    assert!(matches!(
        create_note(b"pw", &bad, &some_blob, b"i", &vec![]),
        Err(StoreError::CorruptData)
    ));
    assert_eq!(list_notes(b"pw", &bad, &some_blob), Err(StoreError::CorruptData));
    assert_eq!(read_note(b"pw", &bad, &some_blob), Err(StoreError::CorruptData));
    assert_eq!(write_note(b"pw", &bad, b"content"), Err(StoreError::CorruptData));
    assert_eq!(
        set_note_icon(b"pw", &bad, &some_blob, b"f.json", b"i"),
        Err(StoreError::CorruptData)
    );
    assert_eq!(
        set_note_title(b"pw", &bad, &some_blob, b"f.json", b"t"),
        Err(StoreError::CorruptData)
    );
    assert_eq!(delete_note(b"pw", &bad, &some_blob, b"f.json"), Err(StoreError::CorruptData));
}

#[test]
fn truncated_index_fails_rotation_as_corrupt() {
    let bad = truncated();
    assert!(matches!(
        rotate_global_index(b"pw", b"new", &bad),
        Err(StoreError::CorruptData)
    ));
}

#[test]
fn index_that_decrypts_to_garbage_is_a_serialization_error() {
    // a well-formed envelope whose plaintext is not a vault list
    let salt = [3u8; 16];
    let key = noetiq_store::crypto::derive_key(b"pw", &salt).unwrap();
    let forged = noetiq_store::envelope::seal_global_blob(&key, &salt, b"not a vault list")
        .unwrap();
    assert_eq!(list_vaults(b"pw", &forged), Err(StoreError::SerializationError));
    // and with the wrong password the same file is a decrypt failure
    assert_eq!(list_vaults(b"other", &forged), Err(StoreError::DecryptFailure));
}

#[test]
fn truncated_notes_index_is_corrupt_not_decrypt_failure() {
    let init = noetiq_store::vaults::initialize_store(b"pw", b"hint");
    let short_notes = vec![0u8; 5];
    assert_eq!(
        list_notes(b"pw", &init.index_bytes, &short_notes),
        Err(StoreError::CorruptData)
    );
}
