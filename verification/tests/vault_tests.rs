use noetiq_store::crypto::check_uuid_v4;
use noetiq_store::notes::list_notes;
use noetiq_store::records::VaultEntry;
use noetiq_store::vaults::{
    create_vault, delete_vault, initialize_store, list_vaults, read_hint, set_hint, update_vault,
    NewVault,
};
use noetiq_store::StoreError;

fn entry(icon: &str, name: &str, description: &str) -> VaultEntry {
    VaultEntry {
        icon: icon.as_bytes().to_vec(),
        name: name.as_bytes().to_vec(),
        description: description.as_bytes().to_vec(),
    }
}

#[test]
fn initialize_then_list_is_empty() {
    let init = initialize_store(b"pw", b"my hint");
    let vaults = list_vaults(b"pw", &init.index_bytes).expect("fresh store");
    assert_eq!(vaults.len(), 0);
}

#[test]
fn hint_round_trip() {
    let init = initialize_store(b"pw", b"remember the milk");
    assert_eq!(read_hint(&init.public_bytes).unwrap(), b"remember the milk".to_vec());
}

#[test]
fn hint_with_escapes_round_trip() {
    let tricky = b"a \"quoted\" hint\nwith\\slashes\tand\x01control";
    let init = initialize_store(b"pw", tricky);
    assert_eq!(read_hint(&init.public_bytes).unwrap(), tricky.to_vec());
}

#[test]
fn set_hint_replaces_hint() {
    let init = initialize_store(b"pw", b"old hint");
    let updated = set_hint(&init.public_bytes, b"new hint").unwrap();
    assert_eq!(read_hint(&updated).unwrap(), b"new hint".to_vec());
}

#[test]
fn read_hint_rejects_garbage() {
    assert_eq!(read_hint(b"not json"), Err(StoreError::SerializationError));
}

#[test]
fn create_vault_then_list_returns_one_matching_record() {
    let init = initialize_store(b"pw", b"hint");
    let out = create_vault(b"pw", &init.index_bytes, &entry("a", "N", "D"), &vec![]).unwrap();
    let vaults = list_vaults(b"pw", &out.index_bytes).unwrap();
    assert_eq!(vaults.len(), 1);
    assert_eq!(vaults[0].icon, b"a".to_vec());
    assert_eq!(vaults[0].name, b"N".to_vec());
    assert_eq!(vaults[0].description, b"D".to_vec());
    assert_eq!(vaults[0].folder_id, out.folder_id);
    assert!(check_uuid_v4(&out.folder_id));
    // the fresh vault's notes index decrypts to an empty list
    let notes = list_notes(b"pw", &out.index_bytes, &out.notes_index_bytes).unwrap();
    assert_eq!(notes.len(), 0);
}

#[test]
fn create_vault_salt_is_kept() {
    let init = initialize_store(b"pw", b"hint");
    let out = create_vault(b"pw", &init.index_bytes, &entry("a", "N", "D"), &vec![]).unwrap();
    assert_eq!(&init.index_bytes[0..16], &out.index_bytes[0..16]);
}

#[test]
fn create_vault_wrong_password_fails() {
    let init = initialize_store(b"pw", b"hint");
    let r = create_vault(b"nope", &init.index_bytes, &entry("a", "N", "D"), &vec![]);
    assert!(matches!(r, Err(StoreError::DecryptFailure)));
}

#[test]
fn create_vault_avoids_existing_directory_names() {
    let init = initialize_store(b"pw", b"hint");
    let taken: Vec<Vec<u8>> = vec![b"some-existing-dir".to_vec()];
    let out = create_vault(b"pw", &init.index_bytes, &entry("a", "N", "D"), &taken).unwrap();
    assert_ne!(out.folder_id, b"some-existing-dir".to_vec());
}

fn store_with_two_vaults() -> (Vec<u8>, NewVault, NewVault) {
    let init = initialize_store(b"pw", b"hint");
    let first = create_vault(b"pw", &init.index_bytes, &entry("i1", "one", "d1"), &vec![]).unwrap();
    let second = create_vault(b"pw", &first.index_bytes, &entry("i2", "two", "d2"), &vec![
        first.folder_id.clone(),
    ])
    .unwrap();
    (second.index_bytes.clone(), first, second)
}

#[test]
fn update_vault_replaces_fields_in_place() {
    let (index, first, _second) = store_with_two_vaults();
    let updated = update_vault(b"pw", &index, &first.folder_id, b"renamed", b"newdesc", b"newicon")
        .unwrap();
    let vaults = list_vaults(b"pw", &updated).unwrap();
    assert_eq!(vaults.len(), 2);
    assert_eq!(vaults[0].name, b"renamed".to_vec());
    assert_eq!(vaults[0].description, b"newdesc".to_vec());
    assert_eq!(vaults[0].icon, b"newicon".to_vec());
    assert_eq!(vaults[0].folder_id, first.folder_id);
    assert_eq!(vaults[1].name, b"two".to_vec());
}

#[test]
fn update_vault_unknown_id_is_not_found() {
    let (index, _first, _second) = store_with_two_vaults();
    let r = update_vault(b"pw", &index, b"no-such-vault", b"n", b"d", b"i");
    assert!(matches!(r, Err(StoreError::NotFound)));
}

#[test]
fn delete_vault_removes_only_that_record() {
    let (index, first, second) = store_with_two_vaults();
    let after = delete_vault(b"pw", &index, &first.folder_id).unwrap();
    let vaults = list_vaults(b"pw", &after).unwrap();
    assert_eq!(vaults.len(), 1);
    assert_eq!(vaults[0].folder_id, second.folder_id);
}

#[test]
fn delete_missing_vault_is_not_found_and_index_untouched() {
    let (index, _first, _second) = store_with_two_vaults();
    let before = index.clone();
    let r = delete_vault(b"pw", &index, b"absent-id");
    assert!(matches!(r, Err(StoreError::NotFound)));
    // nothing was written: the index bytes are exactly as they were
    assert_eq!(index, before);
    let vaults = list_vaults(b"pw", &index).unwrap();
    assert_eq!(vaults.len(), 2);
}

#[test]
fn vault_fields_with_escapes_round_trip() {
    let init = initialize_store(b"pw", b"hint");
    let e = entry("\"icon\"", "name with\nnewline", "desc\\with\\backslashes");
    let out = create_vault(b"pw", &init.index_bytes, &e, &vec![]).unwrap();
    let vaults = list_vaults(b"pw", &out.index_bytes).unwrap();
    assert_eq!(vaults[0].icon, e.icon);
    assert_eq!(vaults[0].name, e.name);
    assert_eq!(vaults[0].description, e.description);
}
