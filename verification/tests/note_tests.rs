use noetiq_store::crypto::check_uuid_v4;
use noetiq_store::notes::{
    count_note_files, create_note, delete_note, fresh_note_filename, list_notes, read_note,
    set_note_icon, set_note_title, write_note,
};
use noetiq_store::records::VaultEntry;
use noetiq_store::vaults::{create_vault, initialize_store};
use noetiq_store::StoreError;

/// A fresh store with one vault: returns the global index bytes and the
/// vault's notes index bytes.
fn one_vault_store(password: &[u8]) -> (Vec<u8>, Vec<u8>) {
    let init = initialize_store(password, b"hint");
    let entry = VaultEntry {
        icon: b"a".to_vec(),
        name: b"N".to_vec(),
        description: b"D".to_vec(),
    };
    let out = create_vault(password, &init.index_bytes, &entry, &vec![]).unwrap();
    (out.index_bytes, out.notes_index_bytes)
}

#[test]
fn scenario_create_note_then_read_returns_empty_object() {
    // initialize, create a vault, create a note, read it back: "{}"
    let init = initialize_store(b"pw1", b"hint");
    let entry = VaultEntry {
        icon: b"a".to_vec(),
        name: b"N".to_vec(),
        description: b"D".to_vec(),
    };
    let vault = create_vault(b"pw1", &init.index_bytes, &entry, &vec![]).unwrap();
    let note =
        create_note(b"pw1", &vault.index_bytes, &vault.notes_index_bytes, b"icon2", &vec![])
            .unwrap();
    let content = read_note(b"pw1", &vault.index_bytes, &note.note_bytes).unwrap();
    assert_eq!(content, b"{}".to_vec());
    // the filename is a UUID with the .json extension
    assert_eq!(note.filename.len(), 41);
    assert!(check_uuid_v4(&note.filename[0..36]));
    assert_eq!(&note.filename[36..], b".json");
    // the notes index lists exactly the new note, with an empty title
    let notes = list_notes(b"pw1", &vault.index_bytes, &note.notes_index_bytes).unwrap();
    assert_eq!(notes.len(), 1);
    assert_eq!(notes[0].filename, note.filename);
    assert_eq!(notes[0].notetitle, b"".to_vec());
    assert_eq!(notes[0].icon, b"icon2".to_vec());
}

#[test]
fn write_then_read_note_round_trips() {
    let (global, _notes_index) = one_vault_store(b"pw");
    let body = b"{\"text\":\"hello\"}";
    let sealed = write_note(b"pw", &global, body).unwrap();
    assert_eq!(read_note(b"pw", &global, &sealed).unwrap(), body.to_vec());
}

#[test]
fn read_note_wrong_password_fails() {
    let (global, _notes_index) = one_vault_store(b"pw");
    let sealed = write_note(b"pw", &global, b"secret").unwrap();
    assert_eq!(read_note(b"wrong", &global, &sealed), Err(StoreError::DecryptFailure));
}

#[test]
fn list_notes_wrong_password_fails() {
    let (global, notes_index) = one_vault_store(b"pw");
    assert_eq!(list_notes(b"wrong", &global, &notes_index), Err(StoreError::DecryptFailure));
}

#[test]
fn set_note_icon_changes_only_the_icon() {
    let (global, notes_index) = one_vault_store(b"pw");
    let note = create_note(b"pw", &global, &notes_index, b"old-icon", &vec![]).unwrap();
    let updated =
        set_note_icon(b"pw", &global, &note.notes_index_bytes, &note.filename, b"new-icon")
            .unwrap();
    let notes = list_notes(b"pw", &global, &updated).unwrap();
    assert_eq!(notes.len(), 1);
    assert_eq!(notes[0].icon, b"new-icon".to_vec());
    assert_eq!(notes[0].notetitle, b"".to_vec());
    assert_eq!(notes[0].filename, note.filename);
}

#[test]
fn set_note_title_changes_only_the_title() {
    let (global, notes_index) = one_vault_store(b"pw");
    let note = create_note(b"pw", &global, &notes_index, b"i", &vec![]).unwrap();
    let updated =
        set_note_title(b"pw", &global, &note.notes_index_bytes, &note.filename, b"My Title")
            .unwrap();
    let notes = list_notes(b"pw", &global, &updated).unwrap();
    assert_eq!(notes[0].notetitle, b"My Title".to_vec());
    assert_eq!(notes[0].icon, b"i".to_vec());
    assert_eq!(notes[0].filename, note.filename);
}

#[test]
fn set_note_icon_missing_note_is_not_found() {
    let (global, notes_index) = one_vault_store(b"pw");
    let r = set_note_icon(b"pw", &global, &notes_index, b"absent.json", b"x");
    assert!(matches!(r, Err(StoreError::NotFound)));
}

#[test]
fn set_note_title_missing_note_is_not_found() {
    let (global, notes_index) = one_vault_store(b"pw");
    let r = set_note_title(b"pw", &global, &notes_index, b"absent.json", b"x");
    assert!(matches!(r, Err(StoreError::NotFound)));
}

#[test]
fn delete_note_removes_its_record() {
    let (global, notes_index) = one_vault_store(b"pw");
    let first = create_note(b"pw", &global, &notes_index, b"i1", &vec![]).unwrap();
    let second = create_note(b"pw", &global, &first.notes_index_bytes, b"i2", &vec![
        first.filename.clone(),
    ])
    .unwrap();
    let after = delete_note(b"pw", &global, &second.notes_index_bytes, &first.filename).unwrap();
    let notes = list_notes(b"pw", &global, &after).unwrap();
    assert_eq!(notes.len(), 1);
    assert_eq!(notes[0].filename, second.filename);
}

#[test]
fn delete_missing_note_is_not_found() {
    let (global, notes_index) = one_vault_store(b"pw");
    let r = delete_note(b"pw", &global, &notes_index, b"absent.json");
    assert!(matches!(r, Err(StoreError::NotFound)));
}

#[test]
fn note_updates_keep_other_notes() {
    let (global, notes_index) = one_vault_store(b"pw");
    let first = create_note(b"pw", &global, &notes_index, b"i1", &vec![]).unwrap();
    let second = create_note(b"pw", &global, &first.notes_index_bytes, b"i2", &vec![
        first.filename.clone(),
    ])
    .unwrap();
    let updated =
        set_note_title(b"pw", &global, &second.notes_index_bytes, &second.filename, b"t2").unwrap();
    let notes = list_notes(b"pw", &global, &updated).unwrap();
    assert_eq!(notes.len(), 2);
    assert_eq!(notes[0].filename, first.filename);
    assert_eq!(notes[0].notetitle, b"".to_vec());
    assert_eq!(notes[1].notetitle, b"t2".to_vec());
}

#[test]
fn count_note_files_skips_index_and_foreign_files() {
    let names: Vec<Vec<u8>> = vec![
        b"index.json".to_vec(),
        b"a.json".to_vec(),
        b"b.json".to_vec(),
        b"c.txt".to_vec(),
        b"noextension".to_vec(),
        b".json".to_vec(),
    ];
    assert_eq!(count_note_files(&names), 3);
}

#[test]
fn fresh_note_filename_has_uuid_shape_and_avoids_existing() {
    let taken: Vec<Vec<u8>> = vec![b"taken.json".to_vec()];
    let f = fresh_note_filename(&taken).expect("fresh draw");
    assert_eq!(f.len(), 41);
    assert!(check_uuid_v4(&f[0..36]));
    assert_eq!(&f[36..], b".json");
    assert_ne!(f, b"taken.json".to_vec());
}
