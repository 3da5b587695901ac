use noetiq_store::notes::{create_note, list_notes, read_note};
use noetiq_store::records::VaultEntry;
use noetiq_store::rotation::{
    reencrypt_file, rotate_global_index, rotation_action, rotation_step, RotationAction,
    RotationState,
};
use noetiq_store::vaults::{create_vault, initialize_store, list_vaults};
use noetiq_store::StoreError;

fn entry(name: &str) -> VaultEntry {
    VaultEntry {
        icon: b"i".to_vec(),
        name: name.as_bytes().to_vec(),
        description: b"d".to_vec(),
    }
}

#[test]
fn rotation_preserves_vault_records() {
    // two vaults; their notes indexes are re-keyed alongside the global index
    let init = initialize_store(b"old pw", b"hint");
    let v1 = create_vault(b"old pw", &init.index_bytes, &entry("first"), &vec![]).unwrap();
    let v2 = create_vault(b"old pw", &v1.index_bytes, &entry("second"), &vec![
        v1.folder_id.clone(),
    ])
    .unwrap();
    let global = v2.index_bytes.clone();

    let before = list_vaults(b"old pw", &global).unwrap();
    assert_eq!(before.len(), 2);

    // rotate the global index and re-key the vault-local files
    let rot = rotate_global_index(b"old pw", b"new pw", &global).unwrap();
    let notes_index_v1 = reencrypt_file(&rot.old_key, &rot.new_key, &v1.notes_index_bytes)
        .unwrap()
        .expect("long enough");
    let notes_index_v2 = reencrypt_file(&rot.old_key, &rot.new_key, &v2.notes_index_bytes)
        .unwrap()
        .expect("long enough");

    // the new password sees exactly the records the old password saw
    let after = list_vaults(b"new pw", &rot.index_bytes).unwrap();
    assert_eq!(after, before);

    // the re-keyed notes indexes hold the very plaintext the old key held;
    // opening blobs derives no key, so check it here too
    let plain1_old = noetiq_store::envelope::open_blob(&rot.old_key, &v1.notes_index_bytes)
        .unwrap();
    let plain1_new = noetiq_store::envelope::open_blob(&rot.new_key, &notes_index_v1).unwrap();
    assert_eq!(plain1_old, plain1_new);
    let plain2_old = noetiq_store::envelope::open_blob(&rot.old_key, &v2.notes_index_bytes)
        .unwrap();
    let plain2_new = noetiq_store::envelope::open_blob(&rot.new_key, &notes_index_v2).unwrap();
    assert_eq!(plain2_old, plain2_new);
}

#[test]
fn rotation_locks_out_old_password() {
    let init = initialize_store(b"old pw", b"hint");
    let rot = rotate_global_index(b"old pw", b"new pw", &init.index_bytes).unwrap();
    assert_eq!(list_vaults(b"old pw", &rot.index_bytes), Err(StoreError::DecryptFailure));
}

#[test]
fn rotation_preserves_notes_and_contents() {
    let init = initialize_store(b"old pw", b"hint");
    let v1 = create_vault(b"old pw", &init.index_bytes, &entry("only"), &vec![]).unwrap();
    let global = v1.index_bytes.clone();
    let n1 = create_note(b"old pw", &global, &v1.notes_index_bytes, b"a", &vec![]).unwrap();

    let rot = rotate_global_index(b"old pw", b"new pw", &global).unwrap();
    let notes_index = reencrypt_file(&rot.old_key, &rot.new_key, &n1.notes_index_bytes)
        .unwrap()
        .expect("long enough");
    let note_body = reencrypt_file(&rot.old_key, &rot.new_key, &n1.note_bytes)
        .unwrap()
        .expect("long enough");

    let notes = list_notes(b"new pw", &rot.index_bytes, &notes_index).unwrap();
    assert_eq!(notes.len(), 1);
    assert_eq!(notes[0].filename, n1.filename);
    assert_eq!(read_note(b"new pw", &rot.index_bytes, &note_body).unwrap(), b"{}".to_vec());
}

#[test]
fn rotation_with_wrong_old_password_fails() {
    let init = initialize_store(b"old pw", b"hint");
    let r = rotate_global_index(b"bad pw", b"new pw", &init.index_bytes);
    assert!(matches!(r, Err(StoreError::DecryptFailure)));
}

#[test]
fn reencrypt_skips_files_too_short_for_content() {
    let init = initialize_store(b"old pw", b"hint");
    let rot = rotate_global_index(b"old pw", b"new pw", &init.index_bytes).unwrap();
    assert_eq!(reencrypt_file(&rot.old_key, &rot.new_key, &[0u8; 12]).unwrap(), None);
    assert_eq!(reencrypt_file(&rot.old_key, &rot.new_key, &[]).unwrap(), None);
}

#[test]
fn failure_after_snapshot_leaves_live_store_untouched() {
    // the live store: a global index that must survive an aborted rotation
    let init = initialize_store(b"old pw", b"hint");
    let live_index = init.index_bytes.clone();

    // drive the protocol to the snapshot, then report a failure while
    // re-keying the copy
    let mut state = RotationState::Init;
    assert_eq!(rotation_action(state), Some(RotationAction::ClearTmp));
    state = rotation_step(state, true);
    assert_eq!(rotation_action(state), Some(RotationAction::CopyLiveToTmp));
    state = rotation_step(state, true);
    assert_eq!(rotation_action(state), Some(RotationAction::RekeyTmp));
    state = rotation_step(state, false);
    assert_eq!(state, RotationState::Aborted);
    assert_eq!(rotation_action(state), None);

    // no action up to that point named the live store, so its bytes stand
    // and the old password still opens it
    assert_eq!(init.index_bytes, live_index);
    let vaults = list_vaults(b"old pw", &live_index).unwrap();
    assert_eq!(vaults.len(), 0);
}

#[test]
fn protocol_happy_path_ends_done() {
    let order = [
        RotationAction::ClearTmp,
        RotationAction::CopyLiveToTmp,
        RotationAction::RekeyTmp,
        RotationAction::ClearStaleBackup,
        RotationAction::MoveLiveToBackup,
        RotationAction::MoveTmpToLive,
        RotationAction::RemoveBackup,
    ];
    let mut state = RotationState::Init;
    for expected in order.iter() {
        assert_eq!(rotation_action(state), Some(*expected));
        state = rotation_step(state, true);
    }
    assert_eq!(state, RotationState::Done);
    assert_eq!(rotation_action(state), None);
}

#[test]
fn protocol_swap_failure_restores_backup() {
    let mut state = RotationState::LiveAside;
    assert_eq!(rotation_action(state), Some(RotationAction::MoveTmpToLive));
    state = rotation_step(state, false);
    assert_eq!(state, RotationState::NeedsRestore);
    assert_eq!(rotation_action(state), Some(RotationAction::RestoreBackup));
    // the error is surfaced whether or not the restore rename succeeds
    assert_eq!(rotation_step(state, true), RotationState::RolledBack);
    assert_eq!(rotation_step(state, false), RotationState::RolledBack);
}

#[test]
fn protocol_backup_removal_failure_still_commits() {
    let mut state = RotationState::Swapped;
    assert_eq!(rotation_action(state), Some(RotationAction::RemoveBackup));
    state = rotation_step(state, false);
    assert_eq!(state, RotationState::DoneLeftover);
    assert_eq!(rotation_action(state), None);
}
