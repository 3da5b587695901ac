//! Password rotation: re-encrypting the whole store under a new key.
//!
//! The computation is verified here: re-sealing the global index under a new
//! password and salt, and re-encrypting each vault-local file independently.
//! The directory-level protocol — snapshot the store to a temporary copy,
//! re-key the copy, then swap it into place with two renames and recover by
//! reversing the first rename if the second fails — is a state machine whose
//! transitions are verified; the surrounding program performs each prescribed
//! filesystem action and reports whether it succeeded.

use vstd::prelude::*;

use crate::crypto::{
    argon2_derive, os_random_bytes, MAX_PASSWORD_LEN, MAX_SEAL_LEN, NONCE_LEN, SALT_LEN,
};
use crate::envelope::{
    env_plain, g_encodes, g_plain, g_salt, g_vaults, open_blob, seal_blob, seal_global_blob,
    MIN_GLOBAL_LEN,
};
use crate::records::{parse_vaults_top, ser_vaults, ser_vaults_top, vault_views, VaultRecord};
use crate::StoreError;

verus! {

/// The result of re-keying the global index: the new file body and the two
/// keys with which every other file of the store is re-encrypted.
pub struct RotatedIndex {
    pub index_bytes: Vec<u8>,
    pub old_key: Vec<u8>,
    pub new_key: Vec<u8>,
    pub vaults: Vec<VaultRecord>,
}

/// Opens the global index with the old password — the authorization check for
/// the whole rotation — and reseals the same vault list under a fresh random
/// salt, the new password's key and a fresh nonce. Returns both keys so the
/// caller can re-encrypt every vault-local file, and the vault list so it
/// knows which directories to visit.
pub fn rotate_global_index(old_password: &[u8], new_password: &[u8], index: &[u8]) -> (r: Result<
    RotatedIndex,
    StoreError,
>)
    requires
        old_password@.len() <= MAX_PASSWORD_LEN,
        new_password@.len() <= MAX_PASSWORD_LEN,
    ensures
        match r {
            Ok(out) => {
                &&& g_vaults(index@, old_password@) == Some(vault_views(out.vaults@))
                &&& out.old_key@ == crate::envelope::g_key(index@, old_password@)
                    && out.old_key@.len() == 32
                &&& out.new_key@ == crate::envelope::g_key(out.index_bytes@, new_password@)
                    && out.new_key@.len() == 32
                &&& g_encodes(out.index_bytes@, new_password@, vault_views(out.vaults@))
            },
            Err(e) => (e == StoreError::CorruptData && index@.len() < MIN_GLOBAL_LEN) || (e
                == StoreError::DecryptFailure && index@.len() >= MIN_GLOBAL_LEN && g_plain(
                index@,
                old_password@,
            ) is None) || (e == StoreError::SerializationError && index@.len() >= MIN_GLOBAL_LEN
                && ((g_plain(index@, old_password@) matches Some(m) && parse_vaults_top(m) is None)
                || (g_vaults(index@, old_password@) matches Some(l) && ser_vaults_top(l).len()
                > MAX_SEAL_LEN))),
        },
{
    let (old_key, vaults) = match crate::vaults::open_global(old_password, index) {
        Ok(kl) => kl,
        Err(e) => {
            return Err(e);
        },
    };
    let new_salt = os_random_bytes(SALT_LEN);
    let new_key = argon2_derive(new_password, new_salt.as_slice());
    let pt = ser_vaults(&vaults);
    let new_index = match seal_global_blob(new_key.as_slice(), new_salt.as_slice(), pt.as_slice()) {
        Ok(b) => b,
        Err(e) => {
            return Err(e);
        },
    };
    proof {
        assert(g_salt(new_index@) == new_salt@);
    }
    Ok(RotatedIndex { index_bytes: new_index, old_key, new_key, vaults })
}

/// Re-encrypts one vault-local file (a notes index or a note body): decrypts
/// it with the old key and seals the same plaintext under the new key with a
/// fresh nonce. A file too short to hold a nonce and any content is treated
/// as already-absent content and skipped (`None`) rather than failing the
/// rotation.
pub fn reencrypt_file(old_key: &[u8], new_key: &[u8], data: &[u8]) -> (r: Result<
    Option<Vec<u8>>,
    StoreError,
>)
    requires
        old_key@.len() == 32,
        new_key@.len() == 32,
    ensures
        match r {
            Ok(opt) => match opt {
                Option::None => data@.len() <= NONCE_LEN,
                Option::Some(b) => data@.len() > NONCE_LEN && env_plain(data@, old_key@) is Some
                    && env_plain(b@, new_key@) == env_plain(data@, old_key@),
            },
            Err(e) => (e == StoreError::DecryptFailure && data@.len() > NONCE_LEN && env_plain(
                data@,
                old_key@,
            ) is None) || (e == StoreError::SerializationError && data@.len() > MAX_SEAL_LEN
                + NONCE_LEN + 16),
        },
{
    if data.len() <= NONCE_LEN {
        return Ok(None);
    }
    let plain = match open_blob(old_key, data) {
        Ok(p) => p,
        Err(_) => {
            return Err(StoreError::DecryptFailure);
        },
    };
    match seal_blob(new_key, plain.as_slice()) {
        Ok(b) => Ok(Some(b)),
        Err(e) => Err(e),
    }
}

/// Where the directory-level rotation protocol stands. The terminal states
/// say how it ended: `Done` (committed, backup removed), `DoneLeftover`
/// (committed, but the backup directory could not be removed), `Aborted`
/// (nothing committed, the live store untouched), `RolledBack` (the live
/// store was moved aside, the swap failed, and the backup was moved back).
#[derive(Clone, Copy, Debug, PartialEq, Eq, Structural)]
pub enum RotationState {
    /// Nothing done yet.
    Init,
    /// A stale temporary directory, if any, has been removed.
    TmpCleared,
    /// The live store has been copied to the temporary directory.
    Snapshotted,
    /// Every file of the copy has been re-encrypted under the new key.
    Rekeyed,
    /// A stale backup directory, if any, has been removed.
    BackupCleared,
    /// The live store has been renamed to the backup name.
    LiveAside,
    /// The re-keyed copy has been renamed into the live store's place.
    Swapped,
    /// The swap rename failed; the backup must be restored.
    NeedsRestore,
    /// Committed and cleaned up.
    Done,
    /// Committed, but the backup directory remains.
    DoneLeftover,
    /// Failed before the live store was touched.
    Aborted,
    /// The swap failed and the live store was restored from the backup.
    RolledBack,
}

/// The filesystem actions the protocol prescribes, one per step.
#[derive(Clone, Copy, Debug, PartialEq, Eq, Structural)]
pub enum RotationAction {
    /// Remove the temporary directory if it exists.
    ClearTmp,
    /// Recursively copy the live store into the temporary directory.
    CopyLiveToTmp,
    /// Re-encrypt every file of the temporary copy and update its hint.
    RekeyTmp,
    /// Remove the backup directory if it exists.
    ClearStaleBackup,
    /// Rename the live store to the backup name.
    MoveLiveToBackup,
    /// Rename the temporary copy into the live store's place.
    MoveTmpToLive,
    /// Remove the backup directory.
    RemoveBackup,
    /// Rename the backup back to the live store's name.
    RestoreBackup,
}

/// The action a state prescribes; terminal states prescribe none.
pub open spec fn spec_rotation_action(s: RotationState) -> Option<RotationAction> {
    match s {
        RotationState::Init => Some(RotationAction::ClearTmp),
        RotationState::TmpCleared => Some(RotationAction::CopyLiveToTmp),
        RotationState::Snapshotted => Some(RotationAction::RekeyTmp),
        RotationState::Rekeyed => Some(RotationAction::ClearStaleBackup),
        RotationState::BackupCleared => Some(RotationAction::MoveLiveToBackup),
        RotationState::LiveAside => Some(RotationAction::MoveTmpToLive),
        RotationState::Swapped => Some(RotationAction::RemoveBackup),
        RotationState::NeedsRestore => Some(RotationAction::RestoreBackup),
        RotationState::Done => None,
        RotationState::DoneLeftover => None,
        RotationState::Aborted => None,
        RotationState::RolledBack => None,
    }
}

/// The state after performing the prescribed action with the given outcome.
/// Failure anywhere before the live store is moved aside aborts with the
/// store untouched; failure of the swap leads through `NeedsRestore` to
/// `RolledBack` whatever the restore reports, as the error is surfaced either
/// way.
pub open spec fn spec_rotation_step(s: RotationState, ok: bool) -> RotationState {
    match s {
        RotationState::Init => if ok {
            RotationState::TmpCleared
        } else {
            RotationState::Aborted
        },
        RotationState::TmpCleared => if ok {
            RotationState::Snapshotted
        } else {
            RotationState::Aborted
        },
        RotationState::Snapshotted => if ok {
            RotationState::Rekeyed
        } else {
            RotationState::Aborted
        },
        RotationState::Rekeyed => if ok {
            RotationState::BackupCleared
        } else {
            RotationState::Aborted
        },
        RotationState::BackupCleared => if ok {
            RotationState::LiveAside
        } else {
            RotationState::Aborted
        },
        RotationState::LiveAside => if ok {
            RotationState::Swapped
        } else {
            RotationState::NeedsRestore
        },
        RotationState::Swapped => if ok {
            RotationState::Done
        } else {
            RotationState::DoneLeftover
        },
        RotationState::NeedsRestore => RotationState::RolledBack,
        RotationState::Done => RotationState::Done,
        RotationState::DoneLeftover => RotationState::DoneLeftover,
        RotationState::Aborted => RotationState::Aborted,
        RotationState::RolledBack => RotationState::RolledBack,
    }
}

/// Whether a state is terminal: no action remains.
pub open spec fn rotation_terminal(s: RotationState) -> bool {
    spec_rotation_action(s) is None
}

/// Whether the live store directory still stands exactly as it did before the
/// rotation began: every state up to and including `BackupCleared`, and an
/// abort from any of them.
pub open spec fn live_intact(s: RotationState) -> bool {
    s == RotationState::Init || s == RotationState::TmpCleared || s == RotationState::Snapshotted
        || s == RotationState::Rekeyed || s == RotationState::BackupCleared || s
        == RotationState::Aborted
}

/// Whether an action renames the live store's name or writes over it.
pub open spec fn action_touches_live(a: RotationAction) -> bool {
    a == RotationAction::MoveLiveToBackup || a == RotationAction::MoveTmpToLive || a
        == RotationAction::RestoreBackup
}

/// The action a state prescribes, at run time.
pub fn rotation_action(s: RotationState) -> (r: Option<RotationAction>)
    ensures
        r == spec_rotation_action(s),
{
    match s {
        RotationState::Init => Some(RotationAction::ClearTmp),
        RotationState::TmpCleared => Some(RotationAction::CopyLiveToTmp),
        RotationState::Snapshotted => Some(RotationAction::RekeyTmp),
        RotationState::Rekeyed => Some(RotationAction::ClearStaleBackup),
        RotationState::BackupCleared => Some(RotationAction::MoveLiveToBackup),
        RotationState::LiveAside => Some(RotationAction::MoveTmpToLive),
        RotationState::Swapped => Some(RotationAction::RemoveBackup),
        RotationState::NeedsRestore => Some(RotationAction::RestoreBackup),
        RotationState::Done => None,
        RotationState::DoneLeftover => None,
        RotationState::Aborted => None,
        RotationState::RolledBack => None,
    }
}

/// Advances the protocol by one performed action, at run time.
pub fn rotation_step(s: RotationState, ok: bool) -> (r: RotationState)
    ensures
        r == spec_rotation_step(s, ok),
{
    match s {
        RotationState::Init => if ok {
            RotationState::TmpCleared
        } else {
            RotationState::Aborted
        },
        RotationState::TmpCleared => if ok {
            RotationState::Snapshotted
        } else {
            RotationState::Aborted
        },
        RotationState::Snapshotted => if ok {
            RotationState::Rekeyed
        } else {
            RotationState::Aborted
        },
        RotationState::Rekeyed => if ok {
            RotationState::BackupCleared
        } else {
            RotationState::Aborted
        },
        RotationState::BackupCleared => if ok {
            RotationState::LiveAside
        } else {
            RotationState::Aborted
        },
        RotationState::LiveAside => if ok {
            RotationState::Swapped
        } else {
            RotationState::NeedsRestore
        },
        RotationState::Swapped => if ok {
            RotationState::Done
        } else {
            RotationState::DoneLeftover
        },
        RotationState::NeedsRestore => RotationState::RolledBack,
        RotationState::Done => RotationState::Done,
        RotationState::DoneLeftover => RotationState::DoneLeftover,
        RotationState::Aborted => RotationState::Aborted,
        RotationState::RolledBack => RotationState::RolledBack,
    }
}

/// Until the live store is moved aside — that is, before the rename out of
/// `BackupCleared` succeeds — every step of the protocol keeps the live store
/// untouched; in particular a failure at any of those steps aborts with the
/// store exactly as it was.
pub proof fn lemma_rotation_safe_before_commit(s: RotationState, ok: bool)
    requires
        live_intact(s),
        !(s == RotationState::BackupCleared && ok),
    ensures
        live_intact(spec_rotation_step(s, ok)),
{
}

/// In every live-intact state before `BackupCleared`, the prescribed action
/// does not rename or overwrite the live store.
pub proof fn lemma_rotation_actions_spare_live(s: RotationState)
    requires
        live_intact(s),
        s != RotationState::BackupCleared,
    ensures
        spec_rotation_action(s) matches Some(a) ==> !action_touches_live(a),
{
}

/// If the swap rename fails, the protocol prescribes restoring the backup to
/// the live name and then ends rolled back, whatever the restore reports.
pub proof fn lemma_rotation_swap_failure_recovers()
    ensures
        spec_rotation_step(RotationState::LiveAside, false) == RotationState::NeedsRestore,
        spec_rotation_action(RotationState::NeedsRestore) == Some(RotationAction::RestoreBackup),
        forall|ok: bool|
            spec_rotation_step(RotationState::NeedsRestore, ok) == RotationState::RolledBack,
{
}

/// The protocol always ends: every state is terminal or strictly nearer to a
/// terminal state, measured by the steps that remain.
pub open spec fn rotation_steps_left(s: RotationState) -> nat {
    match s {
        RotationState::Init => 8,
        RotationState::TmpCleared => 7,
        RotationState::Snapshotted => 6,
        RotationState::Rekeyed => 5,
        RotationState::BackupCleared => 4,
        RotationState::LiveAside => 3,
        RotationState::Swapped => 1,
        RotationState::NeedsRestore => 1,
        RotationState::Done => 0,
        RotationState::DoneLeftover => 0,
        RotationState::Aborted => 0,
        RotationState::RolledBack => 0,
    }
}

/// Each step strictly decreases the number of steps left until a terminal
/// state, so a driver that performs the prescribed actions terminates.
pub proof fn lemma_rotation_step_progress(s: RotationState, ok: bool)
    requires
        !rotation_terminal(s),
    ensures
        rotation_steps_left(spec_rotation_step(s, ok)) < rotation_steps_left(s),
{
}

} // verus!
