//! Operations on the store's global index: the encrypted registry of vaults,
//! and the plaintext public hint record beside it.
//!
//! Every operation is a pure function from the password and the bytes of the
//! files it reads to the bytes of the files to write back; the surrounding
//! program does the reading and writing.

use vstd::prelude::*;

use crate::bytes::{bytes_eq, copy_bytes, sub_bytes, views_of};
use crate::crypto::{argon2_derive, is_uuid_v4, MAX_PASSWORD_LEN, MAX_SEAL_LEN, SALT_LEN};
use crate::envelope::{
    g_encodes, g_key, g_plain, g_salt, g_vaults, n_encodes, seal_blob, seal_global_blob,
    MIN_GLOBAL_LEN,
};
use crate::records::{
    parse_hint, parse_hint_top, parse_vaults, parse_vaults_top, ser_hint, ser_hint_exec, ser_notes,
    ser_vaults, ser_vaults_top, vault_views, NoteRecord, VaultEntry, VaultEntryView, VaultRecord,
    VaultRecordView,
};
use crate::StoreError;

verus! {

/// The record that registers a new vault: the caller's fields and the fresh
/// folder id.
pub open spec fn vault_rec_of(e: VaultEntryView, id: Seq<u8>) -> VaultRecordView {
    VaultRecordView { icon: e.icon, name: e.name, description: e.description, folder_id: id }
}

/// The record `v` with its name, description and icon replaced; the folder id
/// is kept.
pub open spec fn vault_with_fields(
    v: VaultRecordView,
    name: Seq<u8>,
    description: Seq<u8>,
    icon: Seq<u8>,
) -> VaultRecordView {
    VaultRecordView { icon, name, description, folder_id: v.folder_id }
}

/// The index of the first record whose folder id is `id`.
pub open spec fn find_vault(l: Seq<VaultRecordView>, id: Seq<u8>) -> Option<int>
    decreases l.len(),
{
    if l.len() == 0 {
        None
    } else if l[0].folder_id == id {
        Some(0int)
    } else {
        match find_vault(l.skip(1), id) {
            Some(i) => Some(i + 1),
            None => None,
        }
    }
}

/// If nothing before `i` matches and `l[i]` does, then `i` is the first match.
pub proof fn lemma_find_vault_hit(l: Seq<VaultRecordView>, id: Seq<u8>, i: int)
    requires
        0 <= i < l.len(),
        forall|j: int| 0 <= j < i ==> l[j].folder_id != id,
        l[i].folder_id == id,
    ensures
        find_vault(l, id) == Some(i),
    decreases i,
{
    if i == 0 {
    } else {
        assert(l[0].folder_id != id);
        assert(forall|j: int| 0 <= j < i - 1 ==> l.skip(1)[j] == l[j + 1]);
        lemma_find_vault_hit(l.skip(1), id, i - 1);
    }
}

/// If nothing matches, there is no first match.
pub proof fn lemma_find_vault_miss(l: Seq<VaultRecordView>, id: Seq<u8>)
    requires
        forall|j: int| 0 <= j < l.len() ==> l[j].folder_id != id,
    ensures
        find_vault(l, id) is None,
    decreases l.len(),
{
    if l.len() > 0 {
        assert(forall|j: int| 0 <= j < l.skip(1).len() ==> l.skip(1)[j] == l[j + 1]);
        lemma_find_vault_miss(l.skip(1), id);
    }
}

/// The first match lies in bounds and matches.
pub proof fn lemma_find_vault_some(l: Seq<VaultRecordView>, id: Seq<u8>)
    ensures
        find_vault(l, id) matches Some(i) ==> 0 <= i < l.len() && l[i].folder_id == id,
    decreases l.len(),
{
    if l.len() > 0 && l[0].folder_id != id {
        lemma_find_vault_some(l.skip(1), id);
    }
}

/// Opens the global index with a password: splits the salt, derives the key,
/// decrypts and parses the vault list. This is the shared read half of every
/// operation on the global index.
pub fn open_global(password: &[u8], index: &[u8]) -> (r: Result<
    (Vec<u8>, Vec<VaultRecord>),
    StoreError,
>)
    requires
        password@.len() <= MAX_PASSWORD_LEN,
    ensures
        match r {
            Ok(kl) => index@.len() >= MIN_GLOBAL_LEN && kl.0@ == g_key(index@, password@)
                && kl.0@.len() == 32 && g_vaults(index@, password@) == Some(vault_views(kl.1@)),
            Err(e) => (e == StoreError::CorruptData && index@.len() < MIN_GLOBAL_LEN) || (e
                == StoreError::DecryptFailure && index@.len() >= MIN_GLOBAL_LEN && g_plain(
                index@,
                password@,
            ) is None) || (e == StoreError::SerializationError && index@.len() >= MIN_GLOBAL_LEN
                && (g_plain(index@, password@) matches Some(m) && parse_vaults_top(m) is None)),
        },
{
    if index.len() < MIN_GLOBAL_LEN {
        return Err(StoreError::CorruptData);
    }
    let salt = sub_bytes(index, 0, SALT_LEN);
    proof {
        assert(salt@ =~= g_salt(index@));
    }
    let key = argon2_derive(password, salt.as_slice());
    let nonce = sub_bytes(index, SALT_LEN, SALT_LEN + 12);
    let ct = sub_bytes(index, SALT_LEN + 12, index.len());
    proof {
        assert(nonce@ =~= index@.subrange(16, 28));
        assert(ct@ =~= index@.skip(28));
    }
    let plain = match crate::crypto::aead_decrypt(key.as_slice(), nonce.as_slice(), ct.as_slice()) {
        Some(p) => p,
        None => {
            return Err(StoreError::DecryptFailure);
        },
    };
    match parse_vaults(plain.as_slice()) {
        Some(l) => Ok((key, l)),
        None => Err(StoreError::SerializationError),
    }
}

/// Reads the vault list from the global index. Fails with `CorruptData` on a
/// file shorter than salt, nonce and tag; with `DecryptFailure` when the
/// password is wrong or the file is tampered; with `SerializationError` when
/// the decrypted bytes are not a vault list.
pub fn list_vaults(password: &[u8], index: &[u8]) -> (r: Result<Vec<VaultRecord>, StoreError>)
    requires
        password@.len() <= MAX_PASSWORD_LEN,
    ensures
        match r {
            Ok(l) => g_vaults(index@, password@) == Some(vault_views(l@)),
            Err(e) => (e == StoreError::CorruptData && index@.len() < MIN_GLOBAL_LEN) || (e
                == StoreError::DecryptFailure && index@.len() >= MIN_GLOBAL_LEN && g_plain(
                index@,
                password@,
            ) is None) || (e == StoreError::SerializationError && index@.len() >= MIN_GLOBAL_LEN
                && (g_plain(index@, password@) matches Some(m) && parse_vaults_top(m) is None)),
        },
{
    match open_global(password, index) {
        Ok((_key, l)) => Ok(l),
        Err(e) => Err(e),
    }
}

/// The freshly written files of a new store: the plaintext public record and
/// the encrypted empty global index.
pub struct StoreInit {
    pub public_bytes: Vec<u8>,
    pub index_bytes: Vec<u8>,
}

/// Creates a new store: the public hint record, and a global index that
/// holds an empty vault list under a fresh random salt and the given
/// password.
pub fn initialize_store(password: &[u8], hint: &[u8]) -> (r: StoreInit)
    requires
        password@.len() <= MAX_PASSWORD_LEN,
    ensures
        r.public_bytes@ == ser_hint(hint@),
        g_encodes(r.index_bytes@, password@, Seq::<VaultRecordView>::empty()),
{
    let public_bytes = ser_hint_exec(hint);
    let salt = crate::crypto::os_random_bytes(SALT_LEN);
    let key = argon2_derive(password, salt.as_slice());
    let empty: Vec<VaultRecord> = Vec::new();
    let pt = ser_vaults(&empty);
    proof {
        assert(vault_views(empty@) =~= Seq::<VaultRecordView>::empty());
    }
    let index_bytes = match seal_global_blob(key.as_slice(), salt.as_slice(), pt.as_slice()) {
        Ok(b) => b,
        Err(_) => {
            proof {
                assert(false);
            }
            vstd::pervasive::unreached()
        },
    };
    StoreInit { public_bytes, index_bytes }
}

/// Reads the hint from the plaintext public record. Fails with
/// `SerializationError` when the bytes are not a hint object.
pub fn read_hint(public_bytes: &[u8]) -> (r: Result<Vec<u8>, StoreError>)
    ensures
        match r {
            Ok(h) => parse_hint_top(public_bytes@) == Some(h@),
            Err(e) => e == StoreError::SerializationError && parse_hint_top(public_bytes@) is None,
        },
{
    match parse_hint(public_bytes) {
        Some(h) => Ok(h),
        None => Err(StoreError::SerializationError),
    }
}

/// Replaces the hint in the public record, keeping its single-field shape.
/// The old record must parse; the result is the serialized new hint.
pub fn set_hint(public_bytes: &[u8], new_hint: &[u8]) -> (r: Result<Vec<u8>, StoreError>)
    ensures
        match r {
            Ok(b) => parse_hint_top(public_bytes@) is Some && b@ == ser_hint(new_hint@),
            Err(e) => e == StoreError::SerializationError && parse_hint_top(public_bytes@) is None,
        },
{
    match parse_hint(public_bytes) {
        Some(_) => Ok(ser_hint_exec(new_hint)),
        None => Err(StoreError::SerializationError),
    }
}

/// Draws fresh folder ids until one differs from every existing name.
/// Identifier collisions are all but impossible; after a bounded number of
/// draws the attempt is given up rather than looping forever.
pub fn fresh_dir_id(existing: &Vec<Vec<u8>>) -> (r: Option<Vec<u8>>)
    ensures
        r matches Some(id) ==> is_uuid_v4(id@) && !views_of(existing@).contains(id@),
{
    let mut tries: usize = 0;
    while tries < 64
        invariant
            tries <= 64,
        decreases 64 - tries,
    {
        let id = crate::crypto::fresh_uuid();
        if !crate::bytes::contains_bytes(existing, id.as_slice()) {
            return Some(id);
        }
        tries = tries + 1;
    }
    None
}

/// The position of the first record with folder id `id`, at run time.
fn find_vault_index(vaults: &Vec<VaultRecord>, id: &[u8]) -> (r: Option<usize>)
    ensures
        match r {
            Some(i) => i < vaults@.len() && find_vault(vault_views(vaults@), id@) == Some(i as int),
            None => find_vault(vault_views(vaults@), id@) is None,
        },
{
    let n = vaults.len();
    let mut i: usize = 0;
    while i < n
        invariant
            0 <= i <= n,
            n == vaults@.len(),
            forall|j: int| 0 <= j < i ==> vault_views(vaults@)[j].folder_id != id@,
        decreases n - i,
    {
        if bytes_eq(vaults[i].folder_id.as_slice(), id) {
            proof {
                assert(vault_views(vaults@)[i as int].folder_id == id@);
                lemma_find_vault_hit(vault_views(vaults@), id@, i as int);
            }
            return Some(i);
        }
        proof {
            assert(vault_views(vaults@)[i as int].folder_id == vaults@[i as int].folder_id@);
        }
        i = i + 1;
    }
    proof {
        lemma_find_vault_miss(vault_views(vaults@), id@);
    }
    None
}

/// The files that creating a vault produces: the rewritten global index, the
/// fresh folder id, and the empty encrypted notes index for the new
/// directory.
pub struct NewVault {
    pub index_bytes: Vec<u8>,
    pub folder_id: Vec<u8>,
    pub notes_index_bytes: Vec<u8>,
}

/// Registers a new vault: appends a record with a fresh folder id (a UUID
/// distinct from every name in `existing_dirs`) to the global index, keeping
/// the salt, and seals an empty notes index for the new directory under the
/// same key. `IoError` is returned only when the bounded identifier draw
/// gives up.
pub fn create_vault(
    password: &[u8],
    index: &[u8],
    entry: &VaultEntry,
    existing_dirs: &Vec<Vec<u8>>,
) -> (r: Result<NewVault, StoreError>)
    requires
        password@.len() <= MAX_PASSWORD_LEN,
    ensures
        match r {
            Ok(out) => {
                &&& g_vaults(index@, password@) matches Some(l)
                &&& is_uuid_v4(out.folder_id@)
                &&& !views_of(existing_dirs@).contains(out.folder_id@)
                &&& g_encodes(
                    out.index_bytes@,
                    password@,
                    g_vaults(index@, password@).unwrap().push(
                        vault_rec_of(entry@, out.folder_id@),
                    ),
                )
                &&& g_salt(out.index_bytes@) == g_salt(index@)
                &&& n_encodes(
                    out.notes_index_bytes@,
                    g_key(index@, password@),
                    Seq::<crate::records::NoteRecordView>::empty(),
                )
            },
            Err(e) => (e == StoreError::CorruptData && index@.len() < MIN_GLOBAL_LEN) || (e
                == StoreError::DecryptFailure && index@.len() >= MIN_GLOBAL_LEN && g_plain(
                index@,
                password@,
            ) is None) || (e == StoreError::SerializationError && index@.len() >= MIN_GLOBAL_LEN
                && ((g_plain(index@, password@) matches Some(m) && parse_vaults_top(m) is None) || (
            g_vaults(index@, password@) matches Some(l) && exists|id: Seq<u8>|
                is_uuid_v4(id) && !views_of(existing_dirs@).contains(id) && (#[trigger] ser_vaults_top(
                    l.push(vault_rec_of(entry@, id)),
                )).len() > MAX_SEAL_LEN))) || (e == StoreError::IoError && g_vaults(
                index@,
                password@,
            ) is Some),
        },
{
    let (key, mut vaults) = match open_global(password, index) {
        Ok(kl) => kl,
        Err(e) => {
            return Err(e);
        },
    };
    let id = match fresh_dir_id(existing_dirs) {
        Some(id) => id,
        None => {
            return Err(StoreError::IoError);
        },
    };
    let ghost l0 = vault_views(vaults@);
    let rec = VaultRecord {
        icon: copy_bytes(entry.icon.as_slice()),
        name: copy_bytes(entry.name.as_slice()),
        description: copy_bytes(entry.description.as_slice()),
        folder_id: copy_bytes(id.as_slice()),
    };
    proof {
        assert(rec@ =~= vault_rec_of(entry@, id@));
    }
    vaults.push(rec);
    proof {
        assert(vault_views(vaults@) =~= l0.push(vault_rec_of(entry@, id@)));
    }
    let pt = ser_vaults(&vaults);
    let salt = sub_bytes(index, 0, SALT_LEN);
    proof {
        assert(salt@ =~= g_salt(index@));
    }
    let new_index = match seal_global_blob(key.as_slice(), salt.as_slice(), pt.as_slice()) {
        Ok(b) => b,
        Err(e) => {
            proof {
                let l = g_vaults(index@, password@).unwrap();
                assert(l == l0);
                assert((ser_vaults_top(l.push(vault_rec_of(entry@, id@)))).len() > MAX_SEAL_LEN);
                assert(exists|id2: Seq<u8>|
                    is_uuid_v4(id2) && !views_of(existing_dirs@).contains(id2) && (
                    #[trigger] ser_vaults_top(l.push(vault_rec_of(entry@, id2)))).len()
                        > MAX_SEAL_LEN);
            }
            return Err(e);
        },
    };
    let empty_notes: Vec<NoteRecord> = Vec::new();
    let notes_pt = ser_notes(&empty_notes);
    proof {
        assert(crate::records::note_views(empty_notes@) =~= Seq::<
            crate::records::NoteRecordView,
        >::empty());
    }
    let notes_blob = match seal_blob(key.as_slice(), notes_pt.as_slice()) {
        Ok(b) => b,
        Err(_) => {
            proof {
                assert(false);
            }
            vstd::pervasive::unreached()
        },
    };
    Ok(NewVault { index_bytes: new_index, folder_id: id, notes_index_bytes: notes_blob })
}

/// Replaces the name, description and icon of the vault with the given folder
/// id (the first match), keeping its position and folder id, and reseals the
/// global index with a fresh nonce under the unchanged salt.
pub fn update_vault(
    password: &[u8],
    index: &[u8],
    folder_id: &[u8],
    name: &[u8],
    description: &[u8],
    icon: &[u8],
) -> (r: Result<Vec<u8>, StoreError>)
    requires
        password@.len() <= MAX_PASSWORD_LEN,
    ensures
        match r {
            Ok(b) => {
                &&& g_vaults(index@, password@) matches Some(l)
                &&& find_vault(g_vaults(index@, password@).unwrap(), folder_id@) matches Some(i)
                &&& g_encodes(
                    b@,
                    password@,
                    g_vaults(index@, password@).unwrap().update(
                        find_vault(g_vaults(index@, password@).unwrap(), folder_id@).unwrap(),
                        vault_with_fields(
                            g_vaults(index@, password@).unwrap()[find_vault(
                                g_vaults(index@, password@).unwrap(),
                                folder_id@,
                            ).unwrap()],
                            name@,
                            description@,
                            icon@,
                        ),
                    ),
                )
                &&& g_salt(b@) == g_salt(index@)
            },
            Err(e) => (e == StoreError::CorruptData && index@.len() < MIN_GLOBAL_LEN) || (e
                == StoreError::DecryptFailure && index@.len() >= MIN_GLOBAL_LEN && g_plain(
                index@,
                password@,
            ) is None) || (e == StoreError::NotFound && (g_vaults(index@, password@) matches Some(l)
                && find_vault(l, folder_id@) is None)) || (e == StoreError::SerializationError
                && index@.len() >= MIN_GLOBAL_LEN && ((g_plain(index@, password@) matches Some(m)
                && parse_vaults_top(m) is None) || (g_vaults(index@, password@) matches Some(l)
                && find_vault(l, folder_id@) matches Some(i) && ser_vaults_top(
                l.update(i, vault_with_fields(l[i], name@, description@, icon@)),
            ).len() > MAX_SEAL_LEN))),
        },
{
    let (key, mut vaults) = match open_global(password, index) {
        Ok(kl) => kl,
        Err(e) => {
            return Err(e);
        },
    };
    let idx = match find_vault_index(&vaults, folder_id) {
        Some(i) => i,
        None => {
            return Err(StoreError::NotFound);
        },
    };
    let ghost l0 = vault_views(vaults@);
    let fid = copy_bytes(vaults[idx].folder_id.as_slice());
    let rec = VaultRecord {
        icon: copy_bytes(icon),
        name: copy_bytes(name),
        description: copy_bytes(description),
        folder_id: fid,
    };
    proof {
        lemma_find_vault_some(l0, folder_id@);
        assert(rec@ =~= vault_with_fields(l0[idx as int], name@, description@, icon@));
    }
    vaults.set(idx, rec);
    proof {
        assert(vault_views(vaults@) =~= l0.update(
            idx as int,
            vault_with_fields(l0[idx as int], name@, description@, icon@),
        ));
    }
    let pt = ser_vaults(&vaults);
    let salt = sub_bytes(index, 0, SALT_LEN);
    proof {
        assert(salt@ =~= g_salt(index@));
    }
    match seal_global_blob(key.as_slice(), salt.as_slice(), pt.as_slice()) {
        Ok(b) => Ok(b),
        Err(e) => Err(e),
    }
}

/// Removes the vault record with the given folder id (the first match) from
/// the global index and reseals it with a fresh nonce under the unchanged
/// salt. The caller removes the vault's directory afterwards.
pub fn delete_vault(password: &[u8], index: &[u8], folder_id: &[u8]) -> (r: Result<
    Vec<u8>,
    StoreError,
>)
    requires
        password@.len() <= MAX_PASSWORD_LEN,
    ensures
        match r {
            Ok(b) => {
                &&& g_vaults(index@, password@) matches Some(l)
                &&& find_vault(g_vaults(index@, password@).unwrap(), folder_id@) matches Some(i)
                &&& g_encodes(
                    b@,
                    password@,
                    g_vaults(index@, password@).unwrap().remove(
                        find_vault(g_vaults(index@, password@).unwrap(), folder_id@).unwrap(),
                    ),
                )
                &&& g_salt(b@) == g_salt(index@)
            },
            Err(e) => (e == StoreError::CorruptData && index@.len() < MIN_GLOBAL_LEN) || (e
                == StoreError::DecryptFailure && index@.len() >= MIN_GLOBAL_LEN && g_plain(
                index@,
                password@,
            ) is None) || (e == StoreError::NotFound && (g_vaults(index@, password@) matches Some(l)
                && find_vault(l, folder_id@) is None)) || (e == StoreError::SerializationError
                && index@.len() >= MIN_GLOBAL_LEN && ((g_plain(index@, password@) matches Some(m)
                && parse_vaults_top(m) is None) || (g_vaults(index@, password@) matches Some(l)
                && find_vault(l, folder_id@) matches Some(i) && ser_vaults_top(
                l.remove(i),
            ).len() > MAX_SEAL_LEN))),
        },
{
    let (key, mut vaults) = match open_global(password, index) {
        Ok(kl) => kl,
        Err(e) => {
            return Err(e);
        },
    };
    let idx = match find_vault_index(&vaults, folder_id) {
        Some(i) => i,
        None => {
            return Err(StoreError::NotFound);
        },
    };
    let ghost l0 = vault_views(vaults@);
    vaults.remove(idx);
    proof {
        assert(vault_views(vaults@) =~= l0.remove(idx as int));
    }
    let pt = ser_vaults(&vaults);
    let salt = sub_bytes(index, 0, SALT_LEN);
    proof {
        assert(salt@ =~= g_salt(index@));
    }
    match seal_global_blob(key.as_slice(), salt.as_slice(), pt.as_slice()) {
        Ok(b) => Ok(b),
        Err(e) => Err(e),
    }
}

} // verus!
