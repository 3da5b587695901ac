//! Operations on a vault's notes: the encrypted per-vault notes index and the
//! encrypted note files beside it.
//!
//! The salt lives only in the global index file, so every operation takes the
//! global index bytes to derive the key, and the bytes of the vault-local
//! files it works on. Everything is a pure function from bytes to bytes.

use vstd::prelude::*;

use crate::bytes::{bytes_eq, copy_bytes, views_of};
use crate::crypto::{argon2_derive, is_uuid_v4, MAX_PASSWORD_LEN, MAX_SEAL_LEN, NONCE_LEN, SALT_LEN};
use crate::envelope::{env_plain, g_key, g_salt, n_encodes, open_blob, seal_blob, MIN_GLOBAL_LEN};
use crate::records::{
    note_views, parse_notes, parse_notes_top, ser_notes, ser_notes_top, NoteRecord, NoteRecordView,
};
use crate::StoreError;

verus! {

/// The bytes of the `.json` filename extension.
pub open spec fn json_ext() -> Seq<u8> {
    seq![46u8, 106u8, 115u8, 111u8, 110u8]
}

/// The bytes of the reserved index filename `index.json`.
pub open spec fn index_filename() -> Seq<u8> {
    seq![105u8, 110u8, 100u8, 101u8, 120u8, 46u8, 106u8, 115u8, 111u8, 110u8]
}

/// The note list a decrypted notes index holds: an empty plaintext counts as
/// an empty list, anything else must parse as a note array.
pub open spec fn notes_list_of(m: Seq<u8>) -> Option<Seq<NoteRecordView>> {
    if m.len() == 0 {
        Some(Seq::<NoteRecordView>::empty())
    } else {
        parse_notes_top(m)
    }
}

/// The note list a notes index file holds under a key, if it decrypts and
/// its plaintext is a note list.
pub open spec fn notes_read(nb: Seq<u8>, key: Seq<u8>) -> Option<Seq<NoteRecordView>> {
    match env_plain(nb, key) {
        Some(m) => notes_list_of(m),
        None => None,
    }
}

/// The note list a password reads from a vault, given the global index bytes
/// (for the salt) and the notes index bytes.
pub open spec fn n_list(gb: Seq<u8>, nb: Seq<u8>, password: Seq<u8>) -> Option<
    Seq<NoteRecordView>,
> {
    notes_read(nb, g_key(gb, password))
}

/// The record of a freshly created note: empty title, the generated filename,
/// the caller's icon.
pub open spec fn note_rec_new(filename: Seq<u8>, icon: Seq<u8>) -> NoteRecordView {
    NoteRecordView { notetitle: Seq::<u8>::empty(), filename, icon }
}

/// The record `v` with its icon replaced.
pub open spec fn note_with_icon(v: NoteRecordView, icon: Seq<u8>) -> NoteRecordView {
    NoteRecordView { notetitle: v.notetitle, filename: v.filename, icon }
}

/// The record `v` with its title replaced.
pub open spec fn note_with_title(v: NoteRecordView, title: Seq<u8>) -> NoteRecordView {
    NoteRecordView { notetitle: title, filename: v.filename, icon: v.icon }
}

/// The index of the first record whose filename is `f`.
pub open spec fn find_note(l: Seq<NoteRecordView>, f: Seq<u8>) -> Option<int>
    decreases l.len(),
{
    if l.len() == 0 {
        None
    } else if l[0].filename == f {
        Some(0int)
    } else {
        match find_note(l.skip(1), f) {
            Some(i) => Some(i + 1),
            None => None,
        }
    }
}

/// If nothing before `i` matches and `l[i]` does, then `i` is the first match.
pub proof fn lemma_find_note_hit(l: Seq<NoteRecordView>, f: Seq<u8>, i: int)
    requires
        0 <= i < l.len(),
        forall|j: int| 0 <= j < i ==> l[j].filename != f,
        l[i].filename == f,
    ensures
        find_note(l, f) == Some(i),
    decreases i,
{
    if i == 0 {
    } else {
        assert(l[0].filename != f);
        assert(forall|j: int| 0 <= j < i - 1 ==> l.skip(1)[j] == l[j + 1]);
        lemma_find_note_hit(l.skip(1), f, i - 1);
    }
}

/// If nothing matches, there is no first match.
pub proof fn lemma_find_note_miss(l: Seq<NoteRecordView>, f: Seq<u8>)
    requires
        forall|j: int| 0 <= j < l.len() ==> l[j].filename != f,
    ensures
        find_note(l, f) is None,
    decreases l.len(),
{
    if l.len() > 0 {
        assert(forall|j: int| 0 <= j < l.skip(1).len() ==> l.skip(1)[j] == l[j + 1]);
        lemma_find_note_miss(l.skip(1), f);
    }
}

/// The first match lies in bounds and matches.
pub proof fn lemma_find_note_some(l: Seq<NoteRecordView>, f: Seq<u8>)
    ensures
        find_note(l, f) matches Some(i) ==> 0 <= i < l.len() && l[i].filename == f,
    decreases l.len(),
{
    if l.len() > 0 && l[0].filename != f {
        lemma_find_note_some(l.skip(1), f);
    }
}

/// Opens a vault's notes index with a password: derives the key from the
/// global index's salt, decrypts the notes index and reads the note list.
/// This is the shared read half of every notes operation.
pub fn open_notes(password: &[u8], global: &[u8], notes_index: &[u8]) -> (r: Result<
    (Vec<u8>, Vec<NoteRecord>),
    StoreError,
>)
    requires
        password@.len() <= MAX_PASSWORD_LEN,
    ensures
        match r {
            Ok(kl) => global@.len() >= MIN_GLOBAL_LEN && notes_index@.len() >= NONCE_LEN && kl.0@
                == g_key(global@, password@) && kl.0@.len() == 32 && n_list(
                global@,
                notes_index@,
                password@,
            ) == Some(note_views(kl.1@)),
            Err(e) => (e == StoreError::CorruptData && (global@.len() < MIN_GLOBAL_LEN
                || notes_index@.len() < NONCE_LEN)) || (e == StoreError::DecryptFailure
                && global@.len() >= MIN_GLOBAL_LEN && notes_index@.len() >= NONCE_LEN && env_plain(
                notes_index@,
                g_key(global@, password@),
            ) is None) || (e == StoreError::SerializationError && global@.len() >= MIN_GLOBAL_LEN
                && notes_index@.len() >= NONCE_LEN && (env_plain(
                notes_index@,
                g_key(global@, password@),
            ) matches Some(m) && notes_list_of(m) is None)),
        },
{
    if global.len() < MIN_GLOBAL_LEN {
        return Err(StoreError::CorruptData);
    }
    if notes_index.len() < NONCE_LEN {
        return Err(StoreError::CorruptData);
    }
    let salt = crate::bytes::sub_bytes(global, 0, SALT_LEN);
    proof {
        assert(salt@ =~= g_salt(global@));
    }
    let key = argon2_derive(password, salt.as_slice());
    let plain = match open_blob(key.as_slice(), notes_index) {
        Ok(p) => p,
        Err(e) => {
            return Err(e);
        },
    };
    if plain.len() == 0 {
        let empty: Vec<NoteRecord> = Vec::new();
        proof {
            assert(note_views(empty@) =~= Seq::<NoteRecordView>::empty());
        }
        return Ok((key, empty));
    }
    match parse_notes(plain.as_slice()) {
        Some(l) => Ok((key, l)),
        None => Err(StoreError::SerializationError),
    }
}

/// Reads the note list of a vault. Fails with `CorruptData` on files too
/// short for their layout, `DecryptFailure` on a wrong password or tampered
/// bytes, `SerializationError` when the decrypted bytes are not a note list.
pub fn list_notes(password: &[u8], global: &[u8], notes_index: &[u8]) -> (r: Result<
    Vec<NoteRecord>,
    StoreError,
>)
    requires
        password@.len() <= MAX_PASSWORD_LEN,
    ensures
        match r {
            Ok(l) => global@.len() >= MIN_GLOBAL_LEN && notes_index@.len() >= NONCE_LEN && n_list(
                global@,
                notes_index@,
                password@,
            ) == Some(note_views(l@)),
            Err(e) => (e == StoreError::CorruptData && (global@.len() < MIN_GLOBAL_LEN
                || notes_index@.len() < NONCE_LEN)) || (e == StoreError::DecryptFailure
                && global@.len() >= MIN_GLOBAL_LEN && notes_index@.len() >= NONCE_LEN && env_plain(
                notes_index@,
                g_key(global@, password@),
            ) is None) || (e == StoreError::SerializationError && global@.len() >= MIN_GLOBAL_LEN
                && notes_index@.len() >= NONCE_LEN && (env_plain(
                notes_index@,
                g_key(global@, password@),
            ) matches Some(m) && notes_list_of(m) is None)),
        },
{
    match open_notes(password, global, notes_index) {
        Ok((_key, l)) => Ok(l),
        Err(e) => Err(e),
    }
}

/// The position of the first record with filename `f`, at run time.
fn find_note_index(notes: &Vec<NoteRecord>, f: &[u8]) -> (r: Option<usize>)
    ensures
        match r {
            Some(i) => i < notes@.len() && find_note(note_views(notes@), f@) == Some(i as int),
            None => find_note(note_views(notes@), f@) is None,
        },
{
    let n = notes.len();
    let mut i: usize = 0;
    while i < n
        invariant
            0 <= i <= n,
            n == notes@.len(),
            forall|j: int| 0 <= j < i ==> note_views(notes@)[j].filename != f@,
        decreases n - i,
    {
        if bytes_eq(notes[i].filename.as_slice(), f) {
            proof {
                assert(note_views(notes@)[i as int].filename == f@);
                lemma_find_note_hit(note_views(notes@), f@, i as int);
            }
            return Some(i);
        }
        proof {
            assert(note_views(notes@)[i as int].filename == notes@[i as int].filename@);
        }
        i = i + 1;
    }
    proof {
        lemma_find_note_miss(note_views(notes@), f@);
    }
    None
}

/// Draws fresh note filenames (`<uuid>.json`) until one differs from every
/// existing name. Identifier collisions are all but impossible; after a
/// bounded number of draws the attempt is given up rather than looping
/// forever.
pub fn fresh_note_filename(existing: &Vec<Vec<u8>>) -> (r: Option<Vec<u8>>)
    ensures
        r matches Some(f) ==> f@.len() == 41 && is_uuid_v4(f@.take(36)) && f@.skip(36) == json_ext()
            && !views_of(existing@).contains(f@),
{
    let mut tries: usize = 0;
    while tries < 64
        invariant
            tries <= 64,
        decreases 64 - tries,
    {
        let mut f = crate::crypto::fresh_uuid();
        let ghost id = f@;
        let ext = vec![46u8, 106u8, 115u8, 111u8, 110u8];
        proof {
            assert(ext@ =~= json_ext());
        }
        crate::bytes::append_bytes(&mut f, ext.as_slice());
        proof {
            assert(f@.take(36) =~= id);
            assert(f@.skip(36) =~= json_ext());
        }
        if !crate::bytes::contains_bytes(existing, f.as_slice()) {
            return Some(f);
        }
        tries = tries + 1;
    }
    None
}

/// The files that creating a note produces: the generated filename, the
/// encrypted empty note body, and the rewritten notes index.
pub struct NewNote {
    pub filename: Vec<u8>,
    pub note_bytes: Vec<u8>,
    pub notes_index_bytes: Vec<u8>,
}

/// Creates a note in a vault: generates a fresh `<uuid>.json` filename
/// distinct from every name in `existing_files`, seals an empty JSON object
/// `{}` as the note body, and appends a record with an empty title and the
/// given icon to the notes index. `IoError` is returned only when the bounded
/// identifier draw gives up.
pub fn create_note(
    password: &[u8],
    global: &[u8],
    notes_index: &[u8],
    icon: &[u8],
    existing_files: &Vec<Vec<u8>>,
) -> (r: Result<NewNote, StoreError>)
    requires
        password@.len() <= MAX_PASSWORD_LEN,
    ensures
        match r {
            Ok(out) => {
                &&& global@.len() >= MIN_GLOBAL_LEN && notes_index@.len() >= NONCE_LEN
                &&& n_list(global@, notes_index@, password@) matches Some(l)
                &&& out.filename@.len() == 41 && is_uuid_v4(out.filename@.take(36))
                    && out.filename@.skip(36) == json_ext() && !views_of(
                    existing_files@,
                ).contains(out.filename@)
                &&& env_plain(out.note_bytes@, g_key(global@, password@)) == Some(
                    seq![123u8, 125u8],
                )
                &&& n_encodes(
                    out.notes_index_bytes@,
                    g_key(global@, password@),
                    n_list(global@, notes_index@, password@).unwrap().push(
                        note_rec_new(out.filename@, icon@),
                    ),
                )
            },
            Err(e) => (e == StoreError::CorruptData && (global@.len() < MIN_GLOBAL_LEN
                || notes_index@.len() < NONCE_LEN)) || (e == StoreError::DecryptFailure
                && global@.len() >= MIN_GLOBAL_LEN && notes_index@.len() >= NONCE_LEN && env_plain(
                notes_index@,
                g_key(global@, password@),
            ) is None) || (e == StoreError::SerializationError && global@.len() >= MIN_GLOBAL_LEN
                && notes_index@.len() >= NONCE_LEN && ((env_plain(
                notes_index@,
                g_key(global@, password@),
            ) matches Some(m) && notes_list_of(m) is None) || (n_list(
                global@,
                notes_index@,
                password@,
            ) matches Some(l) && exists|f: Seq<u8>|
                f.len() == 41 && is_uuid_v4(f.take(36)) && f.skip(36) == json_ext() && !views_of(
                    existing_files@,
                ).contains(f) && (#[trigger] ser_notes_top(
                    l.push(note_rec_new(f, icon@)),
                )).len() > MAX_SEAL_LEN))) || (e == StoreError::IoError && n_list(
                global@,
                notes_index@,
                password@,
            ) is Some),
        },
{
    let (key, mut notes) = match open_notes(password, global, notes_index) {
        Ok(kl) => kl,
        Err(e) => {
            return Err(e);
        },
    };
    let filename = match fresh_note_filename(existing_files) {
        Some(f) => f,
        None => {
            return Err(StoreError::IoError);
        },
    };
    let body = vec![123u8, 125u8];
    proof {
        assert(body@ =~= seq![123u8, 125u8]);
    }
    let note_bytes = match seal_blob(key.as_slice(), body.as_slice()) {
        Ok(b) => b,
        Err(_) => {
            proof {
                assert(false);
            }
            vstd::pervasive::unreached()
        },
    };
    let ghost l0 = note_views(notes@);
    let rec = NoteRecord {
        notetitle: Vec::new(),
        filename: copy_bytes(filename.as_slice()),
        icon: copy_bytes(icon),
    };
    proof {
        assert(rec@ =~= note_rec_new(filename@, icon@));
    }
    notes.push(rec);
    proof {
        assert(note_views(notes@) =~= l0.push(note_rec_new(filename@, icon@)));
    }
    let pt = ser_notes(&notes);
    let new_index = match seal_blob(key.as_slice(), pt.as_slice()) {
        Ok(b) => b,
        Err(e) => {
            proof {
                let l = n_list(global@, notes_index@, password@).unwrap();
                assert(l == l0);
                assert((ser_notes_top(l.push(note_rec_new(filename@, icon@)))).len()
                    > MAX_SEAL_LEN);
                assert(exists|f2: Seq<u8>|
                    f2.len() == 41 && is_uuid_v4(f2.take(36)) && f2.skip(36) == json_ext()
                        && !views_of(existing_files@).contains(f2) && (#[trigger] ser_notes_top(
                        l.push(note_rec_new(f2, icon@)),
                    )).len() > MAX_SEAL_LEN);
            }
            return Err(e);
        },
    };
    Ok(NewNote { filename, note_bytes, notes_index_bytes: new_index })
}

/// Reads and decrypts one note file. Fails with `CorruptData` on files too
/// short for their layout, `DecryptFailure` on a wrong password or tampered
/// bytes.
pub fn read_note(password: &[u8], global: &[u8], note_bytes: &[u8]) -> (r: Result<
    Vec<u8>,
    StoreError,
>)
    requires
        password@.len() <= MAX_PASSWORD_LEN,
    ensures
        match r {
            Ok(p) => global@.len() >= MIN_GLOBAL_LEN && note_bytes@.len() >= NONCE_LEN && env_plain(
                note_bytes@,
                g_key(global@, password@),
            ) == Some(p@),
            Err(e) => (e == StoreError::CorruptData && (global@.len() < MIN_GLOBAL_LEN
                || note_bytes@.len() < NONCE_LEN)) || (e == StoreError::DecryptFailure
                && global@.len() >= MIN_GLOBAL_LEN && note_bytes@.len() >= NONCE_LEN && env_plain(
                note_bytes@,
                g_key(global@, password@),
            ) is None),
        },
{
    if global.len() < MIN_GLOBAL_LEN {
        return Err(StoreError::CorruptData);
    }
    if note_bytes.len() < NONCE_LEN {
        return Err(StoreError::CorruptData);
    }
    let salt = crate::bytes::sub_bytes(global, 0, SALT_LEN);
    proof {
        assert(salt@ =~= g_salt(global@));
    }
    let key = argon2_derive(password, salt.as_slice());
    open_blob(key.as_slice(), note_bytes)
}

/// Seals a note's content under the key the password derives against the
/// store's salt, with a fresh nonce. The caller writes the result over the
/// note's file. Writing does not verify the password: the global index
/// supplies only the salt, and nothing here is decrypted.
pub fn write_note(password: &[u8], global: &[u8], content: &[u8]) -> (r: Result<
    Vec<u8>,
    StoreError,
>)
    requires
        password@.len() <= MAX_PASSWORD_LEN,
    ensures
        match r {
            Ok(b) => global@.len() >= MIN_GLOBAL_LEN && env_plain(b@, g_key(global@, password@))
                == Some(content@),
            Err(e) => (e == StoreError::CorruptData && global@.len() < MIN_GLOBAL_LEN) || (e
                == StoreError::SerializationError && global@.len() >= MIN_GLOBAL_LEN
                && content@.len() > MAX_SEAL_LEN),
        },
{
    if global.len() < MIN_GLOBAL_LEN {
        return Err(StoreError::CorruptData);
    }
    let salt = crate::bytes::sub_bytes(global, 0, SALT_LEN);
    proof {
        assert(salt@ =~= g_salt(global@));
    }
    let key = argon2_derive(password, salt.as_slice());
    seal_blob(key.as_slice(), content)
}

/// Replaces the icon of the note with the given filename (the first match)
/// and reseals the notes index with a fresh nonce.
pub fn set_note_icon(
    password: &[u8],
    global: &[u8],
    notes_index: &[u8],
    filename: &[u8],
    new_icon: &[u8],
) -> (r: Result<Vec<u8>, StoreError>)
    requires
        password@.len() <= MAX_PASSWORD_LEN,
    ensures
        match r {
            Ok(b) => {
                &&& n_list(global@, notes_index@, password@) matches Some(l)
                &&& find_note(n_list(global@, notes_index@, password@).unwrap(), filename@)
                    matches Some(i)
                &&& n_encodes(
                    b@,
                    g_key(global@, password@),
                    n_list(global@, notes_index@, password@).unwrap().update(
                        find_note(
                            n_list(global@, notes_index@, password@).unwrap(),
                            filename@,
                        ).unwrap(),
                        note_with_icon(
                            n_list(global@, notes_index@, password@).unwrap()[find_note(
                                n_list(global@, notes_index@, password@).unwrap(),
                                filename@,
                            ).unwrap()],
                            new_icon@,
                        ),
                    ),
                )
            },
            Err(e) => (e == StoreError::CorruptData && (global@.len() < MIN_GLOBAL_LEN
                || notes_index@.len() < NONCE_LEN)) || (e == StoreError::DecryptFailure
                && global@.len() >= MIN_GLOBAL_LEN && notes_index@.len() >= NONCE_LEN && env_plain(
                notes_index@,
                g_key(global@, password@),
            ) is None) || (e == StoreError::NotFound && (n_list(
                global@,
                notes_index@,
                password@,
            ) matches Some(l) && find_note(l, filename@) is None)) || (e
                == StoreError::SerializationError && global@.len() >= MIN_GLOBAL_LEN
                && notes_index@.len() >= NONCE_LEN && ((env_plain(
                notes_index@,
                g_key(global@, password@),
            ) matches Some(m) && notes_list_of(m) is None) || (n_list(
                global@,
                notes_index@,
                password@,
            ) matches Some(l) && find_note(l, filename@) matches Some(i) && ser_notes_top(
                l.update(i, note_with_icon(l[i], new_icon@)),
            ).len() > MAX_SEAL_LEN))),
        },
{
    let (key, mut notes) = match open_notes(password, global, notes_index) {
        Ok(kl) => kl,
        Err(e) => {
            return Err(e);
        },
    };
    let idx = match find_note_index(&notes, filename) {
        Some(i) => i,
        None => {
            return Err(StoreError::NotFound);
        },
    };
    let ghost l0 = note_views(notes@);
    let fname = copy_bytes(notes[idx].filename.as_slice());
    let title = copy_bytes(notes[idx].notetitle.as_slice());
    let rec = NoteRecord { notetitle: title, filename: fname, icon: copy_bytes(new_icon) };
    proof {
        lemma_find_note_some(l0, filename@);
        assert(rec@ =~= note_with_icon(l0[idx as int], new_icon@));
    }
    notes.set(idx, rec);
    proof {
        assert(note_views(notes@) =~= l0.update(
            idx as int,
            note_with_icon(l0[idx as int], new_icon@),
        ));
    }
    let pt = ser_notes(&notes);
    seal_blob(key.as_slice(), pt.as_slice())
}

/// Replaces the title of the note with the given filename (the first match)
/// and reseals the notes index with a fresh nonce.
pub fn set_note_title(
    password: &[u8],
    global: &[u8],
    notes_index: &[u8],
    filename: &[u8],
    new_title: &[u8],
) -> (r: Result<Vec<u8>, StoreError>)
    requires
        password@.len() <= MAX_PASSWORD_LEN,
    ensures
        match r {
            Ok(b) => {
                &&& n_list(global@, notes_index@, password@) matches Some(l)
                &&& find_note(n_list(global@, notes_index@, password@).unwrap(), filename@)
                    matches Some(i)
                &&& n_encodes(
                    b@,
                    g_key(global@, password@),
                    n_list(global@, notes_index@, password@).unwrap().update(
                        find_note(
                            n_list(global@, notes_index@, password@).unwrap(),
                            filename@,
                        ).unwrap(),
                        note_with_title(
                            n_list(global@, notes_index@, password@).unwrap()[find_note(
                                n_list(global@, notes_index@, password@).unwrap(),
                                filename@,
                            ).unwrap()],
                            new_title@,
                        ),
                    ),
                )
            },
            Err(e) => (e == StoreError::CorruptData && (global@.len() < MIN_GLOBAL_LEN
                || notes_index@.len() < NONCE_LEN)) || (e == StoreError::DecryptFailure
                && global@.len() >= MIN_GLOBAL_LEN && notes_index@.len() >= NONCE_LEN && env_plain(
                notes_index@,
                g_key(global@, password@),
            ) is None) || (e == StoreError::NotFound && (n_list(
                global@,
                notes_index@,
                password@,
            ) matches Some(l) && find_note(l, filename@) is None)) || (e
                == StoreError::SerializationError && global@.len() >= MIN_GLOBAL_LEN
                && notes_index@.len() >= NONCE_LEN && ((env_plain(
                notes_index@,
                g_key(global@, password@),
            ) matches Some(m) && notes_list_of(m) is None) || (n_list(
                global@,
                notes_index@,
                password@,
            ) matches Some(l) && find_note(l, filename@) matches Some(i) && ser_notes_top(
                l.update(i, note_with_title(l[i], new_title@)),
            ).len() > MAX_SEAL_LEN))),
        },
{
    let (key, mut notes) = match open_notes(password, global, notes_index) {
        Ok(kl) => kl,
        Err(e) => {
            return Err(e);
        },
    };
    let idx = match find_note_index(&notes, filename) {
        Some(i) => i,
        None => {
            return Err(StoreError::NotFound);
        },
    };
    let ghost l0 = note_views(notes@);
    let fname = copy_bytes(notes[idx].filename.as_slice());
    let icon = copy_bytes(notes[idx].icon.as_slice());
    let rec = NoteRecord { notetitle: copy_bytes(new_title), filename: fname, icon };
    proof {
        lemma_find_note_some(l0, filename@);
        assert(rec@ =~= note_with_title(l0[idx as int], new_title@));
    }
    notes.set(idx, rec);
    proof {
        assert(note_views(notes@) =~= l0.update(
            idx as int,
            note_with_title(l0[idx as int], new_title@),
        ));
    }
    let pt = ser_notes(&notes);
    seal_blob(key.as_slice(), pt.as_slice())
}

/// Removes the record of the note with the given filename (the first match)
/// from the notes index and reseals it with a fresh nonce. The caller deletes
/// the note's file afterwards.
pub fn delete_note(password: &[u8], global: &[u8], notes_index: &[u8], filename: &[u8]) -> (r:
    Result<Vec<u8>, StoreError>)
    requires
        password@.len() <= MAX_PASSWORD_LEN,
    ensures
        match r {
            Ok(b) => {
                &&& n_list(global@, notes_index@, password@) matches Some(l)
                &&& find_note(n_list(global@, notes_index@, password@).unwrap(), filename@)
                    matches Some(i)
                &&& n_encodes(
                    b@,
                    g_key(global@, password@),
                    n_list(global@, notes_index@, password@).unwrap().remove(
                        find_note(
                            n_list(global@, notes_index@, password@).unwrap(),
                            filename@,
                        ).unwrap(),
                    ),
                )
            },
            Err(e) => (e == StoreError::CorruptData && (global@.len() < MIN_GLOBAL_LEN
                || notes_index@.len() < NONCE_LEN)) || (e == StoreError::DecryptFailure
                && global@.len() >= MIN_GLOBAL_LEN && notes_index@.len() >= NONCE_LEN && env_plain(
                notes_index@,
                g_key(global@, password@),
            ) is None) || (e == StoreError::NotFound && (n_list(
                global@,
                notes_index@,
                password@,
            ) matches Some(l) && find_note(l, filename@) is None)) || (e
                == StoreError::SerializationError && global@.len() >= MIN_GLOBAL_LEN
                && notes_index@.len() >= NONCE_LEN && ((env_plain(
                notes_index@,
                g_key(global@, password@),
            ) matches Some(m) && notes_list_of(m) is None) || (n_list(
                global@,
                notes_index@,
                password@,
            ) matches Some(l) && find_note(l, filename@) matches Some(i) && ser_notes_top(
                l.remove(i),
            ).len() > MAX_SEAL_LEN))),
        },
{
    let (key, mut notes) = match open_notes(password, global, notes_index) {
        Ok(kl) => kl,
        Err(e) => {
            return Err(e);
        },
    };
    let idx = match find_note_index(&notes, filename) {
        Some(i) => i,
        None => {
            return Err(StoreError::NotFound);
        },
    };
    let ghost l0 = note_views(notes@);
    notes.remove(idx);
    proof {
        lemma_find_note_some(l0, filename@);
        assert(note_views(notes@) =~= l0.remove(idx as int));
    }
    let pt = ser_notes(&notes);
    seal_blob(key.as_slice(), pt.as_slice())
}

/// Whether a directory entry name is a note file: it ends in `.json` and is
/// not the reserved `index.json`.
pub open spec fn is_note_file(n: Seq<u8>) -> bool {
    n.len() >= 5 && n.skip(n.len() - 5) == json_ext() && n != index_filename()
}

/// How many of the names are note files.
pub open spec fn count_note_files_spec(l: Seq<Seq<u8>>) -> nat
    decreases l.len(),
{
    if l.len() == 0 {
        0
    } else {
        (if is_note_file(l[0]) {
            1nat
        } else {
            0nat
        }) + count_note_files_spec(l.skip(1))
    }
}

/// Whether a name is a note file, at run time.
pub fn check_note_file(n: &[u8]) -> (r: bool)
    ensures
        r == is_note_file(n@),
{
    if n.len() < 5 {
        return false;
    }
    let ext = vec![46u8, 106u8, 115u8, 111u8, 110u8];
    proof {
        assert(ext@ =~= json_ext());
    }
    let tail = crate::bytes::sub_bytes(n, n.len() - 5, n.len());
    proof {
        assert(tail@ =~= n@.skip(n@.len() - 5));
    }
    if !bytes_eq(tail.as_slice(), ext.as_slice()) {
        return false;
    }
    let reserved = vec![105u8, 110u8, 100u8, 101u8, 120u8, 46u8, 106u8, 115u8, 111u8, 110u8];
    proof {
        assert(reserved@ =~= index_filename());
    }
    !bytes_eq(n, reserved.as_slice())
}

/// Counts the note files among the names of a vault directory's entries:
/// every `.json` file except the index itself. The caller lists the
/// directory; nothing is decrypted.
pub fn count_note_files(names: &Vec<Vec<u8>>) -> (r: usize)
    ensures
        r == count_note_files_spec(views_of(names@)),
{
    let n = names.len();
    let mut acc: usize = 0;
    let mut i: usize = 0;
    proof {
        assert(views_of(names@).skip(0) =~= views_of(names@));
    }
    while i < n
        invariant
            0 <= i <= n,
            n == names@.len(),
            acc <= i,
            count_note_files_spec(views_of(names@)) == acc + count_note_files_spec(
                views_of(names@).skip(i as int),
            ),
        decreases n - i,
    {
        let ghost tail = views_of(names@).skip(i as int);
        proof {
            assert(tail[0] == views_of(names@)[i as int]);
            assert(tail.skip(1) =~= views_of(names@).skip(i + 1));
        }
        if check_note_file(names[i].as_slice()) {
            proof {
                assert(is_note_file(views_of(names@)[i as int]));
            }
            acc = acc + 1;
        } else {
            proof {
                assert(!is_note_file(views_of(names@)[i as int]));
            }
        }
        i = i + 1;
    }
    proof {
        assert(views_of(names@).skip(n as int) =~= Seq::<Seq<u8>>::empty());
    }
    acc
}

} // verus!
