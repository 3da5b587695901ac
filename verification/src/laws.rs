//! The laws of the store, proved once over the specifications that the
//! operations' contracts use.
//!
//! Each operation that rewrites an index promises `g_encodes` or `n_encodes`:
//! the new file holds exactly the serialized new list. Each operation that
//! reads promises `g_vaults` or `n_list`: what it returns is what the file
//! decrypts and parses to. These lemmas close the loop: a file that encodes a
//! list reads back as exactly that list.

use vstd::prelude::*;

use crate::crypto::is_uuid_v4;
use crate::envelope::{g_encodes, g_vaults, n_encodes};
use crate::notes::{notes_list_of, notes_read};
use crate::records::{
    lemma_parse_ser_notes, lemma_parse_ser_vaults, ser_notes_top, NoteRecordView, VaultRecordView,
};
use crate::vaults::vault_rec_of;

verus! {

/// A global index that encodes a vault list under a password reads back as
/// exactly that list: writing and then listing loses and invents nothing.
pub proof fn lemma_global_index_reads_back(b: Seq<u8>, password: Seq<u8>, l: Seq<VaultRecordView>)
    requires
        g_encodes(b, password, l),
    ensures
        g_vaults(b, password) == Some(l),
{
    lemma_parse_ser_vaults(l);
}

/// A notes index that encodes a note list under a key reads back as exactly
/// that list.
pub proof fn lemma_notes_index_reads_back(b: Seq<u8>, key: Seq<u8>, l: Seq<NoteRecordView>)
    requires
        n_encodes(b, key, l),
    ensures
        notes_read(b, key) == Some(l),
{
    assert(ser_notes_top(l).len() >= 2);
    lemma_parse_ser_notes(l);
    assert(notes_list_of(ser_notes_top(l)) == Some(l));
}

/// Creating the first vault of a fresh store and then listing yields exactly
/// one record, whose fields are the caller's and whose folder id is the
/// generated UUID: the combination of what `initialize_store`, `create_vault`
/// and `list_vaults` promise.
pub proof fn lemma_first_vault_listed(
    b: Seq<u8>,
    password: Seq<u8>,
    entry: crate::records::VaultEntryView,
    id: Seq<u8>,
)
    requires
        g_encodes(b, password, Seq::<VaultRecordView>::empty().push(vault_rec_of(entry, id))),
        is_uuid_v4(id),
    ensures
        g_vaults(b, password) matches Some(l) && l.len() == 1 && l[0].icon == entry.icon
            && l[0].name == entry.name && l[0].description == entry.description && l[0].folder_id
            == id && is_uuid_v4(l[0].folder_id),
{
    lemma_global_index_reads_back(
        b,
        password,
        Seq::<VaultRecordView>::empty().push(vault_rec_of(entry, id)),
    );
}

/// Rotation preserves the vault list: if the old index read as `l` and the
/// rotated index encodes `l` under the new password, then listing with the
/// new password returns exactly the records that listing with the old
/// password returned before.
pub proof fn lemma_rotation_preserves_vault_list(
    old_b: Seq<u8>,
    new_b: Seq<u8>,
    old_password: Seq<u8>,
    new_password: Seq<u8>,
    l: Seq<VaultRecordView>,
)
    requires
        g_vaults(old_b, old_password) == Some(l),
        g_encodes(new_b, new_password, l),
    ensures
        g_vaults(new_b, new_password) == Some(l),
{
    lemma_global_index_reads_back(new_b, new_password, l);
}

} // verus!
