//! The store's record types and their JSON encoding.
//!
//! The global index is a JSON array of vault records; each vault's notes
//! index is a JSON array of note records; the public file is a JSON object
//! with a single `hint` field. Serialization and parsing are verified against
//! each other: parsing inverts serialization.

use vstd::prelude::*;

use crate::bytes::append_bytes;
use crate::codec::{
    expect_lit, lemma_parse_ser_str, parse_qstring, parse_string, ser_str, take_lit, write_str,
};

verus! {

/// The fields of a vault that a caller supplies: everything but the folder id.
#[derive(Clone, Debug, PartialEq, Eq)]
pub struct VaultEntry {
    pub icon: Vec<u8>,
    pub name: Vec<u8>,
    pub description: Vec<u8>,
}

/// A vault as the global index registers it.
#[derive(Clone, Debug, PartialEq, Eq)]
pub struct VaultRecord {
    pub icon: Vec<u8>,
    pub name: Vec<u8>,
    pub description: Vec<u8>,
    /// Name of the vault's directory: the hyphenated text of a version-4
    /// UUID, immutable once assigned.
    pub folder_id: Vec<u8>,
}

/// The mathematical value of a `VaultEntry`.
#[verifier::ext_equal]
pub struct VaultEntryView {
    pub icon: Seq<u8>,
    pub name: Seq<u8>,
    pub description: Seq<u8>,
}

/// The mathematical value of a `VaultRecord`.
#[verifier::ext_equal]
pub struct VaultRecordView {
    pub icon: Seq<u8>,
    pub name: Seq<u8>,
    pub description: Seq<u8>,
    pub folder_id: Seq<u8>,
}

impl View for VaultEntry {
    type V = VaultEntryView;

    open spec fn view(&self) -> VaultEntryView {
        VaultEntryView { icon: self.icon@, name: self.name@, description: self.description@ }
    }
}

impl View for VaultRecord {
    type V = VaultRecordView;

    open spec fn view(&self) -> VaultRecordView {
        VaultRecordView {
            icon: self.icon@,
            name: self.name@,
            description: self.description@,
            folder_id: self.folder_id@,
        }
    }
}

/// A note as a vault's notes index registers it.
#[derive(Clone, Debug, PartialEq, Eq)]
pub struct NoteRecord {
    pub notetitle: Vec<u8>,
    /// Name of the note's file inside the vault directory; doubles as the
    /// note's identity for lookup, update and deletion.
    pub filename: Vec<u8>,
    pub icon: Vec<u8>,
}

/// The mathematical value of a `NoteRecord`.
#[verifier::ext_equal]
pub struct NoteRecordView {
    pub notetitle: Seq<u8>,
    pub filename: Seq<u8>,
    pub icon: Seq<u8>,
}

impl View for NoteRecord {
    type V = NoteRecordView;

    open spec fn view(&self) -> NoteRecordView {
        NoteRecordView {
            notetitle: self.notetitle@,
            filename: self.filename@,
            icon: self.icon@,
        }
    }
}

/// The views of the vault records in `l`.
pub open spec fn vault_views(l: Seq<VaultRecord>) -> Seq<VaultRecordView> {
    l.map_values(|v: VaultRecord| v@)
}

/// The views of the note records in `l`.
pub open spec fn note_views(l: Seq<NoteRecord>) -> Seq<NoteRecordView> {
    l.map_values(|v: NoteRecord| v@)
}

/// The bytes of `{"icon":`.
pub open spec fn lit_vault_head() -> Seq<u8> {
    seq![123u8, 34u8, 105u8, 99u8, 111u8, 110u8, 34u8, 58u8]
}

/// The bytes of `,"name":`.
pub open spec fn lit_name() -> Seq<u8> {
    seq![44u8, 34u8, 110u8, 97u8, 109u8, 101u8, 34u8, 58u8]
}

/// The bytes of `,"description":`.
pub open spec fn lit_description() -> Seq<u8> {
    seq![
        44u8,
        34u8,
        100u8,
        101u8,
        115u8,
        99u8,
        114u8,
        105u8,
        112u8,
        116u8,
        105u8,
        111u8,
        110u8,
        34u8,
        58u8,
    ]
}

/// The bytes of `,"folder_id":`.
pub open spec fn lit_folder_id() -> Seq<u8> {
    seq![44u8, 34u8, 102u8, 111u8, 108u8, 100u8, 101u8, 114u8, 95u8, 105u8, 100u8, 34u8, 58u8]
}

/// The bytes of `{"notetitle":`.
pub open spec fn lit_note_head() -> Seq<u8> {
    seq![123u8, 34u8, 110u8, 111u8, 116u8, 101u8, 116u8, 105u8, 116u8, 108u8, 101u8, 34u8, 58u8]
}

/// The bytes of `,"filename":`.
pub open spec fn lit_filename() -> Seq<u8> {
    seq![44u8, 34u8, 102u8, 105u8, 108u8, 101u8, 110u8, 97u8, 109u8, 101u8, 34u8, 58u8]
}

/// The bytes of `,"icon":`.
pub open spec fn lit_icon() -> Seq<u8> {
    seq![44u8, 34u8, 105u8, 99u8, 111u8, 110u8, 34u8, 58u8]
}

/// The bytes of `{"hint":`.
pub open spec fn lit_hint_head() -> Seq<u8> {
    seq![123u8, 34u8, 104u8, 105u8, 110u8, 116u8, 34u8, 58u8]
}

/// The JSON object for one vault record.
pub open spec fn ser_vault(v: VaultRecordView) -> Seq<u8> {
    lit_vault_head() + ser_str(v.icon) + lit_name() + ser_str(v.name) + lit_description()
        + ser_str(v.description) + lit_folder_id() + ser_str(v.folder_id) + seq![125u8]
}

/// The JSON object for one note record.
pub open spec fn ser_note(v: NoteRecordView) -> Seq<u8> {
    lit_note_head() + ser_str(v.notetitle) + lit_filename() + ser_str(v.filename) + lit_icon()
        + ser_str(v.icon) + seq![125u8]
}

/// The comma-separated JSON objects of a vault list.
pub open spec fn ser_vaults_items(l: Seq<VaultRecordView>) -> Seq<u8>
    decreases l.len(),
{
    if l.len() == 0 {
        Seq::empty()
    } else if l.len() == 1 {
        ser_vault(l[0])
    } else {
        ser_vault(l[0]) + seq![44u8] + ser_vaults_items(l.skip(1))
    }
}

/// The comma-separated JSON objects of a note list.
pub open spec fn ser_notes_items(l: Seq<NoteRecordView>) -> Seq<u8>
    decreases l.len(),
{
    if l.len() == 0 {
        Seq::empty()
    } else if l.len() == 1 {
        ser_note(l[0])
    } else {
        ser_note(l[0]) + seq![44u8] + ser_notes_items(l.skip(1))
    }
}

/// The JSON array for a whole vault list.
pub open spec fn ser_vaults_top(l: Seq<VaultRecordView>) -> Seq<u8> {
    seq![91u8] + ser_vaults_items(l) + seq![93u8]
}

/// The JSON array for a whole note list.
pub open spec fn ser_notes_top(l: Seq<NoteRecordView>) -> Seq<u8> {
    seq![91u8] + ser_notes_items(l) + seq![93u8]
}

/// The JSON object for the public hint record.
pub open spec fn ser_hint(h: Seq<u8>) -> Seq<u8> {
    lit_hint_head() + ser_str(h) + seq![125u8]
}

/// Parses one vault object from the front of `d`.
pub open spec fn parse_vault_obj(d: Seq<u8>) -> Option<(VaultRecordView, Seq<u8>)> {
    match take_lit(d, lit_vault_head()) {
        Some(d1) => match parse_qstring(d1) {
            Some(p_icon) => match take_lit(p_icon.1, lit_name()) {
                Some(d2) => match parse_qstring(d2) {
                    Some(p_name) => match take_lit(p_name.1, lit_description()) {
                        Some(d3) => match parse_qstring(d3) {
                            Some(p_desc) => match take_lit(p_desc.1, lit_folder_id()) {
                                Some(d4) => match parse_qstring(d4) {
                                    Some(p_fid) => if p_fid.1.len() > 0 && p_fid.1[0] == 125 {
                                        Some(
                                            (
                                                VaultRecordView {
                                                    icon: p_icon.0,
                                                    name: p_name.0,
                                                    description: p_desc.0,
                                                    folder_id: p_fid.0,
                                                },
                                                p_fid.1.skip(1),
                                            ),
                                        )
                                    } else {
                                        None
                                    },
                                    None => None,
                                },
                                None => None,
                            },
                            None => None,
                        },
                        None => None,
                    },
                    None => None,
                },
                None => None,
            },
            None => None,
        },
        None => None,
    }
}

/// Parses one note object from the front of `d`.
pub open spec fn parse_note_obj(d: Seq<u8>) -> Option<(NoteRecordView, Seq<u8>)> {
    match take_lit(d, lit_note_head()) {
        Some(d1) => match parse_qstring(d1) {
            Some(p_title) => match take_lit(p_title.1, lit_filename()) {
                Some(d2) => match parse_qstring(d2) {
                    Some(p_fname) => match take_lit(p_fname.1, lit_icon()) {
                        Some(d3) => match parse_qstring(d3) {
                            Some(p_icon) => if p_icon.1.len() > 0 && p_icon.1[0] == 125 {
                                Some(
                                    (
                                        NoteRecordView {
                                            notetitle: p_title.0,
                                            filename: p_fname.0,
                                            icon: p_icon.0,
                                        },
                                        p_icon.1.skip(1),
                                    ),
                                )
                            } else {
                                None
                            },
                            None => None,
                        },
                        None => None,
                    },
                    None => None,
                },
                None => None,
            },
            None => None,
        },
        None => None,
    }
}

/// Parses the tail of a vault array: a closing bracket, or a comma and
/// another object, repeatedly.
pub open spec fn parse_vaults_rest(d: Seq<u8>) -> Option<(Seq<VaultRecordView>, Seq<u8>)>
    decreases d.len(),
{
    if d.len() == 0 {
        None
    } else if d[0] == 93 {
        Some((Seq::empty(), d.skip(1)))
    } else if d[0] == 44 {
        match parse_vault_obj(d.skip(1)) {
            Some(p) => if p.1.len() < d.len() {
                match parse_vaults_rest(p.1) {
                    Some(q) => Some((seq![p.0] + q.0, q.1)),
                    None => None,
                }
            } else {
                None
            },
            None => None,
        }
    } else {
        None
    }
}

/// Parses the tail of a note array.
pub open spec fn parse_notes_rest(d: Seq<u8>) -> Option<(Seq<NoteRecordView>, Seq<u8>)>
    decreases d.len(),
{
    if d.len() == 0 {
        None
    } else if d[0] == 93 {
        Some((Seq::empty(), d.skip(1)))
    } else if d[0] == 44 {
        match parse_note_obj(d.skip(1)) {
            Some(p) => if p.1.len() < d.len() {
                match parse_notes_rest(p.1) {
                    Some(q) => Some((seq![p.0] + q.0, q.1)),
                    None => None,
                }
            } else {
                None
            },
            None => None,
        }
    } else {
        None
    }
}

/// Parses a whole vault array; the input must be consumed exactly.
pub open spec fn parse_vaults_top(d: Seq<u8>) -> Option<Seq<VaultRecordView>> {
    if d.len() == 0 || d[0] != 91 {
        None
    } else {
        let d1 = d.skip(1);
        if d1.len() > 0 && d1[0] == 93 {
            if d1.len() == 1 {
                Some(Seq::empty())
            } else {
                None
            }
        } else {
            match parse_vault_obj(d1) {
                Some(p) => match parse_vaults_rest(p.1) {
                    Some(q) => if q.1.len() == 0 {
                        Some(seq![p.0] + q.0)
                    } else {
                        None
                    },
                    None => None,
                },
                None => None,
            }
        }
    }
}

/// Parses a whole note array; the input must be consumed exactly.
pub open spec fn parse_notes_top(d: Seq<u8>) -> Option<Seq<NoteRecordView>> {
    if d.len() == 0 || d[0] != 91 {
        None
    } else {
        let d1 = d.skip(1);
        if d1.len() > 0 && d1[0] == 93 {
            if d1.len() == 1 {
                Some(Seq::empty())
            } else {
                None
            }
        } else {
            match parse_note_obj(d1) {
                Some(p) => match parse_notes_rest(p.1) {
                    Some(q) => if q.1.len() == 0 {
                        Some(seq![p.0] + q.0)
                    } else {
                        None
                    },
                    None => None,
                },
                None => None,
            }
        }
    }
}

/// Parses the public hint object; the input must be consumed exactly.
pub open spec fn parse_hint_top(d: Seq<u8>) -> Option<Seq<u8>> {
    match take_lit(d, lit_hint_head()) {
        Some(d1) => match parse_qstring(d1) {
            Some(p) => if p.1.len() == 1 && p.1[0] == 125 {
                Some(p.0)
            } else {
                None
            },
            None => None,
        },
        None => None,
    }
}

/// The serialized tail of a vault list: for each record a comma and its
/// object, then the closing bracket.
pub open spec fn ser_vaults_rest(l: Seq<VaultRecordView>) -> Seq<u8>
    decreases l.len(),
{
    if l.len() == 0 {
        seq![93u8]
    } else {
        seq![44u8] + ser_vault(l[0]) + ser_vaults_rest(l.skip(1))
    }
}

/// The serialized tail of a note list.
pub open spec fn ser_notes_rest(l: Seq<NoteRecordView>) -> Seq<u8>
    decreases l.len(),
{
    if l.len() == 0 {
        seq![93u8]
    } else {
        seq![44u8] + ser_note(l[0]) + ser_notes_rest(l.skip(1))
    }
}

/// Parsing one vault object inverts serializing it.
#[verifier::rlimit(100)]
pub proof fn lemma_parse_ser_vault(v: VaultRecordView, rest: Seq<u8>)
    ensures
        parse_vault_obj(ser_vault(v) + rest) == Some((v, rest)),
{
    let d = ser_vault(v) + rest;
    let t0 = ser_str(v.icon) + lit_name() + ser_str(v.name) + lit_description() + ser_str(
        v.description,
    ) + lit_folder_id() + ser_str(v.folder_id) + seq![125u8] + rest;
    assert(d =~= lit_vault_head() + t0);
    crate::codec::lemma_take_lit(lit_vault_head(), t0);
    let t1 = lit_name() + ser_str(v.name) + lit_description() + ser_str(v.description)
        + lit_folder_id() + ser_str(v.folder_id) + seq![125u8] + rest;
    assert(t0 =~= ser_str(v.icon) + t1);
    lemma_parse_ser_str(v.icon, t1);
    let t2 = ser_str(v.name) + lit_description() + ser_str(v.description) + lit_folder_id()
        + ser_str(v.folder_id) + seq![125u8] + rest;
    assert(t1 =~= lit_name() + t2);
    crate::codec::lemma_take_lit(lit_name(), t2);
    let t3 = lit_description() + ser_str(v.description) + lit_folder_id() + ser_str(v.folder_id)
        + seq![125u8] + rest;
    assert(t2 =~= ser_str(v.name) + t3);
    lemma_parse_ser_str(v.name, t3);
    let t4 = ser_str(v.description) + lit_folder_id() + ser_str(v.folder_id) + seq![125u8] + rest;
    assert(t3 =~= lit_description() + t4);
    crate::codec::lemma_take_lit(lit_description(), t4);
    let t5 = lit_folder_id() + ser_str(v.folder_id) + seq![125u8] + rest;
    assert(t4 =~= ser_str(v.description) + t5);
    lemma_parse_ser_str(v.description, t5);
    let t6 = ser_str(v.folder_id) + seq![125u8] + rest;
    assert(t5 =~= lit_folder_id() + t6);
    crate::codec::lemma_take_lit(lit_folder_id(), t6);
    let t7 = seq![125u8] + rest;
    assert(t6 =~= ser_str(v.folder_id) + t7);
    lemma_parse_ser_str(v.folder_id, t7);
    assert(t7[0] == 125);
    assert(t7.skip(1) =~= rest);
    assert(VaultRecordView {
        icon: v.icon,
        name: v.name,
        description: v.description,
        folder_id: v.folder_id,
    } =~= v);
}

/// Parsing one note object inverts serializing it.
#[verifier::rlimit(80)]
pub proof fn lemma_parse_ser_note(v: NoteRecordView, rest: Seq<u8>)
    ensures
        parse_note_obj(ser_note(v) + rest) == Some((v, rest)),
{
    let d = ser_note(v) + rest;
    let t0 = ser_str(v.notetitle) + lit_filename() + ser_str(v.filename) + lit_icon() + ser_str(
        v.icon,
    ) + seq![125u8] + rest;
    assert(d =~= lit_note_head() + t0);
    crate::codec::lemma_take_lit(lit_note_head(), t0);
    let t1 = lit_filename() + ser_str(v.filename) + lit_icon() + ser_str(v.icon) + seq![125u8]
        + rest;
    assert(t0 =~= ser_str(v.notetitle) + t1);
    lemma_parse_ser_str(v.notetitle, t1);
    let t2 = ser_str(v.filename) + lit_icon() + ser_str(v.icon) + seq![125u8] + rest;
    assert(t1 =~= lit_filename() + t2);
    crate::codec::lemma_take_lit(lit_filename(), t2);
    let t3 = lit_icon() + ser_str(v.icon) + seq![125u8] + rest;
    assert(t2 =~= ser_str(v.filename) + t3);
    lemma_parse_ser_str(v.filename, t3);
    let t4 = ser_str(v.icon) + seq![125u8] + rest;
    assert(t3 =~= lit_icon() + t4);
    crate::codec::lemma_take_lit(lit_icon(), t4);
    let t5 = seq![125u8] + rest;
    assert(t4 =~= ser_str(v.icon) + t5);
    lemma_parse_ser_str(v.icon, t5);
    assert(t5[0] == 125);
    assert(t5.skip(1) =~= rest);
    assert(NoteRecordView { notetitle: v.notetitle, filename: v.filename, icon: v.icon } =~= v);
}

/// Parsing a serialized vault-list tail yields the records and the rest.
#[verifier::rlimit(80)]
pub proof fn lemma_parse_ser_vaults_rest(l: Seq<VaultRecordView>, rest: Seq<u8>)
    ensures
        parse_vaults_rest(ser_vaults_rest(l) + rest) == Some((l, rest)),
    decreases l.len(),
{
    let d = ser_vaults_rest(l) + rest;
    if l.len() == 0 {
        assert(d =~= seq![93u8] + rest);
        assert(d[0] == 93);
        assert(d.skip(1) =~= rest);
        assert(l =~= Seq::<VaultRecordView>::empty());
    } else {
        let tail = ser_vaults_rest(l.skip(1)) + rest;
        assert(d =~= seq![44u8] + (ser_vault(l[0]) + tail));
        assert(d[0] == 44);
        assert(d.skip(1) =~= ser_vault(l[0]) + tail);
        lemma_parse_ser_vault(l[0], tail);
        assert(parse_vault_obj(d.skip(1)) == Some((l[0], tail)));
        assert(tail.len() < d.len());
        lemma_parse_ser_vaults_rest(l.skip(1), rest);
        assert(seq![l[0]] + l.skip(1) =~= l);
    }
}

/// Parsing a serialized note-list tail yields the records and the rest.
#[verifier::rlimit(80)]
pub proof fn lemma_parse_ser_notes_rest(l: Seq<NoteRecordView>, rest: Seq<u8>)
    ensures
        parse_notes_rest(ser_notes_rest(l) + rest) == Some((l, rest)),
    decreases l.len(),
{
    let d = ser_notes_rest(l) + rest;
    if l.len() == 0 {
        assert(d =~= seq![93u8] + rest);
        assert(d[0] == 93);
        assert(d.skip(1) =~= rest);
        assert(l =~= Seq::<NoteRecordView>::empty());
    } else {
        let tail = ser_notes_rest(l.skip(1)) + rest;
        assert(d =~= seq![44u8] + (ser_note(l[0]) + tail));
        assert(d[0] == 44);
        assert(d.skip(1) =~= ser_note(l[0]) + tail);
        lemma_parse_ser_note(l[0], tail);
        assert(parse_note_obj(d.skip(1)) == Some((l[0], tail)));
        assert(tail.len() < d.len());
        lemma_parse_ser_notes_rest(l.skip(1), rest);
        assert(seq![l[0]] + l.skip(1) =~= l);
    }
}

/// A nonempty vault list's items followed by the closing bracket equal the
/// first object followed by the serialized tail of the remaining records.
pub proof fn lemma_vaults_items_shape(l: Seq<VaultRecordView>)
    requires
        l.len() > 0,
    ensures
        ser_vaults_items(l) + seq![93u8] == ser_vault(l[0]) + ser_vaults_rest(l.skip(1)),
    decreases l.len(),
{
    if l.len() == 1 {
        assert(l.skip(1).len() == 0);
        assert(ser_vaults_items(l) + seq![93u8] =~= ser_vault(l[0]) + ser_vaults_rest(l.skip(1)));
    } else {
        lemma_vaults_items_shape(l.skip(1));
        assert(ser_vaults_items(l) + seq![93u8] =~= ser_vault(l[0]) + (seq![44u8] + (
        ser_vaults_items(l.skip(1)) + seq![93u8])));
        assert(seq![44u8] + (ser_vault(l.skip(1)[0]) + ser_vaults_rest(l.skip(1).skip(1))) =~= seq![
            44u8,
        ] + ser_vault(l.skip(1)[0]) + ser_vaults_rest(l.skip(1).skip(1)));
    }
}

/// A nonempty note list's items followed by the closing bracket equal the
/// first object followed by the serialized tail of the remaining records.
pub proof fn lemma_notes_items_shape(l: Seq<NoteRecordView>)
    requires
        l.len() > 0,
    ensures
        ser_notes_items(l) + seq![93u8] == ser_note(l[0]) + ser_notes_rest(l.skip(1)),
    decreases l.len(),
{
    if l.len() == 1 {
        assert(l.skip(1).len() == 0);
        assert(ser_notes_items(l) + seq![93u8] =~= ser_note(l[0]) + ser_notes_rest(l.skip(1)));
    } else {
        lemma_notes_items_shape(l.skip(1));
        assert(ser_notes_items(l) + seq![93u8] =~= ser_note(l[0]) + (seq![44u8] + (ser_notes_items(
            l.skip(1),
        ) + seq![93u8])));
        assert(seq![44u8] + (ser_note(l.skip(1)[0]) + ser_notes_rest(l.skip(1).skip(1))) =~= seq![
            44u8,
        ] + ser_note(l.skip(1)[0]) + ser_notes_rest(l.skip(1).skip(1)));
    }
}

/// Parsing a whole serialized vault list yields exactly the records.
#[verifier::rlimit(80)]
pub proof fn lemma_parse_ser_vaults(l: Seq<VaultRecordView>)
    ensures
        parse_vaults_top(ser_vaults_top(l)) == Some(l),
{
    let d = ser_vaults_top(l);
    assert(d[0] == 91);
    if l.len() == 0 {
        assert(d =~= seq![91u8, 93u8]);
        assert(d.skip(1) =~= seq![93u8]);
        assert(l =~= Seq::<VaultRecordView>::empty());
    } else {
        let d1 = d.skip(1);
        lemma_vaults_items_shape(l);
        assert(d1 =~= ser_vault(l[0]) + ser_vaults_rest(l.skip(1)));
        assert(d1[0] == ser_vault(l[0])[0]);
        assert(ser_vault(l[0])[0] == 123);
        lemma_parse_ser_vault(l[0], ser_vaults_rest(l.skip(1)));
        lemma_parse_ser_vaults_rest(l.skip(1), Seq::<u8>::empty());
        assert(ser_vaults_rest(l.skip(1)) + Seq::<u8>::empty() =~= ser_vaults_rest(l.skip(1)));
        assert(parse_vaults_rest(ser_vaults_rest(l.skip(1))) == Some(
            (l.skip(1), Seq::<u8>::empty()),
        ));
        assert(seq![l[0]] + l.skip(1) =~= l);
    }
}

/// Parsing a whole serialized note list yields exactly the records.
#[verifier::rlimit(80)]
pub proof fn lemma_parse_ser_notes(l: Seq<NoteRecordView>)
    ensures
        parse_notes_top(ser_notes_top(l)) == Some(l),
{
    let d = ser_notes_top(l);
    assert(d[0] == 91);
    if l.len() == 0 {
        assert(d =~= seq![91u8, 93u8]);
        assert(d.skip(1) =~= seq![93u8]);
        assert(l =~= Seq::<NoteRecordView>::empty());
    } else {
        let d1 = d.skip(1);
        lemma_notes_items_shape(l);
        assert(d1 =~= ser_note(l[0]) + ser_notes_rest(l.skip(1)));
        assert(d1[0] == ser_note(l[0])[0]);
        assert(ser_note(l[0])[0] == 123);
        lemma_parse_ser_note(l[0], ser_notes_rest(l.skip(1)));
        lemma_parse_ser_notes_rest(l.skip(1), Seq::<u8>::empty());
        assert(ser_notes_rest(l.skip(1)) + Seq::<u8>::empty() =~= ser_notes_rest(l.skip(1)));
        assert(parse_notes_rest(ser_notes_rest(l.skip(1))) == Some(
            (l.skip(1), Seq::<u8>::empty()),
        ));
        assert(seq![l[0]] + l.skip(1) =~= l);
    }
}

/// Parsing a serialized hint object yields exactly the hint.
pub proof fn lemma_parse_ser_hint(h: Seq<u8>)
    ensures
        parse_hint_top(ser_hint(h)) == Some(h),
{
    let d = ser_hint(h);
    let t0 = ser_str(h) + seq![125u8];
    assert(d =~= lit_hint_head() + t0);
    crate::codec::lemma_take_lit(lit_hint_head(), t0);
    let t1 = seq![125u8];
    assert(t0 =~= ser_str(h) + t1);
    lemma_parse_ser_str(h, t1);
}

/// Appending a record to a vault list appends a comma (when the list was not
/// empty) and its object to the serialized items.
pub proof fn lemma_vaults_items_push(l: Seq<VaultRecordView>, v: VaultRecordView)
    ensures
        ser_vaults_items(l.push(v)) == if l.len() == 0 {
            ser_vault(v)
        } else {
            ser_vaults_items(l) + seq![44u8] + ser_vault(v)
        },
    decreases l.len(),
{
    let lp = l.push(v);
    if l.len() == 0 {
        assert(lp[0] == v);
    } else if l.len() == 1 {
        assert(lp[0] == l[0]);
        assert(lp.skip(1) =~= seq![v]);
        assert(ser_vaults_items(seq![v]) == ser_vault(v));
    } else {
        assert(lp[0] == l[0]);
        assert(lp.skip(1) =~= l.skip(1).push(v));
        lemma_vaults_items_push(l.skip(1), v);
        assert(ser_vault(l[0]) + seq![44u8] + (ser_vaults_items(l.skip(1)) + seq![44u8]
            + ser_vault(v)) =~= (ser_vault(l[0]) + seq![44u8] + ser_vaults_items(l.skip(1)))
            + seq![44u8] + ser_vault(v));
    }
}

/// Appending a record to a note list appends a comma (when the list was not
/// empty) and its object to the serialized items.
pub proof fn lemma_notes_items_push(l: Seq<NoteRecordView>, v: NoteRecordView)
    ensures
        ser_notes_items(l.push(v)) == if l.len() == 0 {
            ser_note(v)
        } else {
            ser_notes_items(l) + seq![44u8] + ser_note(v)
        },
    decreases l.len(),
{
    let lp = l.push(v);
    if l.len() == 0 {
        assert(lp[0] == v);
    } else if l.len() == 1 {
        assert(lp[0] == l[0]);
        assert(lp.skip(1) =~= seq![v]);
        assert(ser_notes_items(seq![v]) == ser_note(v));
    } else {
        assert(lp[0] == l[0]);
        assert(lp.skip(1) =~= l.skip(1).push(v));
        lemma_notes_items_push(l.skip(1), v);
        assert(ser_note(l[0]) + seq![44u8] + (ser_notes_items(l.skip(1)) + seq![44u8] + ser_note(v))
            =~= (ser_note(l[0]) + seq![44u8] + ser_notes_items(l.skip(1))) + seq![44u8] + ser_note(
            v,
        ));
    }
}

/// The bytes of `{"icon":` at run time.
fn lit_vault_head_exec() -> (r: Vec<u8>)
    ensures
        r@ == lit_vault_head(),
{
    let v = vec![123u8, 34u8, 105u8, 99u8, 111u8, 110u8, 34u8, 58u8];
    proof {
        assert(v@ =~= lit_vault_head());
    }
    v
}

/// The bytes of `,"name":` at run time.
fn lit_name_exec() -> (r: Vec<u8>)
    ensures
        r@ == lit_name(),
{
    let v = vec![44u8, 34u8, 110u8, 97u8, 109u8, 101u8, 34u8, 58u8];
    proof {
        assert(v@ =~= lit_name());
    }
    v
}

/// The bytes of `,"description":` at run time.
fn lit_description_exec() -> (r: Vec<u8>)
    ensures
        r@ == lit_description(),
{
    let v = vec![
        44u8,
        34u8,
        100u8,
        101u8,
        115u8,
        99u8,
        114u8,
        105u8,
        112u8,
        116u8,
        105u8,
        111u8,
        110u8,
        34u8,
        58u8,
    ];
    proof {
        assert(v@ =~= lit_description());
    }
    v
}

/// The bytes of `,"folder_id":` at run time.
fn lit_folder_id_exec() -> (r: Vec<u8>)
    ensures
        r@ == lit_folder_id(),
{
    let v = vec![
        44u8,
        34u8,
        102u8,
        111u8,
        108u8,
        100u8,
        101u8,
        114u8,
        95u8,
        105u8,
        100u8,
        34u8,
        58u8,
    ];
    proof {
        assert(v@ =~= lit_folder_id());
    }
    v
}

/// The bytes of `{"notetitle":` at run time.
fn lit_note_head_exec() -> (r: Vec<u8>)
    ensures
        r@ == lit_note_head(),
{
    let v = vec![
        123u8,
        34u8,
        110u8,
        111u8,
        116u8,
        101u8,
        116u8,
        105u8,
        116u8,
        108u8,
        101u8,
        34u8,
        58u8,
    ];
    proof {
        assert(v@ =~= lit_note_head());
    }
    v
}

/// The bytes of `,"filename":` at run time.
fn lit_filename_exec() -> (r: Vec<u8>)
    ensures
        r@ == lit_filename(),
{
    let v = vec![44u8, 34u8, 102u8, 105u8, 108u8, 101u8, 110u8, 97u8, 109u8, 101u8, 34u8, 58u8];
    proof {
        assert(v@ =~= lit_filename());
    }
    v
}

/// The bytes of `,"icon":` at run time.
fn lit_icon_exec() -> (r: Vec<u8>)
    ensures
        r@ == lit_icon(),
{
    let v = vec![44u8, 34u8, 105u8, 99u8, 111u8, 110u8, 34u8, 58u8];
    proof {
        assert(v@ =~= lit_icon());
    }
    v
}

/// The bytes of `{"hint":` at run time.
fn lit_hint_head_exec() -> (r: Vec<u8>)
    ensures
        r@ == lit_hint_head(),
{
    let v = vec![123u8, 34u8, 104u8, 105u8, 110u8, 116u8, 34u8, 58u8];
    proof {
        assert(v@ =~= lit_hint_head());
    }
    v
}

/// Appends the JSON object for one vault record to `out`.
fn write_vault(out: &mut Vec<u8>, v: &VaultRecord)
    ensures
        final(out)@ == old(out)@ + ser_vault(v@),
{
    let head = lit_vault_head_exec();
    append_bytes(out, head.as_slice());
    write_str(out, v.icon.as_slice());
    let l_name = lit_name_exec();
    append_bytes(out, l_name.as_slice());
    write_str(out, v.name.as_slice());
    let l_desc = lit_description_exec();
    append_bytes(out, l_desc.as_slice());
    write_str(out, v.description.as_slice());
    let l_fid = lit_folder_id_exec();
    append_bytes(out, l_fid.as_slice());
    write_str(out, v.folder_id.as_slice());
    out.push(125);
    proof {
        assert(out@ =~= old(out)@ + ser_vault(v@));
    }
}

/// Appends the JSON object for one note record to `out`.
fn write_note(out: &mut Vec<u8>, v: &NoteRecord)
    ensures
        final(out)@ == old(out)@ + ser_note(v@),
{
    let head = lit_note_head_exec();
    append_bytes(out, head.as_slice());
    write_str(out, v.notetitle.as_slice());
    let l_fname = lit_filename_exec();
    append_bytes(out, l_fname.as_slice());
    write_str(out, v.filename.as_slice());
    let l_icon = lit_icon_exec();
    append_bytes(out, l_icon.as_slice());
    write_str(out, v.icon.as_slice());
    out.push(125);
    proof {
        assert(out@ =~= old(out)@ + ser_note(v@));
    }
}

/// Serializes a vault list as its JSON array.
pub fn ser_vaults(l: &Vec<VaultRecord>) -> (r: Vec<u8>)
    ensures
        r@ == ser_vaults_top(vault_views(l@)),
{
    let mut out = vec![91u8];
    let n = l.len();
    let mut i: usize = 0;
    while i < n
        invariant
            0 <= i <= n,
            n == l@.len(),
            out@ == seq![91u8] + ser_vaults_items(vault_views(l@.take(i as int))),
        decreases n - i,
    {
        if i > 0 {
            out.push(44);
        }
        write_vault(&mut out, &l[i]);
        proof {
            assert(l@.take(i + 1) =~= l@.take(i as int).push(l@[i as int]));
            assert(vault_views(l@.take(i + 1)) =~= vault_views(l@.take(i as int)).push(
                l@[i as int]@,
            ));
            lemma_vaults_items_push(vault_views(l@.take(i as int)), l@[i as int]@);
            assert(vault_views(l@.take(i as int)).len() == i);
            assert(out@ =~= seq![91u8] + ser_vaults_items(vault_views(l@.take(i + 1))));
        }
        i = i + 1;
    }
    out.push(93);
    proof {
        assert(l@.take(n as int) =~= l@);
        assert(out@ =~= ser_vaults_top(vault_views(l@)));
    }
    out
}

/// Serializes a note list as its JSON array.
pub fn ser_notes(l: &Vec<NoteRecord>) -> (r: Vec<u8>)
    ensures
        r@ == ser_notes_top(note_views(l@)),
{
    let mut out = vec![91u8];
    let n = l.len();
    let mut i: usize = 0;
    while i < n
        invariant
            0 <= i <= n,
            n == l@.len(),
            out@ == seq![91u8] + ser_notes_items(note_views(l@.take(i as int))),
        decreases n - i,
    {
        if i > 0 {
            out.push(44);
        }
        write_note(&mut out, &l[i]);
        proof {
            assert(l@.take(i + 1) =~= l@.take(i as int).push(l@[i as int]));
            assert(note_views(l@.take(i + 1)) =~= note_views(l@.take(i as int)).push(
                l@[i as int]@,
            ));
            lemma_notes_items_push(note_views(l@.take(i as int)), l@[i as int]@);
            assert(note_views(l@.take(i as int)).len() == i);
            assert(out@ =~= seq![91u8] + ser_notes_items(note_views(l@.take(i + 1))));
        }
        i = i + 1;
    }
    out.push(93);
    proof {
        assert(l@.take(n as int) =~= l@);
        assert(out@ =~= ser_notes_top(note_views(l@)));
    }
    out
}

/// Serializes the public hint object.
pub fn ser_hint_exec(hint: &[u8]) -> (r: Vec<u8>)
    ensures
        r@ == ser_hint(hint@),
{
    let mut out = lit_hint_head_exec();
    write_str(&mut out, hint);
    out.push(125);
    proof {
        assert(out@ =~= ser_hint(hint@));
    }
    out
}

/// Parses one vault object starting at `i`; on success returns the record and
/// the position just past its closing brace.
fn parse_vault_at(data: &[u8], i: usize) -> (r: Option<(VaultRecord, usize)>)
    requires
        i <= data@.len(),
    ensures
        match r {
            Some(p) => i < p.1 <= data@.len() && parse_vault_obj(data@.skip(i as int)) == Some(
                (p.0@, data@.skip(p.1 as int)),
            ),
            None => parse_vault_obj(data@.skip(i as int)) is None,
        },
{
    let head = lit_vault_head_exec();
    let j1 = match expect_lit(data, i, head.as_slice()) {
        Some(j) => j,
        None => {
            return None;
        },
    };
    let (icon, j2) = match parse_string(data, j1) {
        Some(p) => p,
        None => {
            return None;
        },
    };
    let l_name = lit_name_exec();
    let j3 = match expect_lit(data, j2, l_name.as_slice()) {
        Some(j) => j,
        None => {
            return None;
        },
    };
    let (name, j4) = match parse_string(data, j3) {
        Some(p) => p,
        None => {
            return None;
        },
    };
    let l_desc = lit_description_exec();
    let j5 = match expect_lit(data, j4, l_desc.as_slice()) {
        Some(j) => j,
        None => {
            return None;
        },
    };
    let (description, j6) = match parse_string(data, j5) {
        Some(p) => p,
        None => {
            return None;
        },
    };
    let l_fid = lit_folder_id_exec();
    let j7 = match expect_lit(data, j6, l_fid.as_slice()) {
        Some(j) => j,
        None => {
            return None;
        },
    };
    let (folder_id, j8) = match parse_string(data, j7) {
        Some(p) => p,
        None => {
            return None;
        },
    };
    if j8 < data.len() && data[j8] == 125 {
        proof {
            assert(data@.skip(j8 as int)[0] == 125);
            assert(data@.skip(j8 as int).skip(1) =~= data@.skip(j8 + 1));
        }
        let rec = VaultRecord { icon, name, description, folder_id };
        Some((rec, j8 + 1))
    } else {
        None
    }
}

/// Parses one note object starting at `i`; on success returns the record and
/// the position just past its closing brace.
fn parse_note_at(data: &[u8], i: usize) -> (r: Option<(NoteRecord, usize)>)
    requires
        i <= data@.len(),
    ensures
        match r {
            Some(p) => i < p.1 <= data@.len() && parse_note_obj(data@.skip(i as int)) == Some(
                (p.0@, data@.skip(p.1 as int)),
            ),
            None => parse_note_obj(data@.skip(i as int)) is None,
        },
{
    let head = lit_note_head_exec();
    let j1 = match expect_lit(data, i, head.as_slice()) {
        Some(j) => j,
        None => {
            return None;
        },
    };
    let (notetitle, j2) = match parse_string(data, j1) {
        Some(p) => p,
        None => {
            return None;
        },
    };
    let l_fname = lit_filename_exec();
    let j3 = match expect_lit(data, j2, l_fname.as_slice()) {
        Some(j) => j,
        None => {
            return None;
        },
    };
    let (filename, j4) = match parse_string(data, j3) {
        Some(p) => p,
        None => {
            return None;
        },
    };
    let l_icon = lit_icon_exec();
    let j5 = match expect_lit(data, j4, l_icon.as_slice()) {
        Some(j) => j,
        None => {
            return None;
        },
    };
    let (icon, j6) = match parse_string(data, j5) {
        Some(p) => p,
        None => {
            return None;
        },
    };
    if j6 < data.len() && data[j6] == 125 {
        proof {
            assert(data@.skip(j6 as int)[0] == 125);
            assert(data@.skip(j6 as int).skip(1) =~= data@.skip(j6 + 1));
        }
        let rec = NoteRecord { notetitle, filename, icon };
        Some((rec, j6 + 1))
    } else {
        None
    }
}

/// Parses a whole vault-list JSON array.
pub fn parse_vaults(data: &[u8]) -> (r: Option<Vec<VaultRecord>>)
    ensures
        match r {
            Some(l) => parse_vaults_top(data@) == Some(vault_views(l@)),
            None => parse_vaults_top(data@) is None,
        },
{
    let n = data.len();
    if n == 0 || data[0] != 91 {
        return None;
    }
    proof {
        assert(data@.skip(1).len() == n - 1);
        if n >= 2 {
            assert(data@.skip(1)[0] == data@[1]);
        }
    }
    if n >= 2 && data[1] == 93 {
        if n == 2 {
            let empty: Vec<VaultRecord> = Vec::new();
            proof {
                assert(vault_views(empty@) =~= Seq::<VaultRecordView>::empty());
            }
            return Some(empty);
        } else {
            return None;
        }
    }
    let (first, j0) = match parse_vault_at(data, 1) {
        Some(p) => p,
        None => {
            return None;
        },
    };
    let mut recs: Vec<VaultRecord> = Vec::new();
    recs.push(first);
    let mut cur: usize = j0;
    proof {
        assert(vault_views(recs@) =~= seq![recs@[0]@]);
    }
    loop
        invariant
            1 < cur <= n,
            n == data@.len(),
            recs@.len() > 0,
            (match parse_vaults_rest(data@.skip(cur as int)) {
                Some(q) => parse_vaults_top(data@) == (if q.1.len() == 0 {
                    Some(vault_views(recs@) + q.0)
                } else {
                    None::<Seq<VaultRecordView>>
                }),
                None => parse_vaults_top(data@) is None,
            }),
        decreases n - cur,
    {
        if cur == n {
            return None;
        }
        let b = data[cur];
        proof {
            assert(data@.skip(cur as int)[0] == b);
        }
        if b == 93 {
            proof {
                assert(data@.skip(cur as int).skip(1) =~= data@.skip(cur + 1));
            }
            if cur + 1 == n {
                proof {
                    assert(vault_views(recs@) + Seq::<VaultRecordView>::empty() =~= vault_views(
                        recs@,
                    ));
                }
                return Some(recs);
            } else {
                return None;
            }
        } else if b == 44 {
            proof {
                assert(data@.skip(cur as int).skip(1) =~= data@.skip(cur + 1));
            }
            let (rec, j) = match parse_vault_at(data, cur + 1) {
                Some(p) => p,
                None => {
                    return None;
                },
            };
            let ghost prev = recs@;
            recs.push(rec);
            proof {
                assert(data@.skip(j as int).len() < data@.skip(cur as int).len());
                match parse_vaults_rest(data@.skip(j as int)) {
                    Some(q) => {
                        assert(vault_views(prev.push(rec)) =~= vault_views(prev).push(rec@));
                        assert(vault_views(prev) + (seq![rec@] + q.0) =~= vault_views(recs@) + q.0);
                    },
                    None => {},
                }
            }
            cur = j;
        } else {
            return None;
        }
    }
}

/// Parses a whole note-list JSON array.
pub fn parse_notes(data: &[u8]) -> (r: Option<Vec<NoteRecord>>)
    ensures
        match r {
            Some(l) => parse_notes_top(data@) == Some(note_views(l@)),
            None => parse_notes_top(data@) is None,
        },
{
    let n = data.len();
    if n == 0 || data[0] != 91 {
        return None;
    }
    proof {
        assert(data@.skip(1).len() == n - 1);
        if n >= 2 {
            assert(data@.skip(1)[0] == data@[1]);
        }
    }
    if n >= 2 && data[1] == 93 {
        if n == 2 {
            let empty: Vec<NoteRecord> = Vec::new();
            proof {
                assert(note_views(empty@) =~= Seq::<NoteRecordView>::empty());
            }
            return Some(empty);
        } else {
            return None;
        }
    }
    let (first, j0) = match parse_note_at(data, 1) {
        Some(p) => p,
        None => {
            return None;
        },
    };
    let mut recs: Vec<NoteRecord> = Vec::new();
    recs.push(first);
    let mut cur: usize = j0;
    proof {
        assert(note_views(recs@) =~= seq![recs@[0]@]);
    }
    loop
        invariant
            1 < cur <= n,
            n == data@.len(),
            recs@.len() > 0,
            (match parse_notes_rest(data@.skip(cur as int)) {
                Some(q) => parse_notes_top(data@) == (if q.1.len() == 0 {
                    Some(note_views(recs@) + q.0)
                } else {
                    None::<Seq<NoteRecordView>>
                }),
                None => parse_notes_top(data@) is None,
            }),
        decreases n - cur,
    {
        if cur == n {
            return None;
        }
        let b = data[cur];
        proof {
            assert(data@.skip(cur as int)[0] == b);
        }
        if b == 93 {
            proof {
                assert(data@.skip(cur as int).skip(1) =~= data@.skip(cur + 1));
            }
            if cur + 1 == n {
                proof {
                    assert(note_views(recs@) + Seq::<NoteRecordView>::empty() =~= note_views(
                        recs@,
                    ));
                }
                return Some(recs);
            } else {
                return None;
            }
        } else if b == 44 {
            proof {
                assert(data@.skip(cur as int).skip(1) =~= data@.skip(cur + 1));
            }
            let (rec, j) = match parse_note_at(data, cur + 1) {
                Some(p) => p,
                None => {
                    return None;
                },
            };
            let ghost prev = recs@;
            recs.push(rec);
            proof {
                assert(data@.skip(j as int).len() < data@.skip(cur as int).len());
                match parse_notes_rest(data@.skip(j as int)) {
                    Some(q) => {
                        assert(note_views(prev.push(rec)) =~= note_views(prev).push(rec@));
                        assert(note_views(prev) + (seq![rec@] + q.0) =~= note_views(recs@) + q.0);
                    },
                    None => {},
                }
            }
            cur = j;
        } else {
            return None;
        }
    }
}

/// Parses the public hint object.
pub fn parse_hint(data: &[u8]) -> (r: Option<Vec<u8>>)
    ensures
        match r {
            Some(h) => parse_hint_top(data@) == Some(h@),
            None => parse_hint_top(data@) is None,
        },
{
    let head = lit_hint_head_exec();
    proof {
        assert(data@.skip(0) =~= data@);
    }
    let j1 = match expect_lit(data, 0, head.as_slice()) {
        Some(j) => j,
        None => {
            return None;
        },
    };
    let (hint, j2) = match parse_string(data, j1) {
        Some(p) => p,
        None => {
            return None;
        },
    };
    if j2 < data.len() && data.len() - j2 == 1 && data[j2] == 125 {
        proof {
            assert(data@.skip(j2 as int)[0] == 125);
            assert(data@.skip(j2 as int).len() == 1);
        }
        Some(hint)
    } else {
        None
    }
}

} // verus!
