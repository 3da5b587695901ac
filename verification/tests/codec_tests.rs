use noetiq_store::records::{parse_notes, parse_vaults, ser_notes, ser_vaults, NoteRecord, VaultRecord};
use noetiq_store::vaults::initialize_store;

fn vault(icon: &str, name: &str, description: &str, folder_id: &str) -> VaultRecord {
    VaultRecord {
        icon: icon.as_bytes().to_vec(),
        name: name.as_bytes().to_vec(),
        description: description.as_bytes().to_vec(),
        folder_id: folder_id.as_bytes().to_vec(),
    }
}

#[test]
fn vault_list_serializes_to_exact_json() {
    let l = vec![vault("i", "N", "D", "f-1")];
    let bytes = ser_vaults(&l);
    assert_eq!(
        String::from_utf8(bytes).unwrap(),
        r#"[{"icon":"i","name":"N","description":"D","folder_id":"f-1"}]"#
    );
}

#[test]
fn empty_vault_list_serializes_to_brackets() {
    let empty: Vec<VaultRecord> = Vec::new();
    assert_eq!(ser_vaults(&empty), b"[]".to_vec());
}

#[test]
fn string_escapes_serialize_exactly() {
    let l = vec![vault("\"", "a\\b", "line\nbreak\ttab", "\x01")];
    let bytes = ser_vaults(&l);
    assert_eq!(
        String::from_utf8(bytes).unwrap(),
        "[{\"icon\":\"\\\"\",\"name\":\"a\\\\b\",\"description\":\"line\\nbreak\\ttab\",\"folder_id\":\"\\u0001\"}]"
    );
}

#[test]
fn parse_vaults_inverts_serialization() {
    let l = vec![
        vault("\"", "a\\b", "line\nbreak", "id-1"),
        vault("plain", "two", "d2", "id-2"),
    ];
    let parsed = parse_vaults(&ser_vaults(&l)).expect("own output parses");
    assert_eq!(parsed, l);
}

#[test]
fn parse_vaults_accepts_standard_escapes() {
    let data =
        br#"[{"icon":"\u0041","name":"\b\f\/","description":"x","folder_id":"\t"}]"#;
    let parsed = parse_vaults(data).expect("standard escapes");
    assert_eq!(parsed[0].icon, b"A".to_vec());
    assert_eq!(parsed[0].name, b"\x08\x0c/".to_vec());
    assert_eq!(parsed[0].folder_id, b"\t".to_vec());
}

#[test]
fn parse_vaults_rejects_malformed_input() {
    assert!(parse_vaults(b"").is_none());
    assert!(parse_vaults(b"[").is_none());
    assert!(parse_vaults(b"{}").is_none());
    assert!(parse_vaults(b"[]trailing").is_none());
    assert!(parse_vaults(br#"[{"icon":"unterminated]"#).is_none());
    assert!(parse_vaults(br#"[{"name":"wrong first key"}]"#).is_none());
}

#[test]
fn note_list_round_trips_with_exact_json() {
    let l = vec![NoteRecord {
        notetitle: b"My Note".to_vec(),
        filename: b"a.json".to_vec(),
        icon: b"pen".to_vec(),
    }];
    let bytes = ser_notes(&l);
    assert_eq!(
        String::from_utf8(bytes.clone()).unwrap(),
        r#"[{"notetitle":"My Note","filename":"a.json","icon":"pen"}]"#
    );
    assert_eq!(parse_notes(&bytes).unwrap(), l);
}

#[test]
fn public_record_is_exact_json() {
    let init = initialize_store(b"pw", b"h");
    assert_eq!(init.public_bytes, b"{\"hint\":\"h\"}".to_vec());
}
