use twopass::crypto::{base64_encode, derive_legacy_key, encrypt_data};
use twopass::errors::VaultError;
use twopass::migrate::{
    decrypt_legacy_envelope, migrate_tree, resolve_legacy_envelope, should_migrate,
    LegacyDocument, LegacyPasswordEntry, LegacyPasswordGroup,
};

fn legacy_entry(id: &str, title: &str, group: Option<&str>) -> LegacyPasswordEntry {
    LegacyPasswordEntry {
        id: id.to_string(),
        title: title.to_string(),
        username: "u".to_string(),
        password: "p".to_string(),
        url: None,
        notes: None,
        totp_secret: None,
        tags: None,
        group_id: group.map(|g| g.to_string()),
        sort_order: None,
        created_at: None,
        updated_at: None,
    }
}

fn legacy_group(id: &str, name: &str) -> LegacyPasswordGroup {
    LegacyPasswordGroup {
        id: id.to_string(),
        name: name.to_string(),
        icon: None,
        color: None,
        sort_order: None,
        created_at: None,
    }
}

#[test]
fn migration_keeps_every_entry_and_group() {
    let doc = LegacyDocument {
        groups: vec![legacy_group("g1", "Work"), legacy_group("g2", "Home")],
        entries: vec![
            legacy_entry("e1", "One", Some("g1")),
            legacy_entry("e2", "Two", None),
            legacy_entry("e3", "Three", Some("g2")),
        ],
    };
    let v = migrate_tree(&doc, 42);
    let gs = v.get_all_groups();
    let es = v.get_all_entries();
    assert_eq!(gs.len(), 2);
    assert_eq!(es.len(), 3);
    assert_eq!(es[0].group_id.as_deref(), Some("g1"));
    assert_eq!(es[1].group_id, None);
    assert_eq!(es[2].group_id.as_deref(), Some("g2"));
}

#[test]
fn migration_defaults_absent_fields_and_rehomes_unknown_groups() {
    let doc = LegacyDocument {
        groups: vec![legacy_group("g1", "Work")],
        entries: vec![legacy_entry("e1", "Orphan", Some("gone"))],
    };
    let v = migrate_tree(&doc, 42);
    let gs = v.get_all_groups();
    assert_eq!(gs[0].icon, "📁");
    assert_eq!(gs[0].sort_order, 0);
    assert_eq!(gs[0].created_at, 42);
    let es = v.get_all_entries();
    assert_eq!(es[0].group_id, None);
    assert_eq!(es[0].notes, "");
    assert_eq!(es[0].created_at, 42);
    assert_eq!(es[0].updated_at, 42);
    assert!(es[0].history.is_none());
}

#[test]
fn envelope_shape_decides_the_migration_path() {
    assert_eq!(resolve_legacy_envelope(None, None).unwrap(), None);
    assert_eq!(
        resolve_legacy_envelope(None, Some("n".to_string())).unwrap(),
        None
    );
    let pair = resolve_legacy_envelope(Some("data".to_string()), Some("n".to_string()))
        .unwrap()
        .unwrap();
    assert_eq!(pair.0, "data");
    assert_eq!(pair.1, "n");
    assert_eq!(
        resolve_legacy_envelope(Some("data".to_string()), None).unwrap_err(),
        VaultError::MissingNonce
    );
}

#[test]
fn encrypted_legacy_files_decrypt_with_the_passphrase() {
    let key = derive_legacy_key("master");
    let plaintext = "{\"groups\":[],\"entries\":[]}";
    let (ct, nonce) = encrypt_data(plaintext.as_bytes(), &key);
    let enc = base64_encode(&ct);
    let non = base64_encode(&nonce);
    assert_eq!(decrypt_legacy_envelope(&enc, &non, "master").unwrap(), plaintext);
    assert_eq!(
        decrypt_legacy_envelope(&enc, &non, "wrong").unwrap_err(),
        VaultError::CryptoFailure
    );
}

#[test]
fn migration_triggers_only_without_a_container_and_with_a_legacy_file() {
    assert!(should_migrate(false, true));
    assert!(!should_migrate(true, true));
    assert!(!should_migrate(false, false));
    assert!(!should_migrate(true, false));
}
