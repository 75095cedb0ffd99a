//! End-to-end scenarios through the real container format: the library's
//! records are transliterated onto the binary container, locked with a
//! passphrase-derived key, written to bytes, reopened and decoded again.

use kdbx_rs::database::{Database, Entry, Field, Group};
use kdbx_rs::CompositeKey;
use twopass::codec::{decode_container, encode_container};
use twopass::model::PasswordEntry;
use twopass::record::{Container, FieldKv, GroupRecord, Record};
use twopass::vault::{Vault, VaultSession};

fn container_to_kdbx_bytes(c: &Container, passphrase: &str) -> Vec<u8> {
    let mut db = Database::default();
    db.set_name("2Pass Database");
    for gr in &c.groups {
        let mut group = Group::new(&gr.name);
        if let Ok(uuid) = uuid::Uuid::parse_str(&gr.uuid) {
            group.set_uuid(uuid);
        }
        db.root_mut().add_group(group);
    }
    for rec in &c.records {
        let mut entry = Entry::default();
        if let Ok(uuid) = uuid::Uuid::parse_str(&rec.uuid) {
            entry.set_uuid(uuid);
        }
        entry.set_title(&rec.title);
        entry.set_username(&rec.username);
        entry.set_password(&rec.password);
        if !rec.url.is_empty() {
            entry.set_url(&rec.url);
        }
        for f in &rec.fields {
            entry.add_field(Field::new(&f.key, &f.value));
        }
        match &rec.group_uuid {
            Some(gid) => {
                let uuid = uuid::Uuid::parse_str(gid).unwrap();
                let group = db
                    .root_mut()
                    .find_group_mut(|g| g.uuid() == uuid)
                    .expect("the record's group exists");
                group.add_entry(entry);
            }
            None => db.root_mut().add_entry(entry),
        }
    }
    let mut kdbx = kdbx_rs::Kdbx::from_database(db);
    kdbx.set_key(CompositeKey::from_password(passphrase)).unwrap();
    let mut out: Vec<u8> = Vec::new();
    kdbx.write(&mut out).unwrap();
    out
}

fn well_known_keys() -> Vec<&'static str> {
    vec![
        "TimeOtp-Secret-Base32",
        "TOTP_SECRET",
        "IconId",
        "AdditionalURLs",
        "Notes",
        "SORT_ORDER",
        "Tags",
    ]
}

fn kdbx_entry_to_record(entry: &Entry, group_uuid: Option<String>) -> Record {
    let mut fields = Vec::new();
    for f in entry.fields() {
        if well_known_keys().contains(&f.key()) {
            fields.push(FieldKv {
                key: f.key().to_string(),
                value: f.value().unwrap_or("").to_string(),
            });
        }
    }
    Record {
        uuid: entry.uuid().to_string(),
        title: entry.title().unwrap_or("").to_string(),
        username: entry.username().unwrap_or("").to_string(),
        password: entry.password().unwrap_or("").to_string(),
        url: entry.url().unwrap_or("").to_string(),
        fields,
        group_uuid,
    }
}

fn kdbx_bytes_to_container(bytes: &[u8], passphrase: &str) -> Option<Container> {
    let locked = kdbx_rs::from_reader(std::io::Cursor::new(bytes)).ok()?;
    let key = CompositeKey::from_password(passphrase);
    let unlocked = locked.unlock(&key).ok()?;
    let root = unlocked.database().root();
    let mut groups = Vec::new();
    let mut records = Vec::new();
    for entry in root.entries() {
        records.push(kdbx_entry_to_record(entry, None));
    }
    for group in root.groups() {
        let gid = group.uuid().to_string();
        groups.push(GroupRecord {
            uuid: gid.clone(),
            name: group.name().to_string(),
        });
        for entry in group.entries() {
            records.push(kdbx_entry_to_record(entry, Some(gid.clone())));
        }
    }
    Some(Container { groups, records })
}

#[test]
fn create_add_lock_unlock_returns_the_entry_unchanged() {
    // Create a vault keyed by "P1" and add one entry.
    let vault = Vault::new();
    let mut session = VaultSession::new(vault, "P1".to_string());
    let entry = PasswordEntry {
        id: "5b15ab12-79ae-4a3d-9b6a-04b3ae1c9a31".to_string(),
        title: "Mail".to_string(),
        username: "a@b.com".to_string(),
        password: "x".to_string(),
        url: None,
        notes: String::new(),
        totp_secret: None,
        icon_id: None,
        tags: None,
        group_id: None,
        sort_order: None,
        created_at: 1,
        updated_at: 1,
        history: None,
    };
    session.vault.add_entry(entry).unwrap();
    // Lock: serialize through the real container format.
    let container = encode_container(
        &session.vault.get_all_groups(),
        &session.vault.get_all_entries(),
    );
    let bytes = container_to_kdbx_bytes(&container, &session.master_password);
    // Unlock with the same passphrase.
    let reopened = kdbx_bytes_to_container(&bytes, "P1").expect("the passphrase matches");
    let (groups, entries) = decode_container(&reopened, 7);
    let vault2 = Vault {
        groups,
        entries,
    };
    let all = vault2.get_all_entries();
    assert_eq!(all.len(), 1);
    assert_eq!(all[0].id, "5b15ab12-79ae-4a3d-9b6a-04b3ae1c9a31");
    assert_eq!(all[0].title, "Mail");
    assert_eq!(all[0].username, "a@b.com");
    assert_eq!(all[0].password, "x");
}

#[test]
fn a_wrong_passphrase_does_not_unlock() {
    let vault = Vault::new();
    let session = VaultSession::new(vault, "P1".to_string());
    let container = encode_container(
        &session.vault.get_all_groups(),
        &session.vault.get_all_entries(),
    );
    let bytes = container_to_kdbx_bytes(&container, &session.master_password);
    assert!(kdbx_bytes_to_container(&bytes, "wrong").is_none());
}

#[test]
fn grouped_entries_and_custom_fields_survive_the_real_container() {
    let mut vault = Vault::new();
    let gid = "aa15ab12-79ae-4a3d-9b6a-04b3ae1c9a31";
    vault
        .add_group(twopass::model::PasswordGroup {
            id: gid.to_string(),
            name: "Work".to_string(),
            icon: "📁".to_string(),
            color: None,
            sort_order: 0,
            created_at: 1,
        })
        .unwrap();
    vault
        .add_entry(PasswordEntry {
            id: "bb15ab12-79ae-4a3d-9b6a-04b3ae1c9a31".to_string(),
            title: "Svc".to_string(),
            username: "u".to_string(),
            password: "p".to_string(),
            url: Some(vec!["https://a".to_string(), "https://b".to_string()]),
            notes: "n".to_string(),
            totp_secret: Some("JBSWY3DPEHPK3PXP".to_string()),
            icon_id: Some("7".to_string()),
            tags: Some(vec!["one".to_string(), "two".to_string()]),
            group_id: Some(gid.to_string()),
            sort_order: Some(4),
            created_at: 1,
            updated_at: 1,
            history: None,
        })
        .unwrap();
    let container = encode_container(&vault.get_all_groups(), &vault.get_all_entries());
    let bytes = container_to_kdbx_bytes(&container, "pw");
    let reopened = kdbx_bytes_to_container(&bytes, "pw").unwrap();
    let (groups, entries) = decode_container(&reopened, 9);
    assert_eq!(groups.len(), 1);
    assert_eq!(groups[0].name, "Work");
    assert_eq!(entries.len(), 1);
    let e = &entries[0];
    assert_eq!(e.group_id.as_deref(), Some(gid));
    assert_eq!(
        e.url,
        Some(vec!["https://a".to_string(), "https://b".to_string()])
    );
    assert_eq!(e.totp_secret.as_deref(), Some("JBSWY3DPEHPK3PXP"));
    assert_eq!(e.icon_id.as_deref(), Some("7"));
    assert_eq!(e.tags, Some(vec!["one".to_string(), "two".to_string()]));
    assert_eq!(e.sort_order, Some(4));
    assert_eq!(e.notes, "n");
}
