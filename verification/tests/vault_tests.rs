use twopass::errors::VaultError;
use twopass::model::{PasswordEntry, PasswordGroup};
use twopass::vault::{Vault, VaultSession};

fn entry(id: &str, title: &str, group: Option<&str>) -> PasswordEntry {
    PasswordEntry {
        id: id.to_string(),
        title: title.to_string(),
        username: "u".to_string(),
        password: "p".to_string(),
        url: None,
        notes: String::new(),
        totp_secret: None,
        icon_id: None,
        tags: None,
        group_id: group.map(|g| g.to_string()),
        sort_order: None,
        created_at: 1,
        updated_at: 1,
        history: None,
    }
}

fn group(id: &str, name: &str) -> PasswordGroup {
    PasswordGroup {
        id: id.to_string(),
        name: name.to_string(),
        icon: "📁".to_string(),
        color: None,
        sort_order: 0,
        created_at: 1,
    }
}

const G1: &str = "11111111-1111-1111-1111-111111111111";
const E1: &str = "22222222-2222-2222-2222-222222222222";
const E2: &str = "33333333-3333-3333-3333-333333333333";

#[test]
fn add_and_list_entries_and_groups() {
    let mut v = Vault::new();
    v.add_group(group(G1, "Work")).unwrap();
    v.add_entry(entry(E1, "One", Some(G1))).unwrap();
    v.add_entry(entry(E2, "Two", None)).unwrap();
    let es = v.get_all_entries();
    assert_eq!(es.len(), 2);
    assert_eq!(es[0].title, "One");
    assert_eq!(es[0].group_id.as_deref(), Some(G1));
    assert_eq!(es[1].group_id, None);
    let gs = v.get_all_groups();
    assert_eq!(gs.len(), 1);
    assert_eq!(gs[0].name, "Work");
}

#[test]
fn duplicate_identifiers_are_conflicts() {
    let mut v = Vault::new();
    v.add_group(group(G1, "Work")).unwrap();
    assert_eq!(
        v.add_group(group(G1, "Other")).unwrap_err(),
        VaultError::DuplicateGroup
    );
    v.add_entry(entry(E1, "One", None)).unwrap();
    assert_eq!(
        v.add_entry(entry(E1, "Again", None)).unwrap_err(),
        VaultError::DuplicateEntry
    );
}

#[test]
fn valid_uuid_group_reference_must_exist() {
    let mut v = Vault::new();
    assert_eq!(
        v.add_entry(entry(E1, "One", Some(G1))).unwrap_err(),
        VaultError::GroupNotFound
    );
    // A reference that is not even a UUID means the root.
    let stored = v.add_entry(entry(E1, "One", Some("not-a-uuid"))).unwrap();
    assert_eq!(stored.group_id, None);
    assert_eq!(v.get_all_entries()[0].group_id, None);
}

#[test]
fn delete_group_with_direct_entries_is_a_conflict() {
    let mut v = Vault::new();
    v.add_group(group(G1, "Work")).unwrap();
    v.add_entry(entry(E1, "One", Some(G1))).unwrap();
    let r = v.delete_group(G1);
    assert_eq!(r.unwrap_err(), VaultError::GroupNotEmpty);
    // The group and its entry are unchanged.
    assert_eq!(v.get_all_groups().len(), 1);
    assert_eq!(v.get_all_entries().len(), 1);
    assert_eq!(v.get_all_entries()[0].group_id.as_deref(), Some(G1));
}

#[test]
fn deleting_an_empty_group_removes_it_from_the_listing() {
    let mut v = Vault::new();
    v.add_group(group(G1, "Work")).unwrap();
    v.delete_group(G1).unwrap();
    assert!(v.get_all_groups().is_empty());
    assert_eq!(v.delete_group(G1).unwrap_err(), VaultError::GroupNotFound);
}

#[test]
fn update_entry_moves_between_groups_atomically() {
    let mut v = Vault::new();
    v.add_group(group(G1, "Work")).unwrap();
    v.add_entry(entry(E1, "One", None)).unwrap();
    let mut e = entry(E1, "One renamed", Some(G1));
    e.password = "new".to_string();
    v.update_entry(e).unwrap();
    let es = v.get_all_entries();
    assert_eq!(es.len(), 1);
    assert_eq!(es[0].title, "One renamed");
    assert_eq!(es[0].password, "new");
    assert_eq!(es[0].group_id.as_deref(), Some(G1));
    // A move to a missing group fails before anything is removed.
    let bad = entry(E1, "One", Some("44444444-4444-4444-4444-444444444444"));
    assert_eq!(v.update_entry(bad).unwrap_err(), VaultError::GroupNotFound);
    assert_eq!(v.get_all_entries().len(), 1);
    assert_eq!(v.get_all_entries()[0].title, "One renamed");
}

#[test]
fn update_and_delete_report_missing_and_malformed_identifiers() {
    let mut v = Vault::new();
    assert_eq!(
        v.update_entry(entry("bogus", "t", None)).unwrap_err(),
        VaultError::InvalidId
    );
    assert_eq!(
        v.update_entry(entry(E1, "t", None)).unwrap_err(),
        VaultError::EntryNotFound
    );
    assert_eq!(v.delete_entry("bogus").unwrap_err(), VaultError::InvalidId);
    assert_eq!(v.delete_entry(E1).unwrap_err(), VaultError::EntryNotFound);
    assert_eq!(v.delete_group("bogus").unwrap_err(), VaultError::InvalidId);
}

#[test]
fn update_group_renames_only() {
    let mut v = Vault::new();
    v.add_group(group(G1, "Work")).unwrap();
    let mut g = group(G1, "Renamed");
    g.sort_order = 9;
    v.update_group(&g).unwrap();
    let gs = v.get_all_groups();
    assert_eq!(gs[0].name, "Renamed");
    // Only the name has a durable slot.
    assert_eq!(gs[0].sort_order, 0);
}

#[test]
fn delete_entry_removes_it() {
    let mut v = Vault::new();
    v.add_entry(entry(E1, "One", None)).unwrap();
    v.delete_entry(E1).unwrap();
    assert!(v.get_all_entries().is_empty());
}

#[test]
fn import_entries_skips_known_identifiers_and_renumbers() {
    let mut v = Vault::new();
    v.add_entry(entry(E1, "Existing", None)).unwrap();
    let incoming = vec![
        entry(E1, "Duplicate", None),
        entry(E2, "Fresh", Some("whatever")),
    ];
    let n = v.import_entries(&incoming);
    assert_eq!(n, 1);
    let es = v.get_all_entries();
    assert_eq!(es.len(), 2);
    assert_eq!(es[1].title, "Fresh");
    assert_eq!(es[1].sort_order, Some(0));
    assert_eq!(es[1].group_id, None);
}

#[test]
fn error_messages_carry_the_documented_texts() {
    assert_eq!(VaultError::NotAuthenticated.message(), "Not authenticated");
    assert_eq!(VaultError::EntryNotFound.message(), "Entry not found");
    assert_eq!(
        VaultError::GroupNotEmpty.message(),
        "Cannot delete group with entries"
    );
    assert_eq!(VaultError::InvalidId.message(), "Invalid ID");
    assert_eq!(VaultError::CryptoFailure.message(), "Decryption failed");
    let bad = VaultError::InvalidBase32Char {
        ch: '1',
        position: 13,
    };
    assert_eq!(
        bad.message(),
        "Invalid character '1' at position 13. Base32 only allows A-Z and 2-7"
    );
}

#[test]
fn change_master_password_requires_the_old_one() {
    let vault = Vault::new();
    let mut s = VaultSession::new(vault, "P1".to_string());
    assert_eq!(
        s.change_master_password("wrong", "new").unwrap_err(),
        VaultError::InvalidOldPassword
    );
    assert_eq!(s.master_password, "P1");
    s.change_master_password("P1", "P2").unwrap();
    assert_eq!(s.master_password, "P2");
}
