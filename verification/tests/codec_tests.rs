use twopass::codec::{decode_container, encode_container, entry_to_record, record_to_entry};
use twopass::model::{PasswordEntry, PasswordGroup};
use twopass::numtext::{i64_to_string, parse_i64};
use twopass::record::{Container, FieldKv, GroupRecord, Record};

fn sample_entry() -> PasswordEntry {
    PasswordEntry {
        id: "0e6331f3-5a46-4f5b-8c37-7dd7d4b4ffd1".to_string(),
        title: "Mail".to_string(),
        username: "a@b.com".to_string(),
        password: "x".to_string(),
        url: Some(vec![
            "https://mail.example".to_string(),
            "https://alt.example".to_string(),
            "https://third.example".to_string(),
        ]),
        notes: "some notes".to_string(),
        totp_secret: Some("JBSWY3DPEHPK3PXP".to_string()),
        icon_id: Some("42".to_string()),
        tags: Some(vec!["work".to_string(), "mail".to_string()]),
        group_id: None,
        sort_order: Some(42),
        created_at: 1000,
        updated_at: 2000,
        history: None,
    }
}

fn field_values<'a>(r: &'a Record, key: &str) -> Vec<&'a str> {
    r.fields
        .iter()
        .filter(|f| f.key == key)
        .map(|f| f.value.as_str())
        .collect()
}

#[test]
fn entry_record_roundtrip_preserves_everything_but_timestamps() {
    let e = sample_entry();
    let r = entry_to_record(&e);
    let back = record_to_entry(&r, 9999);
    assert_eq!(back.id, e.id);
    assert_eq!(back.title, e.title);
    assert_eq!(back.username, e.username);
    assert_eq!(back.password, e.password);
    assert_eq!(back.url, e.url);
    assert_eq!(back.notes, e.notes);
    assert_eq!(back.totp_secret, e.totp_secret);
    assert_eq!(back.icon_id, e.icon_id);
    assert_eq!(back.tags, e.tags);
    assert_eq!(back.group_id, e.group_id);
    assert_eq!(back.sort_order, e.sort_order);
    assert_eq!(back.created_at, 9999);
    assert_eq!(back.updated_at, 9999);
    assert!(back.history.is_none());
}

#[test]
fn extra_urls_are_newline_joined_and_first_takes_the_slot() {
    let e = sample_entry();
    let r = entry_to_record(&e);
    assert_eq!(r.url, "https://mail.example");
    assert_eq!(
        field_values(&r, "AdditionalURLs"),
        vec!["https://alt.example\nhttps://third.example"]
    );
}

#[test]
fn tags_are_comma_joined_and_sort_order_is_decimal() {
    let e = sample_entry();
    let r = entry_to_record(&e);
    assert_eq!(field_values(&r, "Tags"), vec!["work,mail"]);
    assert_eq!(field_values(&r, "SORT_ORDER"), vec!["42"]);
}

#[test]
fn empty_notes_and_absent_options_write_no_fields() {
    let mut e = sample_entry();
    e.notes = String::new();
    e.totp_secret = None;
    e.icon_id = None;
    e.tags = None;
    e.sort_order = None;
    e.url = Some(vec!["https://only.example".to_string()]);
    let r = entry_to_record(&e);
    assert!(field_values(&r, "Notes").is_empty());
    assert!(field_values(&r, "TimeOtp-Secret-Base32").is_empty());
    assert!(field_values(&r, "IconId").is_empty());
    assert!(field_values(&r, "Tags").is_empty());
    assert!(field_values(&r, "SORT_ORDER").is_empty());
    assert!(field_values(&r, "AdditionalURLs").is_empty());
}

#[test]
fn overwriting_a_field_twice_keeps_exactly_one() {
    let e = sample_entry();
    let mut r = entry_to_record(&e);
    r.set_field("TimeOtp-Secret-Base32", "FIRST".to_string());
    r.set_field("TimeOtp-Secret-Base32", "SECOND".to_string());
    assert_eq!(field_values(&r, "TimeOtp-Secret-Base32"), vec!["SECOND"]);
    r.set_field("Tags", "a,b".to_string());
    r.set_field("Tags", "c".to_string());
    r.set_field("Tags", "d".to_string());
    assert_eq!(field_values(&r, "Tags"), vec!["d"]);
    r.set_field("SORT_ORDER", i64_to_string(7));
    r.set_field("SORT_ORDER", i64_to_string(8));
    assert_eq!(field_values(&r, "SORT_ORDER"), vec!["8"]);
}

#[test]
fn legacy_totp_field_is_read_as_fallback() {
    let r = Record {
        uuid: "id-1".to_string(),
        title: "t".to_string(),
        username: "u".to_string(),
        password: "p".to_string(),
        url: String::new(),
        fields: vec![FieldKv {
            key: "TOTP_SECRET".to_string(),
            value: "OLDSECRET".to_string(),
        }],
        group_uuid: None,
    };
    let e = record_to_entry(&r, 5);
    assert_eq!(e.totp_secret.as_deref(), Some("OLDSECRET"));
}

#[test]
fn standard_totp_field_wins_over_legacy() {
    let r = Record {
        uuid: "id-1".to_string(),
        title: "t".to_string(),
        username: "u".to_string(),
        password: "p".to_string(),
        url: String::new(),
        fields: vec![
            FieldKv {
                key: "TimeOtp-Secret-Base32".to_string(),
                value: "NEW".to_string(),
            },
            FieldKv {
                key: "TOTP_SECRET".to_string(),
                value: "OLD".to_string(),
            },
        ],
        group_uuid: None,
    };
    let e = record_to_entry(&r, 5);
    assert_eq!(e.totp_secret.as_deref(), Some("NEW"));
}

#[test]
fn read_back_urls_are_split_and_trimmed() {
    let r = Record {
        uuid: "id-1".to_string(),
        title: "t".to_string(),
        username: "u".to_string(),
        password: "p".to_string(),
        url: "https://a".to_string(),
        fields: vec![FieldKv {
            key: "AdditionalURLs".to_string(),
            value: " https://b \n\nhttps://c".to_string(),
        }],
        group_uuid: None,
    };
    let e = record_to_entry(&r, 5);
    assert_eq!(
        e.url,
        Some(vec![
            "https://a".to_string(),
            "https://b".to_string(),
            "https://c".to_string()
        ])
    );
}

#[test]
fn unparsable_sort_order_reads_as_absent() {
    let r = Record {
        uuid: "id-1".to_string(),
        title: "t".to_string(),
        username: "u".to_string(),
        password: "p".to_string(),
        url: String::new(),
        fields: vec![FieldKv {
            key: "SORT_ORDER".to_string(),
            value: "not-a-number".to_string(),
        }],
        group_uuid: None,
    };
    let e = record_to_entry(&r, 5);
    assert_eq!(e.sort_order, None);
}

#[test]
fn container_roundtrip_with_groups() {
    let g = PasswordGroup {
        id: "7d0f0e2e-0a8f-43e9-b9c1-111111111111".to_string(),
        name: "Work".to_string(),
        icon: "W".to_string(),
        color: Some("#fff".to_string()),
        sort_order: 3,
        created_at: 77,
    };
    let mut e = sample_entry();
    e.group_id = Some(g.id.clone());
    let c = encode_container(&vec![g.clone()], &vec![e.clone()]);
    let (groups, entries) = decode_container(&c, 123);
    assert_eq!(groups.len(), 1);
    assert_eq!(groups[0].id, g.id);
    assert_eq!(groups[0].name, "Work");
    // Decorative group metadata is documented as lossy.
    assert_eq!(groups[0].icon, "📁");
    assert_eq!(groups[0].color, None);
    assert_eq!(groups[0].sort_order, 0);
    assert_eq!(groups[0].created_at, 123);
    assert_eq!(entries.len(), 1);
    assert_eq!(entries[0].id, e.id);
    assert_eq!(entries[0].group_id, Some(g.id));
}

#[test]
fn unknown_group_reference_is_rehomed_to_root_on_decode() {
    let c = Container {
        groups: vec![GroupRecord {
            uuid: "g1".to_string(),
            name: "G".to_string(),
        }],
        records: vec![Record {
            uuid: "e1".to_string(),
            title: "t".to_string(),
            username: "u".to_string(),
            password: "p".to_string(),
            url: String::new(),
            fields: vec![],
            group_uuid: Some("missing".to_string()),
        }],
    };
    let (_groups, entries) = decode_container(&c, 1);
    assert_eq!(entries[0].group_id, None);
}

#[test]
fn decimal_text_roundtrips() {
    assert_eq!(i64_to_string(0), "0");
    assert_eq!(i64_to_string(-123), "-123");
    assert_eq!(i64_to_string(i64::MAX), "9223372036854775807");
    assert_eq!(i64_to_string(i64::MIN), "-9223372036854775808");
    assert_eq!(parse_i64("0"), Some(0));
    assert_eq!(parse_i64("007"), Some(7));
    assert_eq!(parse_i64("+7"), Some(7));
    assert_eq!(parse_i64("-9223372036854775808"), Some(i64::MIN));
    assert_eq!(parse_i64("9223372036854775807"), Some(i64::MAX));
    assert_eq!(parse_i64("9223372036854775808"), None);
    assert_eq!(parse_i64("99999999999999999999"), None);
    assert_eq!(parse_i64(""), None);
    assert_eq!(parse_i64("-"), None);
    assert_eq!(parse_i64("12a"), None);
}
