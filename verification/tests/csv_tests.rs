use twopass::csvimport::import_chrome_csv;
use twopass::errors::VaultError;
use twopass::vault::Vault;

#[test]
fn chrome_rows_become_tagged_entries() {
    let mut v = Vault::new();
    let csv = "name,url,username,password\n\
               Mail,https://mail.example,a@b.com,x\n\
               Bank,https://bank.example,me,secret\n";
    let n = import_chrome_csv(&mut v, csv, 5).unwrap();
    assert_eq!(n, 2);
    let es = v.get_all_entries();
    assert_eq!(es.len(), 2);
    assert_eq!(es[0].title, "Mail");
    assert_eq!(es[0].username, "a@b.com");
    assert_eq!(es[0].password, "x");
    assert_eq!(es[0].url, Some(vec!["https://mail.example".to_string()]));
    assert_eq!(es[0].notes, "Imported from Chrome");
    assert_eq!(es[0].tags, Some(vec!["Chrome".to_string()]));
    assert_eq!(es[0].group_id, None);
    assert_eq!(es[0].sort_order, Some(0));
    assert_eq!(es[1].sort_order, Some(1));
    assert_eq!(es[0].created_at, 5);
    assert_ne!(es[0].id, es[1].id);
}

#[test]
fn column_order_is_taken_from_the_header() {
    let mut v = Vault::new();
    let csv = "password,name,username,url\npw,Site,user,https://s\n";
    import_chrome_csv(&mut v, csv, 1).unwrap();
    let es = v.get_all_entries();
    assert_eq!(es[0].title, "Site");
    assert_eq!(es[0].password, "pw");
    assert_eq!(es[0].username, "user");
    assert_eq!(es[0].url, Some(vec!["https://s".to_string()]));
}

#[test]
fn quoted_fields_are_parsed() {
    let mut v = Vault::new();
    let csv = "name,url,username,password\n\"Quoted, Name\",https://q,u,\"p,w\"\n";
    import_chrome_csv(&mut v, csv, 1).unwrap();
    let es = v.get_all_entries();
    assert_eq!(es[0].title, "Quoted, Name");
    assert_eq!(es[0].password, "p,w");
}

#[test]
fn missing_columns_and_ragged_rows_are_refused() {
    let mut v = Vault::new();
    let missing = "name,url,username\nMail,https://m,u\n";
    assert_eq!(
        import_chrome_csv(&mut v, missing, 1).unwrap_err(),
        VaultError::MissingColumn
    );
    assert!(v.get_all_entries().is_empty());
    let ragged = "name,url,username,password\nMail,https://m\n";
    assert_eq!(
        import_chrome_csv(&mut v, ragged, 1).unwrap_err(),
        VaultError::MalformedCsv
    );
    assert!(v.get_all_entries().is_empty());
}

#[test]
fn empty_input_imports_nothing() {
    let mut v = Vault::new();
    assert_eq!(import_chrome_csv(&mut v, "", 1).unwrap(), 0);
    assert!(v.get_all_entries().is_empty());
}
