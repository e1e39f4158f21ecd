use saltr::genr::generate_password;
use saltr::store::save_example_password_to_json;

#[test]
fn generated_secret_has_exact_length_and_alphabet() {
    for len in [0usize, 1, 12, 16, 64] {
        let mut held = String::new();
        let secret = generate_password(&mut held, len);
        assert_eq!(secret.chars().count(), len);
        assert_eq!(held, secret);
        assert!(secret.chars().all(|c| c.is_ascii_alphanumeric()));
    }
}

#[test]
fn generated_secrets_are_not_constant() {
    let mut held = String::new();
    let first = generate_password(&mut held, 16);
    let mut saw_different = false;
    for _ in 0..50 {
        if generate_password(&mut held, 16) != first {
            saw_different = true;
            break;
        }
    }
    assert!(saw_different);
}

#[test]
fn example_record_is_appended_with_generated_secret() {
    let (db, text) = save_example_password_to_json(None).unwrap();
    assert_eq!(db.passwords.len(), 1);
    let p = &db.passwords[0];
    assert_eq!(p.name, "Example Password Name");
    assert_eq!(p.value.chars().count(), 12);
    assert!(p.value.chars().all(|c| c.is_ascii_alphanumeric()));
    assert_eq!(p.website, "https://example.com");
    assert_eq!(p.username, "Sample Username");
    assert_eq!(p.notes, "This is an example password note");
    assert!(!p.created_at.is_empty());
    assert!(text.contains("Example Password Name"));
}

#[test]
fn end_to_end_scenario() {
    // empty vault
    let listed = saltr::store::get_all_passwords(None).unwrap();
    assert!(listed.is_empty());

    // a fresh 16-character alphanumeric secret
    let mut held = String::new();
    let secret = generate_password(&mut held, 16);
    assert_eq!(secret.chars().count(), 16);
    assert!(secret.chars().all(|c| c.is_ascii_alphanumeric()));

    // append it under a name
    let (db, text) = saltr::store::save_password_details_to_json(
        "Gmail",
        secret.as_str(),
        "gmail.com",
        "me@x.com",
        "",
        None,
    )
    .unwrap();
    assert_eq!(db.passwords.len(), 1);

    // listing shows exactly the appended record, with a stamp
    let listed = saltr::store::get_all_passwords(Some(text.as_str())).unwrap();
    assert_eq!(listed.len(), 1);
    assert_eq!(listed[0].name, "Gmail");
    assert_eq!(listed[0].value, secret);
    assert_eq!(listed[0].website, "gmail.com");
    assert_eq!(listed[0].username, "me@x.com");
    assert_eq!(listed[0].notes, "");
    assert!(!listed[0].created_at.is_empty());

    // deleting it empties the vault
    let (removed, new_text) = saltr::store::delete_password("Gmail", Some(text.as_str())).unwrap();
    assert!(removed);
    let left = saltr::store::get_all_passwords(Some(new_text.unwrap().as_str())).unwrap();
    assert!(left.is_empty());
}
