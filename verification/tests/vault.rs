use saltr::parse::load_password_database;
use saltr::records::{create_password_details, PasswordDatabase, PasswordDetails, VaultError};
use saltr::ser::save_password_database;
use saltr::store::{delete_password, get_all_passwords, save_password_details_to_json};

fn record(name: &str, value: &str, website: &str, username: &str, notes: &str) -> PasswordDetails {
    create_password_details(name, value, website, username, notes)
}

fn assert_same_fields(a: &PasswordDetails, b: &PasswordDetails) {
    assert_eq!(a.name, b.name);
    assert_eq!(a.value, b.value);
    assert_eq!(a.website, b.website);
    assert_eq!(a.username, b.username);
    assert_eq!(a.notes, b.notes);
    assert_eq!(a.created_at, b.created_at);
}

#[test]
fn load_missing_file_is_empty_vault() {
    let db = load_password_database(None).unwrap();
    assert!(db.passwords.is_empty());
}

#[test]
fn load_blank_text_is_empty_vault() {
    for text in ["", "   ", " \n\t\r  \n", "\n", "\u{000C}", "\u{000B}", "\u{0085}", "\u{00A0}\u{2028}\u{3000}"] {
        let db = load_password_database(Some(text)).unwrap();
        assert!(db.passwords.is_empty(), "text {:?} should be empty vault", text);
    }
}

#[test]
fn load_invalid_structure_is_malformed() {
    let cases = [
        "[]",
        "{",
        "{}",
        "null",
        "{\"passwords\":}",
        "{\"passwords\":[}",
        "{\"records\":[]}",
        "{\"passwords\":[]} trailing",
        "{\"passwords\":[{\"name\":\"a\"}]}",
        "{\"passwords\":[{\"name\":\"a\",\"value\":\"b\",\"website\":\"c\",\"username\":\"d\",\"notes\":\"e\",\"created_at\":\"f\"},]}",
        "{\"passwords\":[{\"value\":\"b\",\"name\":\"a\",\"website\":\"c\",\"username\":\"d\",\"notes\":\"e\",\"created_at\":\"f\"}]}",
        "{\"passwords\":[{\"name\":\"unterminated]}",
        "{\"passwords\":[{\"name\":\"a\",\"value\":\"\\x\",\"website\":\"c\",\"username\":\"d\",\"notes\":\"e\",\"created_at\":\"f\"}]}",
        "{\"passwords\":[{\"name\":\"\\ud800\",\"value\":\"b\",\"website\":\"c\",\"username\":\"d\",\"notes\":\"e\",\"created_at\":\"f\"}]}",
        "{\"passwords\":[{\"name\":\"\\u00\",\"value\":\"b\",\"website\":\"c\",\"username\":\"d\",\"notes\":\"e\",\"created_at\":\"f\"}]}",
        "\u{000C}{\"passwords\":[]}",
    ];
    for text in cases {
        let err = load_password_database(Some(text)).unwrap_err();
        assert_eq!(err, VaultError::MalformedStore, "text {:?} should be malformed", text);
    }
}

#[test]
fn empty_vault_serializes_exactly() {
    let db = PasswordDatabase::default();
    assert_eq!(save_password_database(&db), "{\"passwords\":[]}");
}

#[test]
fn one_record_serializes_exactly() {
    let db = PasswordDatabase {
        passwords: vec![PasswordDetails {
            name: "a".to_string(),
            value: "b".to_string(),
            website: "c".to_string(),
            username: "d".to_string(),
            notes: "e".to_string(),
            created_at: "t".to_string(),
        }],
    };
    assert_eq!(
        save_password_database(&db),
        "{\"passwords\":[{\"name\":\"a\",\"value\":\"b\",\"website\":\"c\",\"username\":\"d\",\"notes\":\"e\",\"created_at\":\"t\"}]}"
    );
}

#[test]
fn escapes_serialize_exactly() {
    let db = PasswordDatabase {
        passwords: vec![PasswordDetails {
            name: "a\"b".to_string(),
            value: "c\\d".to_string(),
            website: "e\nf".to_string(),
            username: "g\th".to_string(),
            notes: "i\rj".to_string(),
            created_at: "t".to_string(),
        }],
    };
    assert_eq!(
        save_password_database(&db),
        "{\"passwords\":[{\"name\":\"a\\\"b\",\"value\":\"c\\\\d\",\"website\":\"e\\nf\",\"username\":\"g\\th\",\"notes\":\"i\\rj\",\"created_at\":\"t\"}]}"
    );
}

#[test]
fn control_characters_serialize_as_unicode_escapes() {
    let db = PasswordDatabase {
        passwords: vec![PasswordDetails {
            name: "a".to_string(),
            value: "\u{0000}\u{0001}\u{000B}\u{001F}".to_string(),
            website: "c".to_string(),
            username: "d".to_string(),
            notes: "e".to_string(),
            created_at: "t".to_string(),
        }],
    };
    let text = save_password_database(&db);
    assert_eq!(
        text,
        "{\"passwords\":[{\"name\":\"a\",\"value\":\"\\u0000\\u0001\\u000b\\u001f\",\"website\":\"c\",\"username\":\"d\",\"notes\":\"e\",\"created_at\":\"t\"}]}"
    );
    let back = load_password_database(Some(text.as_str())).unwrap();
    assert_eq!(back.passwords[0].value, "\u{0000}\u{0001}\u{000B}\u{001F}");
}

#[test]
fn unicode_escapes_parse() {
    let text = "{\"passwords\":[{\"name\":\"\\u0041\\u000B\\u001f\\u00e9\",\"value\":\"b\",\"website\":\"c\",\"username\":\"d\",\"notes\":\"e\",\"created_at\":\"f\"}]}";
    let db = load_password_database(Some(text)).unwrap();
    assert_eq!(db.passwords[0].name, "A\u{000B}\u{001F}\u{00E9}");
}

#[test]
fn parser_accepts_spaced_empty_store() {
    let db = load_password_database(Some(" { \"passwords\" : [ ] } ")).unwrap();
    assert!(db.passwords.is_empty());
}

#[test]
fn round_trip_reproduces_records_exactly() {
    let db = PasswordDatabase {
        passwords: vec![
            record("plain", "secret", "site.example", "user", "notes"),
            record("with \"quotes\"", "back\\slash", "", "", "line\nbreak\ttab\rcr"),
            record("", "", "", "", ""),
            record("unicode \u{00e9}\u{4e16}\u{754c}", "p\u{00e4}ss", "w", "u", "n"),
        ],
    };
    let text = save_password_database(&db);
    let back = load_password_database(Some(text.as_str())).unwrap();
    assert_eq!(back.passwords.len(), db.passwords.len());
    for (a, b) in back.passwords.iter().zip(db.passwords.iter()) {
        assert_same_fields(a, b);
    }
}

#[test]
fn parser_accepts_pretty_layout_and_escapes() {
    let text = "{\n  \"passwords\": [\n    {\n      \"name\": \"a b\",\n      \"value\": \"x\\n\\t\\\"y\\\"\\\\\",\n      \"website\": \"https:\\/\\/example.com\",\n      \"username\": \"u\",\n      \"notes\": \"\\b\\f\",\n      \"created_at\": \"2024-01-01 00:00:00 UTC\"\n    }\n  ]\n}\n";
    let db = load_password_database(Some(text)).unwrap();
    assert_eq!(db.passwords.len(), 1);
    let p = &db.passwords[0];
    assert_eq!(p.name, "a b");
    assert_eq!(p.value, "x\n\t\"y\"\\");
    assert_eq!(p.website, "https://example.com");
    assert_eq!(p.username, "u");
    assert_eq!(p.notes, "\u{0008}\u{000C}");
    assert_eq!(p.created_at, "2024-01-01 00:00:00 UTC");
}

#[test]
fn append_preserves_order() {
    let (_, text_a) = save_password_details_to_json("A", "1", "", "", "", None).unwrap();
    let (_, text_b) =
        save_password_details_to_json("B", "2", "", "", "", Some(text_a.as_str())).unwrap();
    let (db_c, text_c) =
        save_password_details_to_json("C", "3", "", "", "", Some(text_b.as_str())).unwrap();
    assert_eq!(db_c.passwords.len(), 3);
    let names: Vec<&str> = db_c.passwords.iter().map(|p| p.name.as_str()).collect();
    assert_eq!(names, ["A", "B", "C"]);
    let listed = get_all_passwords(Some(text_c.as_str())).unwrap();
    let listed_names: Vec<&str> = listed.iter().map(|p| p.name.as_str()).collect();
    assert_eq!(listed_names, ["A", "B", "C"]);
}

#[test]
fn append_on_malformed_store_fails() {
    let err = save_password_details_to_json("A", "1", "", "", "", Some("{oops")).unwrap_err();
    assert_eq!(err, VaultError::MalformedStore);
}

#[test]
fn delete_removes_all_matches_and_reports() {
    let (_, t1) = save_password_details_to_json("X", "1", "", "", "", None).unwrap();
    let (_, t2) = save_password_details_to_json("Y", "2", "", "", "", Some(t1.as_str())).unwrap();
    let (_, t3) = save_password_details_to_json("X", "3", "", "", "", Some(t2.as_str())).unwrap();

    let (removed, new_text) = delete_password("X", Some(t3.as_str())).unwrap();
    assert!(removed);
    let new_text = new_text.expect("a removal rewrites the store");
    let left = get_all_passwords(Some(new_text.as_str())).unwrap();
    assert_eq!(left.len(), 1);
    assert_eq!(left[0].name, "Y");
    assert_eq!(left[0].value, "2");

    let (removed_again, no_text) = delete_password("X", Some(new_text.as_str())).unwrap();
    assert!(!removed_again);
    assert!(no_text.is_none());
}

#[test]
fn delete_on_missing_file_reports_false() {
    let (removed, text) = delete_password("X", None).unwrap();
    assert!(!removed);
    assert!(text.is_none());
}

#[test]
fn created_at_has_the_stamp_shape() {
    let rec = create_password_details("n", "v", "w", "u", "x");
    let ts = &rec.created_at;
    assert_eq!(ts.len(), 23);
    assert!(ts.ends_with(" UTC"));
    let b = ts.as_bytes();
    assert!(b[..4].iter().all(|c| c.is_ascii_digit()));
    assert_eq!(b[4], b'-');
    assert!(b[5].is_ascii_digit() && b[6].is_ascii_digit());
    assert_eq!(b[7], b'-');
    assert!(b[8].is_ascii_digit() && b[9].is_ascii_digit());
    assert_eq!(b[10], b' ');
    assert!(b[11].is_ascii_digit() && b[12].is_ascii_digit());
    assert_eq!(b[13], b':');
    assert!(b[14].is_ascii_digit() && b[15].is_ascii_digit());
    assert_eq!(b[16], b':');
    assert!(b[17].is_ascii_digit() && b[18].is_ascii_digit());
}
