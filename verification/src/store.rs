use vstd::prelude::*;

use crate::format::{content_model, load_model, ser_db};
use crate::genr::{generate_password, is_alnum_char};
use crate::parse::load_password_database;
use crate::records::{
    create_password_details, is_timestamp, str_eq, views_of, PasswordDatabase, PasswordDetails,
    RecordModel, VaultError,
};
use crate::ser::save_password_database;

verus! {

/// The records kept by deleting `n`: every record whose name differs,
/// in their stored order.
pub open spec fn remove_named(rs: Seq<RecordModel>, n: Seq<char>) -> Seq<RecordModel>
    decreases rs.len(),
{
    if rs.len() == 0 {
        Seq::empty()
    } else {
        let front = remove_named(rs.drop_last(), n);
        if rs.last().name == n {
            front
        } else {
            front.push(rs.last())
        }
    }
}

/// Loads the current records, appends a freshly stamped record built
/// from the form fields, and yields the new database together with the
/// text to store.
pub fn save_password_details_to_json(
    name: &str,
    password: &str,
    website: &str,
    username: &str,
    notes: &str,
    content: Option<&str>,
) -> (r: Result<(PasswordDatabase, String), VaultError>)
    ensures
        match r {
            Ok(dbout) => match load_model(content_model(content)) {
                Some(rs) => {
                    &&& dbout.0@.len() == rs.len() + 1
                    &&& dbout.0@.take(rs.len() as int) == rs
                    &&& dbout.0@.last().name == name@
                    &&& dbout.0@.last().value == password@
                    &&& dbout.0@.last().website == website@
                    &&& dbout.0@.last().username == username@
                    &&& dbout.0@.last().notes == notes@
                    &&& is_timestamp(dbout.0@.last().created_at)
                    &&& dbout.1@ == ser_db(dbout.0@)
                },
                None => false,
            },
            Err(e) => load_model(content_model(content)) is None && e
                == VaultError::MalformedStore,
        },
{
    match load_password_database(content) {
        Ok(mut database) => {
            let rec = create_password_details(name, password, website, username, notes);
            let ghost rs = database@;
            database.passwords.push(rec);
            proof {
                assert(database@ =~= rs.push(rec@));
                assert(database@.take(rs.len() as int) =~= rs);
            }
            let out = save_password_database(&database);
            Ok((database, out))
        },
        Err(e) => Err(e),
    }
}

/// All stored records, in order, from the file's state.
pub fn get_all_passwords(content: Option<&str>) -> (r: Result<Vec<PasswordDetails>, VaultError>)
    ensures
        match r {
            Ok(ps) => load_model(content_model(content)) == Some(views_of(ps@)),
            Err(e) => load_model(content_model(content)) is None && e
                == VaultError::MalformedStore,
        },
{
    match load_password_database(content) {
        Ok(db) => Ok(db.passwords),
        Err(e) => Err(e),
    }
}

/// Removes every record named `name`. Reports whether anything was
/// removed; when something was, also yields the text to store back.
pub fn delete_password(name: &str, content: Option<&str>) -> (r: Result<
    (bool, Option<String>),
    VaultError,
>)
    ensures
        match r {
            Ok(ro) => match load_model(content_model(content)) {
                Some(rs) => {
                    let kept = remove_named(rs, name@);
                    &&& ro.0 == (kept.len() < rs.len())
                    &&& (ro.0 ==> (ro.1 matches Some(out) && out@ == ser_db(kept)))
                    &&& (!ro.0 ==> ro.1 is None)
                },
                None => false,
            },
            Err(e) => load_model(content_model(content)) is None && e
                == VaultError::MalformedStore,
        },
{
    match load_password_database(content) {
        Ok(db) => {
            let ghost rs = db@;
            let n = db.passwords.len();
            let mut kept_vec: Vec<PasswordDetails> = Vec::new();
            let mut i: usize = 0;
            proof {
                assert(views_of(kept_vec@) =~= remove_named(rs.take(0), name@));
            }
            while i < n
                invariant
                    i <= n,
                    n == db.passwords@.len(),
                    rs == db@,
                    kept_vec@.len() <= i,
                    views_of(kept_vec@) == remove_named(rs.take(i as int), name@),
                decreases n - i,
            {
                let p = &db.passwords[i];
                proof {
                    assert(rs[i as int] == db.passwords@[i as int]@);
                    assert(rs.take(i + 1).drop_last() =~= rs.take(i as int));
                    assert(rs.take(i + 1).last() == rs[i as int]);
                }
                let keep = !str_eq(p.name.as_str(), name);
                if keep {
                    let ghost kept0 = kept_vec@;
                    kept_vec.push(p.clone());
                    proof {
                        assert(views_of(kept_vec@) =~= views_of(kept0).push(p@));
                    }
                }
                i = i + 1;
            }
            proof {
                assert(rs.take(n as int) =~= rs);
            }
            let removed = kept_vec.len() < n;
            if removed {
                let new_db = PasswordDatabase { passwords: kept_vec };
                let out = save_password_database(&new_db);
                Ok((true, Some(out)))
            } else {
                Ok((false, None))
            }
        },
        Err(e) => Err(e),
    }
}

/// Stores one sample record with a freshly generated 12-character
/// secret, exercising the whole pipeline.
pub fn save_example_password_to_json(content: Option<&str>) -> (r: Result<
    (PasswordDatabase, String),
    VaultError,
>)
    ensures
        match r {
            Ok(dbout) => match load_model(content_model(content)) {
                Some(rs) => {
                    &&& dbout.0@.len() == rs.len() + 1
                    &&& dbout.0@.take(rs.len() as int) == rs
                    &&& dbout.0@.last().name == "Example Password Name"@
                    &&& dbout.0@.last().value.len() == 12
                    &&& (forall|k: int|
                        0 <= k < dbout.0@.last().value.len() ==> is_alnum_char(
                            #[trigger] dbout.0@.last().value[k],
                        ))
                    &&& dbout.0@.last().website == "https://example.com"@
                    &&& dbout.0@.last().username == "Sample Username"@
                    &&& dbout.0@.last().notes == "This is an example password note"@
                    &&& is_timestamp(dbout.0@.last().created_at)
                    &&& dbout.1@ == ser_db(dbout.0@)
                },
                None => false,
            },
            Err(e) => load_model(content_model(content)) is None && e
                == VaultError::MalformedStore,
        },
{
    let mut password = String::new();
    generate_password(&mut password, 12);
    save_password_details_to_json(
        "Example Password Name",
        password.as_str(),
        "https://example.com",
        "Sample Username",
        "This is an example password note",
        content,
    )
}

} // verus!
