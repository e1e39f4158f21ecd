use vstd::prelude::*;

verus! {

/// Mathematical model of one stored credential: each field as its
/// sequence of characters.
pub ghost struct RecordModel {
    pub name: Seq<char>,
    pub value: Seq<char>,
    pub website: Seq<char>,
    pub username: Seq<char>,
    pub notes: Seq<char>,
    pub created_at: Seq<char>,
}

/// One stored credential: a named secret with its metadata and the
/// timestamp stamped when the record was created.
#[derive(Debug)]
pub struct PasswordDetails {
    pub name: String,
    pub value: String,
    pub website: String,
    pub username: String,
    pub notes: String,
    pub created_at: String,
}

impl View for PasswordDetails {
    type V = RecordModel;

    open spec fn view(&self) -> RecordModel {
        RecordModel {
            name: self.name@,
            value: self.value@,
            website: self.website@,
            username: self.username@,
            notes: self.notes@,
            created_at: self.created_at@,
        }
    }
}

/// The whole vault: an ordered sequence of records, insertion order
/// preserved. This value is the entire persisted state.
#[derive(Debug)]
pub struct PasswordDatabase {
    pub passwords: Vec<PasswordDetails>,
}

impl Clone for PasswordDetails {
    /// Cloning keeps every field's content.
    fn clone(&self) -> (r: Self)
        ensures
            r@ == self@,
    {
        PasswordDetails {
            name: self.name.clone(),
            value: self.value.clone(),
            website: self.website.clone(),
            username: self.username.clone(),
            notes: self.notes.clone(),
            created_at: self.created_at.clone(),
        }
    }
}

/// The models of a sequence of records, in order.
pub open spec fn views_of(ps: Seq<PasswordDetails>) -> Seq<RecordModel> {
    ps.map_values(|p: PasswordDetails| p@)
}

impl View for PasswordDatabase {
    type V = Seq<RecordModel>;

    open spec fn view(&self) -> Seq<RecordModel> {
        views_of(self.passwords@)
    }
}

impl Default for PasswordDatabase {
    /// A fresh vault holds no records.
    fn default() -> (db: Self)
        ensures
            db@ == Seq::<RecordModel>::empty(),
    {
        let db = PasswordDatabase { passwords: Vec::new() };
        proof {
            assert(db@ =~= Seq::<RecordModel>::empty());
        }
        db
    }
}

/// How a stored vault file can fail to be read back.
#[derive(Clone, Copy, PartialEq, Eq, Structural, Debug)]
pub enum VaultError {
    /// The text exists and is not blank, but is not a well-formed store.
    MalformedStore,
}

/// Relies on String::push: appends the given character to the end of
/// the string.
#[verifier::external_body]
pub fn push_char(s: &mut String, c: char)
    ensures
        final(s)@ == old(s)@.push(c),
{
    s.push(c);
}

/// The characters of a string slice, as a vector, fully verified via
/// the character accessors.
pub fn chars_of(s: &str) -> (v: Vec<char>)
    ensures
        v@ == s@,
{
    let n = s.unicode_len();
    let mut v: Vec<char> = Vec::new();
    let mut i: usize = 0;
    while i < n
        invariant
            n == s@.len(),
            i <= n,
            v@ == s@.take(i as int),
        decreases n - i,
    {
        let c = s.get_char(i);
        v.push(c);
        proof {
            assert(v@ =~= s@.take(i + 1));
        }
        i = i + 1;
    }
    proof {
        assert(v@ =~= s@);
    }
    v
}

/// A string built from a vector of characters.
pub fn string_of_chars(v: &Vec<char>) -> (s: String)
    ensures
        s@ == v@,
{
    let mut s = String::new();
    let mut i: usize = 0;
    while i < v.len()
        invariant
            i <= v@.len(),
            s@ == v@.take(i as int),
        decreases v@.len() - i,
    {
        push_char(&mut s, v[i]);
        proof {
            assert(s@ =~= v@.take(i + 1));
        }
        i = i + 1;
    }
    proof {
        assert(s@ =~= v@);
    }
    s
}

/// Character-by-character string equality, verified.
pub fn str_eq(a: &str, b: &str) -> (r: bool)
    ensures
        r == (a@ == b@),
{
    let na = a.unicode_len();
    let nb = b.unicode_len();
    if na != nb {
        proof {
            assert(a@ != b@);
        }
        return false;
    }
    let mut i: usize = 0;
    while i < na
        invariant
            na == a@.len(),
            na == b@.len(),
            i <= na,
            forall|j: int| 0 <= j < i ==> a@[j] == b@[j],
        decreases na - i,
    {
        if a.get_char(i) != b.get_char(i) {
            return false;
        }
        i = i + 1;
    }
    proof {
        assert(a@ =~= b@);
    }
    true
}

/// One decimal digit.
pub open spec fn is_digit(c: char) -> bool {
    '0' <= c && c <= '9'
}

/// The shape of a creation stamp, `YYYY-MM-DD HH:MM:SS UTC`: a year of
/// four or more digits (a `+` sign precedes a year of more than four),
/// then the fixed separators, two-digit fields, and the `UTC` suffix.
/// Which instant the digits spell depends on the clock and is not
/// pinned down.
pub open spec fn is_timestamp(s: Seq<char>) -> bool {
    let n = s.len() as int;
    &&& n >= 23
    &&& (is_digit(s[0]) || s[0] == '+')
    &&& (forall|i: int| 1 <= i < n - 19 ==> is_digit(#[trigger] s[i]))
    &&& s[n - 19] == '-' && is_digit(s[n - 18]) && is_digit(s[n - 17])
    &&& s[n - 16] == '-' && is_digit(s[n - 15]) && is_digit(s[n - 14])
    &&& s[n - 13] == ' ' && is_digit(s[n - 12]) && is_digit(s[n - 11])
    &&& s[n - 10] == ':' && is_digit(s[n - 9]) && is_digit(s[n - 8])
    &&& s[n - 7] == ':' && is_digit(s[n - 6]) && is_digit(s[n - 5])
    &&& s[n - 4] == ' ' && s[n - 3] == 'U' && s[n - 2] == 'T' && s[n - 1] == 'C'
}

/// Relies on chrono's Utc::now, which never yields a date before 1970,
/// rendered with the fixed format `%Y-%m-%d %H:%M:%S UTC`: the year is
/// four or more digits (`+`-signed past four), every other numeric
/// field exactly two, and the separators and the `UTC` suffix are
/// literal, so every outcome has the stamp's shape. Which instant it
/// is depends on the clock and is not claimed.
#[verifier::external_body]
pub fn current_timestamp() -> (s: String)
    ensures
        is_timestamp(s@),
{
    chrono::Utc::now().format("%Y-%m-%d %H:%M:%S UTC").to_string()
}

/// Builds a record from the form fields, stamping the creation time
/// from the wall clock.
pub fn create_password_details(
    name: &str,
    password: &str,
    website: &str,
    username: &str,
    notes: &str,
) -> (r: PasswordDetails)
    ensures
        r@.name == name@,
        r@.value == password@,
        r@.website == website@,
        r@.username == username@,
        r@.notes == notes@,
        is_timestamp(r@.created_at),
{
    PasswordDetails {
        name: name.to_owned(),
        value: password.to_owned(),
        website: website.to_owned(),
        username: username.to_owned(),
        notes: notes.to_owned(),
        created_at: current_timestamp(),
    }
}

} // verus!
