use vstd::prelude::*;

use crate::format::{
    content_model, hex_val, is_blank, is_blank_char, is_hex, is_ws, key_created_at, key_name,
    key_notes, key_passwords, key_username, key_value, key_website, load_model, p_array, p_field,
    p_field_comma, p_key, p_lit, p_more_records, p_record, p_str_body, p_string, parse_db,
    skip_ws, unesc_char,
};
use crate::records::{
    chars_of, string_of_chars, views_of, PasswordDatabase, PasswordDetails, RecordModel,
    VaultError,
};

verus! {

fn is_ws_e(c: char) -> (r: bool)
    ensures
        r == is_ws(c),
{
    c == ' ' || c == '\n' || c == '\t' || c == '\r'
}

fn unescape(c: char) -> (r: Option<char>)
    ensures
        r == unesc_char(c),
{
    if c == '"' {
        Some('"')
    } else if c == '\\' {
        Some('\\')
    } else if c == '/' {
        Some('/')
    } else if c == 'n' {
        Some('\n')
    } else if c == 'r' {
        Some('\r')
    } else if c == 't' {
        Some('\t')
    } else if c == 'b' {
        Some('\u{0008}')
    } else if c == 'f' {
        Some('\u{000C}')
    } else {
        None
    }
}

/// Relies on char::from_u32: `Some` exactly for Unicode scalar values
/// (not a surrogate, not above the highest code point), yielding the
/// character with that code.
#[verifier::external_body]
fn char_from_u32(v: u32) -> (r: Option<char>)
    ensures
        r matches Some(c) ==> c as u32 == v,
        r is None ==> (0xD800 <= v < 0xE000 || v > 0x10FFFF),
{
    char::from_u32(v)
}

fn is_hex_e(c: char) -> (r: bool)
    ensures
        r == is_hex(c),
{
    let u = c as u32;
    (0x30 <= u && u <= 0x39) || (0x61 <= u && u <= 0x66) || (0x41 <= u && u <= 0x46)
}

fn hex_val_e(c: char) -> (r: u32)
    requires
        is_hex(c),
    ensures
        r == hex_val(c),
        r < 16,
{
    let u = c as u32;
    if u <= 0x39 {
        u - 0x30
    } else if u >= 0x61 {
        10 + (u - 0x61)
    } else {
        10 + (u - 0x41)
    }
}

fn is_blank_char_e(c: char) -> (r: bool)
    ensures
        r == is_blank_char(c),
{
    let u = c as u32;
    u == 0x20 || (0x09 <= u && u <= 0x0D) || u == 0x85 || u == 0xA0 || u == 0x1680 || (0x2000 <= u
        && u <= 0x200A) || u == 0x2028 || u == 0x2029 || u == 0x202F || u == 0x205F || u == 0x3000
}

/// Whether the whole text is white space, so that trimming it leaves
/// nothing.
fn is_blank_text(v: &Vec<char>) -> (r: bool)
    ensures
        r == is_blank(v@),
{
    let mut i: usize = 0;
    while i < v.len()
        invariant
            i <= v@.len(),
            forall|k: int| 0 <= k < i ==> is_blank_char(#[trigger] v@[k]),
        decreases v@.len() - i,
    {
        if !is_blank_char_e(v[i]) {
            assert(!is_blank(v@));
            return false;
        }
        i = i + 1;
    }
    true
}

fn vec_chars_eq(a: &Vec<char>, b: &Vec<char>) -> (r: bool)
    ensures
        r == (a@ == b@),
{
    if a.len() != b.len() {
        return false;
    }
    let mut i: usize = 0;
    while i < a.len()
        invariant
            a@.len() == b@.len(),
            i <= a@.len(),
            forall|j: int| 0 <= j < i ==> a@[j] == b@[j],
        decreases a@.len() - i,
    {
        if a[i] != b[i] {
            return false;
        }
        i = i + 1;
    }
    proof {
        assert(a@ =~= b@);
    }
    true
}

/// Advances past whitespace; the suffix at the result is exactly what the
/// model's `skip_ws` leaves.
fn e_skip_ws(v: &Vec<char>, i: usize) -> (j: usize)
    requires
        i <= v.len(),
    ensures
        i <= j <= v.len(),
        skip_ws(v@.skip(i as int)) == v@.skip(j as int),
{
    let mut j = i;
    while j < v.len() && is_ws_e(v[j])
        invariant
            i <= j <= v@.len(),
            skip_ws(v@.skip(i as int)) == skip_ws(v@.skip(j as int)),
        decreases v@.len() - j,
    {
        proof {
            assert(v@.skip(j as int)[0] == v@[j as int]);
            assert(v@.skip(j as int).skip(1) =~= v@.skip(j + 1));
        }
        j = j + 1;
    }
    proof {
        if j < v.len() {
            assert(v@.skip(j as int)[0] == v@[j as int]);
        } else {
            assert(v@.skip(j as int).len() == 0);
        }
    }
    j
}

spec fn prepend_str_parse(pre: Seq<char>, t: Seq<char>) -> Option<(Seq<char>, Seq<char>)> {
    match p_str_body(t) {
        Some(sr) => Some((pre + sr.0, sr.1)),
        None => None,
    }
}

/// Reads a string literal's body up to its closing quote, unescaping.
fn e_str_body(v: &Vec<char>, i: usize) -> (r: Option<(Vec<char>, usize)>)
    requires
        i <= v.len(),
    ensures
        match r {
            Some(sj) => i <= sj.1 <= v.len() && p_str_body(v@.skip(i as int)) == Some(
                (sj.0@, v@.skip(sj.1 as int)),
            ),
            None => p_str_body(v@.skip(i as int)) is None,
        },
{
    let ghost t0 = v@.skip(i as int);
    let mut acc: Vec<char> = Vec::new();
    let mut j = i;
    proof {
        if let Some(sr) = p_str_body(t0) {
            assert(acc@ + sr.0 =~= sr.0);
        }
    }
    loop
        invariant
            i <= j <= v@.len(),
            t0 == v@.skip(i as int),
            p_str_body(t0) == prepend_str_parse(acc@, v@.skip(j as int)),
        decreases v@.len() - j,
    {
        if j == v.len() {
            proof {
                assert(v@.skip(j as int).len() == 0);
            }
            return None;
        }
        let c = v[j];
        proof {
            assert(v@.skip(j as int)[0] == v@[j as int]);
            assert(v@.skip(j as int).len() == v@.len() - j);
        }
        if c == '"' {
            proof {
                assert(v@.skip(j as int).skip(1) =~= v@.skip(j + 1));
                assert(acc@ + Seq::<char>::empty() =~= acc@);
            }
            return Some((acc, j + 1));
        } else if c == '\\' {
            if j + 1 == v.len() {
                return None;
            }
            let c2 = v[j + 1];
            proof {
                assert(v@.skip(j as int)[1] == v@[j + 1]);
            }
            if c2 == 'u' {
                if v.len() - j < 6 {
                    return None;
                }
                let d2 = v[j + 2];
                let d3 = v[j + 3];
                let d4 = v[j + 4];
                let d5 = v[j + 5];
                proof {
                    assert(v@.skip(j as int)[2] == v@[j + 2]);
                    assert(v@.skip(j as int)[3] == v@[j + 3]);
                    assert(v@.skip(j as int)[4] == v@[j + 4]);
                    assert(v@.skip(j as int)[5] == v@[j + 5]);
                }
                if !(is_hex_e(d2) && is_hex_e(d3) && is_hex_e(d4) && is_hex_e(d5)) {
                    return None;
                }
                let code: u32 = 4096 * hex_val_e(d2) + 256 * hex_val_e(d3) + 16 * hex_val_e(d4)
                    + hex_val_e(d5);
                if 0xD800 <= code && code < 0xE000 {
                    return None;
                }
                let ghost spec_code: int = 4096 * hex_val(d2) + 256 * hex_val(d3) + 16 * hex_val(
                    d4,
                ) + hex_val(d5);
                proof {
                    assert(code == spec_code);
                }
                match char_from_u32(code) {
                    None => {
                        proof {
                            assert(code <= 0xFFFF);
                            assert(false);
                        }
                        return None;
                    },
                    Some(u) => {
                        let ghost acc0 = acc@;
                        proof {
                            assert(spec_code as u32 == code);
                            vstd::utf8::char_u32_cast(u, code);
                            assert(u == (spec_code as u32) as char);
                        }
                        acc.push(u);
                        proof {
                            assert(v@.skip(j as int).skip(6) =~= v@.skip(j + 6));
                            if let Some(sr) = p_str_body(v@.skip(j + 6)) {
                                assert(acc0 + (seq![u] + sr.0) =~= acc0.push(u) + sr.0);
                            }
                        }
                        j = j + 6;
                    },
                }
            } else {
                match unescape(c2) {
                    None => {
                        return None;
                    },
                    Some(u) => {
                        let ghost acc0 = acc@;
                        acc.push(u);
                        proof {
                            assert(v@.skip(j as int).skip(2) =~= v@.skip(j + 2));
                            if let Some(sr) = p_str_body(v@.skip(j + 2)) {
                                assert(acc0 + (seq![u] + sr.0) =~= acc0.push(u) + sr.0);
                            }
                        }
                        j = j + 2;
                    },
                }
            }
        } else {
            let ghost acc0 = acc@;
            acc.push(c);
            proof {
                assert(v@.skip(j as int).skip(1) =~= v@.skip(j + 1));
                if let Some(sr) = p_str_body(v@.skip(j + 1)) {
                    assert(acc0 + (seq![c] + sr.0) =~= acc0.push(c) + sr.0);
                }
            }
            j = j + 1;
        }
    }
}

/// Reads a quoted string after optional whitespace.
fn e_string(v: &Vec<char>, i: usize) -> (r: Option<(Vec<char>, usize)>)
    requires
        i <= v.len(),
    ensures
        match r {
            Some(sj) => i <= sj.1 <= v.len() && p_string(v@.skip(i as int)) == Some(
                (sj.0@, v@.skip(sj.1 as int)),
            ),
            None => p_string(v@.skip(i as int)) is None,
        },
{
    let j = e_skip_ws(v, i);
    if j < v.len() {
        let c = v[j];
        proof {
            assert(v@.skip(j as int)[0] == v@[j as int]);
        }
        if c == '"' {
            proof {
                assert(v@.skip(j as int).skip(1) =~= v@.skip(j + 1));
            }
            e_str_body(v, j + 1)
        } else {
            None
        }
    } else {
        proof {
            assert(v@.skip(j as int).len() == 0);
        }
        None
    }
}

/// Expects one punctuation character after optional whitespace.
fn e_lit(v: &Vec<char>, i: usize, c: char) -> (r: Option<usize>)
    requires
        i <= v.len(),
    ensures
        match r {
            Some(j) => i <= j <= v.len() && p_lit(v@.skip(i as int), c) == Some(
                v@.skip(j as int),
            ),
            None => p_lit(v@.skip(i as int), c) is None,
        },
{
    let j = e_skip_ws(v, i);
    if j < v.len() {
        proof {
            assert(v@.skip(j as int)[0] == v@[j as int]);
        }
        if v[j] == c {
            proof {
                assert(v@.skip(j as int).skip(1) =~= v@.skip(j + 1));
            }
            Some(j + 1)
        } else {
            None
        }
    } else {
        proof {
            assert(v@.skip(j as int).len() == 0);
        }
        None
    }
}

/// Expects the exact key `k` as a quoted string.
fn e_key(v: &Vec<char>, i: usize, k: &Vec<char>) -> (r: Option<usize>)
    requires
        i <= v.len(),
    ensures
        match r {
            Some(j) => i <= j <= v.len() && p_key(v@.skip(i as int), k@) == Some(
                v@.skip(j as int),
            ),
            None => p_key(v@.skip(i as int), k@) is None,
        },
{
    match e_string(v, i) {
        Some((s, j)) => {
            if vec_chars_eq(&s, k) {
                Some(j)
            } else {
                None
            }
        },
        None => None,
    }
}

/// Expects `"k" : "value"` and yields the value.
fn e_field(v: &Vec<char>, i: usize, k: &Vec<char>) -> (r: Option<(Vec<char>, usize)>)
    requires
        i <= v.len(),
    ensures
        match r {
            Some(sj) => i <= sj.1 <= v.len() && p_field(v@.skip(i as int), k@) == Some(
                (sj.0@, v@.skip(sj.1 as int)),
            ),
            None => p_field(v@.skip(i as int), k@) is None,
        },
{
    match e_key(v, i, k) {
        Some(j1) => match e_lit(v, j1, ':') {
            Some(j2) => e_string(v, j2),
            None => None,
        },
        None => None,
    }
}

/// A field and its separating comma.
fn e_field_comma(v: &Vec<char>, i: usize, k: &Vec<char>) -> (r: Option<(Vec<char>, usize)>)
    requires
        i <= v.len(),
    ensures
        match r {
            Some(sj) => i <= sj.1 <= v.len() && p_field_comma(v@.skip(i as int), k@) == Some(
                (sj.0@, v@.skip(sj.1 as int)),
            ),
            None => p_field_comma(v@.skip(i as int), k@) is None,
        },
{
    match e_field(v, i, k) {
        Some((val, j1)) => match e_lit(v, j1, ',') {
            Some(j2) => Some((val, j2)),
            None => None,
        },
        None => None,
    }
}

/// Reads one record object.
fn e_record(v: &Vec<char>, i: usize) -> (r: Option<(PasswordDetails, usize)>)
    requires
        i <= v.len(),
    ensures
        match r {
            Some(pj) => i <= pj.1 <= v.len() && p_record(v@.skip(i as int)) == Some(
                (pj.0@, v@.skip(pj.1 as int)),
            ),
            None => p_record(v@.skip(i as int)) is None,
        },
{
    let k_name = chars_of("name");
    let k_value = chars_of("value");
    let k_website = chars_of("website");
    let k_username = chars_of("username");
    let k_notes = chars_of("notes");
    let k_created_at = chars_of("created_at");
    proof {
        reveal_strlit("name");
        reveal_strlit("value");
        reveal_strlit("website");
        reveal_strlit("username");
        reveal_strlit("notes");
        reveal_strlit("created_at");
        assert(k_name@ =~= key_name());
        assert(k_value@ =~= key_value());
        assert(k_website@ =~= key_website());
        assert(k_username@ =~= key_username());
        assert(k_notes@ =~= key_notes());
        assert(k_created_at@ =~= key_created_at());
    }
    match e_lit(v, i, '{') {
        Some(j0) => match e_field_comma(v, j0, &k_name) {
            Some((name, j1)) => match e_field_comma(v, j1, &k_value) {
                Some((value, j2)) => match e_field_comma(v, j2, &k_website) {
                    Some((website, j3)) => match e_field_comma(v, j3, &k_username) {
                        Some((username, j4)) => match e_field_comma(v, j4, &k_notes) {
                            Some((notes, j5)) => match e_field(v, j5, &k_created_at) {
                                Some((created_at, j6)) => match e_lit(v, j6, '}') {
                                    Some(j7) => {
                                        let rec = PasswordDetails {
                                            name: string_of_chars(&name),
                                            value: string_of_chars(&value),
                                            website: string_of_chars(&website),
                                            username: string_of_chars(&username),
                                            notes: string_of_chars(&notes),
                                            created_at: string_of_chars(&created_at),
                                        };
                                        Some((rec, j7))
                                    },
                                    None => None,
                                },
                                None => None,
                            },
                            None => None,
                        },
                        None => None,
                    },
                    None => None,
                },
                None => None,
            },
            None => None,
        },
        None => None,
    }
}

/// After an array's first record: the closing bracket, or comma-separated
/// further records.
fn e_more_records(v: &Vec<char>, i: usize) -> (r: Option<(Vec<PasswordDetails>, usize)>)
    requires
        i <= v.len(),
    ensures
        match r {
            Some(pj) => i <= pj.1 <= v.len() && p_more_records(v@.skip(i as int)) == Some(
                (views_of(pj.0@), v@.skip(pj.1 as int)),
            ),
            None => p_more_records(v@.skip(i as int)) is None,
        },
    decreases v.len() - i,
{
    let j = e_skip_ws(v, i);
    if j == v.len() {
        proof {
            assert(v@.skip(j as int).len() == 0);
        }
        return None;
    }
    let c = v[j];
    proof {
        assert(v@.skip(j as int)[0] == v@[j as int]);
    }
    if c == ']' {
        proof {
            assert(v@.skip(j as int).skip(1) =~= v@.skip(j + 1));
            assert(views_of(Seq::<PasswordDetails>::empty()) =~= Seq::<RecordModel>::empty());
        }
        return Some((Vec::new(), j + 1));
    } else if c == ',' {
        proof {
            assert(v@.skip(j as int).skip(1) =~= v@.skip(j + 1));
        }
        match e_record(v, j + 1) {
            Some((rec, j2)) => match e_more_records(v, j2) {
                Some((rest, j3)) => {
                    let mut out = rest;
                    let ghost rest0 = out@;
                    out.insert(0, rec);
                    proof {
                        assert(out@ =~= seq![rec] + rest0);
                        assert(views_of(seq![rec] + rest0) =~= seq![rec@] + views_of(rest0));
                    }
                    Some((out, j3))
                },
                None => None,
            },
            None => None,
        }
    } else {
        None
    }
}

/// The record array, brackets included.
fn e_array(v: &Vec<char>, i: usize) -> (r: Option<(Vec<PasswordDetails>, usize)>)
    requires
        i <= v.len(),
    ensures
        match r {
            Some(pj) => i <= pj.1 <= v.len() && p_array(v@.skip(i as int)) == Some(
                (views_of(pj.0@), v@.skip(pj.1 as int)),
            ),
            None => p_array(v@.skip(i as int)) is None,
        },
{
    match e_lit(v, i, '[') {
        Some(j1) => {
            let j2 = e_skip_ws(v, j1);
            let mut at_end = false;
            if j2 < v.len() {
                proof {
                    assert(v@.skip(j2 as int)[0] == v@[j2 as int]);
                }
                if v[j2] == ']' {
                    at_end = true;
                }
            } else {
                proof {
                    assert(v@.skip(j2 as int).len() == 0);
                }
            }
            if at_end {
                proof {
                    assert(v@.skip(j2 as int).skip(1) =~= v@.skip(j2 + 1));
                    assert(views_of(Seq::<PasswordDetails>::empty())
                        =~= Seq::<RecordModel>::empty());
                }
                Some((Vec::new(), j2 + 1))
            } else {
                match e_record(v, j1) {
                    Some((rec, j3)) => match e_more_records(v, j3) {
                        Some((rest, j4)) => {
                            let mut out = rest;
                            let ghost rest0 = out@;
                            out.insert(0, rec);
                            proof {
                                assert(out@ =~= seq![rec] + rest0);
                                assert(views_of(seq![rec] + rest0) =~= seq![rec@] + views_of(
                                    rest0,
                                ));
                            }
                            Some((out, j4))
                        },
                        None => None,
                    },
                    None => None,
                }
            }
        },
        None => None,
    }
}

/// Reads a whole stored document.
fn e_parse_db(v: &Vec<char>) -> (r: Option<Vec<PasswordDetails>>)
    ensures
        match r {
            Some(ps) => parse_db(v@) == Some(views_of(ps@)),
            None => parse_db(v@) is None,
        },
{
    let k_passwords = chars_of("passwords");
    proof {
        reveal_strlit("passwords");
        assert(k_passwords@ =~= key_passwords());
        assert(v@.skip(0) =~= v@);
    }
    match e_lit(v, 0, '{') {
        Some(j1) => match e_key(v, j1, &k_passwords) {
            Some(j2) => match e_lit(v, j2, ':') {
                Some(j3) => match e_array(v, j3) {
                    Some((ps, j4)) => match e_lit(v, j4, '}') {
                        Some(j5) => {
                            let j6 = e_skip_ws(v, j5);
                            if j6 == v.len() {
                                proof {
                                    assert(v@.skip(j6 as int).len() == 0);
                                }
                                Some(ps)
                            } else {
                                proof {
                                    assert(v@.skip(j6 as int).len() > 0);
                                }
                                None
                            }
                        },
                        None => None,
                    },
                    None => None,
                },
                None => None,
            },
            None => None,
        },
        None => None,
    }
}

/// Loads the vault from the file's state: `None` stands for a missing
/// file, `Some` for its full text. A missing or blank file is the empty
/// vault; any other text must parse, else the store is malformed.
pub fn load_password_database(content: Option<&str>) -> (r: Result<PasswordDatabase, VaultError>)
    ensures
        match r {
            Ok(db) => load_model(content_model(content)) == Some(db@),
            Err(e) => load_model(content_model(content)) is None && e
                == VaultError::MalformedStore,
        },
{
    match content {
        None => Ok(PasswordDatabase::default()),
        Some(s) => {
            let v = chars_of(s);
            if is_blank_text(&v) {
                Ok(PasswordDatabase::default())
            } else {
                match e_parse_db(&v) {
                    Some(ps) => Ok(PasswordDatabase { passwords: ps }),
                    None => Err(VaultError::MalformedStore),
                }
            }
        },
    }
}

} // verus!
