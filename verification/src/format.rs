use vstd::prelude::*;

use crate::records::RecordModel;

verus! {

// ---------------------------------------------------------------------------
// The vault's on-disk text format, stated mathematically: a serializer from
// record sequences to character sequences, and a parser back. The store's
// executable code is specified against these functions, and the round-trip
// theorem is proved about them.
//
// The shape of the text is a JSON document with fixed key names and order:
//   {"passwords":[{"name":...,"value":...,"website":...,"username":...,
//                  "notes":...,"created_at":...},...]}
// The parser tolerates whitespace between tokens, so files written with
// pretty-printed layout read back equally well.
// ---------------------------------------------------------------------------

/// Whitespace between tokens, as the format itself allows it: the four
/// characters JSON admits there.
pub open spec fn is_ws(c: char) -> bool {
    c == ' ' || c == '\n' || c == '\t' || c == '\r'
}

/// Whitespace as the blank-file rule sees it: the Unicode white-space
/// set, the characters that trimming removes. A file of only these
/// loads as the empty vault.
pub open spec fn is_blank_char(c: char) -> bool {
    let u = c as u32;
    u == 0x20 || (0x09 <= u && u <= 0x0D) || u == 0x85 || u == 0xA0 || u == 0x1680 || (0x2000 <= u
        && u <= 0x200A) || u == 0x2028 || u == 0x2029 || u == 0x202F || u == 0x205F || u == 0x3000
}

/// A text is blank when every character is white space, so that
/// trimming it leaves nothing.
pub open spec fn is_blank(t: Seq<char>) -> bool {
    forall|i: int| 0 <= i < t.len() ==> is_blank_char(#[trigger] t[i])
}

/// The value of one hexadecimal digit.
pub open spec fn is_hex(c: char) -> bool {
    ('0' <= c && c <= '9') || ('a' <= c && c <= 'f') || ('A' <= c && c <= 'F')
}

pub open spec fn hex_val(c: char) -> int {
    if '0' <= c && c <= '9' {
        c as u32 - '0' as u32
    } else if 'a' <= c && c <= 'f' {
        10 + c as u32 - 'a' as u32
    } else {
        10 + c as u32 - 'A' as u32
    }
}

/// The lower-case digit for one hexadecimal value.
pub open spec fn hex_digit(v: int) -> char {
    if v == 0 {
        '0'
    } else if v == 1 {
        '1'
    } else if v == 2 {
        '2'
    } else if v == 3 {
        '3'
    } else if v == 4 {
        '4'
    } else if v == 5 {
        '5'
    } else if v == 6 {
        '6'
    } else if v == 7 {
        '7'
    } else if v == 8 {
        '8'
    } else if v == 9 {
        '9'
    } else if v == 10 {
        'a'
    } else if v == 11 {
        'b'
    } else if v == 12 {
        'c'
    } else if v == 13 {
        'd'
    } else if v == 14 {
        'e'
    } else {
        'f'
    }
}

// --- the serialized form ---

/// One character of string content, escaped as the format writes it:
/// the named escapes for the common cases, `\u00XX` for the other
/// control characters, everything else raw.
pub open spec fn esc_char(c: char) -> Seq<char> {
    if c == '"' {
        seq!['\\', '"']
    } else if c == '\\' {
        seq!['\\', '\\']
    } else if c == '\n' {
        seq!['\\', 'n']
    } else if c == '\r' {
        seq!['\\', 'r']
    } else if c == '\t' {
        seq!['\\', 't']
    } else if (c as u32) < 0x20 {
        seq!['\\', 'u', '0', '0', hex_digit((c as u32 / 16) as int), hex_digit(
            (c as u32 % 16) as int,
        )]
    } else {
        seq![c]
    }
}

/// The escaped body of a string literal, without the surrounding quotes.
pub open spec fn ser_str_body(s: Seq<char>) -> Seq<char>
    decreases s.len(),
{
    if s.len() == 0 {
        Seq::empty()
    } else {
        esc_char(s[0]) + ser_str_body(s.skip(1))
    }
}

/// A quoted, escaped string literal.
pub open spec fn ser_string(s: Seq<char>) -> Seq<char> {
    seq!['"'] + ser_str_body(s) + seq!['"']
}

/// A `"key":"value"` pair.
#[verifier::opaque]
pub open spec fn ser_field(key: Seq<char>, val: Seq<char>) -> Seq<char> {
    ser_string(key) + seq![':'] + ser_string(val)
}

pub open spec fn key_name() -> Seq<char> {
    seq!['n', 'a', 'm', 'e']
}

pub open spec fn key_value() -> Seq<char> {
    seq!['v', 'a', 'l', 'u', 'e']
}

pub open spec fn key_website() -> Seq<char> {
    seq!['w', 'e', 'b', 's', 'i', 't', 'e']
}

pub open spec fn key_username() -> Seq<char> {
    seq!['u', 's', 'e', 'r', 'n', 'a', 'm', 'e']
}

pub open spec fn key_notes() -> Seq<char> {
    seq!['n', 'o', 't', 'e', 's']
}

pub open spec fn key_created_at() -> Seq<char> {
    seq!['c', 'r', 'e', 'a', 't', 'e', 'd', '_', 'a', 't']
}

pub open spec fn key_passwords() -> Seq<char> {
    seq!['p', 'a', 's', 's', 'w', 'o', 'r', 'd', 's']
}

/// One record as an object with the six fields in their fixed order.
#[verifier::opaque]
pub open spec fn ser_record(r: RecordModel) -> Seq<char> {
    seq!['{'] + ser_field(key_name(), r.name) + seq![','] + ser_field(key_value(), r.value)
        + seq![','] + ser_field(key_website(), r.website) + seq![','] + ser_field(
        key_username(),
        r.username,
    ) + seq![','] + ser_field(key_notes(), r.notes) + seq![','] + ser_field(
        key_created_at(),
        r.created_at,
    ) + seq!['}']
}

/// The comma-separated record list, without the surrounding brackets.
pub open spec fn ser_records(rs: Seq<RecordModel>) -> Seq<char>
    decreases rs.len(),
{
    if rs.len() == 0 {
        Seq::empty()
    } else if rs.len() == 1 {
        ser_record(rs[0])
    } else {
        ser_record(rs[0]) + seq![','] + ser_records(rs.skip(1))
    }
}

/// The whole stored document for a given record sequence.
pub open spec fn ser_db(rs: Seq<RecordModel>) -> Seq<char> {
    seq!['{'] + ser_string(key_passwords()) + seq![':', '['] + ser_records(rs) + seq![']', '}']
}

// --- the parser ---

pub open spec fn skip_ws(t: Seq<char>) -> Seq<char>
    decreases t.len(),
{
    if t.len() > 0 && is_ws(t[0]) {
        skip_ws(t.skip(1))
    } else {
        t
    }
}

/// The character denoted by an escape code, if the code is accepted.
pub open spec fn unesc_char(c: char) -> Option<char> {
    if c == '"' {
        Some('"')
    } else if c == '\\' {
        Some('\\')
    } else if c == '/' {
        Some('/')
    } else if c == 'n' {
        Some('\n')
    } else if c == 'r' {
        Some('\r')
    } else if c == 't' {
        Some('\t')
    } else if c == 'b' {
        Some('\u{0008}')
    } else if c == 'f' {
        Some('\u{000C}')
    } else {
        None
    }
}

/// Parses the body of a string literal up to and including the closing
/// quote; yields the unescaped content and the remaining text. A
/// `\uXXXX` escape is accepted for any Unicode scalar value; a code in
/// the surrogate range is refused.
pub open spec fn p_str_body(t: Seq<char>) -> Option<(Seq<char>, Seq<char>)>
    decreases t.len(),
{
    if t.len() == 0 {
        None
    } else if t[0] == '"' {
        Some((Seq::empty(), t.skip(1)))
    } else if t[0] == '\\' {
        if t.len() < 2 {
            None
        } else if t[1] == 'u' {
            if t.len() < 6 || !(is_hex(t[2]) && is_hex(t[3]) && is_hex(t[4]) && is_hex(t[5])) {
                None
            } else {
                let code = 4096 * hex_val(t[2]) + 256 * hex_val(t[3]) + 16 * hex_val(t[4])
                    + hex_val(t[5]);
                if 0xD800 <= code && code < 0xE000 {
                    None
                } else {
                    match p_str_body(t.skip(6)) {
                        Some(sr) => Some((seq![(code as u32) as char] + sr.0, sr.1)),
                        None => None,
                    }
                }
            }
        } else {
            match unesc_char(t[1]) {
                Some(u) => match p_str_body(t.skip(2)) {
                    Some(sr) => Some((seq![u] + sr.0, sr.1)),
                    None => None,
                },
                None => None,
            }
        }
    } else {
        match p_str_body(t.skip(1)) {
            Some(sr) => Some((seq![t[0]] + sr.0, sr.1)),
            None => None,
        }
    }
}

/// Parses a quoted string after optional whitespace.
pub open spec fn p_string(t: Seq<char>) -> Option<(Seq<char>, Seq<char>)> {
    let t1 = skip_ws(t);
    if t1.len() > 0 && t1[0] == '"' {
        p_str_body(t1.skip(1))
    } else {
        None
    }
}

/// Expects one punctuation character after optional whitespace.
pub open spec fn p_lit(t: Seq<char>, c: char) -> Option<Seq<char>> {
    let t1 = skip_ws(t);
    if t1.len() > 0 && t1[0] == c {
        Some(t1.skip(1))
    } else {
        None
    }
}

/// Expects the exact key `k` as a quoted string.
pub open spec fn p_key(t: Seq<char>, k: Seq<char>) -> Option<Seq<char>> {
    match p_string(t) {
        Some(sr) => if sr.0 == k {
            Some(sr.1)
        } else {
            None
        },
        None => None,
    }
}

/// Expects `"k" : "value"` and yields the value.
pub open spec fn p_field(t: Seq<char>, k: Seq<char>) -> Option<(Seq<char>, Seq<char>)> {
    match p_key(t, k) {
        Some(t1) => match p_lit(t1, ':') {
            Some(t2) => p_string(t2),
            None => None,
        },
        None => None,
    }
}

/// A field followed by the comma that separates it from the next one.
pub open spec fn p_field_comma(t: Seq<char>, k: Seq<char>) -> Option<(Seq<char>, Seq<char>)> {
    match p_field(t, k) {
        Some(vr) => match p_lit(vr.1, ',') {
            Some(t2) => Some((vr.0, t2)),
            None => None,
        },
        None => None,
    }
}

/// One record object, with the six keys required in their fixed order.
pub open spec fn p_record(t: Seq<char>) -> Option<(RecordModel, Seq<char>)> {
    match p_lit(t, '{') {
        Some(t0) => match p_field_comma(t0, key_name()) {
            Some((name, t1)) => match p_field_comma(t1, key_value()) {
                Some((value, t2)) => match p_field_comma(t2, key_website()) {
                    Some((website, t3)) => match p_field_comma(t3, key_username()) {
                        Some((username, t4)) => match p_field_comma(t4, key_notes()) {
                            Some((notes, t5)) => match p_field(t5, key_created_at()) {
                                Some((created_at, t6)) => match p_lit(t6, '}') {
                                    Some(t7) => Some(
                                        (
                                            RecordModel {
                                                name,
                                                value,
                                                website,
                                                username,
                                                notes,
                                                created_at,
                                            },
                                            t7,
                                        ),
                                    ),
                                    None => None,
                                },
                                None => None,
                            },
                            None => None,
                        },
                        None => None,
                    },
                    None => None,
                },
                None => None,
            },
            None => None,
        },
        None => None,
    }
}

/// After the first record of an array: either the closing bracket, or a
/// comma and a further record, repeatedly.
pub open spec fn p_more_records(t: Seq<char>) -> Option<(Seq<RecordModel>, Seq<char>)>
    decreases t.len(),
    via p_more_records_dec
{
    let t1 = skip_ws(t);
    if t1.len() == 0 {
        None
    } else if t1[0] == ']' {
        Some((Seq::empty(), t1.skip(1)))
    } else if t1[0] == ',' {
        match p_record(t1.skip(1)) {
            Some((r, t2)) => match p_more_records(t2) {
                Some((rs, t3)) => Some((seq![r] + rs, t3)),
                None => None,
            },
            None => None,
        }
    } else {
        None
    }
}

/// The record array, brackets included.
pub open spec fn p_array(t: Seq<char>) -> Option<(Seq<RecordModel>, Seq<char>)> {
    match p_lit(t, '[') {
        Some(t1) => {
            let t2 = skip_ws(t1);
            if t2.len() > 0 && t2[0] == ']' {
                Some((Seq::empty(), t2.skip(1)))
            } else {
                match p_record(t1) {
                    Some((r, t3)) => match p_more_records(t3) {
                        Some((rs, t4)) => Some((seq![r] + rs, t4)),
                        None => None,
                    },
                    None => None,
                }
            }
        },
        None => None,
    }
}

/// The whole document: the one `passwords` key, its array, and nothing but
/// whitespace after the closing brace.
pub open spec fn parse_db(t: Seq<char>) -> Option<Seq<RecordModel>> {
    match p_lit(t, '{') {
        Some(t1) => match p_key(t1, key_passwords()) {
            Some(t2) => match p_lit(t2, ':') {
                Some(t3) => match p_array(t3) {
                    Some((rs, t4)) => match p_lit(t4, '}') {
                        Some(t5) => if skip_ws(t5).len() == 0 {
                            Some(rs)
                        } else {
                            None
                        },
                        None => None,
                    },
                    None => None,
                },
                None => None,
            },
            None => None,
        },
        None => None,
    }
}

/// What loading yields from the file's state: a missing or blank file is an
/// empty vault; anything else must parse.
pub open spec fn load_model(c: Option<Seq<char>>) -> Option<Seq<RecordModel>> {
    match c {
        None => Some(Seq::empty()),
        Some(t) => if is_blank(t) {
            Some(Seq::<RecordModel>::empty())
        } else {
            parse_db(t)
        },
    }
}

/// The file's state as the model sees it: `None` for a missing file,
/// `Some` of the text's characters otherwise.
pub open spec fn content_model(c: Option<&str>) -> Option<Seq<char>> {
    match c {
        Some(s) => Some(s@),
        None => None,
    }
}

// --- consumption lemmas: a successful parse never lengthens the text ---

proof fn lemma_skip_ws_len(t: Seq<char>)
    ensures
        skip_ws(t).len() <= t.len(),
    decreases t.len(),
{
    if t.len() > 0 && is_ws(t[0]) {
        lemma_skip_ws_len(t.skip(1));
    }
}

proof fn lemma_p_str_body_consumes(t: Seq<char>)
    ensures
        p_str_body(t) matches Some(sr) ==> sr.1.len() < t.len(),
    decreases t.len(),
{
    if t.len() == 0 {
    } else if t[0] == '"' {
    } else if t[0] == '\\' {
        if t.len() >= 6 {
            lemma_p_str_body_consumes(t.skip(6));
        }
        if t.len() >= 2 {
            lemma_p_str_body_consumes(t.skip(2));
        }
    } else {
        lemma_p_str_body_consumes(t.skip(1));
    }
}

proof fn lemma_p_string_consumes(t: Seq<char>)
    ensures
        p_string(t) matches Some(sr) ==> sr.1.len() < t.len(),
{
    lemma_skip_ws_len(t);
    let t1 = skip_ws(t);
    if t1.len() > 0 && t1[0] == '"' {
        lemma_p_str_body_consumes(t1.skip(1));
    }
}

proof fn lemma_p_lit_consumes(t: Seq<char>, c: char)
    ensures
        p_lit(t, c) matches Some(rest) ==> rest.len() < t.len(),
{
    lemma_skip_ws_len(t);
}

proof fn lemma_p_field_consumes(t: Seq<char>, k: Seq<char>)
    ensures
        p_field(t, k) matches Some(vr) ==> vr.1.len() < t.len(),
{
    lemma_p_string_consumes(t);
    if let Some(t1) = p_key(t, k) {
        lemma_p_lit_consumes(t1, ':');
        if let Some(t2) = p_lit(t1, ':') {
            lemma_p_string_consumes(t2);
        }
    }
}

proof fn lemma_p_field_comma_consumes(t: Seq<char>, k: Seq<char>)
    ensures
        p_field_comma(t, k) matches Some(vr) ==> vr.1.len() < t.len(),
{
    lemma_p_field_consumes(t, k);
    if let Some(vr) = p_field(t, k) {
        lemma_p_lit_consumes(vr.1, ',');
    }
}

proof fn lemma_p_record_consumes(t: Seq<char>)
    ensures
        p_record(t) matches Some(rr) ==> rr.1.len() < t.len(),
{
    lemma_p_lit_consumes(t, '{');
    if let Some(t0) = p_lit(t, '{') {
        lemma_p_field_comma_consumes(t0, key_name());
        if let Some((name, t1)) = p_field_comma(t0, key_name()) {
            lemma_p_field_comma_consumes(t1, key_value());
            if let Some((value, t2)) = p_field_comma(t1, key_value()) {
                lemma_p_field_comma_consumes(t2, key_website());
                if let Some((website, t3)) = p_field_comma(t2, key_website()) {
                    lemma_p_field_comma_consumes(t3, key_username());
                    if let Some((username, t4)) = p_field_comma(t3, key_username()) {
                        lemma_p_field_comma_consumes(t4, key_notes());
                        if let Some((notes, t5)) = p_field_comma(t4, key_notes()) {
                            lemma_p_field_consumes(t5, key_created_at());
                            if let Some((created_at, t6)) = p_field(t5, key_created_at()) {
                                lemma_p_lit_consumes(t6, '}');
                            }
                        }
                    }
                }
            }
        }
    }
}

#[via_fn]
proof fn p_more_records_dec(t: Seq<char>) {
    lemma_skip_ws_len(t);
    let t1 = skip_ws(t);
    if t1.len() > 0 && t1[0] == ',' {
        lemma_p_record_consumes(t1.skip(1));
    }
}

} // verus!
