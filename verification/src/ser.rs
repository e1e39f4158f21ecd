use vstd::prelude::*;

use crate::format::{
    esc_char, hex_digit, key_created_at, key_name, key_notes, key_passwords, key_username,
    key_value, key_website, ser_db, ser_field, ser_record, ser_records, ser_str_body, ser_string,
};
use crate::records::{chars_of, push_char, PasswordDatabase, PasswordDetails, RecordModel};

verus! {

proof fn lemma_ser_str_body_push(s: Seq<char>, c: char)
    ensures
        ser_str_body(s.push(c)) == ser_str_body(s) + esc_char(c),
    decreases s.len(),
{
    if s.len() == 0 {
        assert(s.push(c).skip(1) =~= s);
        assert(s.push(c)[0] == c);
        assert(ser_str_body(s.push(c)) == esc_char(c) + ser_str_body(s));
        assert(ser_str_body(s.push(c)) =~= ser_str_body(s) + esc_char(c));
    } else {
        assert(s.push(c)[0] == s[0]);
        assert(s.push(c).skip(1) =~= s.skip(1).push(c));
        lemma_ser_str_body_push(s.skip(1), c);
        assert(ser_str_body(s.push(c)) == esc_char(s[0]) + (ser_str_body(s.skip(1)) + esc_char(
            c,
        )));
        assert(ser_str_body(s) == esc_char(s[0]) + ser_str_body(s.skip(1)));
        assert(ser_str_body(s.push(c)) =~= ser_str_body(s) + esc_char(c));
    }
}

fn hex_digit_e(v: u32) -> (r: char)
    requires
        v < 16,
    ensures
        r == hex_digit(v as int),
{
    if v == 0 {
        '0'
    } else if v == 1 {
        '1'
    } else if v == 2 {
        '2'
    } else if v == 3 {
        '3'
    } else if v == 4 {
        '4'
    } else if v == 5 {
        '5'
    } else if v == 6 {
        '6'
    } else if v == 7 {
        '7'
    } else if v == 8 {
        '8'
    } else if v == 9 {
        '9'
    } else if v == 10 {
        'a'
    } else if v == 11 {
        'b'
    } else if v == 12 {
        'c'
    } else if v == 13 {
        'd'
    } else if v == 14 {
        'e'
    } else {
        'f'
    }
}

/// Appends one quoted, escaped string literal to the output.
fn emit_string(out: &mut String, v: &Vec<char>)
    ensures
        final(out)@ == old(out)@ + ser_string(v@),
{
    push_char(out, '"');
    proof {
        assert(v@.take(0) =~= Seq::<char>::empty());
        assert(out@ =~= old(out)@ + seq!['"'] + ser_str_body(v@.take(0)));
    }
    let mut i: usize = 0;
    while i < v.len()
        invariant
            i <= v@.len(),
            out@ == old(out)@ + seq!['"'] + ser_str_body(v@.take(i as int)),
        decreases v@.len() - i,
    {
        let ghost pre = out@;
        let c = v[i];
        if c == '"' {
            push_char(out, '\\');
            push_char(out, '"');
        } else if c == '\\' {
            push_char(out, '\\');
            push_char(out, '\\');
        } else if c == '\n' {
            push_char(out, '\\');
            push_char(out, 'n');
        } else if c == '\r' {
            push_char(out, '\\');
            push_char(out, 'r');
        } else if c == '\t' {
            push_char(out, '\\');
            push_char(out, 't');
        } else if (c as u32) < 0x20 {
            let code = c as u32;
            push_char(out, '\\');
            push_char(out, 'u');
            push_char(out, '0');
            push_char(out, '0');
            push_char(out, hex_digit_e(code / 16));
            push_char(out, hex_digit_e(code % 16));
        } else {
            push_char(out, c);
        }
        proof {
            assert(out@ =~= pre + esc_char(v@[i as int]));
            assert(v@.take(i + 1) =~= v@.take(i as int).push(v@[i as int]));
            lemma_ser_str_body_push(v@.take(i as int), v@[i as int]);
            assert(out@ =~= old(out)@ + seq!['"'] + ser_str_body(v@.take(i + 1)));
        }
        i = i + 1;
    }
    push_char(out, '"');
    proof {
        assert(v@.take(v@.len() as int) =~= v@);
        assert(out@ =~= old(out)@ + ser_string(v@));
    }
}

/// Appends one `"key":"value"` pair to the output.
fn emit_field(out: &mut String, key: &Vec<char>, val: &Vec<char>)
    ensures
        final(out)@ == old(out)@ + ser_field(key@, val@),
{
    emit_string(out, key);
    push_char(out, ':');
    emit_string(out, val);
    proof {
        reveal(ser_field);
        assert(out@ =~= old(out)@ + ser_field(key@, val@));
    }
}

/// Appends one record object to the output.
fn emit_record(out: &mut String, r: &PasswordDetails)
    ensures
        final(out)@ == old(out)@ + ser_record(r@),
{
    let k_name = chars_of("name");
    let k_value = chars_of("value");
    let k_website = chars_of("website");
    let k_username = chars_of("username");
    let k_notes = chars_of("notes");
    let k_created_at = chars_of("created_at");
    proof {
        reveal_strlit("name");
        reveal_strlit("value");
        reveal_strlit("website");
        reveal_strlit("username");
        reveal_strlit("notes");
        reveal_strlit("created_at");
        assert(k_name@ =~= key_name());
        assert(k_value@ =~= key_value());
        assert(k_website@ =~= key_website());
        assert(k_username@ =~= key_username());
        assert(k_notes@ =~= key_notes());
        assert(k_created_at@ =~= key_created_at());
    }
    push_char(out, '{');
    emit_field(out, &k_name, &chars_of(r.name.as_str()));
    push_char(out, ',');
    emit_field(out, &k_value, &chars_of(r.value.as_str()));
    push_char(out, ',');
    emit_field(out, &k_website, &chars_of(r.website.as_str()));
    push_char(out, ',');
    emit_field(out, &k_username, &chars_of(r.username.as_str()));
    push_char(out, ',');
    emit_field(out, &k_notes, &chars_of(r.notes.as_str()));
    push_char(out, ',');
    emit_field(out, &k_created_at, &chars_of(r.created_at.as_str()));
    push_char(out, '}');
    proof {
        reveal(ser_record);
        assert(out@ =~= old(out)@ + ser_record(r@));
    }
}

proof fn lemma_ser_records_snoc(rs: Seq<RecordModel>, r: RecordModel)
    requires
        rs.len() >= 1,
    ensures
        ser_records(rs.push(r)) == ser_records(rs) + seq![','] + ser_record(r),
    decreases rs.len(),
{
    let rr = rs.push(r);
    assert(rr[0] == rs[0]);
    if rs.len() == 1 {
        assert(rr.skip(1) =~= seq![r]);
        assert(seq![r][0] == r);
        assert(ser_records(seq![r]) == ser_record(r));
        assert(ser_records(rr) == ser_record(rs[0]) + seq![','] + ser_record(r));
        assert(ser_records(rs) == ser_record(rs[0]));
    } else {
        assert(rr.skip(1) =~= rs.skip(1).push(r));
        lemma_ser_records_snoc(rs.skip(1), r);
        let a = ser_record(rs[0]);
        let x = seq![','];
        let b = ser_records(rs.skip(1));
        let c = ser_record(r);
        assert(ser_records(rr) == a + x + (b + x + c));
        assert(ser_records(rs) == a + x + b);
        assert(a + x + (b + x + c) =~= a + x + b + x + c);
    }
}

/// Serializes the full database to the stored text form.
pub fn save_password_database(database: &PasswordDatabase) -> (out: String)
    ensures
        out@ == ser_db(database@),
{
    let mut out = String::new();
    push_char(&mut out, '{');
    let k_passwords = chars_of("passwords");
    proof {
        reveal_strlit("passwords");
        assert(k_passwords@ =~= key_passwords());
    }
    emit_string(&mut out, &k_passwords);
    push_char(&mut out, ':');
    push_char(&mut out, '[');
    let ghost rs: Seq<RecordModel> = database@;
    let ghost prefix: Seq<char> = seq!['{'] + ser_string(key_passwords()) + seq![':', '['];
    proof {
        assert(out@ =~= prefix + ser_records(rs.take(0)));
    }
    let n = database.passwords.len();
    let mut i: usize = 0;
    while i < n
        invariant
            i <= n,
            n == database.passwords@.len(),
            rs == database@,
            prefix == seq!['{'] + ser_string(key_passwords()) + seq![':', '['],
            out@ == prefix + ser_records(rs.take(i as int)),
        decreases n - i,
    {
        let ghost pre = out@;
        if i > 0 {
            push_char(&mut out, ',');
        }
        emit_record(&mut out, &database.passwords[i]);
        proof {
            assert(rs[i as int] == database.passwords@[i as int]@);
            assert(rs.take(i + 1) =~= rs.take(i as int).push(rs[i as int]));
            if i == 0 {
                assert(rs.take(1).len() == 1);
                assert(out@ =~= prefix + ser_records(rs.take(1)));
            } else {
                lemma_ser_records_snoc(rs.take(i as int), rs[i as int]);
                assert(out@ =~= prefix + ser_records(rs.take(i + 1)));
            }
        }
        i = i + 1;
    }
    push_char(&mut out, ']');
    push_char(&mut out, '}');
    proof {
        assert(rs.take(n as int) =~= rs);
        assert(out@ =~= ser_db(rs));
    }
    out
}

} // verus!
