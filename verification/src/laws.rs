use vstd::prelude::*;

use crate::format::{
    esc_char, hex_digit, hex_val, is_blank, is_blank_char, is_hex, is_ws, key_created_at,
    key_name, key_notes, key_passwords, key_username, key_value, key_website, load_model, p_array,
    p_field, p_field_comma, p_key, p_lit, p_more_records, p_record, p_str_body, p_string,
    parse_db, ser_db, ser_field, ser_record, ser_records, ser_str_body, ser_string, skip_ws,
    unesc_char,
};
use crate::records::RecordModel;
use crate::store::remove_named;

verus! {

// ---------------------------------------------------------------------------
// The round-trip theorem: any record sequence, serialized to the stored
// text form and parsed back, is reproduced exactly. It is built up level
// by level, mirroring the format's structure.
// ---------------------------------------------------------------------------

proof fn lemma_skip_ws_pass(t: Seq<char>)
    requires
        t.len() > 0,
        !is_ws(t[0]),
    ensures
        skip_ws(t) == t,
{
}

proof fn lemma_p_lit_round(c: char, rest: Seq<char>)
    requires
        !is_ws(c),
    ensures
        p_lit(seq![c] + rest, c) == Some(rest),
{
    let t = seq![c] + rest;
    assert(t[0] == c);
    lemma_skip_ws_pass(t);
    assert(t.skip(1) =~= rest);
}

proof fn lemma_p_str_body_round(s: Seq<char>, rest: Seq<char>)
    ensures
        p_str_body(ser_str_body(s) + seq!['"'] + rest) == Some((s, rest)),
    decreases s.len(),
{
    let t = ser_str_body(s) + seq!['"'] + rest;
    if s.len() == 0 {
        assert(t =~= seq!['"'] + rest);
        assert(t[0] == '"');
        assert(t.skip(1) =~= rest);
        assert(s =~= Seq::<char>::empty());
    } else {
        let c = s[0];
        lemma_p_str_body_round(s.skip(1), rest);
        let t1 = ser_str_body(s.skip(1)) + seq!['"'] + rest;
        assert(ser_str_body(s) == esc_char(c) + ser_str_body(s.skip(1)));
        if c == '"' || c == '\\' || c == '\n' || c == '\r' || c == '\t' {
            assert(esc_char(c).len() == 2);
            assert(esc_char(c)[0] == '\\');
            assert(t =~= seq!['\\', esc_char(c)[1]] + t1);
            assert(t[0] == '\\');
            assert(t[1] == esc_char(c)[1]);
            assert(esc_char(c)[1] != 'u');
            assert(unesc_char(esc_char(c)[1]) == Some(c));
            assert(t.skip(2) =~= t1);
            assert(seq![c] + s.skip(1) =~= s);
        } else if (c as u32) < 0x20 {
            let cu = c as u32;
            let h1 = hex_digit((cu / 16) as int);
            let h2 = hex_digit((cu % 16) as int);
            assert(esc_char(c) == seq!['\\', 'u', '0', '0', h1, h2]);
            assert(t =~= seq!['\\', 'u', '0', '0', h1, h2] + t1);
            assert(t[0] == '\\' && t[1] == 'u');
            assert(t[2] == '0' && t[3] == '0' && t[4] == h1 && t[5] == h2);
            assert(cu / 16 < 16 && cu % 16 < 16);
            assert(is_hex('0') && is_hex(h1) && is_hex(h2));
            assert(hex_val('0') == 0);
            assert(hex_val(h1) == cu / 16);
            assert(hex_val(h2) == cu % 16);
            let code = 4096 * hex_val(t[2]) + 256 * hex_val(t[3]) + 16 * hex_val(t[4]) + hex_val(
                t[5],
            );
            assert(code == cu);
            assert(!(0xD800 <= code && code < 0xE000));
            assert(t.skip(6) =~= t1);
            assert(code as u32 == cu);
            vstd::utf8::char_u32_cast(c, cu);
            assert((code as u32) as char == c);
            assert(seq![c] + s.skip(1) =~= s);
        } else {
            assert(esc_char(c) =~= seq![c]);
            assert(t =~= seq![c] + t1);
            assert(t[0] == c);
            assert(t.skip(1) =~= t1);
            assert(seq![c] + s.skip(1) =~= s);
        }
    }
}

proof fn lemma_p_string_round(s: Seq<char>, rest: Seq<char>)
    ensures
        p_string(ser_string(s) + rest) == Some((s, rest)),
{
    let t = ser_string(s) + rest;
    assert(t[0] == '"');
    lemma_skip_ws_pass(t);
    assert(t.skip(1) =~= ser_str_body(s) + seq!['"'] + rest);
    lemma_p_str_body_round(s, rest);
}

proof fn lemma_p_key_round(k: Seq<char>, rest: Seq<char>)
    ensures
        p_key(ser_string(k) + rest, k) == Some(rest),
{
    lemma_p_string_round(k, rest);
}

proof fn lemma_p_field_round(k: Seq<char>, val: Seq<char>, rest: Seq<char>)
    ensures
        p_field(ser_field(k, val) + rest, k) == Some((val, rest)),
{
    reveal(ser_field);
    let t = ser_field(k, val) + rest;
    let after_key = seq![':'] + (ser_string(val) + rest);
    assert(t =~= ser_string(k) + after_key);
    lemma_p_key_round(k, after_key);
    lemma_p_lit_round(':', ser_string(val) + rest);
    lemma_p_string_round(val, rest);
}

proof fn lemma_p_field_comma_round(k: Seq<char>, val: Seq<char>, rest: Seq<char>)
    ensures
        p_field_comma(ser_field(k, val) + seq![','] + rest, k) == Some((val, rest)),
{
    let t = ser_field(k, val) + seq![','] + rest;
    assert(t =~= ser_field(k, val) + (seq![','] + rest));
    lemma_p_field_round(k, val, seq![','] + rest);
    lemma_p_lit_round(',', rest);
}

proof fn lemma_ser_record_head(r: RecordModel)
    ensures
        ser_record(r).len() > 0,
        ser_record(r)[0] == '{',
{
    reveal(ser_record);
}

proof fn lemma_p_record_round(r: RecordModel, rest: Seq<char>)
    ensures
        p_record(ser_record(r) + rest) == Some((r, rest)),
{
    reveal(ser_record);
    let t = ser_record(r) + rest;
    let t6 = seq!['}'] + rest;
    let t5 = ser_field(key_created_at(), r.created_at) + t6;
    let t4 = ser_field(key_notes(), r.notes) + seq![','] + t5;
    let t3 = ser_field(key_username(), r.username) + seq![','] + t4;
    let t2 = ser_field(key_website(), r.website) + seq![','] + t3;
    let t1 = ser_field(key_value(), r.value) + seq![','] + t2;
    let t0 = ser_field(key_name(), r.name) + seq![','] + t1;
    assert(t =~= seq!['{'] + t0);
    lemma_p_lit_round('{', t0);
    assert(t0 =~= ser_field(key_name(), r.name) + seq![','] + t1);
    lemma_p_field_comma_round(key_name(), r.name, t1);
    lemma_p_field_comma_round(key_value(), r.value, t2);
    lemma_p_field_comma_round(key_website(), r.website, t3);
    lemma_p_field_comma_round(key_username(), r.username, t4);
    lemma_p_field_comma_round(key_notes(), r.notes, t5);
    assert(t5 =~= ser_field(key_created_at(), r.created_at) + t6);
    lemma_p_field_round(key_created_at(), r.created_at, t6);
    lemma_p_lit_round('}', rest);
    assert(RecordModel {
        name: r.name,
        value: r.value,
        website: r.website,
        username: r.username,
        notes: r.notes,
        created_at: r.created_at,
    } == r);
}

/// The separated tail of a record list: a comma before each record.
spec fn ser_records_tail(rs: Seq<RecordModel>) -> Seq<char>
    decreases rs.len(),
{
    if rs.len() == 0 {
        Seq::empty()
    } else {
        seq![','] + ser_record(rs[0]) + ser_records_tail(rs.skip(1))
    }
}

proof fn lemma_ser_records_split(rs: Seq<RecordModel>)
    requires
        rs.len() >= 1,
    ensures
        ser_records(rs) == ser_record(rs[0]) + ser_records_tail(rs.skip(1)),
    decreases rs.len(),
{
    if rs.len() == 1 {
        assert(ser_records_tail(rs.skip(1)) == Seq::<char>::empty());
        assert(ser_record(rs[0]) + Seq::<char>::empty() =~= ser_record(rs[0]));
    } else {
        lemma_ser_records_split(rs.skip(1));
        assert(rs.skip(1)[0] == rs[1]);
        assert(rs.skip(1).skip(1) =~= rs.skip(2));
        assert(ser_records_tail(rs.skip(1)) == seq![','] + ser_record(rs[1])
            + ser_records_tail(rs.skip(2)));
        assert(ser_records(rs) == ser_record(rs[0]) + seq![','] + (ser_record(rs[1])
            + ser_records_tail(rs.skip(2))));
        assert(ser_record(rs[0]) + seq![','] + (ser_record(rs[1]) + ser_records_tail(rs.skip(2)))
            =~= ser_record(rs[0]) + (seq![','] + ser_record(rs[1]) + ser_records_tail(
            rs.skip(2),
        )));
    }
}

proof fn lemma_p_more_records_round(rs: Seq<RecordModel>, rest: Seq<char>)
    ensures
        p_more_records(ser_records_tail(rs) + seq![']'] + rest) == Some((rs, rest)),
    decreases rs.len(),
{
    let t = ser_records_tail(rs) + seq![']'] + rest;
    if rs.len() == 0 {
        assert(t =~= seq![']'] + rest);
        assert(t[0] == ']');
        lemma_skip_ws_pass(t);
        assert(t.skip(1) =~= rest);
        assert(rs =~= Seq::<RecordModel>::empty());
    } else {
        lemma_p_more_records_round(rs.skip(1), rest);
        let t2 = ser_records_tail(rs.skip(1)) + seq![']'] + rest;
        let t1 = ser_record(rs[0]) + t2;
        assert(t =~= seq![','] + t1);
        assert(t[0] == ',');
        lemma_skip_ws_pass(t);
        assert(t.skip(1) =~= t1);
        lemma_p_record_round(rs[0], t2);
        assert(seq![rs[0]] + rs.skip(1) =~= rs);
    }
}

proof fn lemma_p_array_round(rs: Seq<RecordModel>, rest: Seq<char>)
    ensures
        p_array(seq!['['] + ser_records(rs) + seq![']'] + rest) == Some((rs, rest)),
{
    let t = seq!['['] + ser_records(rs) + seq![']'] + rest;
    let t1 = ser_records(rs) + (seq![']'] + rest);
    assert(t =~= seq!['['] + t1);
    lemma_p_lit_round('[', t1);
    if rs.len() == 0 {
        assert(t1 =~= seq![']'] + rest);
        assert(t1[0] == ']');
        lemma_skip_ws_pass(t1);
        assert(t1.skip(1) =~= rest);
        assert(rs =~= Seq::<RecordModel>::empty());
    } else {
        lemma_ser_records_split(rs);
        lemma_ser_record_head(rs[0]);
        let t2 = ser_records_tail(rs.skip(1)) + seq![']'] + rest;
        assert(t1 =~= ser_record(rs[0]) + t2);
        assert(t1[0] == '{');
        lemma_skip_ws_pass(t1);
        lemma_p_record_round(rs[0], t2);
        lemma_p_more_records_round(rs.skip(1), rest);
        assert(seq![rs[0]] + rs.skip(1) =~= rs);
    }
}

/// Round trip: serializing any record sequence and parsing it back
/// reproduces the same records, in the same order; and the serialized
/// text is never blank, so loading it is never mistaken for an empty
/// vault.
pub proof fn lemma_store_roundtrip(rs: Seq<RecordModel>)
    ensures
        parse_db(ser_db(rs)) == Some(rs),
        !is_blank(ser_db(rs)),
        load_model(Some(ser_db(rs))) == Some(rs),
{
    let t = ser_db(rs);
    let t4 = seq!['}'] + Seq::<char>::empty();
    let t3 = seq!['['] + ser_records(rs) + seq![']'] + t4;
    let t2 = seq![':'] + t3;
    let t1 = ser_string(key_passwords()) + t2;
    assert(t =~= seq!['{'] + t1);
    lemma_p_lit_round('{', t1);
    lemma_p_key_round(key_passwords(), t2);
    lemma_p_lit_round(':', t3);
    lemma_p_array_round(rs, t4);
    assert(t4 =~= seq!['}'] + Seq::<char>::empty());
    lemma_p_lit_round('}', Seq::<char>::empty());
    assert(skip_ws(Seq::<char>::empty()).len() == 0);
    assert(t[0] == '{');
    assert(!is_blank_char('{'));
    assert(!is_blank(t));
}

/// Deleting by name keeps no record of that name.
pub proof fn lemma_remove_named_no_match(rs: Seq<RecordModel>, n: Seq<char>)
    ensures
        forall|i: int|
            0 <= i < remove_named(rs, n).len() ==> #[trigger] remove_named(rs, n)[i].name != n,
    decreases rs.len(),
{
    if rs.len() > 0 {
        lemma_remove_named_no_match(rs.drop_last(), n);
        let front = remove_named(rs.drop_last(), n);
        if rs.last().name != n {
            assert(remove_named(rs, n) == front.push(rs.last()));
            assert forall|i: int|
                0 <= i < remove_named(rs, n).len() implies #[trigger] remove_named(rs, n)[i].name
                != n by {
                if i < front.len() {
                    assert(front.push(rs.last())[i] == front[i]);
                } else {
                    assert(front.push(rs.last())[i] == rs.last());
                }
            }
        }
    }
}

/// Deleting by name leaves a store with no record of that name
/// untouched.
pub proof fn lemma_remove_named_all_kept(rs: Seq<RecordModel>, n: Seq<char>)
    requires
        forall|i: int| 0 <= i < rs.len() ==> #[trigger] rs[i].name != n,
    ensures
        remove_named(rs, n) == rs,
    decreases rs.len(),
{
    if rs.len() == 0 {
        assert(remove_named(rs, n) =~= rs);
    } else {
        lemma_remove_named_all_kept(rs.drop_last(), n);
        assert(rs.drop_last().push(rs.last()) =~= rs);
    }
}

/// Deleting the same name twice is the same as deleting it once: the
/// second deletion removes nothing.
pub proof fn lemma_delete_idempotent(rs: Seq<RecordModel>, n: Seq<char>)
    ensures
        remove_named(remove_named(rs, n), n) == remove_named(rs, n),
{
    lemma_remove_named_no_match(rs, n);
    lemma_remove_named_all_kept(remove_named(rs, n), n);
}

/// Appending is order-preserving: records appended in turn stand after
/// the existing ones, in the order appended, and each intermediate
/// store's text reloads to exactly its database.
pub proof fn lemma_append_preserves_order(
    rs: Seq<RecordModel>,
    a: RecordModel,
    b: RecordModel,
    c: RecordModel,
)
    ensures
        ({
            let out = rs.push(a).push(b).push(c);
            &&& load_model(Some(ser_db(rs.push(a)))) == Some(rs.push(a))
            &&& load_model(Some(ser_db(rs.push(a).push(b)))) == Some(rs.push(a).push(b))
            &&& load_model(Some(ser_db(out))) == Some(out)
            &&& out.len() == rs.len() + 3
            &&& out.take(rs.len() as int) == rs
            &&& out[rs.len() as int] == a
            &&& out[rs.len() as int + 1] == b
            &&& out[rs.len() as int + 2] == c
        }),
{
    lemma_store_roundtrip(rs.push(a));
    lemma_store_roundtrip(rs.push(a).push(b));
    lemma_store_roundtrip(rs.push(a).push(b).push(c));
    assert(rs.push(a).push(b).push(c).take(rs.len() as int) =~= rs);
}

} // verus!
