//! The JSON codec: a compact printer and a parser for the record model,
//! proved inverse to one another.

use vstd::prelude::*;
use crate::value::{
    Record, RecordV, Value, ValueV, chars_to_string, dec_of, digit_char, int_str, int_to_string,
    lemma_record_view_in_range, record_in_range, string_to_chars, value_in_range, value_view,
};
use crate::errors::{DecodeError, DecodeOneError, EncodeError};
use crate::encode::{records_view, Decode, Encode};

verus! {

broadcast use
    vstd::std_specs::vec::axiom_vec_index_decreases,
    vstd::seq_lib::lemma_seq_skip_index,
    vstd::seq_lib::lemma_seq_skip_len;

/// The escape sequence for one character inside a JSON string: quotes,
/// backslashes, newlines, tabs and carriage returns are escaped; every other
/// character stands for itself.
pub open spec fn esc_char(c: char) -> Seq<char> {
    if c == '"' {
        seq!['\\', '"']
    } else if c == '\\' {
        seq!['\\', '\\']
    } else if c == '\n' {
        seq!['\\', 'n']
    } else if c == '\t' {
        seq!['\\', 't']
    } else if c == '\r' {
        seq!['\\', 'r']
    } else {
        seq![c]
    }
}

/// The escaped form of a string's characters.
pub open spec fn esc_str(s: Seq<char>) -> Seq<char>
    decreases s.len(),
{
    if s.len() == 0 {
        Seq::empty()
    } else {
        esc_char(s[0]) + esc_str(s.drop_first())
    }
}

/// The JSON text of a string: its escaped characters between quotes.
pub open spec fn json_of_string(s: Seq<char>) -> Seq<char> {
    seq!['"'] + esc_str(s) + seq!['"']
}

/// The JSON text of a value.
pub open spec fn json_of_value(v: ValueV) -> Seq<char>
    decreases v, 1int,
{
    match v {
        ValueV::Str(s) => json_of_string(s),
        ValueV::Int(i) => int_str(i),
        ValueV::Bool(b) => if b {
            seq!['t', 'r', 'u', 'e']
        } else {
            seq!['f', 'a', 'l', 's', 'e']
        },
        ValueV::List(l) => seq!['['] + json_of_values(l) + seq![']'],
    }
}

/// The comma-separated JSON texts of a list's elements.
pub open spec fn json_of_values(l: Seq<ValueV>) -> Seq<char>
    decreases l, 0int,
{
    if l.len() == 0 {
        Seq::empty()
    } else if l.len() == 1 {
        json_of_value(l[0])
    } else {
        json_of_value(l[0]) + seq![','] + json_of_values(l.drop_first())
    }
}

/// The JSON text of one record field: quoted name, colon, value.
pub open spec fn json_of_field(f: (Seq<char>, ValueV)) -> Seq<char> {
    json_of_string(f.0) + seq![':'] + json_of_value(f.1)
}

/// The comma-separated JSON texts of a record's fields.
pub open spec fn json_of_fields(r: RecordV) -> Seq<char>
    decreases r.len(),
{
    if r.len() == 0 {
        Seq::empty()
    } else if r.len() == 1 {
        json_of_field(r[0])
    } else {
        json_of_field(r[0]) + seq![','] + json_of_fields(r.drop_first())
    }
}

/// The JSON text of a record: its fields between braces.
pub open spec fn json_of_record(r: RecordV) -> Seq<char> {
    seq!['{'] + json_of_fields(r) + seq!['}']
}

/// The comma-separated JSON texts of a list of records.
pub open spec fn json_of_record_list(rs: Seq<RecordV>) -> Seq<char>
    decreases rs.len(),
{
    if rs.len() == 0 {
        Seq::empty()
    } else if rs.len() == 1 {
        json_of_record(rs[0])
    } else {
        json_of_record(rs[0]) + seq![','] + json_of_record_list(rs.drop_first())
    }
}

/// The JSON text of a list of records: a JSON array of objects.
pub open spec fn json_of_records(rs: Seq<RecordV>) -> Seq<char> {
    seq!['['] + json_of_record_list(rs) + seq![']']
}

/// Append the escaped form of one character.
fn push_escaped(c: char, out: &mut Vec<char>)
    ensures
        final(out)@ == old(out)@ + esc_char(c),
{
    if c == '"' {
        out.push('\\');
        out.push('"');
    } else if c == '\\' {
        out.push('\\');
        out.push('\\');
    } else if c == '\n' {
        out.push('\\');
        out.push('n');
    } else if c == '\t' {
        out.push('\\');
        out.push('t');
    } else if c == '\r' {
        out.push('\\');
        out.push('r');
    } else {
        out.push(c);
    }
    proof {
        assert(out@ =~= old(out)@ + esc_char(c));
    }
}

/// Append the escaped forms of the characters from position `i` on.
fn push_escaped_from(chars: &Vec<char>, i: usize, out: &mut Vec<char>)
    requires
        i <= chars@.len(),
    ensures
        final(out)@ == old(out)@ + esc_str(chars@.skip(i as int)),
    decreases chars@.len() - i,
{
    if i < chars.len() {
        push_escaped(chars[i], out);
        push_escaped_from(chars, i + 1, out);
        proof {
            let tail = chars@.skip(i as int);
            assert(tail[0] == chars@[i as int]);
            assert(tail.drop_first() =~= chars@.skip(i + 1));
            assert(out@ =~= old(out)@ + esc_str(chars@.skip(i as int)));
        }
    } else {
        proof {
            assert(chars@.skip(i as int) =~= Seq::<char>::empty());
            assert(out@ =~= old(out)@ + esc_str(chars@.skip(i as int)));
        }
    }
}

/// Append the JSON text of a string.
fn push_json_string(s: &String, out: &mut Vec<char>)
    ensures
        final(out)@ == old(out)@ + json_of_string(s@),
{
    out.push('"');
    let chars = string_to_chars(s.as_str());
    push_escaped_from(&chars, 0, out);
    out.push('"');
    proof {
        assert(chars@.skip(0) =~= s@);
        assert(out@ =~= old(out)@ + json_of_string(s@));
    }
}

/// Append the JSON text of a value.
fn push_json_value(v: &Value, out: &mut Vec<char>)
    ensures
        final(out)@ == old(out)@ + json_of_value(v@),
    decreases v, 1int,
{
    match v {
        Value::Str(s) => push_json_string(s, out),
        Value::Int(i) => {
            let text = int_to_string(*i);
            let mut chars = string_to_chars(text.as_str());
            out.append(&mut chars);
            proof {
                assert(out@ =~= old(out)@ + json_of_value(v@));
            }
        },
        Value::Bool(b) => {
            if *b {
                out.push('t');
                out.push('r');
                out.push('u');
                out.push('e');
            } else {
                out.push('f');
                out.push('a');
                out.push('l');
                out.push('s');
                out.push('e');
            }
            proof {
                assert(out@ =~= old(out)@ + json_of_value(v@));
            }
        },
        Value::List(l) => {
            out.push('[');
            let ghost views = v@->List_0;
            push_json_values_from(l, 0, out);
            out.push(']');
            proof {
                assert(views.skip(0) =~= views);
                assert(out@ =~= old(out)@ + json_of_value(v@));
            }
        },
    }
}

/// Append the comma-separated JSON texts of a list's elements, from position
/// `i` on.
fn push_json_values_from(l: &Vec<Value>, i: usize, out: &mut Vec<char>)
    requires
        i <= l@.len(),
    ensures
        final(out)@ == old(out)@ + json_of_values(
            value_view(Value::List(*l))->List_0.skip(i as int),
        ),
    decreases l, l@.len() - i,
{
    let ghost views = value_view(Value::List(*l))->List_0;
    if i < l.len() {
        push_json_value(&l[i], out);
        proof {
            assert(views.skip(i as int)[0] == views[i as int]);
            assert(views[i as int] == value_view(l[i as int]));
        }
        if i + 1 < l.len() {
            out.push(',');
            push_json_values_from(l, i + 1, out);
            proof {
                assert(views.skip(i as int).drop_first() =~= views.skip(i + 1));
                assert(views.skip(i as int).len() > 1);
                assert(out@ =~= old(out)@ + json_of_values(views.skip(i as int)));
            }
        } else {
            proof {
                assert(views.skip(i as int).len() == 1);
                assert(out@ =~= old(out)@ + json_of_values(views.skip(i as int)));
            }
        }
    } else {
        proof {
            assert(views.skip(i as int) =~= Seq::<ValueV>::empty());
            assert(out@ =~= old(out)@ + json_of_values(views.skip(i as int)));
        }
    }
}

/// Append the comma-separated JSON texts of a record's fields, from position
/// `i` on.
fn push_json_fields_from(r: &Record, i: usize, out: &mut Vec<char>)
    requires
        i <= r@.len(),
    ensures
        final(out)@ == old(out)@ + json_of_fields(r@.skip(i as int)),
    decreases r@.len() - i,
{
    if i < r.len() {
        let f = r.field_at(i);
        push_json_string(&f.0, out);
        out.push(':');
        push_json_value(&f.1, out);
        proof {
            assert(r@.skip(i as int)[0] == r@[i as int]);
        }
        if i + 1 < r.len() {
            out.push(',');
            push_json_fields_from(r, i + 1, out);
            proof {
                assert(r@.skip(i as int).drop_first() =~= r@.skip(i + 1));
                assert(r@.skip(i as int).len() > 1);
                assert(out@ =~= old(out)@ + json_of_fields(r@.skip(i as int)));
            }
        } else {
            proof {
                assert(r@.skip(i as int).len() == 1);
                assert(out@ =~= old(out)@ + json_of_fields(r@.skip(i as int)));
            }
        }
    } else {
        proof {
            assert(r@.skip(i as int) =~= Seq::<(Seq<char>, ValueV)>::empty());
            assert(out@ =~= old(out)@ + json_of_fields(r@.skip(i as int)));
        }
    }
}

/// Append the JSON text of a record.
fn push_json_record(r: &Record, out: &mut Vec<char>)
    ensures
        final(out)@ == old(out)@ + json_of_record(r@),
{
    out.push('{');
    push_json_fields_from(r, 0, out);
    out.push('}');
    proof {
        assert(r@.skip(0) =~= r@);
        assert(out@ =~= old(out)@ + json_of_record(r@));
    }
}

/// Append the comma-separated JSON texts of records, from position `i` on.
fn push_json_records_from(rs: &Vec<Record>, i: usize, out: &mut Vec<char>)
    requires
        i <= rs@.len(),
    ensures
        final(out)@ == old(out)@ + json_of_record_list(records_view(rs@).skip(i as int)),
    decreases rs@.len() - i,
{
    let ghost views = records_view(rs@);
    if i < rs.len() {
        push_json_record(&rs[i], out);
        proof {
            assert(views.skip(i as int)[0] == views[i as int]);
        }
        if i + 1 < rs.len() {
            out.push(',');
            push_json_records_from(rs, i + 1, out);
            proof {
                assert(views.skip(i as int).drop_first() =~= views.skip(i + 1));
                assert(views.skip(i as int).len() > 1);
                assert(out@ =~= old(out)@ + json_of_record_list(views.skip(i as int)));
            }
        } else {
            proof {
                assert(views.skip(i as int).len() == 1);
                assert(out@ =~= old(out)@ + json_of_record_list(views.skip(i as int)));
            }
        }
    } else {
        proof {
            assert(views.skip(i as int) =~= Seq::<RecordV>::empty());
            assert(out@ =~= old(out)@ + json_of_record_list(views.skip(i as int)));
        }
    }
}

/// When a record list grows by one at the end, its JSON text grows by a comma
/// and the new record's text.
proof fn lemma_record_list_push(a: Seq<RecordV>, x: RecordV)
    ensures
        a.len() == 0 ==> json_of_record_list(a.push(x)) == json_of_record(x),
        a.len() > 0 ==> json_of_record_list(a.push(x)) == json_of_record_list(a) + seq![',']
            + json_of_record(x),
    decreases a.len(),
{
    if a.len() == 0 {
        assert(a.push(x)[0] == x);
    } else {
        lemma_record_list_push(a.drop_first(), x);
        assert(a.push(x).drop_first() =~= a.drop_first().push(x));
        assert(a.push(x)[0] == a[0]);
        if a.len() == 1 {
            assert(json_of_record_list(a) == json_of_record(a[0]));
            assert(json_of_record_list(a.push(x)) =~= json_of_record_list(a) + seq![',']
                + json_of_record(x));
        } else {
            assert(json_of_record_list(a.push(x)) =~= json_of_record_list(a) + seq![',']
                + json_of_record(x));
        }
    }
}

/// Whether a character is a decimal digit.
pub open spec fn is_digit(c: char) -> bool {
    48 <= c as u32 <= 57
}

/// The numeric value of a digit character.
pub open spec fn dval(c: char) -> int {
    c as u32 - 48
}

/// The value of a digit string, most significant digit first.
pub open spec fn digits_value(ds: Seq<char>) -> int
    decreases ds.len(),
{
    if ds.len() == 0 {
        0
    } else {
        10 * digits_value(ds.drop_last()) + dval(ds.last())
    }
}

/// The position of the first non-digit at or after `i`.
pub open spec fn digits_end(t: Seq<char>, i: int) -> int
    decreases t.len() - i,
        when 0 <= i <= t.len()
{
    if i < t.len() && is_digit(t[i]) {
        digits_end(t, i + 1)
    } else {
        i
    }
}

/// Ten to the given power.
pub open spec fn pow10(k: nat) -> int
    decreases k,
{
    if k == 0 {
        1
    } else {
        10 * pow10((k - 1) as nat)
    }
}

/// Where a digit run ends: between `i` and the end of the text, with digits
/// before it and a non-digit (or the end) at it.
proof fn lemma_digits_end(t: Seq<char>, i: int)
    requires
        0 <= i <= t.len(),
    ensures
        i <= digits_end(t, i) <= t.len(),
        forall|j: int| i <= j < digits_end(t, i) ==> is_digit(#[trigger] t[j]),
        digits_end(t, i) == t.len() || !is_digit(t[digits_end(t, i)]),
    decreases t.len() - i,
{
    if i < t.len() && is_digit(t[i]) {
        lemma_digits_end(t, i + 1);
    }
}

/// A digit string's value lies below ten to its length.
proof fn lemma_digits_value_upper(ds: Seq<char>)
    requires
        forall|j: int| 0 <= j < ds.len() ==> is_digit(#[trigger] ds[j]),
    ensures
        0 <= digits_value(ds) < pow10(ds.len()),
    decreases ds.len(),
{
    if ds.len() > 0 {
        lemma_digits_value_upper(ds.drop_last());
    }
}

/// A digit string that does not start with zero has a value of at least ten
/// to one less than its length.
proof fn lemma_digits_value_lower(ds: Seq<char>)
    requires
        forall|j: int| 0 <= j < ds.len() ==> is_digit(#[trigger] ds[j]),
        ds.len() >= 1,
        dval(ds[0]) >= 1,
    ensures
        digits_value(ds) >= pow10((ds.len() - 1) as nat),
    decreases ds.len(),
{
    if ds.len() == 1 {
        assert(ds.drop_last().len() == 0);
        assert(digits_value(ds.drop_last()) == 0);
        assert(pow10(0) == 1);
        assert(digits_value(ds) == dval(ds[0]));
    } else {
        let pre = ds.drop_last();
        assert forall|j: int| 0 <= j < pre.len() implies is_digit(#[trigger] pre[j]) by {
            assert(pre[j] == ds[j]);
        }
        assert(pre[0] == ds[0]);
        lemma_digits_value_lower(pre);
        assert(dval(ds.last()) >= 0);
        assert(digits_value(ds) >= 10 * pow10((ds.len() - 2) as nat));
        assert(pow10((ds.len() - 1) as nat) == 10 * pow10((ds.len() - 2) as nat));
    }
}

/// Parse a JSON integer at `i`: an optional minus sign, then digits without
/// a superfluous leading zero, with a value that fits a 64-bit integer.
pub open spec fn parse_int(t: Seq<char>, i: int) -> Option<(int, int)> {
    let neg = i < t.len() && t[i] == '-';
    let ds = if neg {
        i + 1
    } else {
        i
    };
    if 0 <= ds < t.len() && is_digit(t[ds]) {
        let e = digits_end(t, ds);
        if dval(t[ds]) == 0 && e > ds + 1 {
            None
        } else {
            let m = digits_value(t.subrange(ds, e));
            let v = if neg {
                -m
            } else {
                m
            };
            if -0x8000_0000_0000_0000 <= v <= 0x7fff_ffff_ffff_ffff {
                Some((v, e))
            } else {
                None
            }
        }
    } else {
        None
    }
}

/// Parse the body of a JSON string at `i`, up to and including the closing
/// quote. Escape sequences cover quotes, backslashes, newlines, tabs and
/// carriage returns; any other character stands for itself.
pub open spec fn parse_string_chars(t: Seq<char>, i: int) -> Option<(Seq<char>, int)>
    decreases t.len() - i,
        when 0 <= i
{
    if i >= t.len() {
        None
    } else if t[i] == '"' {
        Some((Seq::empty(), i + 1))
    } else if t[i] == '\\' {
        if i + 1 < t.len() {
            let c = t[i + 1];
            let unesc = if c == '"' {
                Some('"')
            } else if c == '\\' {
                Some('\\')
            } else if c == 'n' {
                Some('\n')
            } else if c == 't' {
                Some('\t')
            } else if c == 'r' {
                Some('\r')
            } else {
                None
            };
            match unesc {
                Some(u) => match parse_string_chars(t, i + 2) {
                    Some((rest, j)) => Some((seq![u] + rest, j)),
                    None => None,
                },
                None => None,
            }
        } else {
            None
        }
    } else {
        match parse_string_chars(t, i + 1) {
            Some((rest, j)) => Some((seq![t[i]] + rest, j)),
            None => None,
        }
    }
}

/// Parse a JSON string at `i`: an opening quote, then its body.
pub open spec fn parse_string(t: Seq<char>, i: int) -> Option<(Seq<char>, int)> {
    if 0 <= i < t.len() && t[i] == '"' {
        parse_string_chars(t, i + 1)
    } else {
        None
    }
}

/// Parse a JSON value at `i`.
pub open spec fn parse_value(t: Seq<char>, i: int) -> Option<(ValueV, int)>
    decreases t.len() - i, 1int,
        when 0 <= i
{
    if i >= t.len() {
        None
    } else if t[i] == '"' {
        match parse_string_chars(t, i + 1) {
            Some((cs, j)) => Some((ValueV::Str(cs), j)),
            None => None,
        }
    } else if t[i] == '[' {
        if i + 1 < t.len() && t[i + 1] == ']' {
            Some((ValueV::List(Seq::empty()), i + 2))
        } else {
            match parse_values(t, i + 1) {
                Some((l, j)) => Some((ValueV::List(l), j)),
                None => None,
            }
        }
    } else if t[i] == 't' {
        if i + 4 <= t.len() && t[i + 1] == 'r' && t[i + 2] == 'u' && t[i + 3] == 'e' {
            Some((ValueV::Bool(true), i + 4))
        } else {
            None
        }
    } else if t[i] == 'f' {
        if i + 5 <= t.len() && t[i + 1] == 'a' && t[i + 2] == 'l' && t[i + 3] == 's' && t[i + 4]
            == 'e' {
            Some((ValueV::Bool(false), i + 5))
        } else {
            None
        }
    } else if t[i] == '-' || is_digit(t[i]) {
        match parse_int(t, i) {
            Some((v, j)) => Some((ValueV::Int(v), j)),
            None => None,
        }
    } else {
        None
    }
}

/// Parse the comma-separated elements of a non-empty JSON list at `i`, up to
/// and including the closing bracket.
pub open spec fn parse_values(t: Seq<char>, i: int) -> Option<(Seq<ValueV>, int)>
    decreases t.len() - i, 2int,
        when 0 <= i
{
    match parse_value(t, i) {
        Some((v, j)) => if i < j <= t.len() {
            if j < t.len() && t[j] == ',' {
                match parse_values(t, j + 1) {
                    Some((rest, k)) => Some((seq![v] + rest, k)),
                    None => None,
                }
            } else if j < t.len() && t[j] == ']' {
                Some((seq![v], j + 1))
            } else {
                None
            }
        } else {
            None
        },
        None => None,
    }
}

/// Parse one record field at `i`: a quoted name, a colon, a value.
pub open spec fn parse_field(t: Seq<char>, i: int) -> Option<((Seq<char>, ValueV), int)> {
    match parse_string(t, i) {
        Some((name, j)) => if 0 <= j < t.len() && t[j] == ':' {
            match parse_value(t, j + 1) {
                Some((v, k)) => Some(((name, v), k)),
                None => None,
            }
        } else {
            None
        },
        None => None,
    }
}

/// Parse the comma-separated fields of a non-empty JSON object at `i`, up to
/// and including the closing brace.
pub open spec fn parse_fields(t: Seq<char>, i: int) -> Option<(RecordV, int)>
    decreases t.len() - i,
        when 0 <= i
{
    match parse_field(t, i) {
        Some((f, j)) => if i < j <= t.len() {
            if j < t.len() && t[j] == ',' {
                match parse_fields(t, j + 1) {
                    Some((rest, k)) => Some((seq![f] + rest, k)),
                    None => None,
                }
            } else if j < t.len() && t[j] == '}' {
                Some((seq![f], j + 1))
            } else {
                None
            }
        } else {
            None
        },
        None => None,
    }
}

/// Parse a JSON object at `i` as one record.
pub open spec fn parse_record(t: Seq<char>, i: int) -> Option<(RecordV, int)> {
    if 0 <= i < t.len() && t[i] == '{' {
        if i + 1 < t.len() && t[i + 1] == '}' {
            Some((Seq::empty(), i + 2))
        } else {
            parse_fields(t, i + 1)
        }
    } else {
        None
    }
}

/// Parse the comma-separated records of a non-empty JSON array at `i`, up to
/// and including the closing bracket.
pub open spec fn parse_record_items(t: Seq<char>, i: int) -> Option<(Seq<RecordV>, int)>
    decreases t.len() - i,
        when 0 <= i
{
    match parse_record(t, i) {
        Some((r, j)) => if i < j <= t.len() {
            if j < t.len() && t[j] == ',' {
                match parse_record_items(t, j + 1) {
                    Some((rest, k)) => Some((seq![r] + rest, k)),
                    None => None,
                }
            } else if j < t.len() && t[j] == ']' {
                Some((seq![r], j + 1))
            } else {
                None
            }
        } else {
            None
        },
        None => None,
    }
}

/// What a whole text denotes as a list of records: a JSON array of objects,
/// with nothing before or after it.
pub open spec fn list_text_records(t: Seq<char>) -> Option<Seq<RecordV>> {
    if t.len() >= 2 && t[0] == '[' && t[1] == ']' {
        if t.len() == 2 {
            Some(Seq::empty())
        } else {
            None
        }
    } else if t.len() >= 1 && t[0] == '[' {
        match parse_record_items(t, 1) {
            Some((rs, j)) => if j == t.len() {
                Some(rs)
            } else {
                None
            },
            None => None,
        }
    } else {
        None
    }
}

/// What a whole text denotes as one record: a JSON object with nothing
/// before or after it.
pub open spec fn one_text_record(t: Seq<char>) -> Option<RecordV> {
    match parse_record(t, 0) {
        Some((r, j)) => if j == t.len() {
            Some(r)
        } else {
            None
        },
        None => None,
    }
}

/// The views of a list of values, in order.
pub open spec fn vals_view(s: Seq<Value>) -> Seq<ValueV> {
    Seq::new(s.len(), |i: int| value_view(s[i]))
}

/// The views of a list of named field values, in order.
pub open spec fn fields_view(s: Seq<(String, Value)>) -> RecordV {
    Seq::new(s.len(), |i: int| (s[i].0@, value_view(s[i].1)))
}

/// Ten to any power is positive.
proof fn lemma_pow10_pos(k: nat)
    ensures
        pow10(k) >= 1,
    decreases k,
{
    if k > 0 {
        lemma_pow10_pos((k - 1) as nat);
    }
}

/// Ten to a power grows with the exponent.
proof fn lemma_pow10_mono(a: nat, b: nat)
    requires
        a <= b,
    ensures
        pow10(a) <= pow10(b),
    decreases b,
{
    if a < b {
        lemma_pow10_mono(a, (b - 1) as nat);
        lemma_pow10_pos((b - 1) as nat);
    }
}

/// Whether a character is a decimal digit.
fn e_is_digit(c: char) -> (r: bool)
    ensures
        r == is_digit(c),
{
    let u = c as u32;
    48 <= u && u <= 57
}

/// The numeric value of a digit character.
fn e_digit_val(c: char) -> (d: u64)
    requires
        is_digit(c),
    ensures
        d as int == dval(c),
{
    (c as u32 - 48) as u64
}

/// The position of the first non-digit at or after `i`.
#[verifier::loop_isolation(false)]
fn e_digits_end(t: &Vec<char>, i: usize) -> (e: usize)
    requires
        i <= t@.len(),
    ensures
        e as int == digits_end(t@, i as int),
        i <= e <= t@.len(),
{
    let mut j = i;
    while j < t.len()
        invariant
            i <= j <= t@.len(),
            digits_end(t@, i as int) == digits_end(t@, j as int),
        decreases t@.len() - j,
    {
        if !e_is_digit(t[j]) {
            return j;
        }
        j = j + 1;
    }
    j
}

/// Parse a JSON integer.
#[verifier::loop_isolation(false)]
#[verifier::rlimit(100)]
fn e_parse_int(t: &Vec<char>, i: usize) -> (r: Option<(i64, usize)>)
    requires
        i <= t@.len(),
    ensures
        match r {
            Some((v, j)) => parse_int(t@, i as int) == Some((v as int, j as int)) && i < j
                <= t@.len(),
            None => parse_int(t@, i as int) is None,
        },
{
    let neg = i < t.len() && t[i] == '-';
    let ds = if neg {
        i + 1
    } else {
        i
    };
    if !(ds < t.len() && e_is_digit(t[ds])) {
        return None;
    }
    let e = e_digits_end(t, ds);
    proof {
        lemma_digits_end(t@, ds as int);
    }
    if e_digit_val(t[ds]) == 0 && e > ds + 1 {
        return None;
    }
    let ghost dseq = t@.subrange(ds as int, e as int);
    proof {
        assert forall|j: int| 0 <= j < dseq.len() implies is_digit(#[trigger] dseq[j]) by {
            assert(dseq[j] == t@[ds + j]);
            assert(is_digit(t@[ds + j]));
        }
        lemma_digits_value_upper(dseq);
        reveal_with_fuel(pow10, 21);
    }
    let k = e - ds;
    if k > 19 {
        proof {
            assert(dseq[0] == t@[ds as int]);
            assert(dval(dseq[0]) >= 1);
            lemma_digits_value_lower(dseq);
            lemma_pow10_mono(19, (dseq.len() - 1) as nat);
        }
        return None;
    }
    let mut acc: u64 = 0;
    let mut j = ds;
    while j < e
        invariant
            ds <= j <= e,
            acc as int == digits_value(t@.subrange(ds as int, j as int)),
            acc as int == digits_value(dseq.subrange(0, j - ds)),
        decreases e - j,
    {
        proof {
            let pre = t@.subrange(ds as int, j as int);
            assert forall|m: int| 0 <= m < pre.len() implies is_digit(#[trigger] pre[m]) by {
                assert(pre[m] == t@[ds + m]);
                assert(is_digit(t@[ds + m]));
            }
            lemma_digits_value_upper(pre);
            lemma_pow10_mono(pre.len() as nat, 18);
        }
        let d = e_digit_val(t[j]);
        acc = acc * 10 + d;
        proof {
            assert(t@.subrange(ds as int, j + 1).drop_last() =~= t@.subrange(ds as int, j as int));
            assert(t@.subrange(ds as int, j + 1).last() == t@[j as int]);
            assert(dseq.subrange(0, j + 1 - ds) =~= t@.subrange(ds as int, j + 1));
        }
        j = j + 1;
    }
    proof {
        assert(t@.subrange(ds as int, e as int) =~= dseq);
    }
    if neg {
        if acc > 0x8000_0000_0000_0000u64 {
            return None;
        }
        let v = (-(acc as i128)) as i64;
        Some((v, e))
    } else {
        if acc > 0x7fff_ffff_ffff_ffffu64 {
            return None;
        }
        Some((acc as i64, e))
    }
}

/// Parse the body of a JSON string, up to and including the closing quote.
fn e_parse_string_chars(t: &Vec<char>, i: usize) -> (r: Option<(Vec<char>, usize)>)
    requires
        i <= t@.len(),
    ensures
        match r {
            Some((cs, j)) => parse_string_chars(t@, i as int) == Some((cs@, j as int)) && i < j
                <= t@.len(),
            None => parse_string_chars(t@, i as int) is None,
        },
    decreases t@.len() - i,
{
    if i >= t.len() {
        return None;
    }
    let c = t[i];
    if c == '"' {
        let empty: Vec<char> = Vec::new();
        proof {
            assert(empty@ =~= Seq::<char>::empty());
        }
        return Some((empty, i + 1));
    }
    if c == '\\' {
        if i + 1 >= t.len() {
            return None;
        }
        let esc = t[i + 1];
        let u: char;
        if esc == '"' {
            u = '"';
        } else if esc == '\\' {
            u = '\\';
        } else if esc == 'n' {
            u = '\n';
        } else if esc == 't' {
            u = '\t';
        } else if esc == 'r' {
            u = '\r';
        } else {
            return None;
        }
        match e_parse_string_chars(t, i + 2) {
            Some((rest, j)) => {
                let ghost rv = rest@;
                let mut out: Vec<char> = Vec::new();
                out.push(u);
                let mut rest = rest;
                out.append(&mut rest);
                proof {
                    assert(out@ =~= seq![u] + rv);
                }
                Some((out, j))
            },
            None => None,
        }
    } else {
        match e_parse_string_chars(t, i + 1) {
            Some((rest, j)) => {
                let ghost rv = rest@;
                let mut out: Vec<char> = Vec::new();
                out.push(c);
                let mut rest = rest;
                out.append(&mut rest);
                proof {
                    assert(out@ =~= seq![c] + rv);
                }
                Some((out, j))
            },
            None => None,
        }
    }
}

/// Parse a JSON value.
fn e_parse_value(t: &Vec<char>, i: usize) -> (r: Option<(Value, usize)>)
    requires
        i <= t@.len(),
    ensures
        match r {
            Some((v, j)) => parse_value(t@, i as int) == Some((v@, j as int)) && i < j <= t@.len(),
            None => parse_value(t@, i as int) is None,
        },
    decreases t@.len() - i, 1int,
{
    if i >= t.len() {
        return None;
    }
    let c = t[i];
    if c == '"' {
        match e_parse_string_chars(t, i + 1) {
            Some((cs, j)) => {
                let s = chars_to_string(&cs);
                Some((Value::Str(s), j))
            },
            None => None,
        }
    } else if c == '[' {
        if i + 1 < t.len() && t[i + 1] == ']' {
            let empty: Vec<Value> = Vec::new();
            let v = Value::List(empty);
            proof {
                assert(v@->List_0 =~= Seq::<ValueV>::empty());
            }
            Some((v, i + 2))
        } else {
            match e_parse_values(t, i + 1) {
                Some((l, j)) => {
                    let ghost lv = vals_view(l@);
                    let v = Value::List(l);
                    proof {
                        assert(v@->List_0 =~= lv);
                    }
                    Some((v, j))
                },
                None => None,
            }
        }
    } else if c == 't' {
        if t.len() - i >= 4 && t[i + 1] == 'r' && t[i + 2] == 'u' && t[i + 3] == 'e' {
            Some((Value::Bool(true), i + 4))
        } else {
            None
        }
    } else if c == 'f' {
        if t.len() - i >= 5 && t[i + 1] == 'a' && t[i + 2] == 'l' && t[i + 3] == 's' && t[i + 4]
            == 'e' {
            Some((Value::Bool(false), i + 5))
        } else {
            None
        }
    } else if c == '-' || e_is_digit(c) {
        match e_parse_int(t, i) {
            Some((v, j)) => Some((Value::Int(v), j)),
            None => None,
        }
    } else {
        None
    }
}

/// Parse the elements of a non-empty JSON list, up to and including the
/// closing bracket.
fn e_parse_values(t: &Vec<char>, i: usize) -> (r: Option<(Vec<Value>, usize)>)
    requires
        i <= t@.len(),
    ensures
        match r {
            Some((l, j)) => parse_values(t@, i as int) == Some((vals_view(l@), j as int)) && i < j
                <= t@.len(),
            None => parse_values(t@, i as int) is None,
        },
    decreases t@.len() - i, 2int,
{
    match e_parse_value(t, i) {
        Some((v, j)) => {
            if j < t.len() && t[j] == ',' {
                match e_parse_values(t, j + 1) {
                    Some((rest, k)) => {
                        let ghost rv = vals_view(rest@);
                        let ghost vv = v@;
                        let mut out: Vec<Value> = Vec::new();
                        out.push(v);
                        let mut rest = rest;
                        out.append(&mut rest);
                        proof {
                            assert(vals_view(out@) =~= seq![vv] + rv);
                        }
                        Some((out, k))
                    },
                    None => None,
                }
            } else if j < t.len() && t[j] == ']' {
                let ghost vv = v@;
                let mut out: Vec<Value> = Vec::new();
                out.push(v);
                proof {
                    assert(vals_view(out@) =~= seq![vv]);
                }
                Some((out, j + 1))
            } else {
                None
            }
        },
        None => None,
    }
}

/// Parse one record field: a quoted name, a colon, a value.
fn e_parse_field(t: &Vec<char>, i: usize) -> (r: Option<((String, Value), usize)>)
    requires
        i <= t@.len(),
    ensures
        match r {
            Some((f, j)) => parse_field(t@, i as int) == Some(((f.0@, f.1@), j as int)) && i < j
                <= t@.len(),
            None => parse_field(t@, i as int) is None,
        },
{
    if !(i < t.len() && t[i] == '"') {
        return None;
    }
    match e_parse_string_chars(t, i + 1) {
        Some((cs, j)) => {
            if j < t.len() && t[j] == ':' {
                match e_parse_value(t, j + 1) {
                    Some((v, k)) => {
                        let name = chars_to_string(&cs);
                        Some(((name, v), k))
                    },
                    None => None,
                }
            } else {
                None
            }
        },
        None => None,
    }
}

/// Parse the fields of a non-empty JSON object, up to and including the
/// closing brace.
fn e_parse_fields(t: &Vec<char>, i: usize) -> (r: Option<(Vec<(String, Value)>, usize)>)
    requires
        i <= t@.len(),
    ensures
        match r {
            Some((fs, j)) => parse_fields(t@, i as int) == Some((fields_view(fs@), j as int)) && i
                < j <= t@.len(),
            None => parse_fields(t@, i as int) is None,
        },
    decreases t@.len() - i,
{
    match e_parse_field(t, i) {
        Some((f, j)) => {
            if j < t.len() && t[j] == ',' {
                match e_parse_fields(t, j + 1) {
                    Some((rest, k)) => {
                        let ghost rv = fields_view(rest@);
                        let ghost fv = (f.0@, f.1@);
                        let mut out: Vec<(String, Value)> = Vec::new();
                        out.push(f);
                        let mut rest = rest;
                        out.append(&mut rest);
                        proof {
                            assert(fields_view(out@) =~= seq![fv] + rv);
                        }
                        Some((out, k))
                    },
                    None => None,
                }
            } else if j < t.len() && t[j] == '}' {
                let ghost fv = (f.0@, f.1@);
                let mut out: Vec<(String, Value)> = Vec::new();
                out.push(f);
                proof {
                    assert(fields_view(out@) =~= seq![fv]);
                }
                Some((out, j + 1))
            } else {
                None
            }
        },
        None => None,
    }
}

/// Parse a JSON object as one record.
fn e_parse_record(t: &Vec<char>, i: usize) -> (r: Option<(Record, usize)>)
    requires
        i <= t@.len(),
    ensures
        match r {
            Some((rec, j)) => parse_record(t@, i as int) == Some((rec@, j as int)) && i < j
                <= t@.len(),
            None => parse_record(t@, i as int) is None,
        },
{
    if !(i < t.len() && t[i] == '{') {
        return None;
    }
    if i + 1 < t.len() && t[i + 1] == '}' {
        let rec = Record::from_fields(Vec::new());
        proof {
            assert(rec@ =~= Seq::<(Seq<char>, ValueV)>::empty());
        }
        return Some((rec, i + 2));
    }
    match e_parse_fields(t, i + 1) {
        Some((fs, j)) => {
            let ghost fv = fields_view(fs@);
            let rec = Record::from_fields(fs);
            proof {
                assert(rec@ =~= fv);
            }
            Some((rec, j))
        },
        None => None,
    }
}

/// Parse the records of a non-empty JSON array, up to and including the
/// closing bracket.
fn e_parse_record_items(t: &Vec<char>, i: usize) -> (r: Option<(Vec<Record>, usize)>)
    requires
        i <= t@.len(),
    ensures
        match r {
            Some((rs, j)) => parse_record_items(t@, i as int) == Some(
                (records_view(rs@), j as int),
            ) && i < j <= t@.len(),
            None => parse_record_items(t@, i as int) is None,
        },
    decreases t@.len() - i,
{
    match e_parse_record(t, i) {
        Some((rec, j)) => {
            if j < t.len() && t[j] == ',' {
                match e_parse_record_items(t, j + 1) {
                    Some((rest, k)) => {
                        let ghost rv = records_view(rest@);
                        let ghost recv = rec@;
                        let mut out: Vec<Record> = Vec::new();
                        out.push(rec);
                        let mut rest = rest;
                        out.append(&mut rest);
                        proof {
                            assert(records_view(out@) =~= seq![recv] + rv);
                        }
                        Some((out, k))
                    },
                    None => None,
                }
            } else if j < t.len() && t[j] == ']' {
                let ghost recv = rec@;
                let mut out: Vec<Record> = Vec::new();
                out.push(rec);
                proof {
                    assert(records_view(out@) =~= seq![recv]);
                }
                Some((out, j + 1))
            } else {
                None
            }
        },
        None => None,
    }
}

/// An encoder and decoder for JSON.
///
/// Encoding is compact: no whitespace between tokens. Strings escape quotes,
/// backslashes, newlines, tabs and carriage returns; other characters,
/// including any remaining control characters, stand for themselves.
/// Decoding accepts exactly the compact form this encoder produces.
#[derive(Clone, Copy, Debug, Default, PartialEq, Eq, PartialOrd, Ord, Hash)]
pub struct Json;

impl Encode for Json {
    open spec fn list_encoding(&self, rs: Seq<RecordV>) -> Seq<char> {
        json_of_records(rs)
    }

    open spec fn one_encoding(&self, r: RecordV) -> Seq<char> {
        json_of_record(r)
    }

    /// Build the array by hand: open it, write the first element, write each
    /// later element behind a comma, close it. Each element comes from
    /// `encode_one`.
    #[verifier::loop_isolation(false)]
    fn encode(&self, entries: &Vec<Record>) -> (r: Result<String, EncodeError>) {
        let ghost views = records_view(entries@);
        let mut out: Vec<char> = Vec::new();
        out.push('[');
        let mut i: usize = 0;
        while i < entries.len()
            invariant
                i <= entries.len(),
                out@ == seq!['['] + json_of_record_list(views.take(i as int)),
            decreases entries.len() - i,
        {
            let ghost before = out@;
            if i > 0 {
                out.push(',');
            }
            let piece = match self.encode_one(&entries[i]) {
                Ok(piece) => piece,
                Err(e) => {
                    proof {
                        assert(false);
                    }
                    return Err(e);
                },
            };
            let mut chars = string_to_chars(piece.as_str());
            out.append(&mut chars);
            proof {
                lemma_record_list_push(views.take(i as int), views[i as int]);
                assert(views.take(i as int).push(views[i as int]) =~= views.take(i + 1));
                if i == 0 {
                    assert(out@ =~= seq!['['] + json_of_record_list(views.take(i + 1)));
                } else {
                    assert(out@ =~= seq!['['] + json_of_record_list(views.take(i + 1)));
                }
            }
            i = i + 1;
        }
        out.push(']');
        proof {
            assert(views.take(entries.len() as int) =~= views);
            assert(out@ =~= json_of_records(views));
        }
        Ok(chars_to_string(&out))
    }

    /// Encode the whole list in one piece.
    fn encode_all(&self, entries: &Vec<Record>) -> (r: Result<String, EncodeError>) {
        let mut out: Vec<char> = Vec::new();
        out.push('[');
        push_json_records_from(entries, 0, &mut out);
        out.push(']');
        proof {
            assert(records_view(entries@).skip(0) =~= records_view(entries@));
            assert(out@ =~= json_of_records(records_view(entries@)));
        }
        Ok(chars_to_string(&out))
    }

    /// Encode one record.
    fn encode_one(&self, entry: &Record) -> (r: Result<String, EncodeError>) {
        let mut out: Vec<char> = Vec::new();
        push_json_record(entry, &mut out);
        Ok(chars_to_string(&out))
    }
}

impl Decode for Json {
    open spec fn list_decoding(&self, s: Seq<char>) -> Option<Seq<RecordV>> {
        list_text_records(s)
    }

    open spec fn one_decoding(&self, s: Seq<char>) -> Option<RecordV> {
        one_text_record(s)
    }

    /// Parse a JSON array of objects covering the whole input.
    fn decode_all(&self, text: &str) -> (r: Result<Vec<Record>, DecodeError>) {
        let t = string_to_chars(text);
        if t.len() >= 2 && t[0] == '[' && t[1] == ']' {
            if t.len() == 2 {
                let out: Vec<Record> = Vec::new();
                proof {
                    assert(records_view(out@) =~= Seq::<RecordV>::empty());
                }
                Ok(out)
            } else {
                Err(DecodeError)
            }
        } else if t.len() >= 1 && t[0] == '[' {
            match e_parse_record_items(&t, 1) {
                Some((rs, j)) => {
                    if j == t.len() {
                        Ok(rs)
                    } else {
                        Err(DecodeError)
                    }
                },
                None => Err(DecodeError),
            }
        } else {
            Err(DecodeError)
        }
    }

    /// Parse one JSON object covering the whole input; empty input is `None`.
    fn decode_optional(&self, text: &str) -> (r: Result<Option<Record>, DecodeError>) {
        if text.is_empty() {
            return Ok(None);
        }
        let t = string_to_chars(text);
        match e_parse_record(&t, 0) {
            Some((rec, j)) => {
                if j == t.len() {
                    Ok(Some(rec))
                } else {
                    Err(DecodeError)
                }
            },
            None => Err(DecodeError),
        }
    }

    /// Parse one JSON object covering the whole input; empty input reports
    /// `Empty`.
    fn decode_one(&self, text: &str) -> (r: Result<Record, DecodeOneError>) {
        match self.decode_optional(text) {
            Ok(Some(rec)) => Ok(rec),
            Ok(None) => Err(DecodeOneError::Empty),
            Err(e) => Err(DecodeOneError::Decode(e)),
        }
    }
}

/// `seg` occurs in `t` starting at position `i`.
pub open spec fn at_seg(t: Seq<char>, i: int, seg: Seq<char>) -> bool {
    0 <= i && i + seg.len() <= t.len() && t.subrange(i, i + seg.len()) == seg
}

/// An occurrence of a concatenation is an occurrence of each part in turn.
proof fn lemma_at_seg_split(t: Seq<char>, i: int, a: Seq<char>, b: Seq<char>)
    requires
        at_seg(t, i, a + b),
    ensures
        at_seg(t, i, a),
        at_seg(t, i + a.len(), b),
{
    assert(t.subrange(i, i + a.len()) =~= a) by {
        assert forall|k: int| 0 <= k < a.len() implies t.subrange(i, i + a.len())[k] == a[k] by {
            assert(t.subrange(i, i + (a + b).len())[k] == (a + b)[k]);
        }
    }
    assert(t.subrange(i + a.len(), i + a.len() + b.len()) =~= b) by {
        assert forall|k: int|
            0 <= k < b.len() implies t.subrange(i + a.len(), i + a.len() + b.len())[k] == b[k] by {
            assert(t.subrange(i, i + (a + b).len())[a.len() + k] == (a + b)[a.len() + k]);
        }
    }
}

/// Characters of an occurrence can be read off the text.
proof fn lemma_at_seg_index(t: Seq<char>, i: int, seg: Seq<char>, k: int)
    requires
        at_seg(t, i, seg),
        0 <= k < seg.len(),
    ensures
        t[i + k] == seg[k],
{
    assert(t.subrange(i, i + seg.len())[k] == seg[k]);
}

/// The JSON text of a value is never empty.
proof fn lemma_json_value_nonempty(v: ValueV)
    ensures
        json_of_value(v).len() >= 1,
{
    match v {
        ValueV::Int(i) => {
            if i >= 0 {
                assert(dec_of(i as nat).len() >= 1);
            } else {
                assert(dec_of((-i) as nat).len() >= 1);
            }
        },
        _ => {},
    }
}

/// The first character of a value's JSON text announces its shape: a quote,
/// a bracket, the start of a boolean, a minus sign, or a digit.
proof fn lemma_json_value_first(v: ValueV)
    ensures
        ({
            let c = json_of_value(v)[0];
            c == '"' || c == '[' || c == 't' || c == 'f' || c == '-' || is_digit(c)
        }),
{
    lemma_json_value_nonempty(v);
    match v {
        ValueV::Int(i) => {
            if i >= 0 {
                lemma_dec_of_digits(i as nat);
                assert(json_of_value(v)[0] == dec_of(i as nat)[0]);
            } else {
                assert(json_of_value(v)[0] == '-');
            }
        },
        ValueV::Str(s) => {
            assert(json_of_value(v)[0] == '"');
        },
        ValueV::List(l) => {
            assert(json_of_value(v)[0] == '[');
        },
        ValueV::Bool(b) => {},
    }
}

/// Every character of a decimal rendering is a digit, and the rendering is
/// never empty.
proof fn lemma_dec_of_digits(n: nat)
    ensures
        dec_of(n).len() >= 1,
        forall|j: int| 0 <= j < dec_of(n).len() ==> is_digit(#[trigger] dec_of(n)[j]),
    decreases n,
{
    if n < 10 {
        assert(is_digit(digit_char(n as int)));
    } else {
        lemma_dec_of_digits(n / 10);
        assert forall|j: int| 0 <= j < dec_of(n).len() implies is_digit(#[trigger] dec_of(n)[j]) by {
            if j < dec_of(n / 10).len() {
                assert(dec_of(n)[j] == dec_of(n / 10)[j]);
            } else {
                assert(dec_of(n)[j] == digit_char((n % 10) as int));
                assert(is_digit(digit_char((n % 10) as int)));
            }
        }
    }
}

/// The numeric value of a digit character of a decimal rendering.
proof fn lemma_dval_digit_char(d: int)
    requires
        0 <= d <= 9,
    ensures
        dval(digit_char(d)) == d,
{
}

/// Reading a decimal rendering back gives the number it renders.
proof fn lemma_digits_value_dec_of(n: nat)
    ensures
        digits_value(dec_of(n)) == n,
    decreases n,
{
    lemma_dec_of_digits(n);
    if n < 10 {
        lemma_dval_digit_char(n as int);
        assert(dec_of(n).drop_last().len() == 0);
        assert(digits_value(dec_of(n).drop_last()) == 0);
    } else {
        lemma_digits_value_dec_of(n / 10);
        lemma_dval_digit_char((n % 10) as int);
        assert(dec_of(n).drop_last() =~= dec_of(n / 10));
        assert(dec_of(n).last() == digit_char((n % 10) as int));
    }
}

/// A decimal rendering starts with a zero digit only for zero itself.
proof fn lemma_dec_of_leading(n: nat)
    ensures
        dval(dec_of(n)[0]) == 0 ==> n == 0,
    decreases n,
{
    lemma_dec_of_digits(n);
    if n < 10 {
        lemma_dval_digit_char(n as int);
    } else {
        lemma_dec_of_leading(n / 10);
        lemma_dec_of_digits(n / 10);
        assert(dec_of(n)[0] == dec_of(n / 10)[0]);
    }
}

/// A run of digits followed by a non-digit ends exactly at the non-digit.
proof fn lemma_digits_end_at(t: Seq<char>, i: int, e: int)
    requires
        0 <= i <= e <= t.len(),
        forall|j: int| i <= j < e ==> is_digit(#[trigger] t[j]),
        e == t.len() || !is_digit(t[e]),
    ensures
        digits_end(t, i) == e,
    decreases e - i,
{
    if i < e {
        lemma_digits_end_at(t, i + 1, e);
    }
}

/// Parsing at an occurrence of a rendered integer, followed by a non-digit
/// or the end, yields that integer and stops right after it.
proof fn lemma_parse_int_round(v: int, t: Seq<char>, i: int)
    requires
        -0x8000_0000_0000_0000 <= v <= 0x7fff_ffff_ffff_ffff,
        at_seg(t, i, int_str(v)),
        i + int_str(v).len() == t.len() || !is_digit(t[i + int_str(v).len()]),
    ensures
        parse_int(t, i) == Some((v, i + int_str(v).len())),
{
    let len = int_str(v).len();
    if v >= 0 {
        let m = v as nat;
        lemma_dec_of_digits(m);
        lemma_digits_value_dec_of(m);
        lemma_dec_of_leading(m);
        assert forall|j: int| i <= j < i + len implies is_digit(#[trigger] t[j]) by {
            lemma_at_seg_index(t, i, int_str(v), j - i);
        }
        lemma_at_seg_index(t, i, int_str(v), 0);
        assert(t[i] == dec_of(m)[0]);
        assert(is_digit(t[i]));
        assert(t[i] != '-') by {
            assert(!is_digit('-'));
        }
        lemma_digits_end_at(t, i, i + len);
        assert(t.subrange(i, i + len) =~= dec_of(m));
        if dval(t[i]) == 0 && i + len > i + 1 {
            assert(dval(dec_of(m)[0]) == 0);
            assert(m == 0);
            assert(dec_of(0nat).len() == 1);
            assert(false);
        }
    } else {
        let m = (-v) as nat;
        lemma_dec_of_digits(m);
        lemma_digits_value_dec_of(m);
        lemma_dec_of_leading(m);
        lemma_at_seg_index(t, i, int_str(v), 0);
        assert(t[i] == '-');
        assert forall|j: int| i + 1 <= j < i + len implies is_digit(#[trigger] t[j]) by {
            lemma_at_seg_index(t, i, int_str(v), j - i);
            assert(int_str(v)[j - i] == dec_of(m)[j - i - 1]);
        }
        lemma_at_seg_index(t, i, int_str(v), 1);
        assert(t[i + 1] == dec_of(m)[0]);
        assert(is_digit(t[i + 1]));
        lemma_digits_end_at(t, i + 1, i + len);
        assert(t.subrange(i + 1, i + len) =~= dec_of(m)) by {
            assert forall|k: int| 0 <= k < len - 1 implies t.subrange(i + 1, i + len)[k] == dec_of(
                m,
            )[k] by {
                lemma_at_seg_index(t, i, int_str(v), k + 1);
            }
        }
        if dval(t[i + 1]) == 0 && i + len > i + 2 {
            assert(dval(dec_of(m)[0]) == 0);
            assert(m == 0);
            assert(false);
        }
    }
}

/// Parsing at an occurrence of an escaped string body followed by a closing
/// quote yields the original characters and stops right after the quote.
proof fn lemma_parse_string_round(s: Seq<char>, t: Seq<char>, i: int)
    requires
        at_seg(t, i, esc_str(s)),
        i + esc_str(s).len() < t.len(),
        t[i + esc_str(s).len()] == '"',
    ensures
        parse_string_chars(t, i) == Some((s, i + esc_str(s).len() + 1)),
    decreases s.len(),
{
    if s.len() == 0 {
        assert(t[i] == '"');
    } else {
        let c = s[0];
        let e = esc_char(c);
        let rest = s.drop_first();
        assert(esc_str(s) == e + esc_str(rest));
        lemma_at_seg_split(t, i, e, esc_str(rest));
        lemma_parse_string_round(rest, t, i + e.len());
        if c == '"' || c == '\\' || c == '\n' || c == '\t' || c == '\r' {
            lemma_at_seg_index(t, i, e, 0);
            lemma_at_seg_index(t, i, e, 1);
            assert(t[i] == '\\');
            assert(parse_string_chars(t, i) == Some((seq![c] + rest, i + esc_str(s).len() + 1)));
            assert(seq![c] + rest =~= s);
        } else {
            lemma_at_seg_index(t, i, e, 0);
            assert(t[i] == c);
            assert(parse_string_chars(t, i) == Some((seq![c] + rest, i + esc_str(s).len() + 1)));
            assert(seq![c] + rest =~= s);
        }
    }
}

/// Whether a position is a fitting boundary after a value: the end of the
/// text, or a separator or closer.
pub open spec fn delim_at(t: Seq<char>, j: int) -> bool {
    j == t.len() || t[j] == ',' || t[j] == ']' || t[j] == '}'
}

/// Parsing at an occurrence of a value's JSON text, bounded by a fitting
/// delimiter, yields that value and stops right after its text.
proof fn lemma_parse_value_round(v: ValueV, t: Seq<char>, i: int)
    requires
        value_in_range(v),
        at_seg(t, i, json_of_value(v)),
        delim_at(t, i + json_of_value(v).len()),
    ensures
        parse_value(t, i) == Some((v, i + json_of_value(v).len())),
    decreases v, 0int,
{
    let len = json_of_value(v).len();
    lemma_json_value_nonempty(v);
    match v {
        ValueV::Str(s) => {
            lemma_at_seg_index(t, i, json_of_value(v), 0);
            assert(t[i] == '"');
            assert(json_of_value(v) =~= seq!['"'] + (esc_str(s) + seq!['"']));
            lemma_at_seg_split(t, i, seq!['"'], esc_str(s) + seq!['"']);
            lemma_at_seg_split(t, i + 1, esc_str(s), seq!['"']);
            lemma_at_seg_index(t, i + 1 + esc_str(s).len(), seq!['"'], 0);
            lemma_parse_string_round(s, t, i + 1);
            let close = i + 1 + esc_str(s).len() + 1;
            assert(parse_string_chars(t, i + 1) == Some((s, close)));
            assert(parse_value(t, i) == Some((ValueV::Str(s), close)));
            assert(v == ValueV::Str(s));
            assert(i + len == close);
        },
        ValueV::Int(n) => {
            lemma_at_seg_index(t, i, json_of_value(v), 0);
            let c = t[i];
            assert(c == '-' || is_digit(c)) by {
                if n >= 0 {
                    lemma_dec_of_digits(n as nat);
                    assert(c == dec_of(n as nat)[0]);
                } else {
                    assert(json_of_value(v)[0] == '-');
                }
            }
            assert(c != '"' && c != '[' && c != 't' && c != 'f') by {
                assert(!is_digit('"') && !is_digit('[') && !is_digit('t') && !is_digit('f'));
            }
            assert(i + len == t.len() || !is_digit(t[i + len])) by {
                if i + len < t.len() {
                    assert(!is_digit(',') && !is_digit(']') && !is_digit('}'));
                }
            }
            lemma_parse_int_round(n, t, i);
            assert(parse_value(t, i) == Some((v, i + len)));
        },
        ValueV::Bool(b) => {
            if b {
                lemma_at_seg_index(t, i, json_of_value(v), 0);
                lemma_at_seg_index(t, i, json_of_value(v), 1);
                lemma_at_seg_index(t, i, json_of_value(v), 2);
                lemma_at_seg_index(t, i, json_of_value(v), 3);
            } else {
                lemma_at_seg_index(t, i, json_of_value(v), 0);
                lemma_at_seg_index(t, i, json_of_value(v), 1);
                lemma_at_seg_index(t, i, json_of_value(v), 2);
                lemma_at_seg_index(t, i, json_of_value(v), 3);
                lemma_at_seg_index(t, i, json_of_value(v), 4);
            }
            assert(parse_value(t, i) == Some((v, i + len)));
        },
        ValueV::List(l) => {
            lemma_at_seg_index(t, i, json_of_value(v), 0);
            assert(t[i] == '[');
            assert(json_of_value(v) =~= seq!['['] + (json_of_values(l) + seq![']']));
            lemma_at_seg_split(t, i, seq!['['], json_of_values(l) + seq![']']);
            lemma_at_seg_split(t, i + 1, json_of_values(l), seq![']']);
            lemma_at_seg_index(t, i + 1 + json_of_values(l).len(), seq![']'], 0);
            if l.len() == 0 {
                assert(t[i + 1] == ']');
                assert(l =~= Seq::<ValueV>::empty());
                assert(i + 1 < t.len());
            } else {
                lemma_json_value_nonempty(l[0]);
                assert(json_of_values(l)[0] == json_of_value(l[0])[0]) by {
                    if l.len() == 1 {
                    } else {
                        assert(json_of_values(l) == json_of_value(l[0]) + seq![',']
                            + json_of_values(l.drop_first()));
                    }
                }
                lemma_at_seg_index(t, i + 1, json_of_values(l), 0);
                lemma_json_value_first(l[0]);
                assert(t[i + 1] != ']') by {
                    assert(!is_digit(']'));
                }
                lemma_parse_values_round(l, t, i + 1);
            }
            assert(parse_value(t, i) == Some((v, i + len)));
        },
    }
}

/// Parsing at an occurrence of a non-empty list's comma-separated element
/// texts, followed by a closing bracket, yields those elements and stops
/// right after the bracket.
proof fn lemma_parse_values_round(l: Seq<ValueV>, t: Seq<char>, i: int)
    requires
        forall|j: int| 0 <= j < l.len() ==> value_in_range(#[trigger] l[j]),
        l.len() >= 1,
        at_seg(t, i, json_of_values(l)),
        i + json_of_values(l).len() < t.len(),
        t[i + json_of_values(l).len()] == ']',
    ensures
        parse_values(t, i) == Some((l, i + json_of_values(l).len() + 1)),
    decreases l, 1int,
{
    let jv = json_of_value(l[0]);
    lemma_json_value_nonempty(l[0]);
    if l.len() == 1 {
        lemma_parse_value_round(l[0], t, i);
        assert(seq![l[0]] =~= l);
    } else {
        let rest = l.drop_first();
        assert(json_of_values(l) =~= jv + (seq![','] + json_of_values(rest)));
        lemma_at_seg_split(t, i, jv, seq![','] + json_of_values(rest));
        lemma_at_seg_split(t, i + jv.len(), seq![','], json_of_values(rest));
        lemma_at_seg_index(t, i + jv.len(), seq![','], 0);
        assert(t[i + jv.len()] == ',');
        lemma_parse_value_round(l[0], t, i);
        lemma_parse_values_round(rest, t, i + jv.len() + 1);
        assert(seq![l[0]] + rest =~= l);
    }
}

/// Parsing at an occurrence of a field's JSON text, bounded by a separator
/// or closing brace, yields that field and stops right after its text.
proof fn lemma_parse_field_round(f: (Seq<char>, ValueV), t: Seq<char>, i: int)
    requires
        value_in_range(f.1),
        at_seg(t, i, json_of_field(f)),
        ({
            let j = i + json_of_field(f).len();
            j == t.len() || t[j] == ',' || t[j] == '}'
        }),
    ensures
        parse_field(t, i) == Some((f, i + json_of_field(f).len())),
{
    let name = json_of_string(f.0);
    let jv = json_of_value(f.1);
    assert(json_of_field(f) =~= name + (seq![':'] + jv));
    lemma_at_seg_split(t, i, name, seq![':'] + jv);
    lemma_at_seg_split(t, i + name.len(), seq![':'], jv);
    lemma_at_seg_index(t, i + name.len(), seq![':'], 0);
    assert(name =~= seq!['"'] + (esc_str(f.0) + seq!['"']));
    lemma_at_seg_split(t, i, seq!['"'], esc_str(f.0) + seq!['"']);
    lemma_at_seg_split(t, i + 1, esc_str(f.0), seq!['"']);
    lemma_at_seg_index(t, i, seq!['"'], 0);
    lemma_at_seg_index(t, i + 1 + esc_str(f.0).len(), seq!['"'], 0);
    lemma_parse_string_round(f.0, t, i + 1);
    lemma_parse_value_round(f.1, t, i + name.len() + 1);
}

/// Parsing at an occurrence of a non-empty record's comma-separated field
/// texts, followed by a closing brace, yields those fields and stops right
/// after the brace.
proof fn lemma_parse_fields_round(r: RecordV, t: Seq<char>, i: int)
    requires
        record_in_range(r),
        r.len() >= 1,
        at_seg(t, i, json_of_fields(r)),
        i + json_of_fields(r).len() < t.len(),
        t[i + json_of_fields(r).len()] == '}',
    ensures
        parse_fields(t, i) == Some((r, i + json_of_fields(r).len() + 1)),
    decreases r.len(),
{
    let jf = json_of_field(r[0]);
    assert(jf.len() >= 2);
    if r.len() == 1 {
        lemma_parse_field_round(r[0], t, i);
        assert(seq![r[0]] =~= r);
    } else {
        let rest = r.drop_first();
        assert(json_of_fields(r) =~= jf + (seq![','] + json_of_fields(rest)));
        lemma_at_seg_split(t, i, jf, seq![','] + json_of_fields(rest));
        lemma_at_seg_split(t, i + jf.len(), seq![','], json_of_fields(rest));
        lemma_at_seg_index(t, i + jf.len(), seq![','], 0);
        lemma_parse_field_round(r[0], t, i);
        lemma_parse_fields_round(rest, t, i + jf.len() + 1);
        assert(seq![r[0]] + rest =~= r);
    }
}

/// Parsing at an occurrence of a record's JSON text yields that record and
/// stops right after its text.
proof fn lemma_parse_record_round(r: RecordV, t: Seq<char>, i: int)
    requires
        record_in_range(r),
        at_seg(t, i, json_of_record(r)),
    ensures
        parse_record(t, i) == Some((r, i + json_of_record(r).len())),
{
    assert(json_of_record(r) =~= seq!['{'] + (json_of_fields(r) + seq!['}']));
    lemma_at_seg_split(t, i, seq!['{'], json_of_fields(r) + seq!['}']);
    lemma_at_seg_split(t, i + 1, json_of_fields(r), seq!['}']);
    lemma_at_seg_index(t, i, seq!['{'], 0);
    lemma_at_seg_index(t, i + 1 + json_of_fields(r).len(), seq!['}'], 0);
    if r.len() == 0 {
        assert(t[i + 1] == '}');
    } else {
        assert(json_of_fields(r)[0] == '"') by {
            let jf = json_of_field(r[0]);
            assert(jf[0] == '"');
            if r.len() == 1 {
            } else {
                assert(json_of_fields(r) == jf + seq![','] + json_of_fields(r.drop_first()));
            }
        }
        lemma_at_seg_index(t, i + 1, json_of_fields(r), 0);
        assert(t[i + 1] == '"');
        lemma_parse_fields_round(r, t, i + 1);
    }
}

/// Parsing at an occurrence of a non-empty record list's comma-separated
/// texts, followed by a closing bracket, yields those records and stops
/// right after the bracket.
proof fn lemma_parse_record_items_round(rs: Seq<RecordV>, t: Seq<char>, i: int)
    requires
        forall|j: int| 0 <= j < rs.len() ==> record_in_range(#[trigger] rs[j]),
        rs.len() >= 1,
        at_seg(t, i, json_of_record_list(rs)),
        i + json_of_record_list(rs).len() < t.len(),
        t[i + json_of_record_list(rs).len()] == ']',
    ensures
        parse_record_items(t, i) == Some((rs, i + json_of_record_list(rs).len() + 1)),
    decreases rs.len(),
{
    let jr = json_of_record(rs[0]);
    assert(jr.len() >= 2);
    if rs.len() == 1 {
        lemma_parse_record_round(rs[0], t, i);
        assert(seq![rs[0]] =~= rs);
    } else {
        let rest = rs.drop_first();
        assert(json_of_record_list(rs) =~= jr + (seq![','] + json_of_record_list(rest)));
        lemma_at_seg_split(t, i, jr, seq![','] + json_of_record_list(rest));
        lemma_at_seg_split(t, i + jr.len(), seq![','], json_of_record_list(rest));
        lemma_at_seg_index(t, i + jr.len(), seq![','], 0);
        lemma_parse_record_round(rs[0], t, i);
        lemma_parse_record_items_round(rest, t, i + jr.len() + 1);
        assert(seq![rs[0]] + rest =~= rs);
    }
}

/// Round trip for one record: the JSON text of any record decodes back to
/// exactly that record.
pub proof fn lemma_record_round_trip(r: RecordV)
    requires
        record_in_range(r),
    ensures
        one_text_record(json_of_record(r)) == Some(r),
{
    let t = json_of_record(r);
    assert(t.subrange(0, t.len() as int) =~= t);
    lemma_parse_record_round(r, t, 0);
}

/// Round trip for record lists: the JSON text of any list of records decodes
/// back to exactly that list.
pub proof fn lemma_codec_round_trip(rs: Seq<RecordV>)
    requires
        forall|j: int| 0 <= j < rs.len() ==> record_in_range(#[trigger] rs[j]),
    ensures
        list_text_records(json_of_records(rs)) == Some(rs),
{
    let t = json_of_records(rs);
    let body = json_of_record_list(rs);
    assert(t =~= seq!['['] + (body + seq![']']));
    assert(at_seg(t, 0, t)) by {
        assert(t.subrange(0, t.len() as int) =~= t);
    }
    lemma_at_seg_split(t, 0, seq!['['], body + seq![']']);
    lemma_at_seg_split(t, 1, body, seq![']']);
    lemma_at_seg_index(t, 0, seq!['['], 0);
    lemma_at_seg_index(t, 1 + body.len() as int, seq![']'], 0);
    if rs.len() == 0 {
        assert(body.len() == 0);
        assert(t.len() == 2);
        assert(t[1] == ']');
    } else {
        assert(body[0] == '{') by {
            let jr = json_of_record(rs[0]);
            assert(jr[0] == '{');
            if rs.len() == 1 {
            } else {
                assert(body == jr + seq![','] + json_of_record_list(rs.drop_first()));
            }
        }
        lemma_at_seg_index(t, 1, body, 0);
        assert(t[1] == '{');
        lemma_parse_record_items_round(rs, t, 1);
    }
}

/// Round trip at the level of concrete records: the JSON text of any list of
/// records, as `encode_all` and `encode` produce it, denotes exactly those
/// records again.
pub proof fn lemma_encode_decode_records(entries: Seq<Record>)
    ensures
        list_text_records(json_of_records(records_view(entries))) == Some(records_view(entries)),
{
    let views = records_view(entries);
    assert forall|j: int| 0 <= j < views.len() implies record_in_range(#[trigger] views[j]) by {
        lemma_record_view_in_range(entries[j]);
    }
    lemma_codec_round_trip(views);
}

} // verus!
