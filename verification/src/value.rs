//! The plain values and records that queries inspect, sources yield and
//! sinks consume, together with their mathematical views.

use vstd::prelude::*;

verus! {

broadcast use
    vstd::std_specs::vec::axiom_vec_index_decreases,
    vstd::seq_lib::lemma_seq_skip_index,
    vstd::seq_lib::lemma_seq_skip_len;

/// Mathematical view of a [`Value`].
#[verifier::ext_equal]
pub enum ValueV {
    Str(Seq<char>),
    Int(int),
    Bool(bool),
    List(Seq<ValueV>),
}

/// A plain field value: a string, a signed integer, a boolean, or a list of
/// further values.
#[derive(Debug, PartialEq)]
pub enum Value {
    Str(String),
    Int(i64),
    Bool(bool),
    List(Vec<Value>),
}

/// The view of a [`Value`]: strings become character sequences, integers
/// become mathematical integers.
pub open spec fn value_view(v: Value) -> ValueV
    decreases v,
{
    match v {
        Value::Str(s) => ValueV::Str(s@),
        Value::Int(i) => ValueV::Int(i as int),
        Value::Bool(b) => ValueV::Bool(b),
        Value::List(l) => ValueV::List(
            Seq::new(
                l.len() as nat,
                |i: int|
                    if 0 <= i < l.len() {
                        value_view(l[i])
                    } else {
                        ValueV::Bool(false)
                    },
            ),
        ),
    }
}

impl View for Value {
    type V = ValueV;

    open spec fn view(&self) -> ValueV {
        value_view(*self)
    }
}

impl Clone for Value {
    /// A clone denotes the same value.
    #[verifier::loop_isolation(false)]
    fn clone(&self) -> (r: Self)
        ensures
            r@ == self@,
        decreases self,
    {
        match self {
            Value::Str(s) => Value::Str(s.clone()),
            Value::Int(i) => Value::Int(*i),
            Value::Bool(b) => Value::Bool(*b),
            Value::List(l) => {
                let mut out: Vec<Value> = Vec::new();
                let mut i: usize = 0;
                while i < l.len()
                    invariant
                        i <= l.len(),
                        out.len() == i,
                        forall|j: int| 0 <= j < i ==> value_view(out[j]) == value_view(l[j]),
                    decreases l.len() - i,
                {
                    let e = l[i].clone();
                    out.push(e);
                    i = i + 1;
                }
                proof {
                    assert(value_view(Value::List(out)) == value_view(*self)) by {
                        let s1 = value_view(Value::List(out))->List_0;
                        let s2 = value_view(*self)->List_0;
                        assert(s1 =~= s2);
                    }
                }
                Value::List(out)
            },
        }
    }
}

impl Value {
    /// Build a string value from a string slice.
    pub fn str(s: &str) -> (v: Value)
        ensures
            v@ == ValueV::Str(s@),
    {
        Value::Str(s.to_owned())
    }

    /// Whether two values are equal, in the sense of their views.
    #[verifier::loop_isolation(false)]
    pub fn equals(&self, other: &Value) -> (r: bool)
        ensures
            r == (self@ == other@),
        decreases self,
    {
        match (self, other) {
            (Value::Str(x), Value::Str(y)) => *x == *y,
            (Value::Int(x), Value::Int(y)) => *x == *y,
            (Value::Bool(x), Value::Bool(y)) => *x == *y,
            (Value::List(x), Value::List(y)) => {
                if x.len() != y.len() {
                    proof {
                        assert(self@->List_0.len() != other@->List_0.len());
                    }
                    false
                } else {
                    let mut i: usize = 0;
                    let mut all_eq = true;
                    while i < x.len()
                        invariant
                            i <= x.len(),
                            x.len() == y.len(),
                            self@ == value_view(Value::List(*x)),
                            other@ == value_view(Value::List(*y)),
                            all_eq == (forall|j: int|
                                0 <= j < i ==> value_view(x[j]) == value_view(y[j])),
                        decreases x.len() - i,
                    {
                        if !x[i].equals(&y[i]) {
                            proof {
                                assert(value_view(x[i as int]) != value_view(y[i as int]));
                            }
                            all_eq = false;
                        }
                        i = i + 1;
                    }
                    proof {
                        let s1 = self@->List_0;
                        let s2 = other@->List_0;
                        if all_eq {
                            assert(s1 =~= s2);
                        } else {
                            assert(s1 != s2) by {
                                let j = choose|j: int|
                                    0 <= j < x.len() && value_view(x[j]) != value_view(y[j]);
                                assert(s1[j] != s2[j]);
                            }
                        }
                    }
                    all_eq
                }
            },
            _ => {
                proof {
                    lemma_view_variants(*self);
                    lemma_view_variants(*other);
                    assert(self@ != other@);
                }
                false
            },
        }
    }
}

/// The view of a value has the same variant as the value itself.
proof fn lemma_view_variants(v: Value)
    ensures
        v is Str <==> v@ is Str,
        v is Int <==> v@ is Int,
        v is Bool <==> v@ is Bool,
        v is List <==> v@ is List,
{
}

/// The ordering on values that `Gt` and `Lt` predicates use: integers compare
/// numerically; values of any other or of mixed variants are incomparable.
pub open spec fn value_lt_spec(a: ValueV, b: ValueV) -> bool {
    match (a, b) {
        (ValueV::Int(x), ValueV::Int(y)) => x < y,
        _ => false,
    }
}

/// Whether `a` is strictly below `b` in the value ordering.
pub fn value_lt(a: &Value, b: &Value) -> (r: bool)
    ensures
        r == value_lt_spec(a@, b@),
{
    match (a, b) {
        (Value::Int(x), Value::Int(y)) => x < y,
        _ => {
            proof {
                lemma_view_variants(*a);
                lemma_view_variants(*b);
            }
            false
        },
    }
}

/// Whether every integer inside a value view fits a 64-bit signed integer,
/// as every value built from machine integers does.
pub open spec fn value_in_range(v: ValueV) -> bool
    decreases v,
{
    match v {
        ValueV::Int(i) => -0x8000_0000_0000_0000 <= i <= 0x7fff_ffff_ffff_ffff,
        ValueV::List(l) => forall|j: int| 0 <= j < l.len() ==> value_in_range(#[trigger] l[j]),
        _ => true,
    }
}

/// Whether every integer inside a record view fits a 64-bit signed integer.
pub open spec fn record_in_range(r: RecordV) -> bool {
    forall|j: int| 0 <= j < r.len() ==> value_in_range(#[trigger] r[j].1)
}

/// The view of any value is in range.
pub proof fn lemma_value_view_in_range(v: Value)
    ensures
        value_in_range(v@),
    decreases v,
{
    match v {
        Value::List(l) => {
            let s = v@->List_0;
            assert forall|j: int| 0 <= j < s.len() implies value_in_range(#[trigger] s[j]) by {
                assert(s[j] == value_view(l[j]));
                lemma_value_view_in_range(l[j]);
            }
        },
        _ => {},
    }
}

/// The view of any record is in range.
pub proof fn lemma_record_view_in_range(r: Record)
    ensures
        record_in_range(r@),
{
    assert forall|j: int| 0 <= j < r@.len() implies value_in_range(#[trigger] r@[j].1) by {
        assert(r@[j].1 == value_view(r.fields[j].1));
        lemma_value_view_in_range(r.fields[j].1);
    }
}

/// The character for one decimal digit.
pub open spec fn digit_char(d: int) -> char {
    if d == 0 {
        '0'
    } else if d == 1 {
        '1'
    } else if d == 2 {
        '2'
    } else if d == 3 {
        '3'
    } else if d == 4 {
        '4'
    } else if d == 5 {
        '5'
    } else if d == 6 {
        '6'
    } else if d == 7 {
        '7'
    } else if d == 8 {
        '8'
    } else {
        '9'
    }
}

/// The decimal rendering of a natural number, most significant digit first.
pub open spec fn dec_of(n: nat) -> Seq<char>
    decreases n,
{
    if n < 10 {
        seq![digit_char(n as int)]
    } else {
        dec_of(n / 10).push(digit_char((n % 10) as int))
    }
}

/// The decimal rendering of an integer: a leading `-` for negative numbers.
pub open spec fn int_str(i: int) -> Seq<char> {
    if i >= 0 {
        dec_of(i as nat)
    } else {
        seq!['-'] + dec_of((-i) as nat)
    }
}

fn digit_char_exec(d: u64) -> (c: char)
    requires
        d < 10,
    ensures
        c == digit_char(d as int),
{
    match d {
        0 => '0',
        1 => '1',
        2 => '2',
        3 => '3',
        4 => '4',
        5 => '5',
        6 => '6',
        7 => '7',
        8 => '8',
        _ => '9',
    }
}

/// The decimal digits of `n`, most significant first.
fn dec_digits(n: u64) -> (v: Vec<char>)
    ensures
        v@ == dec_of(n as nat),
    decreases n,
{
    if n < 10 {
        let mut v: Vec<char> = Vec::new();
        v.push(digit_char_exec(n));
        proof {
            assert(v@ =~= dec_of(n as nat));
        }
        v
    } else {
        let mut v = dec_digits(n / 10);
        v.push(digit_char_exec(n % 10));
        v
    }
}

/// Relies on `String::push`: appends exactly the given character to the end
/// of the string.
#[verifier::external_body]
pub fn push_char(s: &mut String, c: char)
    ensures
        final(s)@ == old(s)@.push(c),
{
    s.push(c);
}

/// Build a string from a sequence of characters.
#[verifier::loop_isolation(false)]
pub fn chars_to_string(v: &Vec<char>) -> (s: String)
    ensures
        s@ == v@,
{
    let mut s = String::new();
    let mut i: usize = 0;
    while i < v.len()
        invariant
            i <= v.len(),
            s@ == v@.subrange(0, i as int),
        decreases v.len() - i,
    {
        push_char(&mut s, v[i]);
        proof {
            assert(v@.subrange(0, i as int).push(v[i as int]) =~= v@.subrange(0, i + 1));
        }
        i = i + 1;
    }
    proof {
        assert(v@.subrange(0, v.len() as int) =~= v@);
    }
    s
}

/// Collect the characters of a string slice.
#[verifier::loop_isolation(false)]
pub fn string_to_chars(s: &str) -> (v: Vec<char>)
    ensures
        v@ == s@,
{
    let n = s.unicode_len();
    let mut v: Vec<char> = Vec::new();
    let mut i: usize = 0;
    while i < n
        invariant
            i <= n,
            n == s@.len(),
            v@ == s@.subrange(0, i as int),
        decreases n - i,
    {
        v.push(s.get_char(i));
        proof {
            assert(s@.subrange(0, i as int).push(s@[i as int]) =~= s@.subrange(0, i + 1));
        }
        i = i + 1;
    }
    proof {
        assert(s@.subrange(0, n as int) =~= s@);
    }
    v
}

/// The decimal rendering of a signed machine integer.
#[verifier::loop_isolation(false)]
pub fn int_to_string(i: i64) -> (s: String)
    ensures
        s@ == int_str(i as int),
{
    if i >= 0 {
        let digits = dec_digits(i as u64);
        chars_to_string(&digits)
    } else {
        let m: u64 = (-(i as i128)) as u64;
        let digits = dec_digits(m);
        let mut v: Vec<char> = Vec::new();
        v.push('-');
        let mut j: usize = 0;
        while j < digits.len()
            invariant
                j <= digits.len(),
                v@ == seq!['-'] + digits@.subrange(0, j as int),
            decreases digits.len() - j,
        {
            v.push(digits[j]);
            proof {
                assert((seq!['-'] + digits@.subrange(0, j as int)).push(digits[j as int]) =~= seq![
                    '-',
                ] + digits@.subrange(0, j + 1));
            }
            j = j + 1;
        }
        proof {
            assert(digits@.subrange(0, digits.len() as int) =~= digits@);
        }
        chars_to_string(&v)
    }
}

/// The parameter-string form of a value, as used by the HTTP translation:
/// strings stand as they are, integers in decimal, booleans as `true` or
/// `false`, and lists bracketed with comma-separated element forms.
pub open spec fn str_of(v: ValueV) -> Seq<char>
    decreases v,
{
    match v {
        ValueV::Str(s) => s,
        ValueV::Int(i) => int_str(i),
        ValueV::Bool(b) => if b {
            "true"@
        } else {
            "false"@
        },
        ValueV::List(l) => seq!['['] + str_of_list(l) + seq![']'],
    }
}

/// The comma-separated element forms of a list value.
pub open spec fn str_of_list(l: Seq<ValueV>) -> Seq<char>
    decreases l,
{
    if l.len() == 0 {
        seq![]
    } else if l.len() == 1 {
        str_of(l[0])
    } else {
        str_of_list(l.drop_last()) + seq![','] + str_of(l.last())
    }
}

/// Render a value in its parameter-string form.
#[verifier::loop_isolation(false)]
#[verifier::rlimit(50)]
pub fn stringify(v: &Value) -> (s: String)
    ensures
        s@ == str_of(v@),
    decreases v,
{
    match v {
        Value::Str(s) => s.clone(),
        Value::Int(i) => int_to_string(*i),
        Value::Bool(b) => {
            if *b {
                "true".to_owned()
            } else {
                "false".to_owned()
            }
        },
        Value::List(l) => {
            let ghost views = v@->List_0;
            let mut out = String::from_str("[");
            proof {
                reveal_strlit("[");
                assert(out@ =~= seq!['[']);
            }
            let mut i: usize = 0;
            while i < l.len()
                invariant
                    i <= l.len(),
                    views.len() == l.len(),
                    forall|j: int| 0 <= j < l.len() ==> views[j] == value_view(l[j]),
                    out@ == seq!['['] + str_of_list(views.subrange(0, i as int)),
                decreases l.len() - i,
            {
                if i > 0 {
                    push_char(&mut out, ',');
                    proof {
                        assert((seq!['['] + str_of_list(views.subrange(0, i as int))).push(',')
                            =~= seq!['['] + (str_of_list(views.subrange(0, i as int)) + seq![',']));
                    }
                }
                let piece = stringify(&l[i]);
                out.append(piece.as_str());
                proof {
                    let pre = views.subrange(0, i as int);
                    let post = views.subrange(0, i + 1);
                    assert(post.drop_last() =~= pre);
                    assert(post.last() == views[i as int]);
                    if i == 0 {
                        assert(str_of_list(post) == str_of(views[0]));
                        assert(out@ =~= seq!['['] + str_of_list(post));
                    } else {
                        assert(str_of_list(post) == str_of_list(pre) + seq![','] + str_of(
                            views[i as int],
                        ));
                        assert(out@ =~= seq!['['] + str_of_list(post));
                    }
                }
                i = i + 1;
            }
            push_char(&mut out, ']');
            proof {
                assert(views.subrange(0, l.len() as int) =~= views);
                assert(out@ =~= seq!['['] + str_of_list(views) + seq![']']);
            }
            out
        },
    }
}

/// Mathematical view of a [`Record`]: its fields as a sequence of name-value
/// pairs, in order.
pub type RecordV = Seq<(Seq<char>, ValueV)>;

/// A record: an ordered collection of named field values. Nested fields are
/// written with dotted names, such as `isbn.value`.
#[derive(Debug, PartialEq)]
pub struct Record {
    fields: Vec<(String, Value)>,
}

impl View for Record {
    type V = RecordV;

    closed spec fn view(&self) -> RecordV {
        Seq::new(
            self.fields.len() as nat,
            |i: int| (self.fields[i].0@, value_view(self.fields[i].1)),
        )
    }
}

impl Clone for Record {
    /// A clone denotes the same record.
    #[verifier::loop_isolation(false)]
    fn clone(&self) -> (r: Self)
        ensures
            r@ == self@,
    {
        let mut out: Vec<(String, Value)> = Vec::new();
        let mut i: usize = 0;
        while i < self.fields.len()
            invariant
                i <= self.fields.len(),
                out.len() == i,
                forall|j: int|
                    0 <= j < i ==> out[j].0@ == self.fields[j].0@ && value_view(out[j].1)
                        == value_view(self.fields[j].1),
            decreases self.fields.len() - i,
        {
            let name = self.fields[i].0.clone();
            let val = self.fields[i].1.clone();
            out.push((name, val));
            i = i + 1;
        }
        let r = Record { fields: out };
        proof {
            assert(r@ =~= self@);
        }
        r
    }
}

/// The first value held under the given name, if any.
pub open spec fn lookup_spec(r: RecordV, name: Seq<char>) -> Option<ValueV>
    decreases r.len(),
{
    if r.len() == 0 {
        None
    } else if r[0].0 == name {
        Some(r[0].1)
    } else {
        lookup_spec(r.drop_first(), name)
    }
}

impl Record {
    /// An empty record.
    pub fn new() -> (r: Record)
        ensures
            r@ == Seq::<(Seq<char>, ValueV)>::empty(),
    {
        let r = Record { fields: Vec::new() };
        proof {
            assert(r@ =~= Seq::<(Seq<char>, ValueV)>::empty());
        }
        r
    }

    /// Append a field, returning the extended record.
    pub fn field(self, name: &str, value: Value) -> (r: Record)
        ensures
            r@ == self@.push((name@, value@)),
    {
        let mut fields = self.fields;
        fields.push((name.to_owned(), value));
        let r = Record { fields };
        proof {
            assert(r@ =~= self@.push((name@, value@)));
        }
        r
    }

    /// Build a record from a list of named field values.
    pub fn from_fields(fields: Vec<(String, Value)>) -> (r: Record)
        ensures
            r@ == Seq::new(
                fields@.len(),
                |i: int| (fields[i].0@, value_view(fields[i].1)),
            ),
    {
        Record { fields }
    }

    /// The field at the given position.
    pub fn field_at(&self, i: usize) -> (f: &(String, Value))
        requires
            i < self@.len(),
        ensures
            f.0@ == self@[i as int].0,
            f.1@ == self@[i as int].1,
    {
        &self.fields[i]
    }

    /// The number of fields.
    pub fn len(&self) -> (n: usize)
        ensures
            n == self@.len(),
    {
        self.fields.len()
    }

    /// The first value held under the given name, if any.
    #[verifier::loop_isolation(false)]
    pub fn get<'a>(&'a self, name: &str) -> (r: Option<&'a Value>)
        ensures
            match r {
                Some(v) => lookup_spec(self@, name@) == Some(v@),
                None => lookup_spec(self@, name@) is None,
            },
    {
        let key: String = name.to_owned();
        proof {
            assert(self@.skip(0) =~= self@);
        }
        let mut i: usize = 0;
        while i < self.fields.len()
            invariant
                i <= self.fields.len(),
                key@ == name@,
                lookup_spec(self@, name@) == lookup_spec(self@.skip(i as int), name@),
            decreases self.fields.len() - i,
        {
            if self.fields[i].0 == key {
                proof {
                    assert(self@.skip(i as int)[0] == (self.fields[i as int].0@, value_view(
                        self.fields[i as int].1,
                    )));
                }
                return Some(&self.fields[i].1);
            }
            proof {
                assert(self@.skip(i as int).drop_first() =~= self@.skip(i + 1));
            }
            i = i + 1;
        }
        proof {
            assert(self@.skip(self.fields.len() as int).len() == 0);
        }
        None
    }
}

} // verus!
