//! The predicate algebra: leaves over field handles, Boolean combinators,
//! and local evaluation against a record.

use vstd::prelude::*;
use crate::value::{
    Record, RecordV, Value, ValueV, chars_to_string, lookup_spec, str_of, string_to_chars,
    stringify, value_lt_spec,
};
use crate::query::Field;

verus! {

/// Mathematical view of a query: the abstract syntax tree over field names
/// and value views.
#[verifier::ext_equal]
pub enum ExprV {
    True,
    False,
    Eq(Seq<char>, ValueV),
    Ne(Seq<char>, ValueV),
    Gt(Seq<char>, ValueV),
    Lt(Seq<char>, ValueV),
    And(Box<ExprV>, Box<ExprV>),
    Or(Box<ExprV>, Box<ExprV>),
    Xor(Box<ExprV>, Box<ExprV>),
    Not(Box<ExprV>),
}

/// What a query means: whether the given record matches it.
pub open spec fn eval_expr(q: ExprV, r: RecordV) -> bool
    decreases q,
{
    match q {
        ExprV::True => true,
        ExprV::False => false,
        ExprV::Eq(name, v) => lookup_spec(r, name) == Some(v),
        ExprV::Ne(name, v) => match lookup_spec(r, name) {
            Some(u) => u != v,
            None => false,
        },
        ExprV::Gt(name, v) => match lookup_spec(r, name) {
            Some(u) => value_lt_spec(v, u),
            None => false,
        },
        ExprV::Lt(name, v) => match lookup_spec(r, name) {
            Some(u) => value_lt_spec(u, v),
            None => false,
        },
        ExprV::And(a, b) => eval_expr(*a, r) && eval_expr(*b, r),
        ExprV::Or(a, b) => eval_expr(*a, r) || eval_expr(*b, r),
        ExprV::Xor(a, b) => eval_expr(*a, r) != eval_expr(*b, r),
        ExprV::Not(a) => !eval_expr(*a, r),
    }
}

/// The predicate that matches every record.
pub struct True;

/// The predicate that matches no record.
pub struct False;

/// The predicate that a field holds exactly a value.
pub struct Eq {
    pub field: Field,
    pub value: Value,
}

/// The predicate that a field holds some other value.
pub struct Ne {
    pub field: Field,
    pub value: Value,
}

/// The predicate that a field holds a strictly greater value.
pub struct Gt {
    pub field: Field,
    pub value: Value,
}

/// The predicate that a field holds a strictly smaller value.
pub struct Lt {
    pub field: Field,
    pub value: Value,
}

/// Conjunction of two queries.
pub struct And(pub Box<Expr>, pub Box<Expr>);

/// Disjunction of two queries.
pub struct Or(pub Box<Expr>, pub Box<Expr>);

/// Exclusive disjunction of two queries.
pub struct Xor(pub Box<Expr>, pub Box<Expr>);

/// Negation of a query.
pub struct Not(pub Box<Expr>);

/// A query of any shape, as one owned tree. Residues of a translation are
/// lists of these.
pub enum Expr {
    True(True),
    False(False),
    Eq(Eq),
    Ne(Ne),
    Gt(Gt),
    Lt(Lt),
    And(And),
    Or(Or),
    Xor(Xor),
    Not(Not),
}

/// The view of a query tree.
pub open spec fn expr_view(e: Expr) -> ExprV
    decreases e,
{
    match e {
        Expr::True(_) => ExprV::True,
        Expr::False(_) => ExprV::False,
        Expr::Eq(q) => ExprV::Eq(q.field@, q.value@),
        Expr::Ne(q) => ExprV::Ne(q.field@, q.value@),
        Expr::Gt(q) => ExprV::Gt(q.field@, q.value@),
        Expr::Lt(q) => ExprV::Lt(q.field@, q.value@),
        Expr::And(q) => ExprV::And(Box::new(expr_view(*q.0)), Box::new(expr_view(*q.1))),
        Expr::Or(q) => ExprV::Or(Box::new(expr_view(*q.0)), Box::new(expr_view(*q.1))),
        Expr::Xor(q) => ExprV::Xor(Box::new(expr_view(*q.0)), Box::new(expr_view(*q.1))),
        Expr::Not(q) => ExprV::Not(Box::new(expr_view(*q.0))),
    }
}

impl View for Expr {
    type V = ExprV;

    open spec fn view(&self) -> ExprV {
        expr_view(*self)
    }
}

impl View for True {
    type V = ExprV;

    open spec fn view(&self) -> ExprV {
        ExprV::True
    }
}

impl View for False {
    type V = ExprV;

    open spec fn view(&self) -> ExprV {
        ExprV::False
    }
}

impl View for Eq {
    type V = ExprV;

    open spec fn view(&self) -> ExprV {
        ExprV::Eq(self.field@, self.value@)
    }
}

impl View for Ne {
    type V = ExprV;

    open spec fn view(&self) -> ExprV {
        ExprV::Ne(self.field@, self.value@)
    }
}

impl View for Gt {
    type V = ExprV;

    open spec fn view(&self) -> ExprV {
        ExprV::Gt(self.field@, self.value@)
    }
}

impl View for Lt {
    type V = ExprV;

    open spec fn view(&self) -> ExprV {
        ExprV::Lt(self.field@, self.value@)
    }
}

impl View for And {
    type V = ExprV;

    open spec fn view(&self) -> ExprV {
        ExprV::And(Box::new((*self.0)@), Box::new((*self.1)@))
    }
}

impl View for Or {
    type V = ExprV;

    open spec fn view(&self) -> ExprV {
        ExprV::Or(Box::new((*self.0)@), Box::new((*self.1)@))
    }
}

impl View for Xor {
    type V = ExprV;

    open spec fn view(&self) -> ExprV {
        ExprV::Xor(Box::new((*self.0)@), Box::new((*self.1)@))
    }
}

impl View for Not {
    type V = ExprV;

    open spec fn view(&self) -> ExprV {
        ExprV::Not(Box::new((*self.0)@))
    }
}

impl Clone for Eq {
    /// A clone denotes the same predicate.
    fn clone(&self) -> (r: Self)
        ensures
            r@ == self@,
    {
        Eq { field: self.field.clone(), value: self.value.clone() }
    }
}

impl Clone for Ne {
    /// A clone denotes the same predicate.
    fn clone(&self) -> (r: Self)
        ensures
            r@ == self@,
    {
        Ne { field: self.field.clone(), value: self.value.clone() }
    }
}

impl Clone for Gt {
    /// A clone denotes the same predicate.
    fn clone(&self) -> (r: Self)
        ensures
            r@ == self@,
    {
        Gt { field: self.field.clone(), value: self.value.clone() }
    }
}

impl Clone for Lt {
    /// A clone denotes the same predicate.
    fn clone(&self) -> (r: Self)
        ensures
            r@ == self@,
    {
        Lt { field: self.field.clone(), value: self.value.clone() }
    }
}

impl Clone for True {
    /// A clone denotes the same predicate.
    fn clone(&self) -> (r: Self)
        ensures
            r@ == self@,
    {
        True
    }
}

impl Clone for False {
    /// A clone denotes the same predicate.
    fn clone(&self) -> (r: Self)
        ensures
            r@ == self@,
    {
        False
    }
}

impl Clone for And {
    /// A clone denotes the same predicate.
    fn clone(&self) -> (r: Self)
        ensures
            r@ == self@,
    {
        And(Box::new((*self.0).clone()), Box::new((*self.1).clone()))
    }
}

impl Clone for Or {
    /// A clone denotes the same predicate.
    fn clone(&self) -> (r: Self)
        ensures
            r@ == self@,
    {
        Or(Box::new((*self.0).clone()), Box::new((*self.1).clone()))
    }
}

impl Clone for Xor {
    /// A clone denotes the same predicate.
    fn clone(&self) -> (r: Self)
        ensures
            r@ == self@,
    {
        Xor(Box::new((*self.0).clone()), Box::new((*self.1).clone()))
    }
}

impl Clone for Not {
    /// A clone denotes the same predicate.
    fn clone(&self) -> (r: Self)
        ensures
            r@ == self@,
    {
        Not(Box::new((*self.0).clone()))
    }
}

/// Evaluate an equality leaf against a record.
fn eval_eq(field: &Field, value: &Value, data: &Record) -> (r: bool)
    ensures
        r == eval_expr(ExprV::Eq(field@, value@), data@),
{
    match data.get(field.name()) {
        Some(u) => u.equals(value),
        None => false,
    }
}

/// Evaluate an inequality leaf against a record.
fn eval_ne(field: &Field, value: &Value, data: &Record) -> (r: bool)
    ensures
        r == eval_expr(ExprV::Ne(field@, value@), data@),
{
    match data.get(field.name()) {
        Some(u) => !u.equals(value),
        None => false,
    }
}

/// Evaluate a greater-than leaf against a record.
fn eval_gt(field: &Field, value: &Value, data: &Record) -> (r: bool)
    ensures
        r == eval_expr(ExprV::Gt(field@, value@), data@),
{
    match data.get(field.name()) {
        Some(u) => crate::value::value_lt(value, u),
        None => false,
    }
}

/// Evaluate a less-than leaf against a record.
fn eval_lt(field: &Field, value: &Value, data: &Record) -> (r: bool)
    ensures
        r == eval_expr(ExprV::Lt(field@, value@), data@),
{
    match data.get(field.name()) {
        Some(u) => crate::value::value_lt(u, value),
        None => false,
    }
}

impl Expr {
    /// Whether the given record matches this query.
    pub fn eval(&self, data: &Record) -> (r: bool)
        ensures
            r == eval_expr(self@, data@),
        decreases self,
    {
        match self {
            Expr::True(_) => true,
            Expr::False(_) => false,
            Expr::Eq(q) => eval_eq(&q.field, &q.value, data),
            Expr::Ne(q) => eval_ne(&q.field, &q.value, data),
            Expr::Gt(q) => eval_gt(&q.field, &q.value, data),
            Expr::Lt(q) => eval_lt(&q.field, &q.value, data),
            Expr::And(q) => q.0.eval(data) && q.1.eval(data),
            Expr::Or(q) => q.0.eval(data) || q.1.eval(data),
            Expr::Xor(q) => {
                let a = q.0.eval(data);
                let b = q.1.eval(data);
                a != b
            },
            Expr::Not(q) => !q.0.eval(data),
        }
    }

    /// The conjunction of this query and another.
    pub fn and(self, other: Expr) -> (r: Expr)
        ensures
            r@ == ExprV::And(Box::new(self@), Box::new(other@)),
    {
        Expr::And(And(Box::new(self), Box::new(other)))
    }

    /// The disjunction of this query and another.
    pub fn or(self, other: Expr) -> (r: Expr)
        ensures
            r@ == ExprV::Or(Box::new(self@), Box::new(other@)),
    {
        Expr::Or(Or(Box::new(self), Box::new(other)))
    }

    /// The exclusive disjunction of this query and another.
    pub fn xor(self, other: Expr) -> (r: Expr)
        ensures
            r@ == ExprV::Xor(Box::new(self@), Box::new(other@)),
    {
        Expr::Xor(Xor(Box::new(self), Box::new(other)))
    }

    /// The negation of this query.
    pub fn negate(self) -> (r: Expr)
        ensures
            r@ == ExprV::Not(Box::new(self@)),
    {
        Expr::Not(Not(Box::new(self)))
    }
}

impl Clone for Expr {
    /// A clone denotes the same query.
    fn clone(&self) -> (r: Self)
        ensures
            r@ == self@,
        decreases self,
    {
        match self {
            Expr::True(_) => Expr::True(True),
            Expr::False(_) => Expr::False(False),
            Expr::Eq(q) => Expr::Eq(Eq { field: q.field.clone(), value: q.value.clone() }),
            Expr::Ne(q) => Expr::Ne(Ne { field: q.field.clone(), value: q.value.clone() }),
            Expr::Gt(q) => Expr::Gt(Gt { field: q.field.clone(), value: q.value.clone() }),
            Expr::Lt(q) => Expr::Lt(Lt { field: q.field.clone(), value: q.value.clone() }),
            Expr::And(q) => Expr::And(And(Box::new((*q.0).clone()), Box::new((*q.1).clone()))),
            Expr::Or(q) => Expr::Or(Or(Box::new((*q.0).clone()), Box::new((*q.1).clone()))),
            Expr::Xor(q) => Expr::Xor(Xor(Box::new((*q.0).clone()), Box::new((*q.1).clone()))),
            Expr::Not(q) => Expr::Not(Not(Box::new((*q.0).clone()))),
        }
    }
}

/// A predicate over records, locally evaluable.
pub trait Query {
    /// The abstract syntax tree this predicate denotes.
    spec fn qv(&self) -> ExprV;

    /// Whether the given record matches this predicate.
    fn evaluate(&self, data: &Record) -> (r: bool)
        ensures
            r == eval_expr(self.qv(), data@),
    ;
}

impl Query for True {
    open spec fn qv(&self) -> ExprV {
        self@
    }

    fn evaluate(&self, data: &Record) -> (r: bool) {
        true
    }
}

impl Query for False {
    open spec fn qv(&self) -> ExprV {
        self@
    }

    fn evaluate(&self, data: &Record) -> (r: bool) {
        false
    }
}

impl Query for Eq {
    open spec fn qv(&self) -> ExprV {
        self@
    }

    fn evaluate(&self, data: &Record) -> (r: bool) {
        eval_eq(&self.field, &self.value, data)
    }
}

impl Query for Ne {
    open spec fn qv(&self) -> ExprV {
        self@
    }

    fn evaluate(&self, data: &Record) -> (r: bool) {
        eval_ne(&self.field, &self.value, data)
    }
}

impl Query for Gt {
    open spec fn qv(&self) -> ExprV {
        self@
    }

    fn evaluate(&self, data: &Record) -> (r: bool) {
        eval_gt(&self.field, &self.value, data)
    }
}

impl Query for Lt {
    open spec fn qv(&self) -> ExprV {
        self@
    }

    fn evaluate(&self, data: &Record) -> (r: bool) {
        eval_lt(&self.field, &self.value, data)
    }
}

impl Query for And {
    open spec fn qv(&self) -> ExprV {
        self@
    }

    fn evaluate(&self, data: &Record) -> (r: bool) {
        self.0.eval(data) && self.1.eval(data)
    }
}

impl Query for Or {
    open spec fn qv(&self) -> ExprV {
        self@
    }

    fn evaluate(&self, data: &Record) -> (r: bool) {
        self.0.eval(data) || self.1.eval(data)
    }
}

impl Query for Xor {
    open spec fn qv(&self) -> ExprV {
        self@
    }

    fn evaluate(&self, data: &Record) -> (r: bool) {
        let a = self.0.eval(data);
        let b = self.1.eval(data);
        a != b
    }
}

impl Query for Not {
    open spec fn qv(&self) -> ExprV {
        self@
    }

    fn evaluate(&self, data: &Record) -> (r: bool) {
        !self.0.eval(data)
    }
}

impl Query for Expr {
    open spec fn qv(&self) -> ExprV {
        self@
    }

    fn evaluate(&self, data: &Record) -> (r: bool) {
        self.eval(data)
    }
}

/// Conversions from each predicate shape into the owned query tree.
impl Eq {
    /// This predicate as an owned query tree.
    pub fn into_expr(self) -> (r: Expr)
        ensures
            r@ == self@,
    {
        Expr::Eq(self)
    }
}

impl Ne {
    /// This predicate as an owned query tree.
    pub fn into_expr(self) -> (r: Expr)
        ensures
            r@ == self@,
    {
        Expr::Ne(self)
    }
}

impl Gt {
    /// This predicate as an owned query tree.
    pub fn into_expr(self) -> (r: Expr)
        ensures
            r@ == self@,
    {
        Expr::Gt(self)
    }
}

impl Lt {
    /// This predicate as an owned query tree.
    pub fn into_expr(self) -> (r: Expr)
        ensures
            r@ == self@,
    {
        Expr::Lt(self)
    }
}

impl True {
    /// This predicate as an owned query tree.
    pub fn into_expr(self) -> (r: Expr)
        ensures
            r@ == self@,
    {
        Expr::True(self)
    }
}

impl False {
    /// This predicate as an owned query tree.
    pub fn into_expr(self) -> (r: Expr)
        ensures
            r@ == self@,
    {
        Expr::False(self)
    }
}

/// Local evaluation agrees with the naive reading of each combinator: a
/// conjunction holds exactly when both sides hold, a disjunction when either
/// side holds, an exclusive disjunction when the sides disagree, and a
/// negation when the inner query fails.
pub proof fn lemma_eval_combinators(a: ExprV, b: ExprV, r: RecordV)
    ensures
        eval_expr(ExprV::And(Box::new(a), Box::new(b)), r) == (eval_expr(a, r) && eval_expr(b, r)),
        eval_expr(ExprV::Or(Box::new(a), Box::new(b)), r) == (eval_expr(a, r) || eval_expr(b, r)),
        eval_expr(ExprV::Xor(Box::new(a), Box::new(b)), r) == (eval_expr(a, r) != eval_expr(b, r)),
        eval_expr(ExprV::Not(Box::new(a)), r) == !eval_expr(a, r),
        eval_expr(ExprV::True, r) == true,
        eval_expr(ExprV::False, r) == false,
{
}

/// The compact rendering of a query: infix operators between rendered
/// operands, names from the field handles, values in their parameter-string
/// form, negation with the negated query in parentheses.
pub open spec fn render_spec(e: ExprV) -> Seq<char>
    decreases e,
{
    match e {
        ExprV::True => seq!['t', 'r', 'u', 'e'],
        ExprV::False => seq!['f', 'a', 'l', 's', 'e'],
        ExprV::Eq(n, v) => n + seq![' ', '=', ' '] + str_of(v),
        ExprV::Ne(n, v) => n + seq![' ', '!', '=', ' '] + str_of(v),
        ExprV::Gt(n, v) => n + seq![' ', '>', ' '] + str_of(v),
        ExprV::Lt(n, v) => n + seq![' ', '<', ' '] + str_of(v),
        ExprV::And(a, b) => render_spec(*a) + seq![' ', '&', ' '] + render_spec(*b),
        ExprV::Or(a, b) => render_spec(*a) + seq![' ', '|', ' '] + render_spec(*b),
        ExprV::Xor(a, b) => render_spec(*a) + seq![' ', '^', ' '] + render_spec(*b),
        ExprV::Not(a) => seq!['!', '('] + render_spec(*a) + seq![')'],
    }
}

/// Append one rendered leaf: the field name, an operator, the value's form.
fn render_leaf(field: &Field, op: &str, value: &Value, out: &mut Vec<char>)
    ensures
        final(out)@ == old(out)@ + field@ + op@ + str_of(value@),
{
    let mut name = string_to_chars(field.name());
    out.append(&mut name);
    let mut middle = string_to_chars(op);
    out.append(&mut middle);
    let text = stringify(value);
    let mut text = string_to_chars(text.as_str());
    out.append(&mut text);
    proof {
        assert(out@ =~= old(out)@ + field@ + op@ + str_of(value@));
    }
}

/// Append the rendered form of a query.
fn render_into(e: &Expr, out: &mut Vec<char>)
    ensures
        final(out)@ == old(out)@ + render_spec(e@),
    decreases e,
{
    match e {
        Expr::True(_) => {
            out.push('t');
            out.push('r');
            out.push('u');
            out.push('e');
            proof {
                assert(out@ =~= old(out)@ + render_spec(e@));
            }
        },
        Expr::False(_) => {
            out.push('f');
            out.push('a');
            out.push('l');
            out.push('s');
            out.push('e');
            proof {
                assert(out@ =~= old(out)@ + render_spec(e@));
            }
        },
        Expr::Eq(q) => {
            render_leaf(&q.field, " = ", &q.value, out);
            proof {
                reveal_strlit(" = ");
                assert(" = "@ =~= seq![' ', '=', ' ']);
            }
        },
        Expr::Ne(q) => {
            render_leaf(&q.field, " != ", &q.value, out);
            proof {
                reveal_strlit(" != ");
                assert(" != "@ =~= seq![' ', '!', '=', ' ']);
            }
        },
        Expr::Gt(q) => {
            render_leaf(&q.field, " > ", &q.value, out);
            proof {
                reveal_strlit(" > ");
                assert(" > "@ =~= seq![' ', '>', ' ']);
            }
        },
        Expr::Lt(q) => {
            render_leaf(&q.field, " < ", &q.value, out);
            proof {
                reveal_strlit(" < ");
                assert(" < "@ =~= seq![' ', '<', ' ']);
            }
        },
        Expr::And(q) => {
            render_into(&q.0, out);
            out.push(' ');
            out.push('&');
            out.push(' ');
            render_into(&q.1, out);
            proof {
                assert(out@ =~= old(out)@ + render_spec(e@));
            }
        },
        Expr::Or(q) => {
            render_into(&q.0, out);
            out.push(' ');
            out.push('|');
            out.push(' ');
            render_into(&q.1, out);
            proof {
                assert(out@ =~= old(out)@ + render_spec(e@));
            }
        },
        Expr::Xor(q) => {
            render_into(&q.0, out);
            out.push(' ');
            out.push('^');
            out.push(' ');
            render_into(&q.1, out);
            proof {
                assert(out@ =~= old(out)@ + render_spec(e@));
            }
        },
        Expr::Not(q) => {
            out.push('!');
            out.push('(');
            render_into(&q.0, out);
            out.push(')');
            proof {
                assert(out@ =~= old(out)@ + render_spec(e@));
            }
        },
    }
}

impl Expr {
    /// The compact rendering of this query, with infix operators.
    pub fn render(&self) -> (s: String)
        ensures
            s@ == render_spec(self@),
    {
        let mut out: Vec<char> = Vec::new();
        render_into(self, &mut out);
        proof {
            assert(Seq::<char>::empty() + render_spec(self@) =~= render_spec(self@));
        }
        chars_to_string(&out)
    }
}

} // verus!
