//! The query language: typed field handles and the predicate algebra built
//! over them.

use vstd::prelude::*;
use crate::value::{Value, ValueV};

pub mod combinators;

pub mod translate;

pub use combinators::{True, False, Ne, Gt, Lt, And, Or, Xor, Not, Expr, ExprV, Query};

verus! {

/// A handle naming one field of a record: a dotted path such as
/// `isbn.value`. Handles compose with [`Field::chain`] for nested access.
pub struct Field {
    name: String,
}

impl View for Field {
    type V = Seq<char>;

    closed spec fn view(&self) -> Seq<char> {
        self.name@
    }
}

impl Clone for Field {
    /// A clone denotes the same field.
    fn clone(&self) -> (r: Self)
        ensures
            r@ == self@,
    {
        Field { name: self.name.clone() }
    }
}

impl Field {
    /// A handle for the field of the given name.
    pub fn new(name: &str) -> (f: Field)
        ensures
            f@ == name@,
    {
        Field { name: name.to_owned() }
    }

    /// The dotted path this handle names.
    pub fn name(&self) -> (n: &str)
        ensures
            n@ == self@,
    {
        self.name.as_str()
    }

    /// Compose two handles: the result names `"{outer}.{inner}"` and reads
    /// the inner field of the outer one.
    pub fn chain(&self, inner: &Field) -> (f: Field)
        ensures
            f@ == self@ + "."@ + inner@,
    {
        let mut name = self.name.clone();
        name.append(".");
        name.append(inner.name.as_str());
        Field { name }
    }

    /// The predicate that this field holds exactly the given value.
    pub fn eq(&self, value: Value) -> (q: combinators::Eq)
        ensures
            q@ == ExprV::Eq(self@, value@),
    {
        combinators::Eq { field: self.clone(), value }
    }

    /// The predicate that this field holds some other value than the given
    /// one.
    pub fn ne(&self, value: Value) -> (q: Ne)
        ensures
            q@ == ExprV::Ne(self@, value@),
    {
        Ne { field: self.clone(), value }
    }

    /// The predicate that this field holds a value strictly above the given
    /// one, in the value ordering.
    pub fn gt(&self, value: Value) -> (q: Gt)
        ensures
            q@ == ExprV::Gt(self@, value@),
    {
        Gt { field: self.clone(), value }
    }

    /// The predicate that this field holds a value strictly below the given
    /// one, in the value ordering.
    pub fn lt(&self, value: Value) -> (q: Lt)
        ensures
            q@ == ExprV::Lt(self@, value@),
    {
        Lt { field: self.clone(), value }
    }
}

} // verus!
