//! Lowering queries into a backend's native filter form, with an explicit
//! residue of sub-queries the backend cannot evaluate itself.

use vstd::prelude::*;
use crate::query::combinators::{Expr, ExprV, expr_view};

pub mod http;

verus! {

/// Key-value pairs ready to be serialized as HTTP parameters.
///
/// Duplicate keys are kept and key order is preserved: not every endpoint
/// treats either as free of meaning, and this library refuses to assume so.
pub type HttpQuery = Vec<(String, String)>;

/// A pair of character sequences: the view of one HTTP parameter.
pub type PairV = (Seq<char>, Seq<char>);

/// The view of a list of HTTP parameters.
pub open spec fn pairs_view(s: Seq<(String, String)>) -> Seq<PairV> {
    Seq::new(s.len(), |i: int| (s[i].0@, s[i].1@))
}

/// The view of a residue: the trees its queries denote, in order.
pub open spec fn residue_view(s: Seq<Expr>) -> Seq<ExprV> {
    Seq::new(s.len(), |i: int| expr_view(s[i]))
}

/// A single-request translation: the native form to send, and the residue of
/// sub-queries that must still be evaluated locally on every fetched record.
/// An empty residue signals a total translation; a non-empty residue means
/// the native form fetches a superset of the desired records.
pub struct Single {
    /// The native form: HTTP parameters.
    pub query: HttpQuery,
    /// The sub-queries left for local evaluation.
    pub residue: Vec<Expr>,
}

/// Views distribute over concatenation of parameter lists.
pub proof fn lemma_pairs_view_add(a: Seq<(String, String)>, b: Seq<(String, String)>)
    ensures
        pairs_view(a + b) == pairs_view(a) + pairs_view(b),
{
    assert(pairs_view(a + b) =~= pairs_view(a) + pairs_view(b));
}

/// Views distribute over concatenation of residues.
pub proof fn lemma_residue_view_add(a: Seq<Expr>, b: Seq<Expr>)
    ensures
        residue_view(a + b) == residue_view(a) + residue_view(b),
{
    assert(residue_view(a + b) =~= residue_view(a) + residue_view(b));
}

} // verus!
