//! Translation of queries into HTTP parameter form, for use with REST
//! connectors.

use vstd::prelude::*;
use crate::value::{RecordV, Value, ValueV, lookup_spec, str_of, stringify};
use crate::query::Field;
use crate::query::combinators::{
    True, False, Ne, Gt, Lt, And, Or, Xor, Not, Expr, ExprV, Query, eval_expr, expr_view,
};
use crate::query::translate::{
    Single, HttpQuery, PairV, pairs_view, residue_view, lemma_pairs_view_add,
    lemma_residue_view_add,
};

verus! {

broadcast use
    vstd::seq_lib::lemma_seq_contains_after_push,
    vstd::seq_lib::lemma_seq_concat_contains_all_elements,
    vstd::seq_lib::lemma_seq_empty_contains_nothing;

/// The parameters of `a`, kept in order and with duplicates, that also occur
/// in `b`.
pub open spec fn pairs_inter(a: Seq<PairV>, b: Seq<PairV>) -> Seq<PairV>
    decreases a.len(),
{
    if a.len() == 0 {
        Seq::empty()
    } else {
        let rest = pairs_inter(a.drop_last(), b);
        if b.contains(a.last()) {
            rest.push(a.last())
        } else {
            rest
        }
    }
}

/// The native HTTP parameters of a single-request translation.
///
/// An equality becomes one parameter; `And` concatenates both sides; `Or` and
/// `Xor` keep only the parameters common to both sides (any record matching
/// the disjunction matches those); every other node contributes none.
pub open spec fn single_pairs(q: ExprV) -> Seq<PairV>
    decreases q,
{
    match q {
        ExprV::True => Seq::empty(),
        ExprV::False => Seq::empty(),
        ExprV::Eq(name, v) => seq![(name, str_of(v))],
        ExprV::Ne(name, v) => Seq::empty(),
        ExprV::Gt(name, v) => Seq::empty(),
        ExprV::Lt(name, v) => Seq::empty(),
        ExprV::Not(a) => Seq::empty(),
        ExprV::And(a, b) => single_pairs(*a) + single_pairs(*b),
        ExprV::Or(a, b) => pairs_inter(single_pairs(*a), single_pairs(*b)),
        ExprV::Xor(a, b) => pairs_inter(single_pairs(*a), single_pairs(*b)),
    }
}

/// The residue of a single-request translation: the sub-queries the backend
/// cannot evaluate, to be applied locally in this order.
///
/// `True` and equalities translate totally; `False`, inequalities, orderings
/// and negations stay whole as residue; `And` and `Or` concatenate both
/// sides' residues; `Xor` additionally keeps itself.
pub open spec fn single_residue(q: ExprV) -> Seq<ExprV>
    decreases q,
{
    match q {
        ExprV::True => Seq::empty(),
        ExprV::False => seq![q],
        ExprV::Eq(name, v) => Seq::empty(),
        ExprV::Ne(name, v) => seq![q],
        ExprV::Gt(name, v) => seq![q],
        ExprV::Lt(name, v) => seq![q],
        ExprV::Not(a) => seq![q],
        ExprV::And(a, b) => single_residue(*a) + single_residue(*b),
        ExprV::Or(a, b) => single_residue(*a) + single_residue(*b),
        ExprV::Xor(a, b) => single_residue(*a) + single_residue(*b) + seq![q],
    }
}

/// Every row of `y`, each prefixed with the row `x`.
pub open spec fn prod_one(x: Seq<PairV>, y: Seq<Seq<PairV>>) -> Seq<Seq<PairV>>
    decreases y.len(),
{
    if y.len() == 0 {
        Seq::empty()
    } else {
        prod_one(x, y.drop_last()).push(x + y.last())
    }
}

/// The cartesian product of two request lists: every row of `x` concatenated
/// with every row of `y`, in row-major order.
pub open spec fn cart(x: Seq<Seq<PairV>>, y: Seq<Seq<PairV>>) -> Seq<Seq<PairV>>
    decreases x.len(),
{
    if x.len() == 0 {
        Seq::empty()
    } else {
        cart(x.drop_last(), y) + prod_one(x.last(), y)
    }
}

/// The multi-request translation, when one exists: a list of native forms
/// whose union covers the query without residue.
///
/// `True` is one empty request; `False` is no request at all; an equality is
/// one single-parameter request; `And` forms the cartesian product of both
/// sides' requests; `Or` concatenates them; everything else admits no exact
/// translation.
pub open spec fn multi_spec(q: ExprV) -> Option<Seq<Seq<PairV>>>
    decreases q,
{
    match q {
        ExprV::True => Some(seq![Seq::empty()]),
        ExprV::False => Some(Seq::empty()),
        ExprV::Eq(name, v) => Some(seq![seq![(name, str_of(v))]]),
        ExprV::Ne(name, v) => None,
        ExprV::Gt(name, v) => None,
        ExprV::Lt(name, v) => None,
        ExprV::And(a, b) => match (multi_spec(*a), multi_spec(*b)) {
            (Some(x), Some(y)) => Some(cart(x, y)),
            _ => None,
        },
        ExprV::Or(a, b) => match (multi_spec(*a), multi_spec(*b)) {
            (Some(x), Some(y)) => Some(x + y),
            _ => None,
        },
        ExprV::Xor(a, b) => None,
        ExprV::Not(a) => None,
    }
}

/// The view of a list of requests.
pub open spec fn rows_view(v: Seq<HttpQuery>) -> Seq<Seq<PairV>> {
    Seq::new(v.len(), |i: int| pairs_view(v[i]@))
}

/// The view of a multi-request translation result.
pub open spec fn multi_view(r: Option<Vec<HttpQuery>>) -> Option<Seq<Seq<PairV>>> {
    match r {
        None => None,
        Some(v) => Some(rows_view(v@)),
    }
}

/// Translate queries into HTTP parameter form.
pub trait ToHttp: Query {
    /// Translate into a single request: native parameters, plus the residue
    /// that must still be evaluated locally on every fetched record. The
    /// native form selects a superset of the query's matches.
    fn to_http_single(&self) -> (s: Single)
        ensures
            pairs_view(s.query@) == single_pairs(self.qv()),
            residue_view(s.residue@) == single_residue(self.qv()),
    ;

    /// Translate into several requests whose results together cover the query
    /// exactly, or report that no such translation exists. One record may
    /// match several requests; callers that fear duplicates deduplicate.
    fn to_http_multi(&self) -> (r: Option<Vec<HttpQuery>>)
        ensures
            multi_view(r) == multi_spec(self.qv()),
    ;
}

/// A translation with no parameters and no residue.
fn empty_single() -> (out: Single)
    ensures
        pairs_view(out.query@) == Seq::<PairV>::empty(),
        residue_view(out.residue@) == Seq::<ExprV>::empty(),
{
    let out = Single { query: Vec::new(), residue: Vec::new() };
    proof {
        assert(pairs_view(out.query@) =~= Seq::<PairV>::empty());
        assert(residue_view(out.residue@) =~= Seq::<ExprV>::empty());
    }
    out
}

/// A translation with no parameters whose residue is the given query alone.
fn residue_single(e: Expr) -> (out: Single)
    ensures
        pairs_view(out.query@) == Seq::<PairV>::empty(),
        residue_view(out.residue@) == seq![expr_view(e)],
{
    let mut residue: Vec<Expr> = Vec::new();
    residue.push(e);
    let out = Single { query: Vec::new(), residue };
    proof {
        assert(pairs_view(out.query@) =~= Seq::<PairV>::empty());
        assert(residue_view(out.residue@) =~= seq![expr_view(e)]);
    }
    out
}

/// The one-parameter translation of an equality.
fn eq_single(field: &Field, value: &Value) -> (out: Single)
    ensures
        pairs_view(out.query@) == seq![(field@, str_of(value@))],
        residue_view(out.residue@) == Seq::<ExprV>::empty(),
{
    let mut query: HttpQuery = Vec::new();
    query.push((field.name().to_owned(), stringify(value)));
    let out = Single { query, residue: Vec::new() };
    proof {
        assert(pairs_view(out.query@) =~= seq![(field@, str_of(value@))]);
        assert(residue_view(out.residue@) =~= Seq::<ExprV>::empty());
    }
    out
}

/// Combine two single-request translations for a conjunction: concatenate
/// the parameters and the residues.
fn combine_and(l: Single, r: Single) -> (out: Single)
    ensures
        pairs_view(out.query@) == pairs_view(l.query@) + pairs_view(r.query@),
        residue_view(out.residue@) == residue_view(l.residue@) + residue_view(r.residue@),
{
    let Single { query: mut q, residue: mut res } = l;
    let Single { query: mut rq, residue: mut rres } = r;
    q.append(&mut rq);
    res.append(&mut rres);
    proof {
        lemma_pairs_view_add(l.query@, r.query@);
        lemma_residue_view_add(l.residue@, r.residue@);
    }
    Single { query: q, residue: res }
}

/// Whether a parameter with the given view occurs in the list.
#[verifier::loop_isolation(false)]
fn pairs_contain(v: &HttpQuery, p: &(String, String)) -> (r: bool)
    ensures
        r == pairs_view(v@).contains((p.0@, p.1@)),
{
    let ghost target: PairV = (p.0@, p.1@);
    let mut i: usize = 0;
    while i < v.len()
        invariant
            i <= v.len(),
            forall|j: int| 0 <= j < i ==> pairs_view(v@)[j] != target,
        decreases v.len() - i,
    {
        if v[i].0 == p.0 && v[i].1 == p.1 {
            proof {
                assert(pairs_view(v@)[i as int] == target);
            }
            return true;
        }
        i = i + 1;
    }
    proof {
        if pairs_view(v@).contains(target) {
            let j = choose|j: int| 0 <= j < pairs_view(v@).len() && pairs_view(v@)[j] == target;
            assert(false);
        }
    }
    false
}

/// A copy of one parameter.
fn clone_pair(p: &(String, String)) -> (r: (String, String))
    ensures
        r.0@ == p.0@,
        r.1@ == p.1@,
{
    (p.0.clone(), p.1.clone())
}

/// Combine two single-request translations for a disjunction: keep the
/// parameters common to both sides, concatenate the residues.
#[verifier::loop_isolation(false)]
fn combine_or(l: Single, r: Single) -> (out: Single)
    ensures
        pairs_view(out.query@) == pairs_inter(pairs_view(l.query@), pairs_view(r.query@)),
        residue_view(out.residue@) == residue_view(l.residue@) + residue_view(r.residue@),
{
    let ghost pa = pairs_view(l.query@);
    let ghost pb = pairs_view(r.query@);
    let mut kept: HttpQuery = Vec::new();
    let mut i: usize = 0;
    proof {
        assert(pairs_view(kept@) =~= pairs_inter(pa.take(0), pb));
    }
    while i < l.query.len()
        invariant
            i <= l.query.len(),
            pairs_view(kept@) == pairs_inter(pa.take(i as int), pb),
        decreases l.query.len() - i,
    {
        let ghost before = pairs_view(kept@);
        let hit = pairs_contain(&r.query, &l.query[i]);
        if hit {
            let copy = clone_pair(&l.query[i]);
            kept.push(copy);
            proof {
                assert(pairs_view(kept@) =~= before.push(pa[i as int]));
            }
        }
        proof {
            assert(pa.take(i + 1).drop_last() =~= pa.take(i as int));
            assert(pa.take(i + 1).last() == pa[i as int]);
            assert(pairs_view(kept@) == pairs_inter(pa.take(i + 1), pb));
        }
        i = i + 1;
    }
    proof {
        assert(pa.take(l.query.len() as int) =~= pa);
    }
    let Single { query: _, residue: mut res } = l;
    let Single { query: _, residue: mut rres } = r;
    res.append(&mut rres);
    proof {
        lemma_residue_view_add(l.residue@, r.residue@);
    }
    Single { query: kept, residue: res }
}

impl Expr {
    /// Translate this query into a single request.
    pub fn http_single(&self) -> (s: Single)
        ensures
            pairs_view(s.query@) == single_pairs(self@),
            residue_view(s.residue@) == single_residue(self@),
        decreases self,
    {
        match self {
            Expr::True(_) => empty_single(),
            Expr::False(_) => residue_single(self.clone()),
            Expr::Eq(q) => eq_single(&q.field, &q.value),
            Expr::Ne(q) => residue_single(self.clone()),
            Expr::Gt(q) => residue_single(self.clone()),
            Expr::Lt(q) => residue_single(self.clone()),
            Expr::Not(q) => residue_single(self.clone()),
            Expr::And(q) => combine_and(q.0.http_single(), q.1.http_single()),
            Expr::Or(q) => combine_or(q.0.http_single(), q.1.http_single()),
            Expr::Xor(q) => {
                let mut s = combine_or(q.0.http_single(), q.1.http_single());
                let ghost res_before = residue_view(s.residue@);
                s.residue.push(self.clone());
                proof {
                    assert(residue_view(s.residue@) =~= res_before.push(self@));
                    assert(res_before.push(self@) =~= single_residue(self@));
                }
                s
            },
        }
    }

    /// Translate this query into several requests, when an exact translation
    /// exists.
    pub fn http_multi(&self) -> (r: Option<Vec<HttpQuery>>)
        ensures
            multi_view(r) == multi_spec(self@),
        decreases self,
    {
        match self {
            Expr::True(_) => {
                let mut rows: Vec<HttpQuery> = Vec::new();
                rows.push(Vec::new());
                proof {
                    assert(rows_view(rows@) =~= seq![Seq::<PairV>::empty()]) by {
                        assert(rows_view(rows@)[0] =~= Seq::<PairV>::empty());
                    }
                }
                Some(rows)
            },
            Expr::False(_) => {
                let rows: Vec<HttpQuery> = Vec::new();
                proof {
                    assert(rows_view(rows@) =~= Seq::<Seq<PairV>>::empty());
                }
                Some(rows)
            },
            Expr::Eq(q) => {
                let mut row: HttpQuery = Vec::new();
                row.push((q.field.name().to_owned(), stringify(&q.value)));
                let mut rows: Vec<HttpQuery> = Vec::new();
                rows.push(row);
                proof {
                    assert(rows_view(rows@) =~= seq![seq![(q.field@, str_of(q.value@))]]) by {
                        assert(rows_view(rows@)[0] =~= seq![(q.field@, str_of(q.value@))]);
                    }
                }
                Some(rows)
            },
            Expr::Ne(q) => None,
            Expr::Gt(q) => None,
            Expr::Lt(q) => None,
            Expr::Not(q) => None,
            Expr::Xor(q) => None,
            Expr::And(q) => {
                let left = q.0.http_multi();
                let right = q.1.http_multi();
                match (left, right) {
                    (Some(x), Some(y)) => Some(cart_exec(&x, &y)),
                    _ => None,
                }
            },
            Expr::Or(q) => {
                let left = q.0.http_multi();
                let right = q.1.http_multi();
                match (left, right) {
                    (Some(mut x), Some(mut y)) => {
                        let ghost xv = rows_view(x@);
                        let ghost yv = rows_view(y@);
                        x.append(&mut y);
                        proof {
                            assert(rows_view(x@) =~= xv + yv);
                        }
                        Some(x)
                    },
                    _ => None,
                }
            },
        }
    }
}

/// A copy of one request.
#[verifier::loop_isolation(false)]
fn clone_pairs(v: &HttpQuery) -> (r: HttpQuery)
    ensures
        pairs_view(r@) == pairs_view(v@),
{
    let mut out: HttpQuery = Vec::new();
    let mut i: usize = 0;
    while i < v.len()
        invariant
            i <= v.len(),
            out.len() == i,
            forall|j: int| 0 <= j < i ==> out[j].0@ == v[j].0@ && out[j].1@ == v[j].1@,
        decreases v.len() - i,
    {
        let copy = clone_pair(&v[i]);
        out.push(copy);
        i = i + 1;
    }
    proof {
        assert(pairs_view(out@) =~= pairs_view(v@));
    }
    out
}

/// The cartesian product of two request lists, each row of `x` concatenated
/// with each row of `y`.
#[verifier::loop_isolation(false)]
fn cart_exec(x: &Vec<HttpQuery>, y: &Vec<HttpQuery>) -> (r: Vec<HttpQuery>)
    ensures
        rows_view(r@) == cart(rows_view(x@), rows_view(y@)),
{
    let ghost xv = rows_view(x@);
    let ghost yv = rows_view(y@);
    let mut out: Vec<HttpQuery> = Vec::new();
    proof {
        assert(rows_view(out@) =~= cart(xv.take(0), yv));
    }
    let mut i: usize = 0;
    while i < x.len()
        invariant
            i <= x.len(),
            rows_view(out@) == cart(xv.take(i as int), yv),
        decreases x.len() - i,
    {
        let ghost outer_before = rows_view(out@);
        let mut j: usize = 0;
        proof {
            assert(prod_one(xv[i as int], yv.take(0)) =~= Seq::<Seq<PairV>>::empty());
            assert(rows_view(out@) =~= outer_before + prod_one(xv[i as int], yv.take(0)));
        }
        while j < y.len()
            invariant
                j <= y.len(),
                i < x.len(),
                rows_view(out@) == outer_before + prod_one(xv[i as int], yv.take(j as int)),
            decreases y.len() - j,
        {
            let ghost inner_before = rows_view(out@);
            let mut row = clone_pairs(&x[i]);
            let mut tail = clone_pairs(&y[j]);
            let ghost rv = pairs_view(row@);
            let ghost tv = pairs_view(tail@);
            row.append(&mut tail);
            proof {
                assert(pairs_view(row@) =~= rv + tv);
            }
            out.push(row);
            proof {
                assert(rows_view(out@) =~= inner_before.push(xv[i as int] + yv[j as int]));
                assert(yv.take(j + 1).drop_last() =~= yv.take(j as int));
                assert(yv.take(j + 1).last() == yv[j as int]);
                assert(inner_before.push(xv[i as int] + yv[j as int]) =~= outer_before + prod_one(
                    xv[i as int],
                    yv.take(j + 1),
                ));
            }
            j = j + 1;
        }
        proof {
            assert(yv.take(y.len() as int) =~= yv);
            assert(xv.take(i + 1).drop_last() =~= xv.take(i as int));
            assert(xv.take(i + 1).last() == xv[i as int]);
            assert(rows_view(out@) =~= cart(xv.take(i + 1), yv));
        }
        i = i + 1;
    }
    proof {
        assert(xv.take(x.len() as int) =~= xv);
    }
    out
}

impl ToHttp for True {
    /// One empty request: no parameters, no residue.
    fn to_http_single(&self) -> (s: Single) {
        empty_single()
    }

    /// A single request with no parameters.
    fn to_http_multi(&self) -> (r: Option<Vec<HttpQuery>>) {
        let mut rows: Vec<HttpQuery> = Vec::new();
        rows.push(Vec::new());
        proof {
            assert(rows_view(rows@) =~= seq![Seq::<PairV>::empty()]) by {
                assert(rows_view(rows@)[0] =~= Seq::<PairV>::empty());
            }
        }
        Some(rows)
    }
}

impl ToHttp for False {
    /// No parameters; the whole query stays as residue.
    fn to_http_single(&self) -> (s: Single) {
        residue_single(Expr::False(False))
    }

    /// No request at all: the union of zero requests is empty, which is
    /// exactly what this query selects.
    fn to_http_multi(&self) -> (r: Option<Vec<HttpQuery>>) {
        let rows: Vec<HttpQuery> = Vec::new();
        proof {
            assert(rows_view(rows@) =~= Seq::<Seq<PairV>>::empty());
        }
        Some(rows)
    }
}

impl ToHttp for crate::query::combinators::Eq {
    /// One parameter, the field name and the value's string form; no residue.
    fn to_http_single(&self) -> (s: Single) {
        eq_single(&self.field, &self.value)
    }

    /// A single request with that one parameter.
    fn to_http_multi(&self) -> (r: Option<Vec<HttpQuery>>) {
        let mut row: HttpQuery = Vec::new();
        row.push((self.field.name().to_owned(), stringify(&self.value)));
        let mut rows: Vec<HttpQuery> = Vec::new();
        rows.push(row);
        proof {
            assert(rows_view(rows@) =~= seq![seq![(self.field@, str_of(self.value@))]]) by {
                assert(rows_view(rows@)[0] =~= seq![(self.field@, str_of(self.value@))]);
            }
        }
        Some(rows)
    }
}

impl ToHttp for Ne {
    /// No parameters; the whole query stays as residue.
    fn to_http_single(&self) -> (s: Single) {
        residue_single(Expr::Ne(self.clone()))
    }

    /// No exact translation exists.
    fn to_http_multi(&self) -> (r: Option<Vec<HttpQuery>>) {
        None
    }
}

impl ToHttp for Gt {
    /// No parameters; the whole query stays as residue.
    fn to_http_single(&self) -> (s: Single) {
        residue_single(Expr::Gt(self.clone()))
    }

    /// No exact translation exists.
    fn to_http_multi(&self) -> (r: Option<Vec<HttpQuery>>) {
        None
    }
}

impl ToHttp for Lt {
    /// No parameters; the whole query stays as residue.
    fn to_http_single(&self) -> (s: Single) {
        residue_single(Expr::Lt(self.clone()))
    }

    /// No exact translation exists.
    fn to_http_multi(&self) -> (r: Option<Vec<HttpQuery>>) {
        None
    }
}

impl ToHttp for Not {
    /// No parameters; the whole query stays as residue.
    fn to_http_single(&self) -> (s: Single) {
        residue_single(Expr::Not(self.clone()))
    }

    /// No exact translation exists.
    fn to_http_multi(&self) -> (r: Option<Vec<HttpQuery>>) {
        None
    }
}

impl ToHttp for And {
    /// Concatenate both sides' parameters and both sides' residues.
    fn to_http_single(&self) -> (s: Single) {
        combine_and(self.0.http_single(), self.1.http_single())
    }

    /// The cartesian product of both sides' requests. The number of requests
    /// can grow quickly for wide queries.
    fn to_http_multi(&self) -> (r: Option<Vec<HttpQuery>>) {
        let left = self.0.http_multi();
        let right = self.1.http_multi();
        match (left, right) {
            (Some(x), Some(y)) => Some(cart_exec(&x, &y)),
            _ => None,
        }
    }
}

impl ToHttp for Or {
    /// Keep only the parameters both sides agree on; concatenate the
    /// residues.
    fn to_http_single(&self) -> (s: Single) {
        combine_or(self.0.http_single(), self.1.http_single())
    }

    /// Concatenate both sides' requests.
    fn to_http_multi(&self) -> (r: Option<Vec<HttpQuery>>) {
        let left = self.0.http_multi();
        let right = self.1.http_multi();
        match (left, right) {
            (Some(mut x), Some(mut y)) => {
                let ghost xv = rows_view(x@);
                let ghost yv = rows_view(y@);
                x.append(&mut y);
                proof {
                    assert(rows_view(x@) =~= xv + yv);
                }
                Some(x)
            },
            _ => None,
        }
    }
}

impl ToHttp for Xor {
    /// As for `Or`, and the query itself additionally stays as residue: the
    /// exclusive part is only decided locally.
    fn to_http_single(&self) -> (s: Single) {
        let mut s = combine_or(self.0.http_single(), self.1.http_single());
        let ghost res_before = residue_view(s.residue@);
        let copy = Expr::Xor(Xor(Box::new((*self.0).clone()), Box::new((*self.1).clone())));
        s.residue.push(copy);
        proof {
            assert(residue_view(s.residue@) =~= res_before.push(self@));
            assert(res_before.push(self@) =~= single_residue(self@));
        }
        s
    }

    /// No exact translation exists.
    fn to_http_multi(&self) -> (r: Option<Vec<HttpQuery>>) {
        None
    }
}

impl ToHttp for Expr {
    /// Dispatch on the tree's shape; see the per-shape rules.
    fn to_http_single(&self) -> (s: Single) {
        self.http_single()
    }

    /// Dispatch on the tree's shape; see the per-shape rules.
    fn to_http_multi(&self) -> (r: Option<Vec<HttpQuery>>) {
        self.http_multi()
    }
}

/// A record satisfies one native parameter when it holds the named field and
/// that field's value renders to the parameter's string.
pub open spec fn pair_holds(r: RecordV, p: PairV) -> bool {
    match lookup_spec(r, p.0) {
        Some(u) => str_of(u) == p.1,
        None => false,
    }
}

/// A record satisfies a native form when it satisfies every parameter in it.
pub open spec fn pairs_hold(r: RecordV, ps: Seq<PairV>) -> bool {
    forall|i: int| 0 <= i < ps.len() ==> pair_holds(r, #[trigger] ps[i])
}

/// Membership in an intersection of parameter lists: a parameter occurs in
/// `pairs_inter(a, b)` exactly when it occurs in both `a` and `b`.
pub proof fn lemma_pairs_inter_contains(a: Seq<PairV>, b: Seq<PairV>, p: PairV)
    ensures
        pairs_inter(a, b).contains(p) <==> (a.contains(p) && b.contains(p)),
    decreases a.len(),
{
    if a.len() == 0 {
        assert(!a.contains(p));
    } else {
        lemma_pairs_inter_contains(a.drop_last(), b, p);
        assert(a.contains(p) <==> (a.drop_last().contains(p) || a.last() == p)) by {
            if a.contains(p) {
                let i = choose|i: int| 0 <= i < a.len() && a[i] == p;
                if i < a.len() - 1 {
                    assert(a.drop_last()[i] == p);
                    assert(a.drop_last().contains(p));
                }
            }
            if a.drop_last().contains(p) {
                let i = choose|i: int| 0 <= i < a.drop_last().len() && a.drop_last()[i] == p;
                assert(a[i] == p);
            }
            if a.last() == p {
                assert(a[a.len() - 1] == p);
            }
        }
    }
}

/// The parameters of a disjunction's single-request translation are exactly
/// the parameters common to both sides, as sets of pairs.
pub proof fn lemma_or_native_intersection(a: ExprV, b: ExprV)
    ensures
        forall|p: PairV|
            single_pairs(ExprV::Or(Box::new(a), Box::new(b))).contains(p) <==> (single_pairs(
                a,
            ).contains(p) && single_pairs(b).contains(p)),
{
    assert forall|p: PairV|
        single_pairs(ExprV::Or(Box::new(a), Box::new(b))).contains(p) <==> (single_pairs(
            a,
        ).contains(p) && single_pairs(b).contains(p)) by {
        lemma_pairs_inter_contains(single_pairs(a), single_pairs(b), p);
    }
}

/// Translating `True` yields an empty native form and an empty residue in
/// single mode, and exactly one empty request in multi mode.
pub proof fn lemma_true_identity()
    ensures
        single_pairs(ExprV::True) == Seq::<PairV>::empty(),
        single_residue(ExprV::True) == Seq::<ExprV>::empty(),
        multi_spec(ExprV::True) == Some(seq![Seq::<PairV>::empty()]),
{
}

/// Translating an equality yields exactly one parameter, the field's name
/// paired with the value's string form, and no residue.
pub proof fn lemma_eq_round_trip(name: Seq<char>, v: ValueV)
    ensures
        single_pairs(ExprV::Eq(name, v)) == seq![(name, str_of(v))],
        single_residue(ExprV::Eq(name, v)) == Seq::<ExprV>::empty(),
{
}

/// Translating a conjunction concatenates both sides' parameters and both
/// sides' residues.
pub proof fn lemma_and_concatenation(a: ExprV, b: ExprV)
    ensures
        single_pairs(ExprV::And(Box::new(a), Box::new(b))) == single_pairs(a) + single_pairs(b),
        single_residue(ExprV::And(Box::new(a), Box::new(b))) == single_residue(a) + single_residue(
            b,
        ),
{
}

/// Residue completeness: the native form of a single-request translation
/// never excludes a matching record. Every record that matches the query
/// satisfies every parameter of the translation's native form.
pub proof fn lemma_residue_completeness(q: ExprV, r: RecordV)
    requires
        eval_expr(q, r),
    ensures
        pairs_hold(r, single_pairs(q)),
    decreases q,
{
    match q {
        ExprV::Eq(name, v) => {
            assert(single_pairs(q) =~= seq![(name, str_of(v))]);
        },
        ExprV::And(a, b) => {
            lemma_residue_completeness(*a, r);
            lemma_residue_completeness(*b, r);
            assert forall|i: int| 0 <= i < single_pairs(q).len() implies pair_holds(
                r,
                #[trigger] single_pairs(q)[i],
            ) by {
                let pa = single_pairs(*a);
                let pb = single_pairs(*b);
                if i < pa.len() {
                    assert(single_pairs(q)[i] == pa[i]);
                } else {
                    assert(single_pairs(q)[i] == pb[i - pa.len()]);
                }
            }
        },
        ExprV::Or(a, b) => {
            if eval_expr(*a, r) {
                lemma_residue_completeness(*a, r);
            } else {
                lemma_residue_completeness(*b, r);
            }
            lemma_inter_holds(single_pairs(*a), single_pairs(*b), r);
        },
        ExprV::Xor(a, b) => {
            if eval_expr(*a, r) {
                lemma_residue_completeness(*a, r);
            } else {
                lemma_residue_completeness(*b, r);
            }
            lemma_inter_holds(single_pairs(*a), single_pairs(*b), r);
        },
        _ => {},
    }
}

/// A record that satisfies all parameters of either list satisfies all
/// parameters common to both.
proof fn lemma_inter_holds(pa: Seq<PairV>, pb: Seq<PairV>, r: RecordV)
    requires
        pairs_hold(r, pa) || pairs_hold(r, pb),
    ensures
        pairs_hold(r, pairs_inter(pa, pb)),
{
    let inter = pairs_inter(pa, pb);
    assert forall|i: int| 0 <= i < inter.len() implies pair_holds(r, #[trigger] inter[i]) by {
        lemma_pairs_inter_contains(pa, pb, inter[i]);
        assert(inter.contains(inter[i]));
        if pairs_hold(r, pa) {
            let j = choose|j: int| 0 <= j < pa.len() && pa[j] == inter[i];
            assert(pair_holds(r, pa[j]));
        } else {
            let j = choose|j: int| 0 <= j < pb.len() && pb[j] == inter[i];
            assert(pair_holds(r, pb[j]));
        }
    }
}

/// A record satisfies some request of a multi-request translation.
pub open spec fn some_part_holds(r: RecordV, parts: Seq<Seq<PairV>>) -> bool {
    exists|i: int| 0 <= i < parts.len() && pairs_hold(r, #[trigger] parts[i])
}

/// The cartesian product contains the concatenation of any row of `x` with
/// any row of `y`.
proof fn lemma_cart_contains(x: Seq<Seq<PairV>>, y: Seq<Seq<PairV>>, i: int, j: int)
    requires
        0 <= i < x.len(),
        0 <= j < y.len(),
    ensures
        cart(x, y).contains(x[i] + y[j]),
    decreases x.len(),
{
    if i == x.len() - 1 {
        lemma_prod_one_contains(x[i], y, j);
        let k = choose|k: int|
            0 <= k < prod_one(x[i], y).len() && prod_one(x[i], y)[k] == x[i] + y[j];
        assert(cart(x, y)[cart(x.drop_last(), y).len() + k] == x[i] + y[j]);
    } else {
        lemma_cart_contains(x.drop_last(), y, i, j);
        assert(x.drop_last()[i] == x[i]);
        let k = choose|k: int|
            0 <= k < cart(x.drop_last(), y).len() && cart(x.drop_last(), y)[k] == x[i] + y[j];
        assert(cart(x, y)[k] == x[i] + y[j]);
    }
}

/// Prefixing every row of `y` with `row` keeps each of them reachable.
proof fn lemma_prod_one_contains(row: Seq<PairV>, y: Seq<Seq<PairV>>, j: int)
    requires
        0 <= j < y.len(),
    ensures
        prod_one(row, y).contains(row + y[j]),
    decreases y.len(),
{
    if j == y.len() - 1 {
        assert(prod_one(row, y).last() == row + y[j]);
    } else {
        lemma_prod_one_contains(row, y.drop_last(), j);
        assert(y.drop_last()[j] == y[j]);
        let k = choose|k: int|
            0 <= k < prod_one(row, y.drop_last()).len() && prod_one(row, y.drop_last())[k] == row
                + y[j];
        assert(prod_one(row, y)[k] == row + y[j]);
    }
}

/// A record satisfying all pairs of two rows satisfies their concatenation.
proof fn lemma_pairs_hold_concat(r: RecordV, a: Seq<PairV>, b: Seq<PairV>)
    requires
        pairs_hold(r, a),
        pairs_hold(r, b),
    ensures
        pairs_hold(r, a + b),
{
    assert forall|i: int| 0 <= i < (a + b).len() implies pair_holds(r, #[trigger] (a + b)[i]) by {
        if i < a.len() {
            assert((a + b)[i] == a[i]);
        } else {
            assert((a + b)[i] == b[i - a.len()]);
        }
    }
}

/// The multi-request translation misses nothing: when an exact translation
/// exists, every record matching the query satisfies some one of its
/// requests, so the union of the requests' results covers the query.
pub proof fn lemma_multi_covers(q: ExprV, r: RecordV)
    requires
        eval_expr(q, r),
        multi_spec(q) is Some,
    ensures
        some_part_holds(r, multi_spec(q)->0),
    decreases q,
{
    match q {
        ExprV::True => {
            let parts = multi_spec(q)->0;
            assert(pairs_hold(r, parts[0]));
        },
        ExprV::Eq(name, v) => {
            let parts = multi_spec(q)->0;
            assert(parts[0] =~= seq![(name, str_of(v))]);
            assert(pairs_hold(r, parts[0]));
        },
        ExprV::And(a, b) => {
            lemma_multi_covers(*a, r);
            lemma_multi_covers(*b, r);
            let x = multi_spec(*a)->0;
            let y = multi_spec(*b)->0;
            let i = choose|i: int| 0 <= i < x.len() && pairs_hold(r, #[trigger] x[i]);
            let j = choose|j: int| 0 <= j < y.len() && pairs_hold(r, #[trigger] y[j]);
            lemma_cart_contains(x, y, i, j);
            lemma_pairs_hold_concat(r, x[i], y[j]);
            let k = choose|k: int| 0 <= k < cart(x, y).len() && cart(x, y)[k] == x[i] + y[j];
            assert(pairs_hold(r, cart(x, y)[k]));
        },
        ExprV::Or(a, b) => {
            let x = multi_spec(*a)->0;
            let y = multi_spec(*b)->0;
            if eval_expr(*a, r) {
                lemma_multi_covers(*a, r);
                let i = choose|i: int| 0 <= i < x.len() && pairs_hold(r, #[trigger] x[i]);
                assert((x + y)[i] == x[i]);
                assert(pairs_hold(r, (x + y)[i]));
            } else {
                lemma_multi_covers(*b, r);
                let j = choose|j: int| 0 <= j < y.len() && pairs_hold(r, #[trigger] y[j]);
                assert((x + y)[x.len() + j] == y[j]);
                assert(pairs_hold(r, (x + y)[x.len() + j]));
            }
        },
        _ => {},
    }
}

} // verus!
