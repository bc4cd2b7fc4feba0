//! The multi-source broker: fans a query out to several sources, merges
//! their results, and degrades gracefully on partial failure.

use vstd::prelude::*;
use crate::value::{Record, RecordV};
use crate::query::combinators::{Expr, ExprV};
use crate::encode::records_view;
use crate::errors::{FetchError, FetchOneError};
use crate::connector::Source;

verus! {

/// The strict merge of the sources' outcomes, from position `i` on: the
/// sources' records concatenated in source order, unless some source fails,
/// in which case the first failure aborts the whole call.
pub open spec fn merged_from<S: Source>(sources: Seq<S>, q: ExprV, i: int) -> Result<
    Seq<RecordV>,
    FetchError,
>
    decreases sources.len() - i,
        when 0 <= i
{
    if i >= sources.len() {
        Ok(Seq::empty())
    } else {
        match sources[i].outcome(q) {
            Err(e) => Err(e),
            Ok(s) => match merged_from(sources, q, i + 1) {
                Ok(rest) => Ok(s + rest),
                Err(e) => Err(e),
            },
        }
    }
}

/// The lenient race of the sources, from position `i` on: the first record
/// any source yields wins; a source's failure is only reported if no later
/// source yields a record, and then the earliest failure is the one reported;
/// only when every source answers with no record and no failure is there no
/// such entry.
pub open spec fn race_from<S: Source>(sources: Seq<S>, q: ExprV, i: int) -> Result<
    RecordV,
    FetchOneError,
>
    decreases sources.len() - i,
        when 0 <= i
{
    if i >= sources.len() {
        Err(FetchOneError::NoSuchEntry)
    } else {
        match sources[i].outcome(q) {
            Ok(s) => if s.len() > 0 {
                Ok(s[0])
            } else {
                race_from(sources, q, i + 1)
            },
            Err(e) => match race_from(sources, q, i + 1) {
                Ok(rec) => Ok(rec),
                Err(later) => Err(FetchOneError::Fetch(e)),
            },
        }
    }
}

/// The strict merge of sampled outcomes, from position `i` on: as
/// [`merged_from`], but each source contributes at most `k` records.
pub open spec fn sampled_from<S: Source>(sources: Seq<S>, q: ExprV, k: int, i: int) -> Result<
    Seq<RecordV>,
    FetchError,
>
    decreases sources.len() - i,
        when 0 <= i
{
    if i >= sources.len() {
        Ok(Seq::empty())
    } else {
        match sources[i].outcome(q) {
            Err(e) => Err(e),
            Ok(s) => match sampled_from(sources, q, k, i + 1) {
                Ok(rest) => Ok(
                    (if s.len() <= k {
                        s
                    } else {
                        s.take(k)
                    }) + rest,
                ),
                Err(e) => Err(e),
            },
        }
    }
}

/// A source aggregating several sources of one kind. Fetching fans the query
/// out to every source and merges the answers; `fetch_all` is strict about
/// failures while `fetch_one` and `fetch_optional` are lenient.
pub struct Broker<S> {
    sources: Vec<S>,
}

impl<S: Source> Broker<S> {
    /// The sources this broker asks, in order.
    pub closed spec fn srcs(&self) -> Seq<S> {
        self.sources@
    }

    /// A broker with no sources.
    pub fn new() -> (b: Broker<S>)
        ensures
            b.srcs() == Seq::<S>::empty(),
    {
        let b = Broker { sources: Vec::new() };
        proof {
            assert(b.srcs() =~= Seq::<S>::empty());
        }
        b
    }

    /// Register one more source. Duplicates are not rejected.
    pub fn add_source(&mut self, source: S)
        ensures
            final(self).srcs() == old(self).srcs().push(source),
    {
        self.sources.push(source);
    }

    /// Fetch a single record, leniently: the first record any source yields,
    /// in source order; the earliest failure only if no source yields one;
    /// `NoSuchEntry` only if every source answers with no record.
    #[verifier::loop_isolation(false)]
    pub fn fetch_one(&self, query: &Expr) -> (r: Result<Record, FetchOneError>)
        ensures
            match r {
                Ok(rec) => race_from(self.srcs(), query@, 0) == Ok::<RecordV, FetchOneError>(rec@),
                Err(e) => race_from(self.srcs(), query@, 0) == Err::<RecordV, FetchOneError>(e),
            },
    {
        let ghost srcs = self.srcs();
        let mut first_error: Option<FetchError> = None;
        let mut i: usize = 0;
        while i < self.sources.len()
            invariant
                i <= self.sources.len(),
                race_from(srcs, query@, 0) == match first_error {
                    None => race_from(srcs, query@, i as int),
                    Some(e) => match race_from(srcs, query@, i as int) {
                        Ok(rec) => Ok::<RecordV, FetchOneError>(rec),
                        Err(later) => Err::<RecordV, FetchOneError>(FetchOneError::Fetch(e)),
                    },
                },
            decreases self.sources.len() - i,
        {
            match self.sources[i].fetch_all(query) {
                Ok(mut found) => {
                    if found.len() > 0 {
                        let rec = found.remove(0);
                        proof {
                            assert(race_from(srcs, query@, i as int) == Ok::<
                                RecordV,
                                FetchOneError,
                            >(rec@));
                        }
                        return Ok(rec);
                    }
                },
                Err(e) => {
                    if first_error.is_none() {
                        first_error = Some(e);
                    }
                },
            }
            i = i + 1;
        }
        match first_error {
            None => Err(FetchOneError::NoSuchEntry),
            Some(e) => Err(FetchOneError::Fetch(e)),
        }
    }

    /// Fetch a single record if any source yields one, leniently: as
    /// `fetch_one`, but finding no record is not itself an error.
    pub fn fetch_optional(&self, query: &Expr) -> (r: Result<Option<Record>, FetchError>)
        ensures
            match r {
                Ok(opt) => match opt {
                    Some(rec) => race_from(self.srcs(), query@, 0) == Ok::<RecordV, FetchOneError>(
                        rec@,
                    ),
                    None => race_from(self.srcs(), query@, 0) == Err::<RecordV, FetchOneError>(
                        FetchOneError::NoSuchEntry,
                    ),
                },
                Err(e) => race_from(self.srcs(), query@, 0) == Err::<RecordV, FetchOneError>(
                    FetchOneError::Fetch(e),
                ),
            },
    {
        match self.fetch_one(query) {
            Ok(rec) => Ok(Some(rec)),
            Err(FetchOneError::NoSuchEntry) => Ok(None),
            Err(FetchOneError::Fetch(e)) => Err(e),
        }
    }

    /// Fetch from every source, each contributing at most `per_source`
    /// records, merged strictly as in `fetch_all`.
    #[verifier::loop_isolation(false)]
    pub fn sample(&self, query: &Expr, per_source: usize) -> (r: Result<Vec<Record>, FetchError>)
        ensures
            match r {
                Ok(v) => sampled_from(self.srcs(), query@, per_source as int, 0) == Ok::<
                    Seq<RecordV>,
                    FetchError,
                >(records_view(v@)),
                Err(e) => sampled_from(self.srcs(), query@, per_source as int, 0) == Err::<
                    Seq<RecordV>,
                    FetchError,
                >(e),
            },
    {
        let ghost srcs = self.srcs();
        let ghost k = per_source as int;
        let mut out: Vec<Record> = Vec::new();
        let mut i: usize = 0;
        proof {
            assert(records_view(out@) =~= Seq::<RecordV>::empty());
        }
        while i < self.sources.len()
            invariant
                i <= self.sources.len(),
                sampled_from(srcs, query@, k, 0) == match sampled_from(srcs, query@, k, i as int) {
                    Ok(rest) => Ok::<Seq<RecordV>, FetchError>(records_view(out@) + rest),
                    Err(e) => Err::<Seq<RecordV>, FetchError>(e),
                },
            decreases self.sources.len() - i,
        {
            let ghost before = records_view(out@);
            match self.sources[i].fetch_all(query) {
                Ok(mut found) => {
                    let ghost full = records_view(found@);
                    if found.len() > per_source {
                        found.truncate(per_source);
                        proof {
                            assert(records_view(found@) =~= full.take(k));
                        }
                    }
                    let ghost kept = records_view(found@);
                    let mut found = found;
                    out.append(&mut found);
                    proof {
                        assert(records_view(out@) =~= before + kept);
                        assert(sampled_from(srcs, query@, k, 0) == match sampled_from(
                            srcs,
                            query@,
                            k,
                            i + 1,
                        ) {
                            Ok(rest) => Ok::<Seq<RecordV>, FetchError>(
                                records_view(out@) + rest,
                            ),
                            Err(e) => Err::<Seq<RecordV>, FetchError>(e),
                        }) by {
                            if sampled_from(srcs, query@, k, i + 1) is Ok {
                                let rest = sampled_from(srcs, query@, k, i + 1)->Ok_0;
                                assert((before + kept) + rest =~= before + (kept + rest));
                            }
                        }
                    }
                },
                Err(e) => {
                    return Err(e);
                },
            }
            i = i + 1;
        }
        proof {
            assert(records_view(out@) + Seq::<RecordV>::empty() =~= records_view(out@));
        }
        Ok(out)
    }
}

impl<S: Source> Source for Broker<S> {
    open spec fn outcome(&self, q: ExprV) -> Result<Seq<RecordV>, FetchError> {
        merged_from(self.srcs(), q, 0)
    }

    /// Fetch from every source and concatenate, strictly: the first failing
    /// source's error aborts the whole call.
    #[verifier::loop_isolation(false)]
    fn fetch_all(&self, query: &Expr) -> (r: Result<Vec<Record>, FetchError>) {
        let ghost srcs = self.srcs();
        let mut out: Vec<Record> = Vec::new();
        let mut i: usize = 0;
        proof {
            assert(records_view(out@) =~= Seq::<RecordV>::empty());
        }
        while i < self.sources.len()
            invariant
                i <= self.sources.len(),
                merged_from(srcs, query@, 0) == match merged_from(srcs, query@, i as int) {
                    Ok(rest) => Ok::<Seq<RecordV>, FetchError>(records_view(out@) + rest),
                    Err(e) => Err::<Seq<RecordV>, FetchError>(e),
                },
            decreases self.sources.len() - i,
        {
            let ghost before = records_view(out@);
            match self.sources[i].fetch_all(query) {
                Ok(mut found) => {
                    let ghost got = records_view(found@);
                    out.append(&mut found);
                    proof {
                        assert(records_view(out@) =~= before + got);
                        assert(merged_from(srcs, query@, 0) == match merged_from(
                            srcs,
                            query@,
                            i + 1,
                        ) {
                            Ok(rest) => Ok::<Seq<RecordV>, FetchError>(records_view(out@) + rest),
                            Err(e) => Err::<Seq<RecordV>, FetchError>(e),
                        }) by {
                            if merged_from(srcs, query@, i + 1) is Ok {
                                let rest = merged_from(srcs, query@, i + 1)->Ok_0;
                                assert((before + got) + rest =~= before + (got + rest));
                            }
                        }
                    }
                },
                Err(e) => {
                    return Err(e);
                },
            }
            i = i + 1;
        }
        proof {
            assert(records_view(out@) + Seq::<RecordV>::empty() =~= records_view(out@));
        }
        Ok(out)
    }

    /// The sums of the sources' bounds: lower bounds added with saturation,
    /// upper bounds added when every source has one.
    #[verifier::loop_isolation(false)]
    fn size_hint(&self, query: &Expr) -> (r: (usize, Option<usize>)) {
        let mut lower: usize = 0;
        let mut upper: Option<usize> = Some(0);
        let mut i: usize = 0;
        while i < self.sources.len()
            decreases self.sources.len() - i,
        {
            let (l, u) = self.sources[i].size_hint(query);
            lower = saturating_add(lower, l);
            upper = match (upper, u) {
                (Some(a), Some(b)) => Some(saturating_add(a, b)),
                _ => None,
            };
            i = i + 1;
        }
        (lower, upper)
    }
}

/// The sum of two sizes, stopping at the largest representable size.
fn saturating_add(a: usize, b: usize) -> (r: usize)
    ensures
        r == if a + b <= usize::MAX {
            a + b
        } else {
            usize::MAX as int
        },
{
    if a <= usize::MAX - b {
        a + b
    } else {
        usize::MAX
    }
}

/// How many records each source would contribute, from position `i` on, when
/// every source succeeds.
pub open spec fn total_len<S: Source>(sources: Seq<S>, q: ExprV, i: int) -> int
    decreases sources.len() - i,
        when 0 <= i
{
    if i >= sources.len() {
        0
    } else {
        (match sources[i].outcome(q) {
            Ok(s) => s.len() as int,
            Err(e) => 0,
        }) + total_len(sources, q, i + 1)
    }
}

/// The broker's size law: when every source succeeds, fetching all records
/// through the broker yields exactly as many records as the sources yield
/// together.
pub proof fn lemma_broker_fetch_all_size<S: Source>(sources: Seq<S>, q: ExprV)
    requires
        forall|j: int| 0 <= j < sources.len() ==> (#[trigger] sources[j].outcome(q)) is Ok,
    ensures
        merged_from(sources, q, 0) is Ok,
        merged_from(sources, q, 0)->Ok_0.len() == total_len(sources, q, 0),
{
    lemma_merged_len(sources, q, 0);
}

/// As [`lemma_broker_fetch_all_size`], from any starting position.
proof fn lemma_merged_len<S: Source>(sources: Seq<S>, q: ExprV, i: int)
    requires
        0 <= i,
        forall|j: int| 0 <= j < sources.len() ==> (#[trigger] sources[j].outcome(q)) is Ok,
    ensures
        merged_from(sources, q, i) is Ok,
        merged_from(sources, q, i)->Ok_0.len() == total_len(sources, q, i),
    decreases sources.len() - i,
{
    if i < sources.len() {
        lemma_merged_len(sources, q, i + 1);
    }
}

/// Whether a source would yield at least one record for the query.
pub open spec fn yields_record<S: Source>(source: S, q: ExprV) -> bool {
    match source.outcome(q) {
        Ok(s) => s.len() > 0,
        Err(e) => false,
    }
}

/// Whether a source would answer the query with no record and no failure.
pub open spec fn yields_nothing<S: Source>(source: S, q: ExprV) -> bool {
    match source.outcome(q) {
        Ok(s) => s.len() == 0,
        Err(e) => false,
    }
}

/// The broker's lenient policy for single fetches: a record comes back
/// exactly when some source yields one; `NoSuchEntry` comes back exactly when
/// every source answers with no record and no failure; otherwise some
/// source's failure is surfaced.
pub proof fn lemma_broker_fetch_one_policy<S: Source>(sources: Seq<S>, q: ExprV)
    ensures
        (race_from(sources, q, 0) is Ok) <==> (exists|j: int|
            0 <= j < sources.len() && yields_record(#[trigger] sources[j], q)),
        (race_from(sources, q, 0) == Err::<RecordV, FetchOneError>(FetchOneError::NoSuchEntry))
            <==> (forall|j: int| 0 <= j < sources.len() ==> yields_nothing(#[trigger] sources[j], q)),
        race_from(sources, q, 0) matches Err(FetchOneError::Fetch(e)) ==> (exists|j: int|
            0 <= j < sources.len() && (#[trigger] sources[j].outcome(q)) == Err::<
                Seq<RecordV>,
                FetchError,
            >(e)),
{
    lemma_race_policy(sources, q, 0);
}

/// As [`lemma_broker_fetch_one_policy`], from any starting position.
proof fn lemma_race_policy<S: Source>(sources: Seq<S>, q: ExprV, i: int)
    requires
        0 <= i,
    ensures
        (race_from(sources, q, i) is Ok) <==> (exists|j: int|
            i <= j < sources.len() && yields_record(#[trigger] sources[j], q)),
        (race_from(sources, q, i) == Err::<RecordV, FetchOneError>(FetchOneError::NoSuchEntry))
            <==> (forall|j: int| i <= j < sources.len() ==> yields_nothing(#[trigger] sources[j], q)),
        race_from(sources, q, i) matches Err(FetchOneError::Fetch(e)) ==> (exists|j: int|
            i <= j < sources.len() && (#[trigger] sources[j].outcome(q)) == Err::<
                Seq<RecordV>,
                FetchError,
            >(e)),
    decreases sources.len() - i,
{
    if i < sources.len() {
        lemma_race_policy(sources, q, i + 1);
    }
}

} // verus!
