//! The `Source` and `Sink` capabilities, with in-memory implementations.

use vstd::prelude::*;
use crate::value::{Record, RecordV};
use crate::query::combinators::{Expr, ExprV, eval_expr};
use crate::encode::records_view;
use crate::errors::{FetchError, FetchOneError, SendError};

verus! {

/// The records of `rs` that match the query, in order.
pub open spec fn matching(rs: Seq<RecordV>, q: ExprV) -> Seq<RecordV>
    decreases rs.len(),
{
    if rs.len() == 0 {
        Seq::empty()
    } else {
        let rest = matching(rs.drop_last(), q);
        if eval_expr(q, rs.last()) {
            rest.push(rs.last())
        } else {
            rest
        }
    }
}

/// A type that can provide records matching a query.
///
/// A source is deterministic in what it holds at the moment of asking: the
/// outcome of a query is a function of the source's state.
pub trait Source {
    /// What fetching with the given query yields: the matching records in
    /// this source's order, or this source's failure.
    spec fn outcome(&self, q: ExprV) -> Result<Seq<RecordV>, FetchError>;

    /// Fetch all records matching the query.
    fn fetch_all(&self, query: &Expr) -> (r: Result<Vec<Record>, FetchError>)
        ensures
            match r {
                Ok(v) => self.outcome(query@) == Ok::<Seq<RecordV>, FetchError>(
                    records_view(v@),
                ),
                Err(e) => self.outcome(query@) == Err::<Seq<RecordV>, FetchError>(e),
            },
    ;

    /// Approximate bounds on how many records the query would return: a lower
    /// bound and an optional upper bound. The bounds are informational only;
    /// implementations may lie and callers must not rely on them.
    fn size_hint(&self, query: &Expr) -> (r: (usize, Option<usize>));
}

/// A source serving records it holds in memory, or failing every call with a
/// configured error: the second form stands in for a source whose backend is
/// unreachable.
pub struct MemorySource {
    /// The records this source serves.
    pub records: Vec<Record>,
    /// When set, every fetch fails with this error.
    pub failure: Option<FetchError>,
}

impl MemorySource {
    /// A source serving the given records.
    pub fn new(records: Vec<Record>) -> (s: MemorySource)
        ensures
            s.records@ == records@,
            s.failure is None,
    {
        MemorySource { records, failure: None }
    }

    /// A source failing every call with the given error.
    pub fn failing(failure: FetchError) -> (s: MemorySource)
        ensures
            s.records@.len() == 0,
            s.failure == Some(failure),
    {
        MemorySource { records: Vec::new(), failure: Some(failure) }
    }

    /// Fetch one record matching the query: the first match, a report that
    /// none exists, or this source's failure.
    pub fn fetch_one(&self, query: &Expr) -> (r: Result<Record, FetchOneError>)
        ensures
            match r {
                Ok(rec) => self.outcome(query@) matches Ok(s) && s.len() > 0 && rec@ == s[0],
                Err(FetchOneError::NoSuchEntry) => self.outcome(query@) matches Ok(s) && s.len()
                    == 0,
                Err(FetchOneError::Fetch(e)) => self.outcome(query@) == Err::<
                    Seq<RecordV>,
                    FetchError,
                >(e),
            },
    {
        match self.fetch_optional(query) {
            Ok(Some(rec)) => Ok(rec),
            Ok(None) => Err(FetchOneError::NoSuchEntry),
            Err(e) => Err(FetchOneError::Fetch(e)),
        }
    }

    /// Fetch one record matching the query, if any matches.
    pub fn fetch_optional(&self, query: &Expr) -> (r: Result<Option<Record>, FetchError>)
        ensures
            match r {
                Ok(opt) => match opt {
                    Some(rec) => self.outcome(query@) matches Ok(s) && s.len() > 0 && rec@ == s[0],
                    None => self.outcome(query@) matches Ok(s) && s.len() == 0,
                },
                Err(e) => self.outcome(query@) == Err::<Seq<RecordV>, FetchError>(e),
            },
    {
        let mut all = match self.fetch_all(query) {
            Ok(all) => all,
            Err(e) => {
                return Err(e);
            },
        };
        if all.len() == 0 {
            Ok(None)
        } else {
            let rec = all.remove(0);
            Ok(Some(rec))
        }
    }
}

impl Source for MemorySource {
    open spec fn outcome(&self, q: ExprV) -> Result<Seq<RecordV>, FetchError> {
        match self.failure {
            Some(e) => Err(e),
            None => Ok(matching(records_view(self.records@), q)),
        }
    }

    /// Serve the matching records in order, or this source's failure.
    #[verifier::loop_isolation(false)]
    fn fetch_all(&self, query: &Expr) -> (r: Result<Vec<Record>, FetchError>) {
        match self.failure {
            Some(e) => Err(e),
            None => {
                let ghost all = records_view(self.records@);
                let mut out: Vec<Record> = Vec::new();
                proof {
                    assert(records_view(out@) =~= matching(all.take(0), query@));
                }
                let mut i: usize = 0;
                while i < self.records.len()
                    invariant
                        i <= self.records.len(),
                        records_view(out@) == matching(all.take(i as int), query@),
                    decreases self.records.len() - i,
                {
                    let ghost before = records_view(out@);
                    if query.eval(&self.records[i]) {
                        let rec = self.records[i].clone();
                        out.push(rec);
                        proof {
                            assert(records_view(out@) =~= before.push(all[i as int]));
                        }
                    }
                    proof {
                        assert(all.take(i + 1).drop_last() =~= all.take(i as int));
                        assert(all.take(i + 1).last() == all[i as int]);
                        assert(records_view(out@) == matching(all.take(i + 1), query@));
                    }
                    i = i + 1;
                }
                proof {
                    assert(all.take(self.records.len() as int) =~= all);
                }
                Ok(out)
            },
        }
    }

    /// At most everything this source holds; nothing is promised.
    fn size_hint(&self, query: &Expr) -> (r: (usize, Option<usize>)) {
        (0, Some(self.records.len()))
    }
}

/// A type that can accept records.
pub trait Sink {
    /// What this sink has accepted so far, in order.
    spec fn accepted(&self) -> Seq<RecordV>;

    /// Send all records of a batch. The batch is atomic: either every record
    /// is accepted, or none is.
    fn send_all(&mut self, entries: &Vec<Record>) -> (r: Result<(), SendError>)
        ensures
            match r {
                Ok(u) => final(self).accepted() == old(self).accepted() + records_view(entries@),
                Err(e) => final(self).accepted() == old(self).accepted(),
            },
    ;

    /// Send records gathered from any producer; one batch, atomic as
    /// `send_all`.
    fn send(&mut self, entries: &Vec<Record>) -> (r: Result<(), SendError>)
        ensures
            match r {
                Ok(u) => final(self).accepted() == old(self).accepted() + records_view(entries@),
                Err(e) => final(self).accepted() == old(self).accepted(),
            },
    ;

    /// Send a single record.
    fn send_one(&mut self, entry: &Record) -> (r: Result<(), SendError>)
        ensures
            match r {
                Ok(u) => final(self).accepted() == old(self).accepted().push(entry@),
                Err(e) => final(self).accepted() == old(self).accepted(),
            },
    ;
}

/// A sink keeping every accepted record in memory.
pub struct MemorySink {
    /// The records accepted so far, in order.
    pub received: Vec<Record>,
}

impl MemorySink {
    /// An empty sink.
    pub fn new() -> (s: MemorySink)
        ensures
            s.accepted() == Seq::<RecordV>::empty(),
    {
        let s = MemorySink { received: Vec::new() };
        proof {
            assert(s.accepted() =~= Seq::<RecordV>::empty());
        }
        s
    }
}

impl Sink for MemorySink {
    open spec fn accepted(&self) -> Seq<RecordV> {
        records_view(self.received@)
    }

    /// Append the whole batch.
    #[verifier::loop_isolation(false)]
    fn send_all(&mut self, entries: &Vec<Record>) -> (r: Result<(), SendError>) {
        let ghost start = records_view(old(self).received@);
        let mut i: usize = 0;
        while i < entries.len()
            invariant
                i <= entries.len(),
                records_view(self.received@) == start + records_view(entries@).take(i as int),
            decreases entries.len() - i,
        {
            let ghost before = records_view(self.received@);
            let rec = entries[i].clone();
            self.received.push(rec);
            proof {
                assert(records_view(self.received@) =~= before.push(
                    records_view(entries@)[i as int],
                ));
                assert(records_view(entries@).take(i + 1) =~= records_view(entries@).take(
                    i as int,
                ).push(records_view(entries@)[i as int]));
                assert(records_view(self.received@) =~= start + records_view(entries@).take(i + 1));
            }
            i = i + 1;
        }
        proof {
            assert(records_view(entries@).take(entries.len() as int) =~= records_view(entries@));
        }
        Ok(())
    }

    /// One batch, as `send_all`.
    fn send(&mut self, entries: &Vec<Record>) -> (r: Result<(), SendError>) {
        self.send_all(entries)
    }

    /// Append the one record.
    fn send_one(&mut self, entry: &Record) -> (r: Result<(), SendError>) {
        let ghost before = records_view(self.received@);
        let rec = entry.clone();
        self.received.push(rec);
        proof {
            assert(records_view(self.received@) =~= before.push(entry@));
        }
        Ok(())
    }
}

} // verus!
