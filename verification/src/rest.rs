//! Connector configurations for REST APIs: what to request for a query, and
//! what to make of a response. The transport itself (issuing the request,
//! moving the bytes) lives outside this library; the logic on either side of
//! it is here.

use vstd::prelude::*;
use crate::value::{Record, RecordV};
use crate::query::combinators::{Expr, ExprV, eval_expr};
use crate::query::translate::{pairs_view, residue_view, HttpQuery};
use crate::query::translate::http::{single_pairs, single_residue};
use crate::encode::{records_view, Codec, Decode, Encode};
use crate::errors::{
    ConnectionError, DecodeError, DecodeOneError, FetchError, FetchOneError, SendError,
};

/// The builder used to assemble REST connectors.
pub mod builder;

verus! {

/// An HTTP request method.
#[derive(Debug, Clone, Copy, PartialEq, Eq, Structural)]
pub enum HttpMethod {
    Get,
    Put,
    Post,
    Delete,
}

impl HttpMethod {
    /// The method's name on the wire.
    pub fn as_text(&self) -> (r: &'static str)
        ensures
            match self {
                HttpMethod::Get => r@ == "GET"@,
                HttpMethod::Put => r@ == "PUT"@,
                HttpMethod::Post => r@ == "POST"@,
                HttpMethod::Delete => r@ == "DELETE"@,
            },
    {
        match self {
            HttpMethod::Get => "GET",
            HttpMethod::Put => "PUT",
            HttpMethod::Post => "POST",
            HttpMethod::Delete => "DELETE",
        }
    }
}

/// Whether a record passes every query of a residue.
pub open spec fn residue_holds(res: Seq<ExprV>, r: RecordV) -> bool {
    forall|i: int| 0 <= i < res.len() ==> eval_expr(#[trigger] res[i], r)
}

/// The records that pass every query of a residue, in order.
pub open spec fn residue_filter(rs: Seq<RecordV>, res: Seq<ExprV>) -> Seq<RecordV>
    decreases rs.len(),
{
    if rs.len() == 0 {
        Seq::empty()
    } else {
        let rest = residue_filter(rs.drop_last(), res);
        if residue_holds(res, rs.last()) {
            rest.push(rs.last())
        } else {
            rest
        }
    }
}

/// Whether the given record passes every query of the residue.
#[verifier::loop_isolation(false)]
pub fn apply_residue(residue: &Vec<Expr>, rec: &Record) -> (r: bool)
    ensures
        r == residue_holds(residue_view(residue@), rec@),
{
    let ghost res = residue_view(residue@);
    let mut i: usize = 0;
    while i < residue.len()
        invariant
            i <= residue.len(),
            forall|j: int| 0 <= j < i ==> eval_expr(#[trigger] res[j], rec@),
        decreases residue.len() - i,
    {
        if !residue[i].eval(rec) {
            proof {
                assert(!eval_expr(res[i as int], rec@));
            }
            return false;
        }
        i = i + 1;
    }
    true
}

/// Keep only the records that pass every query of the residue.
#[verifier::loop_isolation(false)]
pub fn filter_residue(records: Vec<Record>, residue: &Vec<Expr>) -> (out: Vec<Record>)
    ensures
        records_view(out@) == residue_filter(records_view(records@), residue_view(residue@)),
{
    let ghost all = records_view(records@);
    let ghost res = residue_view(residue@);
    let mut out: Vec<Record> = Vec::new();
    proof {
        assert(records_view(out@) =~= residue_filter(all.take(0), res));
    }
    let mut i: usize = 0;
    while i < records.len()
        invariant
            i <= records.len(),
            records_view(out@) == residue_filter(all.take(i as int), res),
        decreases records.len() - i,
    {
        let ghost before = records_view(out@);
        if apply_residue(residue, &records[i]) {
            let rec = records[i].clone();
            out.push(rec);
            proof {
                assert(records_view(out@) =~= before.push(all[i as int]));
            }
        }
        proof {
            assert(all.take(i + 1).drop_last() =~= all.take(i as int));
            assert(all.take(i + 1).last() == all[i as int]);
            assert(records_view(out@) == residue_filter(all.take(i + 1), res));
        }
        i = i + 1;
    }
    proof {
        assert(all.take(records.len() as int) =~= all);
    }
    out
}

/// Whether an HTTP status code reports success.
pub open spec fn status_ok(status: u16) -> bool {
    200 <= status < 300
}

/// A fetch request, ready for a transport to execute: where to ask, how to
/// ask, which parameters to append to the URL, and which residue to apply
/// locally to every decoded record.
pub struct PreparedFetch {
    /// The URL to request.
    pub url: String,
    /// The HTTP method to use.
    pub method: HttpMethod,
    /// The translated query parameters, to be appended to the URL.
    pub params: HttpQuery,
    /// The sub-queries the backend cannot evaluate, to be applied locally.
    pub residue: Vec<Expr>,
}

/// A send request, ready for a transport to execute.
pub struct PreparedSend {
    /// The URL to request.
    pub url: String,
    /// The HTTP method to use.
    pub method: HttpMethod,
    /// The encoded records, to be sent as the request body.
    pub body: String,
}

/// A source configuration for a REST API: where to fetch from and how to
/// decode what comes back.
pub struct ReadOnly<D> {
    /// The URL to fetch data from.
    pub url: String,
    /// The HTTP method to use when fetching data.
    pub method: HttpMethod,
    /// The decoder for received data.
    pub decoder: D,
}

/// A sink configuration for a REST API: where to send to and how to encode
/// what goes out.
pub struct WriteOnly<E> {
    /// The URL to send data to.
    pub url: String,
    /// The HTTP method to use when sending data.
    pub method: HttpMethod,
    /// The encoder for outgoing data.
    pub encoder: E,
}

/// A combined source and sink configuration for a REST API.
pub struct ReadWrite<E, D, C> {
    /// The URL to fetch data from.
    pub source_url: String,
    /// The HTTP method to use when fetching data.
    pub source_method: HttpMethod,
    /// The URL to send data to.
    pub sink_url: String,
    /// The HTTP method to use when sending data.
    pub sink_method: HttpMethod,
    /// The codec for data in both directions.
    pub codec: Codec<E, D, C>,
}

impl<D: Decode> ReadOnly<D> {
    /// Translate a query into the request to execute: the native parameters
    /// go onto the URL, the residue comes back for local evaluation.
    pub fn fetch_request(&self, query: &Expr) -> (p: PreparedFetch)
        ensures
            p.url@ == self.url@,
            p.method == self.method,
            pairs_view(p.params@) == single_pairs(query@),
            residue_view(p.residue@) == single_residue(query@),
    {
        let single = query.http_single();
        PreparedFetch {
            url: self.url.clone(),
            method: self.method,
            params: single.query,
            residue: single.residue,
        }
    }

    /// Accept a fetch response: a failure status becomes a connection error
    /// with that code; otherwise the body is decoded and the residue filters
    /// the decoded records.
    pub fn fetch_accept(&self, status: u16, body: &str, residue: &Vec<Expr>) -> (r: Result<
        Vec<Record>,
        FetchError,
    >)
        ensures
            !status_ok(status) ==> r == Err::<Vec<Record>, FetchError>(
                FetchError::Connection(ConnectionError::Http { code: status }),
            ),
            status_ok(status) ==> match r {
                Ok(v) => self.decoder.list_decoding(body@) matches Some(all) && records_view(v@)
                    == residue_filter(all, residue_view(residue@)),
                Err(e) => e == FetchError::Decode(DecodeError) && self.decoder.list_decoding(body@)
                    is None,
            },
    {
        accept_fetch(&self.decoder, status, body, residue)
    }

    /// Accept a fetch response carrying a single record: a failure status
    /// becomes a connection error; an undecodable body a decode failure; a
    /// record that fails the residue was not a match, so there is no such
    /// entry; an empty body likewise.
    pub fn fetch_one_accept(&self, status: u16, body: &str, residue: &Vec<Expr>) -> (r: Result<
        Record,
        FetchOneError,
    >)
        ensures
            !status_ok(status) ==> r == Err::<Record, FetchOneError>(
                FetchOneError::Fetch(FetchError::Connection(ConnectionError::Http { code: status })),
            ),
            status_ok(status) ==> match r {
                Ok(rec) => body@.len() > 0 && self.decoder.one_decoding(body@) == Some(rec@)
                    && residue_holds(residue_view(residue@), rec@),
                Err(FetchOneError::NoSuchEntry) => body@.len() == 0 || (self.decoder.one_decoding(
                    body@,
                ) matches Some(recv) && !residue_holds(residue_view(residue@), recv)),
                Err(FetchOneError::Fetch(e)) => e == FetchError::Decode(DecodeError) && body@.len()
                    > 0 && self.decoder.one_decoding(body@) is None,
            },
    {
        accept_fetch_one(&self.decoder, status, body, residue)
    }
}

/// Shared acceptance path for fetch responses.
fn accept_fetch<D: Decode>(decoder: &D, status: u16, body: &str, residue: &Vec<Expr>) -> (r: Result<
    Vec<Record>,
    FetchError,
>)
    ensures
        !status_ok(status) ==> r == Err::<Vec<Record>, FetchError>(
            FetchError::Connection(ConnectionError::Http { code: status }),
        ),
        status_ok(status) ==> match r {
            Ok(v) => decoder.list_decoding(body@) matches Some(all) && records_view(v@)
                == residue_filter(all, residue_view(residue@)),
            Err(e) => e == FetchError::Decode(DecodeError) && decoder.list_decoding(body@) is None,
        },
{
    if !(200 <= status && status < 300) {
        return Err(FetchError::Connection(ConnectionError::Http { code: status }));
    }
    match decoder.decode_all(body) {
        Ok(records) => Ok(filter_residue(records, residue)),
        Err(e) => Err(FetchError::Decode(e)),
    }
}

/// Shared acceptance path for single-record fetch responses.
fn accept_fetch_one<D: Decode>(decoder: &D, status: u16, body: &str, residue: &Vec<Expr>) -> (r:
    Result<Record, FetchOneError>)
    ensures
        !status_ok(status) ==> r == Err::<Record, FetchOneError>(
            FetchOneError::Fetch(FetchError::Connection(ConnectionError::Http { code: status })),
        ),
        status_ok(status) ==> match r {
            Ok(rec) => body@.len() > 0 && decoder.one_decoding(body@) == Some(rec@)
                && residue_holds(residue_view(residue@), rec@),
            Err(FetchOneError::NoSuchEntry) => body@.len() == 0 || (decoder.one_decoding(body@)
                matches Some(recv) && !residue_holds(residue_view(residue@), recv)),
            Err(FetchOneError::Fetch(e)) => e == FetchError::Decode(DecodeError) && body@.len() > 0
                && decoder.one_decoding(body@) is None,
        },
{
    if !(200 <= status && status < 300) {
        return Err(FetchOneError::Fetch(FetchError::Connection(ConnectionError::Http {
            code: status,
        })));
    }
    match decoder.decode_one(body) {
        Ok(rec) => {
            if apply_residue(residue, &rec) {
                Ok(rec)
            } else {
                Err(FetchOneError::NoSuchEntry)
            }
        },
        Err(DecodeOneError::Empty) => Err(FetchOneError::NoSuchEntry),
        Err(DecodeOneError::Decode(e)) => Err(FetchOneError::Fetch(FetchError::Decode(e))),
    }
}

/// Shared preparation path for send requests.
fn prepare_send<E: Encode>(
    encoder: &E,
    url: &String,
    method: HttpMethod,
    entries: &Vec<Record>,
) -> (p: Result<PreparedSend, SendError>)
    ensures
        match p {
            Ok(ps) => ps.url@ == url@ && ps.method == method && ps.body@ == encoder.list_encoding(
                records_view(entries@),
            ),
            Err(e) => false,
        },
{
    match encoder.encode_all(entries) {
        Ok(body) => Ok(PreparedSend { url: url.clone(), method, body }),
        Err(e) => Err(SendError::Encode(e)),
    }
}

/// Accept a send response: a failure status becomes a connection error with
/// that code.
pub fn send_accept(status: u16) -> (r: Result<(), SendError>)
    ensures
        status_ok(status) ==> r == Ok::<(), SendError>(()),
        !status_ok(status) ==> r == Err::<(), SendError>(
            SendError::Connection(ConnectionError::Http { code: status }),
        ),
{
    if 200 <= status && status < 300 {
        Ok(())
    } else {
        Err(SendError::Connection(ConnectionError::Http { code: status }))
    }
}

impl<E: Encode> WriteOnly<E> {
    /// Encode a batch into the request to execute. The batch goes as one
    /// request body: atomic on the wire.
    pub fn send_request(&self, entries: &Vec<Record>) -> (p: Result<PreparedSend, SendError>)
        ensures
            match p {
                Ok(ps) => ps.url@ == self.url@ && ps.method == self.method && ps.body@
                    == self.encoder.list_encoding(records_view(entries@)),
                Err(e) => false,
            },
    {
        prepare_send(&self.encoder, &self.url, self.method, entries)
    }

    /// Encode one record into the request to execute.
    pub fn send_one_request(&self, entry: &Record) -> (p: Result<PreparedSend, SendError>)
        ensures
            match p {
                Ok(ps) => ps.url@ == self.url@ && ps.method == self.method && ps.body@
                    == self.encoder.one_encoding(entry@),
                Err(e) => false,
            },
    {
        match self.encoder.encode_one(entry) {
            Ok(body) => Ok(PreparedSend { url: self.url.clone(), method: self.method, body }),
            Err(e) => Err(SendError::Encode(e)),
        }
    }
}

impl<E: Encode, D: Decode, C: Encode + Decode> ReadWrite<E, D, C> {
    /// Translate a query into the fetch request to execute.
    pub fn fetch_request(&self, query: &Expr) -> (p: PreparedFetch)
        ensures
            p.url@ == self.source_url@,
            p.method == self.source_method,
            pairs_view(p.params@) == single_pairs(query@),
            residue_view(p.residue@) == single_residue(query@),
    {
        let single = query.http_single();
        PreparedFetch {
            url: self.source_url.clone(),
            method: self.source_method,
            params: single.query,
            residue: single.residue,
        }
    }

    /// Accept a fetch response, as for a read-only connector.
    pub fn fetch_accept(&self, status: u16, body: &str, residue: &Vec<Expr>) -> (r: Result<
        Vec<Record>,
        FetchError,
    >)
        ensures
            !status_ok(status) ==> r == Err::<Vec<Record>, FetchError>(
                FetchError::Connection(ConnectionError::Http { code: status }),
            ),
            status_ok(status) ==> match r {
                Ok(v) => self.codec.dec_list(body@) matches Some(all) && records_view(v@)
                    == residue_filter(all, residue_view(residue@)),
                Err(e) => e == FetchError::Decode(DecodeError) && self.codec.dec_list(body@)
                    is None,
            },
    {
        accept_fetch(&self.codec, status, body, residue)
    }

    /// Accept a fetch response carrying a single record, as for a read-only
    /// connector.
    pub fn fetch_one_accept(&self, status: u16, body: &str, residue: &Vec<Expr>) -> (r: Result<
        Record,
        FetchOneError,
    >)
        ensures
            !status_ok(status) ==> r == Err::<Record, FetchOneError>(
                FetchOneError::Fetch(FetchError::Connection(ConnectionError::Http { code: status })),
            ),
            status_ok(status) ==> match r {
                Ok(rec) => body@.len() > 0 && self.codec.dec_one(body@) == Some(rec@)
                    && residue_holds(residue_view(residue@), rec@),
                Err(FetchOneError::NoSuchEntry) => body@.len() == 0 || (self.codec.dec_one(body@)
                    matches Some(recv) && !residue_holds(residue_view(residue@), recv)),
                Err(FetchOneError::Fetch(e)) => e == FetchError::Decode(DecodeError) && body@.len()
                    > 0 && self.codec.dec_one(body@) is None,
            },
    {
        accept_fetch_one(&self.codec, status, body, residue)
    }

    /// Encode a batch into the send request to execute.
    pub fn send_request(&self, entries: &Vec<Record>) -> (p: Result<PreparedSend, SendError>)
        ensures
            match p {
                Ok(ps) => ps.url@ == self.sink_url@ && ps.method == self.sink_method && ps.body@
                    == self.codec.enc_list(records_view(entries@)),
                Err(e) => false,
            },
    {
        prepare_send(&self.codec, &self.sink_url, self.sink_method, entries)
    }

    /// Encode one record into the send request to execute.
    pub fn send_one_request(&self, entry: &Record) -> (p: Result<PreparedSend, SendError>)
        ensures
            match p {
                Ok(ps) => ps.url@ == self.sink_url@ && ps.method == self.sink_method && ps.body@
                    == self.codec.enc_one(entry@),
                Err(e) => false,
            },
    {
        match self.codec.encode_one(entry) {
            Ok(body) => Ok(PreparedSend { url: self.sink_url.clone(), method: self.sink_method, body }),
            Err(e) => Err(SendError::Encode(e)),
        }
    }
}

} // verus!
