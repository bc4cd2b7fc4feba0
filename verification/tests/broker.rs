//! The broker's merge and partial-failure policies, and the in-memory
//! connectors.

use broker::broker::Broker;
use broker::connector::{MemorySink, MemorySource, Sink, Source};
use broker::errors::{ConnectionError, FetchError, FetchOneError};
use broker::query::combinators::True;
use broker::query::Field;
use broker::value::{Record, Value};

fn rec(title: &str) -> Record {
    Record::new().field("title", Value::str(title))
}

fn everything() -> broker::query::combinators::Expr {
    True.into_expr()
}

#[test]
fn memory_source_filters() {
    let source = MemorySource::new(vec![rec("a"), rec("b"), rec("a")]);
    let q = Field::new("title").eq(Value::str("a")).into_expr();

    let found = source.fetch_all(&q).unwrap();
    assert_eq!(found, vec![rec("a"), rec("a")]);

    let one = source.fetch_one(&q).unwrap();
    assert_eq!(one, rec("a"));

    let none = source.fetch_one(&Field::new("title").eq(Value::str("z")).into_expr());
    assert!(matches!(none.unwrap_err(), FetchOneError::NoSuchEntry));

    let opt = source.fetch_optional(&q).unwrap();
    assert_eq!(opt, Some(rec("a")));
}

#[test]
fn broker_fetch_all_merges_in_order() {
    let mut b: Broker<MemorySource> = Broker::new();
    b.add_source(MemorySource::new(vec![rec("a"), rec("b")]));
    b.add_source(MemorySource::new(vec![rec("c")]));

    let all = b.fetch_all(&everything()).unwrap();
    assert_eq!(all, vec![rec("a"), rec("b"), rec("c")]);
    assert_eq!(all.len(), 2 + 1);
}

#[test]
fn broker_fetch_one_lenient() {
    let mut b: Broker<MemorySource> = Broker::new();
    b.add_source(MemorySource::failing(FetchError::Connection(ConnectionError::TimedOut)));
    b.add_source(MemorySource::new(vec![rec("x")]));

    let one = b.fetch_one(&everything()).unwrap();
    assert_eq!(one, rec("x"));

    let opt = b.fetch_optional(&everything()).unwrap();
    assert_eq!(opt, Some(rec("x")));
}

#[test]
fn broker_fetch_all_strict() {
    let mut b: Broker<MemorySource> = Broker::new();
    b.add_source(MemorySource::failing(FetchError::Connection(ConnectionError::TimedOut)));
    b.add_source(MemorySource::new(vec![rec("x")]));

    let res = b.fetch_all(&everything());
    assert_eq!(
        res.unwrap_err(),
        FetchError::Connection(ConnectionError::TimedOut)
    );
}

#[test]
fn broker_reports_first_error_when_all_fail() {
    let mut b: Broker<MemorySource> = Broker::new();
    b.add_source(MemorySource::failing(FetchError::Connection(ConnectionError::TimedOut)));
    b.add_source(MemorySource::failing(FetchError::InvalidQuery));

    let res = b.fetch_one(&everything());
    assert!(matches!(
        res.unwrap_err(),
        FetchOneError::Fetch(FetchError::Connection(ConnectionError::TimedOut))
    ));

    let res = b.fetch_optional(&everything());
    assert_eq!(
        res.unwrap_err(),
        FetchError::Connection(ConnectionError::TimedOut)
    );
}

#[test]
fn broker_no_such_entry_only_when_all_empty() {
    let mut b: Broker<MemorySource> = Broker::new();
    b.add_source(MemorySource::new(vec![rec("a")]));
    b.add_source(MemorySource::new(Vec::new()));

    let q = Field::new("title").eq(Value::str("zzz")).into_expr();
    let res = b.fetch_one(&q);
    assert!(matches!(res.unwrap_err(), FetchOneError::NoSuchEntry));
    assert_eq!(b.fetch_optional(&q).unwrap(), None);
}

#[test]
fn broker_sample_caps_each_source() {
    let mut b: Broker<MemorySource> = Broker::new();
    b.add_source(MemorySource::new(vec![rec("a"), rec("b"), rec("c")]));
    b.add_source(MemorySource::new(vec![rec("d")]));

    let sampled = b.sample(&everything(), 2).unwrap();
    assert_eq!(sampled, vec![rec("a"), rec("b"), rec("d")]);
}

#[test]
fn broker_size_hint_sums() {
    let mut b: Broker<MemorySource> = Broker::new();
    b.add_source(MemorySource::new(vec![rec("a"), rec("b")]));
    b.add_source(MemorySource::new(vec![rec("c")]));

    let (lower, upper) = b.size_hint(&everything());
    assert_eq!(lower, 0);
    assert_eq!(upper, Some(3));
}

#[test]
fn memory_sink_accepts_in_order() {
    let mut sink = MemorySink::new();
    sink.send_one(&rec("a")).unwrap();
    sink.send_all(&vec![rec("b"), rec("c")]).unwrap();
    sink.send(&vec![rec("d")]).unwrap();
    assert_eq!(sink.received, vec![rec("a"), rec("b"), rec("c"), rec("d")]);
}
