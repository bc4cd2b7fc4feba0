//! REST connector configurations: the builder, request preparation, and
//! response acceptance.

use broker::encode::json::Json;
use broker::errors::{
    classify_transport, ConnectionError, DecodeError, FetchError, FetchOneError, SendError,
};
use broker::query::Field;
use broker::rest::builder::{Build, Builder, InvalidUrl};
use broker::rest::{send_accept, HttpMethod};
use broker::value::{Record, Value};

#[test]
fn builder_rejects_bad_urls() {
    match Builder::new().source_url("not a url") {
        Ok(_) => panic!("a schemeless URL must be refused"),
        Err(e) => assert_eq!(e, InvalidUrl),
    }
    match Builder::new().sink_url("http://") {
        Ok(_) => panic!("an empty host must be refused"),
        Err(e) => assert_eq!(e, InvalidUrl),
    }
    assert!(Builder::new().source_url("http://example.com").is_ok());
    assert!(Builder::new().sink_url("https://example.com/books").is_ok());
}

#[test]
fn builder_makes_read_only() {
    let connector = Builder::new()
        .source_url("http://example.com/books")
        .unwrap()
        .decoder(Json)
        .build();
    assert_eq!(connector.url, "http://example.com/books");
    assert_eq!(connector.method, HttpMethod::Get);
}

#[test]
fn builder_makes_write_only() {
    let connector = Builder::new()
        .sink_url("http://example.com/books")
        .unwrap()
        .sink_method(HttpMethod::Post)
        .encoder(Json)
        .build();
    assert_eq!(connector.url, "http://example.com/books");
    assert_eq!(connector.method, HttpMethod::Post);
}

#[test]
fn builder_makes_read_write() {
    let connector = Builder::new()
        .source_url("http://example.com/books")
        .unwrap()
        .sink_url("http://example.com/books")
        .unwrap()
        .encoder(Json)
        .decoder(Json)
        .build();
    assert_eq!(connector.source_method, HttpMethod::Get);
    assert_eq!(connector.sink_method, HttpMethod::Put);

    let combined = Builder::new()
        .source_url("http://example.com/books")
        .unwrap()
        .sink_url("http://example.com/inbox")
        .unwrap()
        .source_method(HttpMethod::Post)
        .codec(Json)
        .build();
    assert_eq!(combined.source_method, HttpMethod::Post);
    assert_eq!(combined.sink_url, "http://example.com/inbox");
}

#[test]
fn method_names() {
    assert_eq!(HttpMethod::Get.as_text(), "GET");
    assert_eq!(HttpMethod::Put.as_text(), "PUT");
    assert_eq!(HttpMethod::Post.as_text(), "POST");
    assert_eq!(HttpMethod::Delete.as_text(), "DELETE");
}

#[test]
fn fetch_request_carries_translation() {
    let connector = Builder::new()
        .source_url("http://example.com/books")
        .unwrap()
        .decoder(Json)
        .build();
    let q = Field::new("title")
        .eq(Value::str("Rust"))
        .into_expr()
        .and(Field::new("pages").gt(Value::Int(100)).into_expr());

    let prepared = connector.fetch_request(&q);
    assert_eq!(prepared.url, "http://example.com/books");
    assert_eq!(
        prepared.params,
        vec![("title".to_owned(), "Rust".to_owned())]
    );
    assert_eq!(prepared.residue.len(), 1);
}

#[test]
fn fetch_accept_decodes_and_filters() {
    let connector = Builder::new()
        .source_url("http://example.com/books")
        .unwrap()
        .decoder(Json)
        .build();
    let q = Field::new("pages").gt(Value::Int(100)).into_expr();
    let prepared = connector.fetch_request(&q);

    let body = "[{\"title\":\"long\",\"pages\":500},{\"title\":\"short\",\"pages\":50}]";
    let fetched = connector.fetch_accept(200, body, &prepared.residue).unwrap();
    assert_eq!(
        fetched,
        vec![Record::new()
            .field("title", Value::str("long"))
            .field("pages", Value::Int(500))]
    );

    let failed = connector.fetch_accept(404, body, &prepared.residue);
    assert_eq!(
        failed.unwrap_err(),
        FetchError::Connection(ConnectionError::Http { code: 404 })
    );

    let garbled = connector.fetch_accept(200, "not json", &prepared.residue);
    assert_eq!(garbled.unwrap_err(), FetchError::Decode(DecodeError));
}

#[test]
fn fetch_one_accept_respects_residue() {
    let connector = Builder::new()
        .source_url("http://example.com/books")
        .unwrap()
        .decoder(Json)
        .build();
    let q = Field::new("pages").gt(Value::Int(100)).into_expr();
    let prepared = connector.fetch_request(&q);

    let long = "{\"title\":\"long\",\"pages\":500}";
    let short = "{\"title\":\"short\",\"pages\":50}";

    let one = connector.fetch_one_accept(200, long, &prepared.residue).unwrap();
    assert_eq!(one.get("pages"), Some(&Value::Int(500)));

    let missed = connector.fetch_one_accept(200, short, &prepared.residue);
    assert!(matches!(missed.unwrap_err(), FetchOneError::NoSuchEntry));

    let empty = connector.fetch_one_accept(200, "", &prepared.residue);
    assert!(matches!(empty.unwrap_err(), FetchOneError::NoSuchEntry));
}

#[test]
fn send_request_encodes_batch() {
    let connector = Builder::new()
        .sink_url("http://example.com/books")
        .unwrap()
        .encoder(Json)
        .build();
    let batch = vec![
        Record::new().field("title", Value::str("a")),
        Record::new().field("title", Value::str("b")),
    ];

    let prepared = connector.send_request(&batch).unwrap();
    assert_eq!(prepared.method, HttpMethod::Put);
    assert_eq!(prepared.body, "[{\"title\":\"a\"},{\"title\":\"b\"}]");

    let one = connector
        .send_one_request(&Record::new().field("title", Value::str("a")))
        .unwrap();
    assert_eq!(one.body, "{\"title\":\"a\"}");
}

#[test]
fn send_accept_classifies_status() {
    assert!(send_accept(204).is_ok());
    assert_eq!(
        send_accept(500).unwrap_err(),
        SendError::Connection(ConnectionError::Http { code: 500 })
    );
}

#[test]
fn transport_classification() {
    assert_eq!(
        classify_transport(Some(502), false, false, false, false),
        ConnectionError::Http { code: 502 }
    );
    assert_eq!(
        classify_transport(None, true, false, false, false),
        ConnectionError::Redirect
    );
    assert_eq!(
        classify_transport(None, false, true, false, false),
        ConnectionError::TimedOut
    );
    assert_eq!(
        classify_transport(None, false, false, true, false),
        ConnectionError::Process
    );
    assert_eq!(
        classify_transport(None, false, false, false, true),
        ConnectionError::Process
    );
    assert_eq!(
        classify_transport(None, false, false, false, false),
        ConnectionError::Io
    );
}

#[test]
fn error_conversions() {
    assert_eq!(
        FetchError::from(DecodeError),
        FetchError::Decode(DecodeError)
    );
    assert_eq!(
        FetchError::from(ConnectionError::TimedOut),
        FetchError::Connection(ConnectionError::TimedOut)
    );
    assert_eq!(
        FetchOneError::from(FetchError::InvalidQuery),
        FetchOneError::Fetch(FetchError::InvalidQuery)
    );
    assert_eq!(
        SendError::from(ConnectionError::Redirect),
        SendError::Connection(ConnectionError::Redirect)
    );
    assert_eq!(
        FetchOneError::from(broker::errors::DecodeOneError::Empty),
        FetchOneError::NoSuchEntry
    );
    assert_eq!(
        FetchError::from(broker::errors::DecodeStreamError::Connection(
            ConnectionError::Io
        )),
        FetchError::Connection(ConnectionError::Io)
    );
}
