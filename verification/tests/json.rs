//! The JSON codec: encoding shape, decoding, and the round trip.

use broker::encode::{Codec, Decode, Encode};
use broker::encode::json::Json;
use broker::errors::DecodeOneError;
use broker::value::{Record, Value};

fn test_data(id: i64, name: &str) -> Record {
    Record::new()
        .field("id", Value::Int(id))
        .field("name", Value::str(name))
        .field(
            "tags",
            Value::List(vec![Value::str("tag1"), Value::str("tag2")]),
        )
}

#[test]
fn encode_one() {
    let encoder = Json;
    let data = test_data(1, "test");

    let encoded = encoder.encode_one(&data);
    let encoded_text = encoded.unwrap();
    let decoded = encoder.decode_one(&encoded_text);

    assert_eq!(decoded.unwrap(), data);
}

#[test]
fn encode_all() {
    let encoder = Json;
    let data = vec![
        test_data(1, "first"),
        test_data(2, "second"),
        test_data(3, "third"),
    ];

    let encoded = encoder.encode_all(&data);
    let encoded_text = encoded.unwrap();
    let decoded = encoder.decode_all(&encoded_text);

    assert_eq!(decoded.unwrap(), data);
}

#[test]
fn encode_with_iterator() {
    let encoder = Json;
    let data = vec![test_data(1, "one"), test_data(2, "two")];

    let encoded = encoder.encode(&data);
    let encoded_iter = encoded.unwrap();
    let encoded_all = encoder.encode_all(&data).unwrap();

    assert_eq!(encoded_iter, encoded_all);
}

#[test]
fn decode_one() {
    let decoder = Json;
    let data = test_data(1, "one");

    let encoded = Json.encode_one(&data).unwrap();
    let decoded = decoder.decode_one(&encoded).unwrap();

    assert_eq!(decoded, data);
}

#[test]
fn decode_one_empty() {
    let decoder = Json;

    let result = decoder.decode_one("");

    assert!(matches!(result.unwrap_err(), DecodeOneError::Empty));
}

#[test]
fn decode_optional() {
    let decoder = Json;
    let data = test_data(1, "one");

    let encoded = Json.encode_one(&data).unwrap();
    let decoded = decoder.decode_optional(&encoded);
    let empty_result = decoder.decode_optional("");

    assert_eq!(decoded.unwrap(), Some(data));
    assert_eq!(empty_result.unwrap(), None);
}

#[test]
fn decode_all() {
    let decoder = Json;
    let data = vec![
        test_data(1, "one"),
        test_data(2, "two"),
        test_data(3, "three"),
    ];

    let encoded = Json.encode_all(&data).unwrap();
    let decoded = decoder.decode_all(&encoded);

    assert_eq!(decoded.unwrap(), data);
}

#[test]
fn encode_one_compact_json() {
    let encoder = Json;
    let data = test_data(0, "compact");

    let encoded = encoder.encode_one(&data).unwrap();

    // Should be compact (no unnecessary whitespace)
    assert!(!encoded.contains('\n'));
    assert!(!encoded.contains(' '));
}

#[test]
fn encode_produces_valid_json_array() {
    let encoder = Json;
    let data = vec![test_data(1, "one"), test_data(2, "two")];

    let encoded = encoder.encode_all(&data).unwrap();

    assert!(encoded.starts_with('['));
    assert!(encoded.ends_with(']'));

    let parsed: Result<serde_json::Value, _> = serde_json::from_str(&encoded);

    assert!(parsed.unwrap().is_array());
}

#[test]
fn encode_iterator_vs_slice() {
    let encoder = Json;
    let data = vec![test_data(1, "same"), test_data(2, "different")];

    let encoded_from_slice = encoder.encode_all(&data).unwrap();
    let encoded_from_iter = encoder.encode(&data).unwrap();

    assert_eq!(encoded_from_slice, encoded_from_iter);
}

#[test]
fn encode_one_exact_text() {
    let rec = Record::new()
        .field("title", Value::str("Rust"))
        .field("pages", Value::Int(-7))
        .field("fine", Value::Bool(false))
        .field("tags", Value::List(vec![Value::str("a"), Value::Int(1)]));
    let encoded = Json.encode_one(&rec).unwrap();
    assert_eq!(
        encoded,
        "{\"title\":\"Rust\",\"pages\":-7,\"fine\":false,\"tags\":[\"a\",1]}"
    );
}

#[test]
fn round_trip_with_escapes() {
    let rec = Record::new()
        .field("quote", Value::str("she said \"hi\""))
        .field("path", Value::str("a\\b\\c"))
        .field("lines", Value::str("one\ntwo\tthree\rfour"));
    let records = vec![rec];

    let encoded = Json.encode_all(&records).unwrap();
    let decoded = Json.decode_all(&encoded).unwrap();

    assert_eq!(decoded, records);

    let parsed: Result<serde_json::Value, _> = serde_json::from_str(&encoded);
    assert!(parsed.unwrap().is_array());
}

#[test]
fn round_trip_integer_edges() {
    let rec = Record::new()
        .field("max", Value::Int(i64::MAX))
        .field("min", Value::Int(i64::MIN))
        .field("zero", Value::Int(0));
    let records = vec![rec];

    let encoded = Json.encode_all(&records).unwrap();
    let decoded = Json.decode_all(&encoded).unwrap();

    assert_eq!(decoded, records);
    assert!(encoded.contains("9223372036854775807"));
    assert!(encoded.contains("-9223372036854775808"));
}

#[test]
fn round_trip_empty_shapes() {
    let empty_list: Vec<Record> = Vec::new();
    let encoded = Json.encode_all(&empty_list).unwrap();
    assert_eq!(encoded, "[]");
    assert_eq!(Json.decode_all(&encoded).unwrap(), empty_list);

    let records = vec![
        Record::new(),
        Record::new()
            .field("empty", Value::str(""))
            .field("nothing", Value::List(Vec::new())),
    ];
    let encoded = Json.encode_all(&records).unwrap();
    let decoded = Json.decode_all(&encoded).unwrap();
    assert_eq!(decoded, records);
}

#[test]
fn decode_rejects_malformed_text() {
    assert!(Json.decode_all("").is_err());
    assert!(Json.decode_all("{}").is_err());
    assert!(Json.decode_all("[{\"a\":1}").is_err());
    assert!(Json.decode_all("[{\"a\":01}]").is_err());
    assert!(Json.decode_all("[{\"a\":1}]extra").is_err());
    assert!(Json.decode_all("[{\"a\":1e3}]").is_err());
    assert!(Json.decode_one("{\"a\"").is_err());
    assert!(Json.decode_one("{\"a\":9223372036854775808}").is_err());
}

#[test]
fn codec_halves_delegate() {
    let data = vec![test_data(4, "codec")];

    let separate: Codec<Json, Json, Json> = Codec::separate(Json, Json);
    let encoded = separate.encode_all(&data).unwrap();
    assert_eq!(separate.decode_all(&encoded).unwrap(), data);

    let combined: Codec<Json, Json, Json> = Codec::combined(Json);
    let encoded = combined.encode(&data).unwrap();
    assert_eq!(encoded, Json.encode_all(&data).unwrap());
    let one = combined.encode_one(&data[0]).unwrap();
    assert_eq!(combined.decode_one(&one).unwrap(), data[0]);
    assert_eq!(combined.decode_optional("").unwrap(), None);
}
