//! HTTP translation: native parameters, residues, and multi-request form.

use broker::query::combinators::{Query, True, Xor};
use broker::query::translate::http::ToHttp;
use broker::query::Field;
use broker::value::{Record, Value};

fn pair(k: &str, v: &str) -> (String, String) {
    (k.to_owned(), v.to_owned())
}

#[test]
fn true_translates_to_nothing() {
    let single = True.to_http_single();
    assert!(single.query.is_empty());
    assert!(single.residue.is_empty());

    let multi = True.to_http_multi().unwrap();
    assert_eq!(multi.len(), 1);
    assert!(multi[0].is_empty());
}

#[test]
fn eq_on_string_title() {
    let record = Record::new()
        .field("title", Value::str("Rust"))
        .field("author", Value::str("A"));
    let q = Field::new("title").eq(Value::str("Rust"));

    assert!(q.evaluate(&record));

    let single = q.to_http_single();
    assert_eq!(single.query, vec![pair("title", "Rust")]);
    assert!(single.residue.is_empty());
}

#[test]
fn ne_stays_as_residue() {
    let record = Record::new()
        .field("title", Value::str("Rust"))
        .field("author", Value::str("A"));
    let q = Field::new("title").ne(Value::str("Go"));

    assert!(q.evaluate(&record));

    let single = q.to_http_single();
    assert!(single.query.is_empty());
    assert_eq!(single.residue.len(), 1);
    assert!(single.residue[0].evaluate(&record));

    assert!(q.to_http_multi().is_none());
}

#[test]
fn and_of_eq_concatenates() {
    let record = Record::new()
        .field("title", Value::str("Rust"))
        .field("author", Value::str("A"));
    let q = Field::new("title")
        .eq(Value::str("Rust"))
        .into_expr()
        .and(Field::new("author").eq(Value::str("A")).into_expr());

    assert!(q.evaluate(&record));

    let single = q.to_http_single();
    assert_eq!(single.query, vec![pair("title", "Rust"), pair("author", "A")]);
    assert!(single.residue.is_empty());
}

#[test]
fn or_intersects_pairs() {
    let q = Field::new("title")
        .eq(Value::str("X"))
        .into_expr()
        .or(Field::new("author").eq(Value::str("X")).into_expr());

    let single = q.to_http_single();
    assert!(single.query.is_empty());

    let multi = q.to_http_multi().unwrap();
    assert_eq!(
        multi,
        vec![vec![pair("title", "X")], vec![pair("author", "X")]]
    );
}

#[test]
fn or_keeps_common_pairs() {
    // Both branches demand kind=book; only that pair survives.
    let kind = || Field::new("kind").eq(Value::str("book")).into_expr();
    let left = kind().and(Field::new("title").eq(Value::str("X")).into_expr());
    let right = kind().and(Field::new("author").eq(Value::str("Y")).into_expr());
    let q = left.or(right);

    let single = q.to_http_single();
    assert_eq!(single.query, vec![pair("kind", "book")]);
    assert!(single.residue.is_empty());
}

#[test]
fn xor_keeps_itself_as_residue() {
    let record = Record::new().field("title", Value::str("Rust"));
    let q = Xor(
        Box::new(Field::new("title").eq(Value::str("Rust")).into_expr()),
        Box::new(Field::new("title").eq(Value::str("Go")).into_expr()),
    );

    assert!(q.evaluate(&record));

    let single = q.to_http_single();
    assert!(single.query.is_empty());
    assert_eq!(single.residue.len(), 1);
    assert!(single.residue[0].evaluate(&record));

    assert!(q.to_http_multi().is_none());
}

#[test]
fn gt_lt_not_stay_as_residue() {
    let gt = Field::new("pages").gt(Value::Int(100));
    let single = gt.to_http_single();
    assert!(single.query.is_empty());
    assert_eq!(single.residue.len(), 1);
    assert!(gt.to_http_multi().is_none());

    let lt = Field::new("pages").lt(Value::Int(100));
    let single = lt.to_http_single();
    assert!(single.query.is_empty());
    assert_eq!(single.residue.len(), 1);
    assert!(lt.to_http_multi().is_none());

    let not = broker::query::combinators::Not(Box::new(
        Field::new("pages").eq(Value::Int(1)).into_expr(),
    ));
    let single = not.to_http_single();
    assert!(single.query.is_empty());
    assert_eq!(single.residue.len(), 1);
    assert!(not.to_http_multi().is_none());
}

#[test]
fn multi_of_and_is_cartesian() {
    let left = Field::new("a")
        .eq(Value::str("1"))
        .into_expr()
        .or(Field::new("b").eq(Value::str("2")).into_expr());
    let q = left.and(Field::new("c").eq(Value::str("3")).into_expr());

    let multi = q.to_http_multi().unwrap();
    assert_eq!(
        multi,
        vec![
            vec![pair("a", "1"), pair("c", "3")],
            vec![pair("b", "2"), pair("c", "3")],
        ]
    );
}

#[test]
fn parameter_order_and_duplicates_are_kept() {
    let q = Field::new("k")
        .eq(Value::str("1"))
        .into_expr()
        .and(
            Field::new("k")
                .eq(Value::str("1"))
                .into_expr()
                .and(Field::new("j").eq(Value::str("2")).into_expr()),
        );
    let single = q.to_http_single();
    assert_eq!(
        single.query,
        vec![pair("k", "1"), pair("k", "1"), pair("j", "2")]
    );
}

#[test]
fn stringified_values_in_pairs() {
    let q = Field::new("pages").eq(Value::Int(-42));
    let single = q.to_http_single();
    assert_eq!(single.query, vec![pair("pages", "-42")]);

    let q = Field::new("active").eq(Value::Bool(true));
    let single = q.to_http_single();
    assert_eq!(single.query, vec![pair("active", "true")]);

    let q = Field::new("tags").eq(Value::List(vec![
        Value::str("a"),
        Value::Int(7),
        Value::Bool(false),
    ]));
    let single = q.to_http_single();
    assert_eq!(single.query, vec![pair("tags", "[a,7,false]")]);
}
