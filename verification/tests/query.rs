//! Queries over records: field handles, local evaluation, composition.

use broker::query::combinators::{Expr, Not, Query, Xor};
use broker::query::Field;
use broker::value::{Record, Value};

fn book() -> Record {
    Record::new()
        .field("title", Value::str("The Rust Programming Language"))
        .field("author", Value::str("Steve Klabnik & Carol Nichols"))
        .field("format", Value::str("Hardcover"))
        .field("isbn.value", Value::str("978-1593278281"))
}

#[test]
fn simple_field_eq() {
    let title = "The Rust Programming Language".to_owned();
    let q = Field::new("title").eq(Value::Str(title));

    let book = book();

    assert!(q.evaluate(&book));
}

#[test]
fn enum_field_eq() {
    let q = Field::new("format").eq(Value::str("Ebook"));

    let book = Record::new()
        .field("title", Value::str("Rust for Professionals"))
        .field("author", Value::str("Jane Doe"))
        .field("format", Value::str("Ebook"))
        .field("isbn.value", Value::str("978-0000000000"));

    assert!(q.evaluate(&book));
}

#[test]
fn nested_field_eq() {
    let q = Field::new("isbn")
        .chain(&Field::new("value"))
        .eq(Value::str("978-1593278281"));

    let book = Record::new()
        .field("title", Value::str("The Rust Programming Language"))
        .field("author", Value::str("Steve Klabnik & Carol Nichols"))
        .field("format", Value::str("Paperback"))
        .field("isbn.value", Value::str("978-1593278281"));

    assert!(q.evaluate(&book));
}

#[test]
fn author_eq() {
    let q = Field::new("author").eq(Value::str("Steve Klabnik & Carol Nichols"));

    let book = Record::new()
        .field("title", Value::str("The Rust Programming Language"))
        .field("author", Value::str("Steve Klabnik & Carol Nichols"))
        .field("format", Value::str("Paperback"))
        .field("isbn.value", Value::str("978-1593278281"));

    assert!(q.evaluate(&book));
}

#[test]
fn chained_field_name() {
    let isbn = Field::new("isbn");
    let value = Field::new("value");
    let composed = isbn.chain(&value);
    assert_eq!(composed.name(), "isbn.value");

    let deeper = composed.chain(&Field::new("digits"));
    assert_eq!(deeper.name(), "isbn.value.digits");
}

#[test]
fn evaluate_comparisons() {
    let r = Record::new()
        .field("pages", Value::Int(552))
        .field("title", Value::str("Rust"));

    assert!(Field::new("pages").gt(Value::Int(500)).evaluate(&r));
    assert!(!Field::new("pages").gt(Value::Int(552)).evaluate(&r));
    assert!(Field::new("pages").lt(Value::Int(600)).evaluate(&r));
    assert!(!Field::new("pages").lt(Value::Int(100)).evaluate(&r));
    assert!(Field::new("pages").ne(Value::Int(500)).evaluate(&r));
    assert!(!Field::new("pages").ne(Value::Int(552)).evaluate(&r));
    // Strings are incomparable in the value ordering.
    assert!(!Field::new("title").gt(Value::str("A")).evaluate(&r));
    // A missing field matches no predicate.
    assert!(!Field::new("missing").eq(Value::Int(1)).evaluate(&r));
    assert!(!Field::new("missing").ne(Value::Int(1)).evaluate(&r));
}

#[test]
fn evaluate_combinators() {
    let r = book();
    let title_ok = || Field::new("title").eq(Value::str("The Rust Programming Language"));
    let author_no = || Field::new("author").eq(Value::str("Nobody"));

    let both = title_ok().into_expr().and(author_no().into_expr());
    assert!(!both.evaluate(&r));

    let either = title_ok().into_expr().or(author_no().into_expr());
    assert!(either.evaluate(&r));

    let exclusive = Xor(
        Box::new(title_ok().into_expr()),
        Box::new(author_no().into_expr()),
    );
    assert!(exclusive.evaluate(&r));

    let negated = Not(Box::new(title_ok().into_expr()));
    assert!(!negated.evaluate(&r));

    let both_true = title_ok()
        .into_expr()
        .and(Field::new("format").eq(Value::str("Hardcover")).into_expr());
    assert!(both_true.evaluate(&r));

    let tautology: Expr = title_ok().into_expr().or(title_ok().into_expr().negate());
    assert!(tautology.evaluate(&r));
}

#[test]
fn compact_rendering() {
    let q = Field::new("title")
        .eq(Value::str("Rust"))
        .into_expr()
        .and(Field::new("pages").gt(Value::Int(100)).into_expr());
    assert_eq!(q.render(), "title = Rust & pages > 100");

    let q = Field::new("done")
        .ne(Value::Bool(true))
        .into_expr()
        .or(Field::new("size").lt(Value::Int(-3)).into_expr().negate());
    assert_eq!(q.render(), "done != true | !(size < -3)");

    let q = broker::query::combinators::True
        .into_expr()
        .xor(broker::query::combinators::False.into_expr());
    assert_eq!(q.render(), "true ^ false");
}

#[test]
fn record_lookup_takes_first() {
    let r = Record::new()
        .field("k", Value::Int(1))
        .field("k", Value::Int(2));
    assert_eq!(r.get("k"), Some(&Value::Int(1)));
    assert_eq!(r.get("absent"), None);
    assert_eq!(r.len(), 2);
}

#[test]
fn list_values_compare_by_content() {
    let a = Value::List(vec![Value::Int(1), Value::str("x")]);
    let b = Value::List(vec![Value::Int(1), Value::str("x")]);
    let c = Value::List(vec![Value::Int(1), Value::str("y")]);
    assert!(a.equals(&b));
    assert!(!a.equals(&c));
    assert!(!a.equals(&Value::Int(1)));
}
