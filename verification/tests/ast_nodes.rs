//! Tests of the syntax-tree constructors.

use drewno_mars::ast::{b, Expression, Id, Location};
use drewno_mars::source_position::SourcePositionData;

fn pos() -> SourcePositionData {
    SourcePositionData { s: 0, e: 0 }
}

#[test]
fn test_b() {
    let x = ();
    assert_eq!(Box::new(x), b(x))
}

#[test]
fn test_expression_new_int() {
    let test = Expression::new_int("420", pos());
    let expected = Expression::IntegerLiteral(420, pos());

    assert_eq!(test, expected)
}

#[test]
fn test_expression_new_string() {
    let test = Expression::new_string("\"test\"", pos());
    let expected = Expression::StringLiteral("test".to_string(), pos());

    assert_eq!(test, expected)
}

#[test]
fn test_location_new_from_id() {
    let id = Id { name: "test".to_string(), source_position: pos() };
    let test = Location::new_from_id(id);
    let expected = Location::new("test".to_string(), pos());

    assert_eq!(test, expected)
}

#[test]
fn test_location_append_chain() {
    let a = Location::new("a".to_string(), pos());
    let b_link = Location::new("b".to_string(), pos());
    let chain = a.append(b_link);
    assert_eq!(chain.current_link, "a".to_string());
    assert_eq!(chain.next_link.as_ref().unwrap().current_link, "b".to_string());
    assert_eq!(chain.to_text(), "a--b".to_string());
}

#[test]
fn test_new_int_large() {
    let test = Expression::new_int("18446744073709551615", pos());
    let expected = Expression::IntegerLiteral(u64::MAX, pos());
    assert_eq!(test, expected)
}
