use weld::ast::{BinOpKind, Symbol};
use weld::error::WeldError;

#[test]
fn a_symbol_without_number_is_its_name() {
    let s = Symbol { name: "x".to_string(), id: 0 };
    assert_eq!(s.to_string(), "x");
    let long = Symbol { name: "some_name".to_string(), id: 0 };
    assert_eq!(long.to_string(), "some_name");
    let empty = Symbol { name: String::new(), id: 0 };
    assert_eq!(empty.to_string(), "");
}

#[test]
fn a_symbol_with_number_shows_it() {
    let cases: [(i32, &str); 10] = [
        (1, "x#1"),
        (9, "x#9"),
        (10, "x#10"),
        (42, "x#42"),
        (100, "x#100"),
        (1234567890, "x#1234567890"),
        (i32::MAX, "x#2147483647"),
        (-1, "x#-1"),
        (-10, "x#-10"),
        (i32::MIN, "x#-2147483648"),
    ];
    for (id, expected) in cases.iter() {
        let s = Symbol { name: "x".to_string(), id: *id };
        assert_eq!(s.to_string(), *expected);
        assert_eq!(s.to_string(), format!("x#{}", id));
    }
}

#[test]
fn symbols_compare_by_name_and_id() {
    let a = Symbol { name: "x".to_string(), id: 0 };
    let b = Symbol { name: "x".to_string(), id: 0 };
    let c = Symbol { name: "x".to_string(), id: 1 };
    let d = Symbol { name: "y".to_string(), id: 0 };
    assert!(a == b);
    assert!(a != c);
    assert!(a != d);
    assert!(a.clone() == a);
    assert!(c.clone() == c);
}

#[test]
fn operators_are_written_as_in_source() {
    let cases: [(BinOpKind, &str); 16] = [
        (BinOpKind::Add, "+"),
        (BinOpKind::Subtract, "-"),
        (BinOpKind::Multiply, "*"),
        (BinOpKind::Divide, "/"),
        (BinOpKind::Modulo, "%"),
        (BinOpKind::Equal, "=="),
        (BinOpKind::NotEqual, "!="),
        (BinOpKind::LessThan, "<"),
        (BinOpKind::LessThanOrEqual, "<="),
        (BinOpKind::GreaterThan, ">"),
        (BinOpKind::GreaterThanOrEqual, ">="),
        (BinOpKind::LogicalAnd, "&&"),
        (BinOpKind::LogicalOr, "||"),
        (BinOpKind::BitwiseAnd, "&"),
        (BinOpKind::BitwiseOr, "|"),
        (BinOpKind::Xor, "^"),
    ];
    for (op, expected) in cases.iter() {
        assert_eq!(op.to_string(), *expected);
        assert_eq!(op.as_str(), *expected);
    }
}

#[test]
fn comparison_operators() {
    assert!(BinOpKind::Equal.is_comparison());
    assert!(BinOpKind::NotEqual.is_comparison());
    assert!(BinOpKind::LessThan.is_comparison());
    assert!(BinOpKind::GreaterThan.is_comparison());
    assert!(!BinOpKind::LessThanOrEqual.is_comparison());
    assert!(!BinOpKind::GreaterThanOrEqual.is_comparison());
    assert!(!BinOpKind::Add.is_comparison());
    assert!(!BinOpKind::Subtract.is_comparison());
    assert!(!BinOpKind::Multiply.is_comparison());
    assert!(!BinOpKind::Divide.is_comparison());
    assert!(!BinOpKind::Modulo.is_comparison());
    assert!(!BinOpKind::LogicalAnd.is_comparison());
    assert!(!BinOpKind::LogicalOr.is_comparison());
    assert!(!BinOpKind::BitwiseAnd.is_comparison());
    assert!(!BinOpKind::BitwiseOr.is_comparison());
    assert!(!BinOpKind::Xor.is_comparison());
}

#[test]
fn an_error_carries_its_message() {
    let e = WeldError::new("something failed".to_string());
    assert_eq!(e.description(), "something failed");
    assert_eq!(e.clone().description(), "something failed");
    assert_eq!(WeldError::new(String::new()).description(), "");
}
