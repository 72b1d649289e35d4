use seedle_parser::node::{Array, ConstrainedPrimative, Node};
use seedle_parser::flatten::flatten;
use seedle_parser::parse;
use seedle_parser::FlattenError;

#[test]
fn expect_parser_error() {
    let err = parse("this is = = not cddl").unwrap_err();
    assert!(matches!(err, FlattenError::Parser(_)));
}

#[test]
fn expect_unconstrained_primative_error() {
    assert_eq!(parse("a = uint").unwrap_err(), FlattenError::InvalidUnconstrainedPrimative);
    assert_eq!(parse("a = tstr").unwrap_err(), FlattenError::InvalidUnconstrainedPrimative);
}

#[test]
fn expect_invalid_literal_error() {
    assert_eq!(parse("a = 1.5").unwrap_err(), FlattenError::InvalidLiteral);
}

#[test]
fn expect_invalid_control_error() {
    // a size control whose argument is not an unsigned integer
    assert_eq!(parse(r#"a = uint .size "x""#).unwrap_err(), FlattenError::InvalidControl);
}

#[test]
fn expect_not_supported_control_error() {
    assert_eq!(parse("a = uint .lt 5").unwrap_err(), FlattenError::NotSupportedControl("lt".into()));
}

#[test]
fn expect_invalid_size_constraint_error() {
    assert_eq!(
        parse("a = int .size 3").unwrap_err(),
        FlattenError::InvalidSizeConstraint("int".into(), 3)
    );
    assert_eq!(
        parse("a = bool .size 2").unwrap_err(),
        FlattenError::InvalidSizeConstraint("bool".into(), 2)
    );
}

#[test]
fn expect_exact_count_array() {
    let nodes = flatten("data = [ 6*6 uint .size 1 ]").unwrap();
    assert_eq!(
        nodes.get("data").unwrap(),
        &Node::Array(Array::new(Node::Primative(ConstrainedPrimative::U8), 6))
    );
}

#[test]
fn expect_invalid_array_size_error() {
    assert_eq!(parse("data = [ 3*6 uint .size 1 ]").unwrap_err(), FlattenError::InvalidArraySize);
    assert_eq!(parse("data = [ * uint .size 1 ]").unwrap_err(), FlattenError::InvalidArraySize);
}

#[test]
fn expect_invalid_array_error() {
    assert_eq!(
        parse("data = [ 1*1 uint .size 1, 1*1 uint .size 2 ]").unwrap_err(),
        FlattenError::InvalidArray
    );
}

#[test]
fn expect_nested_array_rejected() {
    let err = parse(r#"
        inner = [ 2*2 uint .size 1 ]
        outer = [ 2*2 inner ]
    "#).unwrap_err();
    assert_eq!(err, FlattenError::InvalidArray);
}

#[test]
fn expect_todo_enums_error() {
    assert_eq!(parse("a = 1 / 2").unwrap_err(), FlattenError::TodoEnums);
}

#[test]
fn expect_not_supported_range_error() {
    assert_eq!(parse("a = 1..10").unwrap_err(), FlattenError::NotSupportedRange);
}

#[test]
fn expect_foreign_key_error() {
    assert_eq!(parse("b = a").unwrap_err(), FlattenError::ForeignKey("a".into()));
}

#[test]
fn expect_invalid_type_error() {
    // a keyless map member that resolves to a primitive, not a group
    let err = parse(r#"
        u8 = uint .size 1
        data = { u8 }
    "#).unwrap_err();
    assert_eq!(err, FlattenError::InvalidType);
}

#[test]
fn expect_missing_key_error() {
    // a member key that is not a bare field name
    let err = parse(r#"data = { "k" => uint .size 1 }"#).unwrap_err();
    assert_eq!(err, FlattenError::InvalidGroupMissingKey);
}

#[test]
fn expect_invalid_enum0_error() {
    let err = parse("data = { a: uint .size 1 // b: uint .size 2 }").unwrap_err();
    assert_eq!(err, FlattenError::InvalidEnum0);
}

#[test]
fn expect_cyclic_reference_error() {
    let err = parse(r#"
        a = b
        b = a
    "#).unwrap_err();
    assert!(matches!(err, FlattenError::CyclicReference(_)));
}

#[test]
fn expect_cyclic_group_splice_error() {
    let err = parse(r#"
        g1 = ( a: uint .size 1, g2 )
        g2 = ( b: uint .size 1, g1 )
        data = { g1 }
    "#).unwrap_err();
    assert!(matches!(err, FlattenError::CyclicReference(_)));
}
