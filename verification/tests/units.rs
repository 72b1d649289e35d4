use seedle_parser::node::{ConstrainedPrimative, Literal, Primative};
use seedle_parser::table::NameMap;
use seedle_parser::text::{split_group, str_eq};
use seedle_parser::FlattenError;

#[test]
fn expect_constrain_sizes() {
    assert_eq!(Primative::from_name("uint".into()).constrain(1), Ok(ConstrainedPrimative::U8));
    assert_eq!(Primative::from_name("int".into()).constrain(8), Ok(ConstrainedPrimative::I64));
    assert_eq!(Primative::from_name("tstr".into()).constrain(32), Ok(ConstrainedPrimative::Str(32)));
    assert_eq!(Primative::from_name("bytes".into()).constrain(16), Ok(ConstrainedPrimative::Bytes(16)));
    assert_eq!(
        Primative::from_name("bool".into()).constrain(1),
        Err(FlattenError::InvalidSizeConstraint("bool".into(), 1))
    );
    assert_eq!(
        Primative::from_name("uint".into()).constrain(3),
        Err(FlattenError::InvalidSizeConstraint("uint".into(), 3))
    );
}

#[test]
fn expect_text_literal_normal_form() {
    assert_eq!(Literal::from_text("C".into()), Literal::Char('C'));
    assert_eq!(Literal::from_text("CD".into()), Literal::Str("CD".into()));
    assert_eq!(Literal::from_text("".into()), Literal::Str("".into()));
}

#[test]
fn expect_str_eq() {
    assert!(str_eq("hello", "hello"));
    assert!(!str_eq("hello", "hellO"));
    assert!(!str_eq("hello", "hell"));
    assert!(str_eq("", ""));
}

#[test]
fn expect_split_group() {
    assert_eq!(split_group("foo-bar", '-'), ("foo".to_string(), "bar".to_string()));
    assert_eq!(split_group("foo-bar-baz", '-'), ("foo".to_string(), "bar-baz".to_string()));
    assert_eq!(split_group("plain", '-'), ("_".to_string(), "plain".to_string()));
}

#[test]
fn expect_table_insert_and_get() {
    let mut m: NameMap<u32> = NameMap::new();
    assert!(m.is_empty());
    m.insert("a".into(), 1);
    m.insert("b".into(), 2);
    m.insert("a".into(), 3);
    assert_eq!(m.len(), 2);
    assert_eq!(m.get("a"), Some(&3));
    assert_eq!(m.get("b"), Some(&2));
    assert_eq!(m.get("c"), None);
    assert_eq!(m.entry_at(0).0, "a");
    assert_eq!(m.entry_at(1).0, "b");
}
