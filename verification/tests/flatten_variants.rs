use seedle_parser::flatten::flatten;
use seedle_parser::node::{Array, ConstrainedPrimative, Group, KeyVal, Literal, Node};

#[test]
fn flatten_expect_primatives() {
    const TEST_DATA: &'static str = r#"
		u8 = uint .size 1
		i8 = int .size 1
		u16 = uint .size 2
		i16 = int .size 2
		u32 = uint .size 4
		i32 = int .size 4
		u64 = uint .size 8
		i64 = int .size 8
		is-dhcp = bool
		"#;
    let nodes = flatten(TEST_DATA).unwrap();
    assert_eq!(nodes.get("u8").unwrap(), &Node::Primative(ConstrainedPrimative::U8));
    assert_eq!(nodes.get("u16").unwrap(), &Node::Primative(ConstrainedPrimative::U16));
    assert_eq!(nodes.get("u32").unwrap(), &Node::Primative(ConstrainedPrimative::U32));
    assert_eq!(nodes.get("u64").unwrap(), &Node::Primative(ConstrainedPrimative::U64));
    assert_eq!(nodes.get("i8").unwrap(), &Node::Primative(ConstrainedPrimative::I8));
    assert_eq!(nodes.get("i16").unwrap(), &Node::Primative(ConstrainedPrimative::I16));
    assert_eq!(nodes.get("i32").unwrap(), &Node::Primative(ConstrainedPrimative::I32));
    assert_eq!(nodes.get("i64").unwrap(), &Node::Primative(ConstrainedPrimative::I64));
    assert_eq!(nodes.get("is-dhcp").unwrap(), &Node::Primative(ConstrainedPrimative::Bool));
}

#[test]
fn flatten_expect_map() {
    const TEST_DATA: &'static str = r#"
		colors = {
			red: u8,
			boat: u16
		}
		"#;
    let nodes = flatten(TEST_DATA).unwrap();
    assert_eq!(
        nodes.get("colors").unwrap(),
        &Node::Record(Group {
            members: vec![
                Node::KeyVal(KeyVal::new("red", Node::Foreign("u8".into()))),
                Node::KeyVal(KeyVal::new("boat", Node::Foreign("u16".into()))),
            ]
        })
    );
}

#[test]
fn flatten_expect_group() {
    const TEST_DATA: &'static str = r#"
		ip = (
	        address: tstr .size 16,
	        port: u16,
	        dhcp: is-dhcp,
		)
		"#;
    let nodes = flatten(TEST_DATA).unwrap();
    assert_eq!(
        nodes.get("ip").unwrap(),
        &Node::Group(Group {
            members: vec![
                Node::KeyVal(KeyVal::new(
                    "address",
                    Node::Primative(ConstrainedPrimative::Str(16))
                )),
                Node::KeyVal(KeyVal::new("port", Node::Foreign("u16".into()))),
                Node::KeyVal(KeyVal::new("dhcp", Node::Foreign("is-dhcp".into()))),
            ]
        })
    );
}

#[test]
fn expect_map_w_foreign_member() {
    const TEST_DATA: &'static str = r#"
		data = {
	        thing: foo
		}
		"#;
    let nodes = flatten(TEST_DATA).unwrap();
    assert_eq!(
        nodes.get("data").unwrap(),
        &Node::Record(Group {
            members: vec![Node::KeyVal(KeyVal::new("thing", Node::Foreign("foo".into())))]
        })
    );
}

#[test]
fn expect_map_w_foreign_group_member() {
    const TEST_DATA: &'static str = r#"
		data = {
	        foo
		}
		"#;
    let nodes = flatten(TEST_DATA).unwrap();
    assert_eq!(
        nodes.get("data").unwrap(),
        &Node::Record(Group { members: vec![Node::Foreign("foo".into())] })
    );
}

#[test]
fn flatten_expect_array_w_foreign_element() {
    const TEST_DATA: &'static str = r#"
        data = [ 6*6 foo ]
		"#;
    let nodes = flatten(TEST_DATA).unwrap();
    assert_eq!(
        nodes.get("data").unwrap(),
        &Node::Array(Array::new(Node::Foreign("foo".into()), 6))
    );
}

#[test]
fn flatten_expect_top_level_foreign() {
    const TEST_DATA: &'static str = r#"
        data = foo
		"#;
    let nodes = flatten(TEST_DATA).unwrap();
    assert_eq!(nodes.get("data").unwrap(), &Node::Foreign("foo".into()));
}

#[test]
fn flatten_expect_top_level_literal() {
    const TEST_DATA: &'static str = r#"
        u = 3
        i = -3
        s = "bar"
        b = false
        c = "A"
        f = foreign
		"#;
    let nodes = flatten(TEST_DATA).unwrap();
    assert_eq!(nodes.get("u").unwrap(), &Node::Literal(Literal::UInt(3)));
    assert_eq!(nodes.get("i").unwrap(), &Node::Literal(Literal::Int(-3)));
    assert_eq!(nodes.get("s").unwrap(), &Node::Literal(Literal::Str("bar".into())));
    assert_eq!(nodes.get("b").unwrap(), &Node::Literal(Literal::Bool(false)));
    assert_eq!(nodes.get("c").unwrap(), &Node::Literal(Literal::Char('A')));
    assert_eq!(nodes.get("f").unwrap(), &Node::Foreign("foreign".into()));
}

#[test]
fn flatten_expect_nested_maps() {
    const TEST_DATA: &'static str = r#"
        data = {
          foo: {
            a: u8,
            b: tstr .size 32,
          }
        }
		"#;
    let nodes = flatten(TEST_DATA).unwrap();
    assert_eq!(
        nodes.get("data").unwrap(),
        &Node::Record(Group {
            members: vec![Node::KeyVal(KeyVal::new(
                "foo",
                Node::Record(Group {
                    members: vec![
                        Node::KeyVal(KeyVal::new("a", Node::Foreign("u8".into()))),
                        Node::KeyVal(KeyVal::new(
                            "b",
                            Node::Primative(ConstrainedPrimative::Str(32))
                        )),
                    ],
                }),
            ))],
        })
    );
}
