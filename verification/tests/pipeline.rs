use seedle_parser::flatten::flatten;
use seedle_parser::link::link;
use seedle_parser::node::{
    Array, ConstrainedPrimative, Fields, Group, KeyVal, LinkedArray, LinkedKeyVal, LinkedNode,
    Literal, Node,
};
use seedle_parser::parse;

#[test]
fn expect_primatives() {
    const TEST_DATA: &'static str = r#"
		u8 = uint .size 1
		i8 = int .size 1
		u16 = uint .size 2
		i16 = int .size 2
		u32 = uint .size 4
		i32 = int .size 4
		u64 = uint .size 8
		i64 = int .size 8
		is-dhcp = bool
        u8_0 = u8
        u8_1 = u8_0
        u8_2 = u8_1
		"#;
    let nodes = flatten(TEST_DATA).unwrap();
    assert_eq!(nodes.get("u8").unwrap(), &Node::Primative(ConstrainedPrimative::U8));
    assert_eq!(nodes.get("u16").unwrap(), &Node::Primative(ConstrainedPrimative::U16));
    assert_eq!(nodes.get("u32").unwrap(), &Node::Primative(ConstrainedPrimative::U32));
    assert_eq!(nodes.get("u64").unwrap(), &Node::Primative(ConstrainedPrimative::U64));
    assert_eq!(nodes.get("i8").unwrap(), &Node::Primative(ConstrainedPrimative::I8));
    assert_eq!(nodes.get("i16").unwrap(), &Node::Primative(ConstrainedPrimative::I16));
    assert_eq!(nodes.get("i32").unwrap(), &Node::Primative(ConstrainedPrimative::I32));
    assert_eq!(nodes.get("i64").unwrap(), &Node::Primative(ConstrainedPrimative::I64));
    assert_eq!(nodes.get("is-dhcp").unwrap(), &Node::Primative(ConstrainedPrimative::Bool));

    let linked = link(nodes).unwrap();
    assert_eq!(linked.get("u8_0").unwrap(), &LinkedNode::Primative(ConstrainedPrimative::U8));
    assert_eq!(linked.get("u8_1").unwrap(), &LinkedNode::Primative(ConstrainedPrimative::U8));
    assert_eq!(linked.get("u8_2").unwrap(), &LinkedNode::Primative(ConstrainedPrimative::U8));
}

#[test]
fn expect_top_level_literal() {
    const TEST_DATA: &'static str = r#"
        u = 3
        i = -3
        s = "bar"
        b = false
        c = "A"
        d = 3
        f = d
        ff = f
        fff = ff
		"#;
    let nodes = flatten(TEST_DATA).unwrap();
    assert_eq!(nodes.get("u").unwrap(), &Node::Literal(Literal::UInt(3)));
    assert_eq!(nodes.get("i").unwrap(), &Node::Literal(Literal::Int(-3)));
    assert_eq!(nodes.get("s").unwrap(), &Node::Literal(Literal::Str("bar".into())));
    assert_eq!(nodes.get("b").unwrap(), &Node::Literal(Literal::Bool(false)));
    assert_eq!(nodes.get("c").unwrap(), &Node::Literal(Literal::Char('A')));
    assert_eq!(nodes.get("f").unwrap(), &Node::Foreign("d".into()));

    let linked = link(nodes).unwrap();
    assert_eq!(linked.get("f").unwrap(), &LinkedNode::Literal(Literal::UInt(3)));
    assert_eq!(linked.get("ff").unwrap(), &LinkedNode::Literal(Literal::UInt(3)));
    assert_eq!(linked.get("fff").unwrap(), &LinkedNode::Literal(Literal::UInt(3)));
}

#[test]
fn expect_top_level_foreign() {
    const TEST_DATA: &'static str = r#"
        foo = {
            a: uint .size 2
        }
        data = foo
		"#;
    let nodes = flatten(TEST_DATA).unwrap();
    assert_eq!(nodes.get("data").unwrap(), &Node::Foreign("foo".into()));
    let linked = link(nodes).unwrap();
    assert_eq!(linked.get("data").unwrap(), &LinkedNode::ForeignStruct("foo".into()));
}

#[test]
fn expect_map() {
    const TEST_DATA: &'static str = r#"
        u8 = uint .size 1;
        u16 = uint .size 2;
        u16_0 = u16;
        u16_1 = u16_0;
		colors = {
            green: uint .size 4,
			red: u8,
			boat: u16_1
		}
		"#;
    let nodes = flatten(TEST_DATA).unwrap();
    assert_eq!(
        nodes.get("colors").unwrap(),
        &Node::Record(Group {
            members: vec![
                Node::KeyVal(KeyVal::new("green", Node::Primative(ConstrainedPrimative::U32))),
                Node::KeyVal(KeyVal::new("red", Node::Foreign("u8".into()))),
                Node::KeyVal(KeyVal::new("boat", Node::Foreign("u16_1".into()))),
            ]
        })
    );
    let linked = link(nodes).unwrap();
    assert_eq!(
        linked.get("colors").unwrap(),
        &LinkedNode::Struct(Fields {
            members: vec![
                LinkedKeyVal::new("green", LinkedNode::Primative(ConstrainedPrimative::U32)),
                LinkedKeyVal::new("red", LinkedNode::Primative(ConstrainedPrimative::U8)),
                LinkedKeyVal::new("boat", LinkedNode::Primative(ConstrainedPrimative::U16)),
            ]
        })
    );
}

#[test]
fn expect_group() {
    const TEST_DATA: &'static str = r#"
        is-dhcp = bool
        u16 = uint .size 2
		ip = (
	        address: tstr .size 16,
	        port: u16,
	        dhcp: is-dhcp,
		)
        ip_0 = ip
        ip_1 = ip_0
        ip_2 = ip_1
        data = {
          ip
        }
		"#;
    let nodes = flatten(TEST_DATA).unwrap();
    assert_eq!(
        nodes.get("ip").unwrap(),
        &Node::Group(Group {
            members: vec![
                Node::KeyVal(KeyVal::new(
                    "address",
                    Node::Primative(ConstrainedPrimative::Str(16))
                )),
                Node::KeyVal(KeyVal::new("port", Node::Foreign("u16".into()))),
                Node::KeyVal(KeyVal::new("dhcp", Node::Foreign("is-dhcp".into()))),
            ]
        })
    );
    assert_eq!(
        nodes.get("data").unwrap(),
        &Node::Record(Group { members: vec![Node::Foreign("ip".into())] })
    );
    let linked = link(nodes).unwrap();
    assert_eq!(
        linked.get("data").unwrap(),
        &LinkedNode::Struct(Fields {
            members: vec![
                LinkedKeyVal::new("address", LinkedNode::Primative(ConstrainedPrimative::Str(16))),
                LinkedKeyVal::new("port", LinkedNode::Primative(ConstrainedPrimative::U16)),
                LinkedKeyVal::new("dhcp", LinkedNode::Primative(ConstrainedPrimative::Bool)),
            ]
        })
    );
}

#[test]
fn expect_array() {
    const TEST_DATA: &'static str = r#"
        xs = [ 6*6 uint .size 1 ]
        sm = [ 6*6 uint .size 2 ]
        lg = [ 6*6 uint .size 4 ]
        xl = [ 6*6 uint .size 8 ]
        bl = [ 6*6 bool ]
        ss = [ 6*6 tstr .size 4 ]
        bb = [ 6*6 bstr .size 4 ]
		"#;
    let nodes = flatten(TEST_DATA).unwrap();
    assert_eq!(
        nodes.get("xs").unwrap(),
        &Node::Array(Array::new(Node::Primative(ConstrainedPrimative::U8), 6))
    );
    assert_eq!(
        nodes.get("sm").unwrap(),
        &Node::Array(Array::new(Node::Primative(ConstrainedPrimative::U16), 6))
    );
    assert_eq!(
        nodes.get("lg").unwrap(),
        &Node::Array(Array::new(Node::Primative(ConstrainedPrimative::U32), 6))
    );
    assert_eq!(
        nodes.get("xl").unwrap(),
        &Node::Array(Array::new(Node::Primative(ConstrainedPrimative::U64), 6))
    );
    assert_eq!(
        nodes.get("bl").unwrap(),
        &Node::Array(Array::new(Node::Primative(ConstrainedPrimative::Bool), 6))
    );
    assert_eq!(
        nodes.get("ss").unwrap(),
        &Node::Array(Array::new(Node::Primative(ConstrainedPrimative::Str(4)), 6))
    );
    assert_eq!(
        nodes.get("bb").unwrap(),
        &Node::Array(Array::new(Node::Primative(ConstrainedPrimative::Bytes(4)), 6))
    );
}

#[test]
fn expect_array_w_foreign_element() {
    const TEST_DATA: &'static str = r#"
        foo = tstr .size 4
        foo_0 = foo
        foo_1 = foo_0
        foo_2 = foo_1
        data = [ 6*6 foo_2 ]
		"#;
    let nodes = flatten(TEST_DATA).unwrap();
    assert_eq!(
        nodes.get("data").unwrap(),
        &Node::Array(Array::new(Node::Foreign("foo_2".into()), 6))
    );
    let linked = link(nodes).unwrap();
    assert_eq!(
        linked.get("data").unwrap(),
        &LinkedNode::Array(LinkedArray::new(
            LinkedNode::Primative(ConstrainedPrimative::Str(4)),
            6
        ))
    );
}

#[test]
fn expect_nested_maps() {
    const TEST_DATA: &'static str = r#"
        u8 = uint .size 1
        u16 = uint .size 2
        data = {
          foo: {
            a: u8,
            b: tstr .size 32,
            bar: {
                c: u16,
                d: bstr .size 32
            }
          }
        }
		"#;
    let nodes = flatten(TEST_DATA).unwrap();
    assert_eq!(
        nodes.get("data").unwrap(),
        &Node::Record(Group {
            members: vec![Node::KeyVal(KeyVal::new(
                "foo",
                Node::Record(Group {
                    members: vec![
                        Node::KeyVal(KeyVal::new("a", Node::Foreign("u8".into()))),
                        Node::KeyVal(KeyVal::new(
                            "b",
                            Node::Primative(ConstrainedPrimative::Str(32))
                        )),
                        Node::KeyVal(KeyVal::new(
                            "bar",
                            Node::Record(Group {
                                members: vec![
                                    Node::KeyVal(KeyVal::new("c", Node::Foreign("u16".into()))),
                                    Node::KeyVal(KeyVal::new(
                                        "d",
                                        Node::Primative(ConstrainedPrimative::Bytes(32))
                                    )),
                                ]
                            })
                        )),
                    ],
                }),
            ))],
        })
    );
    let linked = link(nodes).unwrap();
    assert_eq!(
        linked.get("data").unwrap(),
        &LinkedNode::Struct(Fields {
            members: vec![LinkedKeyVal::new(
                "foo",
                LinkedNode::Struct(Fields {
                    members: vec![
                        LinkedKeyVal::new("a", LinkedNode::Primative(ConstrainedPrimative::U8)),
                        LinkedKeyVal::new(
                            "b",
                            LinkedNode::Primative(ConstrainedPrimative::Str(32))
                        ),
                        LinkedKeyVal::new(
                            "bar",
                            LinkedNode::Struct(Fields {
                                members: vec![
                                    LinkedKeyVal::new(
                                        "c",
                                        LinkedNode::Primative(ConstrainedPrimative::U16)
                                    ),
                                    LinkedKeyVal::new(
                                        "d",
                                        LinkedNode::Primative(ConstrainedPrimative::Bytes(32))
                                    ),
                                ]
                            })
                        ),
                    ],
                }),
            )],
        })
    );
}

#[test]
fn expect_port_scenario() {
    const TEST_DATA: &'static str = r#"
        u8  = uint .size 1
        u16 = uint .size 2
        port = { http: u16, label: tstr .size 32 }
		"#;
    let linked = parse(TEST_DATA).unwrap();
    assert_eq!(
        linked.get("port").unwrap(),
        &LinkedNode::Struct(Fields {
            members: vec![
                LinkedKeyVal::new("http", LinkedNode::Primative(ConstrainedPrimative::U16)),
                LinkedKeyVal::new("label", LinkedNode::Primative(ConstrainedPrimative::Str(32))),
            ]
        })
    );
}

#[test]
fn expect_forward_reference() {
    const TEST_DATA: &'static str = r#"
        data = { boat: u16 }
        u16 = uint .size 2
		"#;
    let linked = parse(TEST_DATA).unwrap();
    assert_eq!(
        linked.get("data").unwrap(),
        &LinkedNode::Struct(Fields {
            members: vec![LinkedKeyVal::new(
                "boat",
                LinkedNode::Primative(ConstrainedPrimative::U16)
            )]
        })
    );
}

#[test]
fn expect_struct_field_not_inlined() {
    const TEST_DATA: &'static str = r#"
        inner = { a: uint .size 1 }
        outer = { nested: inner }
		"#;
    let linked = parse(TEST_DATA).unwrap();
    assert_eq!(
        linked.get("outer").unwrap(),
        &LinkedNode::Struct(Fields {
            members: vec![LinkedKeyVal::new(
                "nested",
                LinkedNode::ForeignStruct("inner".into())
            )]
        })
    );
}

#[test]
fn expect_splice_equals_inline() {
    const SPLICED: &'static str = r#"
        fields = (
            a: uint .size 1,
            b: uint .size 2,
        )
        data = {
            fields
        }
		"#;
    const INLINE: &'static str = r#"
        data = {
            a: uint .size 1,
            b: uint .size 2,
        }
		"#;
    let spliced = parse(SPLICED).unwrap();
    let inline = parse(INLINE).unwrap();
    assert_eq!(spliced.get("data").unwrap(), inline.get("data").unwrap());
}

#[test]
fn expect_literal_classification() {
    const TEST_DATA: &'static str = r#"
        one = "C"
        two = "CD"
		"#;
    let linked = parse(TEST_DATA).unwrap();
    assert_eq!(linked.get("one").unwrap(), &LinkedNode::Literal(Literal::Char('C')));
    assert_eq!(linked.get("two").unwrap(), &LinkedNode::Literal(Literal::Str("CD".into())));
}

#[test]
fn expect_completeness_of_names() {
    const TEST_DATA: &'static str = r#"
        u8 = uint .size 1
        lit = 42
        rec = { a: u8 }
        alias = u8
		"#;
    let linked = parse(TEST_DATA).unwrap();
    assert_eq!(linked.len(), 4);
    assert!(linked.contains_key("u8"));
    assert!(linked.contains_key("lit"));
    assert!(linked.contains_key("rec"));
    assert!(linked.contains_key("alias"));
    assert!(!linked.contains_key("other"));
}
