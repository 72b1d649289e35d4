use seedle_parser::context::Context;
use seedle_parser::iters::{
    fold_group_borrowed, fold_group_owned, literals_borrowed, literals_owned, structs_borrowed,
    structs_owned, GroupItems, Grouped,
};
use seedle_parser::node::{Fields, Literal};
use seedle_parser::parse;
use seedle_parser::table::NameMap;

const ITER_TEST_DATA: &'static str = r#"
        p0 = bool
        p1 = bool
        p2 = bool
        l0 = 1
        l1 = 2
        l2 = 3
        s0 = {address: tstr .size 1, port: uint .size 2}
        s1 = {address: tstr .size 2, port: uint .size 2}
        s2 = {address: tstr .size 3, port: uint .size 2}
        foo-l0 = 1
        foo-l1 = 2
        foo-l2 = 3
        bar-l0 = 1
        bar-l1 = 2
        bar-l2 = 3
		"#;

fn find<'a, T>(pairs: &'a [(String, T)], key: &str) -> Option<&'a T> {
    pairs.iter().find(|p| p.0 == key).map(|p| &p.1)
}

#[test]
fn expect_structs() {
    let s: Vec<(String, Fields)> = parse(&ITER_TEST_DATA)
        .unwrap()
        .into_entries()
        .into_iter()
        .filter_map(structs_owned)
        .collect();
    assert_eq!(3, s.len());
    assert!(find(&s, "p0").is_none());
    assert!(find(&s, "p1").is_none());
    assert!(find(&s, "p2").is_none());
    assert!(find(&s, "l0").is_none());
    assert!(find(&s, "l1").is_none());
    assert!(find(&s, "l2").is_none());
    assert!(find(&s, "s0").is_some());
    assert!(find(&s, "s1").is_some());
    assert!(find(&s, "s2").is_some());
}

#[test]
fn expect_structs_borrowed() {
    let map = parse(&ITER_TEST_DATA).unwrap();
    let mut s: Vec<(&String, &Fields)> = Vec::new();
    for i in 0..map.len() {
        let entry = map.entry_at(i);
        if let Some(p) = structs_borrowed((&entry.0, &entry.1)) {
            s.push(p);
        }
    }
    assert_eq!(3, s.len());
    assert!(s.iter().all(|p| p.0 != "p0" && p.0 != "l0"));
    assert!(s.iter().any(|p| p.0 == "s0"));
    assert!(s.iter().any(|p| p.0 == "s1"));
    assert!(s.iter().any(|p| p.0 == "s2"));
}

#[test]
fn expect_literals() {
    let s: Vec<(String, Literal)> = parse(&ITER_TEST_DATA)
        .unwrap()
        .into_entries()
        .into_iter()
        .filter_map(literals_owned)
        .collect();
    assert_eq!(9, s.len());
    assert!(find(&s, "p0").is_none());
    assert!(find(&s, "p1").is_none());
    assert!(find(&s, "p2").is_none());
    assert!(find(&s, "l0").is_some());
    assert!(find(&s, "l1").is_some());
    assert!(find(&s, "l2").is_some());
    assert!(find(&s, "s0").is_none());
    assert!(find(&s, "s1").is_none());
    assert!(find(&s, "s2").is_none());
}

#[test]
fn expect_literals_borrowed() {
    let map = parse(&ITER_TEST_DATA).unwrap();
    let mut s: Vec<(&String, &Literal)> = Vec::new();
    for i in 0..map.len() {
        let entry = map.entry_at(i);
        if let Some(p) = literals_borrowed((&entry.0, &entry.1)) {
            s.push(p);
        }
    }
    assert_eq!(9, s.len());
    assert!(s.iter().all(|p| p.0 != "p0" && p.0 != "s0"));
    assert!(s.iter().any(|p| p.0 == "l0"));
    assert!(s.iter().any(|p| p.0 == "l1"));
    assert!(s.iter().any(|p| p.0 == "l2"));
}

#[test]
fn expect_fold_group_owned() {
    let mut s: Grouped<Literal> = NameMap::new();
    let entries = parse(&ITER_TEST_DATA).unwrap().into_entries();
    for kv in entries.into_iter().filter_map(literals_owned) {
        s = fold_group_owned('-', s, kv);
    }
    let foo: &GroupItems<Literal> = s.get("foo").unwrap();
    assert_eq!(3, foo.items.len());
    assert_eq!("l0", foo.items[0].0);
    assert_eq!("l1", foo.items[1].0);
    assert_eq!("l2", foo.items[2].0);
    let bar = s.get("bar").unwrap();
    assert_eq!(3, bar.items.len());
    assert_eq!("l0", bar.items[0].0);
    assert_eq!("l1", bar.items[1].0);
    assert_eq!("l2", bar.items[2].0);
    let ungrouped = s.get("_").unwrap();
    assert_eq!(3, ungrouped.items.len());
    assert_eq!("l0", ungrouped.items[0].0);
    assert_eq!("l1", ungrouped.items[1].0);
    assert_eq!("l2", ungrouped.items[2].0);
}

#[test]
fn expect_fold_group_borrowed() {
    let map = parse(&ITER_TEST_DATA).unwrap();
    let mut s: Grouped<Literal> = NameMap::new();
    for i in 0..map.len() {
        let entry = map.entry_at(i);
        if let Some(kv) = literals_borrowed((&entry.0, &entry.1)) {
            s = fold_group_borrowed('-', s, kv);
        }
    }
    let foo = s.get("foo").unwrap();
    assert_eq!(3, foo.items.len());
    assert_eq!("l0", foo.items[0].0);
    assert_eq!("l1", foo.items[1].0);
    assert_eq!("l2", foo.items[2].0);
    let bar = s.get("bar").unwrap();
    assert_eq!(3, bar.items.len());
    assert_eq!("l0", bar.items[0].0);
    assert_eq!("l1", bar.items[1].0);
    assert_eq!("l2", bar.items[2].0);
    let ungrouped = s.get("_").unwrap();
    assert_eq!(3, ungrouped.items.len());
    assert_eq!("l0", ungrouped.items[0].0);
    assert_eq!("l1", ungrouped.items[1].0);
    assert_eq!("l2", ungrouped.items[2].0);
}

#[test]
fn expect_context_structs() {
    let ctx = Context::new(parse(&ITER_TEST_DATA).unwrap());
    let s = ctx.structs();
    assert_eq!(3, s.len());
    assert_eq!("s0", s[0].0);
    assert_eq!("s1", s[1].0);
    assert_eq!("s2", s[2].0);
}

#[test]
fn expect_context_literals() {
    let ctx = Context::new(parse(&ITER_TEST_DATA).unwrap());
    let l = ctx.literals();
    assert_eq!(9, l.len());
    assert_eq!("l0", l[0].0);
    assert_eq!(&Literal::UInt(1), l[0].1);
    assert_eq!("bar-l2", l[8].0);
    assert_eq!(&Literal::UInt(3), l[8].1);
}
