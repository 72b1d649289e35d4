//! Filters and a grouping fold over resolved rule entries.
//!
//! The filters pick the struct-valued and literal-valued rules out of
//! `(name, node)` pairs, each in an owned and a borrowed form.  The fold
//! partitions named values by a separator character in their names:
//! `foo_a` and `foo_b` collect under group `foo`, and a name without the
//! separator collects under the sentinel group `_`.
use vstd::prelude::*;

use crate::node::{Fields, LinkedNode, Literal, SpecLinkedKeyVal, SpecLinkedNode, SpecLiteral};
use crate::table::{entries_view, map_get, map_insert, NameMap};
use crate::text::{spec_split_group, split_group};

verus! {

/// The items of one group: `(key, value)` pairs in arrival order.
#[derive(Debug, PartialEq)]
pub struct GroupItems<T> {
    /// The group's items, each under the remainder of its split name.
    pub items: Vec<(String, T)>,
}

impl<T: View> View for GroupItems<T> {
    type V = Seq<(Seq<char>, T::V)>;

    open spec fn view(&self) -> Seq<(Seq<char>, T::V)> {
        entries_view(self.items@)
    }
}

/// Named values partitioned by the group prefix of their names.
pub type Grouped<T> = NameMap<GroupItems<T>>;

/// What one fold step does: the name splits into a group and a key, and
/// the value joins that group's items, at the group's place.
pub open spec fn spec_fold_group<V>(
    state: Seq<(Seq<char>, Seq<(Seq<char>, V)>)>,
    sep: char,
    key: Seq<char>,
    val: V,
) -> Seq<(Seq<char>, Seq<(Seq<char>, V)>)> {
    let parts = spec_split_group(key, sep);
    let items = match map_get(state, parts.0) {
        Some(items) => items,
        None => Seq::empty(),
    };
    map_insert(state, parts.0, items.push((parts.1, val)))
}

/// Keep a `(name, node)` pair only where the node is a nominal record,
/// consuming the pair.
pub fn structs_owned(kv: (String, LinkedNode)) -> (r: Option<(String, Fields)>)
    ensures
        match r {
            Some(p) => kv.1@ matches SpecLinkedNode::Struct(fields) && p.0@ == kv.0@ && p.1@
                == fields,
            None => !(kv.1@ is Struct),
        },
{
    match kv.1 {
        LinkedNode::Struct(fields) => Some((kv.0, fields)),
        _ => None,
    }
}

/// Keep a `(name, node)` pair only where the node is a nominal record,
/// borrowing the pair.
pub fn structs_borrowed<'a>(kv: (&'a String, &'a LinkedNode)) -> (r: Option<
    (&'a String, &'a Fields),
>)
    ensures
        match r {
            Some(p) => kv.1@ matches SpecLinkedNode::Struct(fields) && p.0@ == kv.0@ && p.1@
                == fields,
            None => !(kv.1@ is Struct),
        },
{
    match kv.1 {
        LinkedNode::Struct(fields) => Some((kv.0, fields)),
        _ => None,
    }
}

/// Keep a `(name, node)` pair only where the node is a literal,
/// consuming the pair.
pub fn literals_owned(kv: (String, LinkedNode)) -> (r: Option<(String, Literal)>)
    ensures
        match r {
            Some(p) => kv.1@ matches SpecLinkedNode::Literal(lit) && p.0@ == kv.0@ && p.1@ == lit,
            None => !(kv.1@ is Literal),
        },
{
    match kv.1 {
        LinkedNode::Literal(lit) => Some((kv.0, lit)),
        _ => None,
    }
}

/// Keep a `(name, node)` pair only where the node is a literal,
/// borrowing the pair.
pub fn literals_borrowed<'a>(kv: (&'a String, &'a LinkedNode)) -> (r: Option<
    (&'a String, &'a Literal),
>)
    ensures
        match r {
            Some(p) => kv.1@ matches SpecLinkedNode::Literal(lit) && p.0@ == kv.0@ && p.1@ == lit,
            None => !(kv.1@ is Literal),
        },
{
    match kv.1 {
        LinkedNode::Literal(lit) => Some((kv.0, lit)),
        _ => None,
    }
}

/// One step of the grouping fold, consuming the pair.
pub fn fold_group_owned<T: View>(sep: char, state: Grouped<T>, kv: (String, T)) -> (r: Grouped<T>)
    ensures
        r@ == spec_fold_group(state@, sep, kv.0@, kv.1@),
{
    let (group, rest) = split_group(kv.0.as_str(), sep);
    let mut state = state;
    let ghost m = state@;
    match state.index_of(group.as_str()) {
        Some(i) => {
            proof {
                crate::table::lemma_map_get_at(m, group@, i as int);
                crate::table::lemma_map_insert_at(
                    m,
                    group@,
                    m[i as int].1.push((rest@, kv.1@)),
                    i as int,
                );
            }
            let items = state.value_at_mut(i);
            let ghost before = items@;
            items.items.push((rest, kv.1));
            proof {
                assert(items@ =~= before.push((rest@, kv.1@)));
                assert(state@ =~= map_insert(m, group@, before.push((rest@, kv.1@))));
            }
        },
        None => {
            proof {
                crate::table::lemma_map_get_none(m, group@);
                crate::table::lemma_map_insert_push(m, group@, Seq::empty().push((rest@, kv.1@)));
            }
            let mut items: GroupItems<T> = GroupItems { items: Vec::new() };
            items.items.push((rest, kv.1));
            proof {
                assert(items@ =~= Seq::<(Seq<char>, T::V)>::empty().push((rest@, kv.1@)));
            }
            state.insert(group, items);
        },
    }
    state
}

/// One step of the grouping fold, borrowing the pair and cloning the
/// value.  What a clone of the value carries is up to its `Clone` impl,
/// so only the grouping of the keys is pinned down here.
pub fn fold_group_borrowed<T: View + Clone>(sep: char, state: Grouped<T>, kv: (&String, &T)) -> (r:
    Grouped<T>)
    ensures
        exists|v: T::V| r@ == spec_fold_group(state@, sep, kv.0@, v),
{
    fold_group_owned(sep, state, (kv.0.clone(), kv.1.clone()))
}

} // verus!
