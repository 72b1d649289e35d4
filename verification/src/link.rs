//! The link pass: from the unresolved node table to the resolved graph.
//!
//! Every rule's node is resolved against the full table.  Literals and
//! primitives pass through; a reference is looked up and, where it
//! resolves to a nominal record, pinned as a by-name
//! [`LinkedNode::ForeignStruct`] rather than inlined; groups and records
//! resolve their members into flat field lists, splicing referenced
//! groups in place; an array's element may resolve only to a primitive,
//! literal or foreign-struct type.
//!
//! Resolution carries a fuel that starts at the table's size.  A chain
//! of references can only exhaust it by visiting some name twice, that
//! is, by a true reference cycle; such a document fails with
//! [`crate::error::FlattenError::CyclicReference`] instead of recursing
//! without bound.
use vstd::prelude::*;

use crate::error::{res_view, FlattenError, FlattenResult, SpecError};
use crate::node::{
    Fields, LinkedArray, LinkedKeyVal, LinkedNode, Node, SpecArray, SpecLinkedArray,
    SpecLinkedKeyVal, SpecLinkedNode, SpecNode,
};
use crate::table::{map_get, NameMap};

verus! {

/// The rule table a document flattens to, as the link pass reads it.
pub type SpecTable = Seq<(Seq<char>, SpecNode)>;

// ---------------------------------------------------------------------------
// The pass as a mathematical function
// ---------------------------------------------------------------------------

/// What a node resolves to against a table, with the given fuel.
pub open spec fn spec_link_node(tbl: SpecTable, n: SpecNode, fuel: nat) -> Result<
    SpecLinkedNode,
    SpecError,
>
    decreases fuel, n,
{
    match n {
        SpecNode::Literal(l) => Ok(SpecLinkedNode::Literal(l)),
        SpecNode::Primative(p) => Ok(SpecLinkedNode::Primative(p)),
        SpecNode::Foreign(name) => match map_get(tbl, name) {
            None => Err(SpecError::ForeignKey(name)),
            Some(found) => if fuel == 0 {
                Err(SpecError::CyclicReference(name))
            } else {
                match spec_link_node(tbl, found, (fuel - 1) as nat) {
                    Ok(SpecLinkedNode::Struct(_)) => Ok(SpecLinkedNode::ForeignStruct(name)),
                    r => r,
                }
            },
        },
        SpecNode::Group(members) => match spec_link_fields(tbl, members, fuel) {
            Ok(fields) => Ok(SpecLinkedNode::Fields(fields)),
            Err(e) => Err(e),
        },
        SpecNode::Record(members) => match spec_link_fields(tbl, members, fuel) {
            Ok(fields) => Ok(SpecLinkedNode::Struct(fields)),
            Err(e) => Err(e),
        },
        SpecNode::Array(a) => spec_link_array(tbl, a, fuel),
        SpecNode::KeyVal(_) => Err(SpecError::Infallible),
    }
}

/// What an array resolves to: its element may only be a primitive, a
/// literal or a foreign-struct reference.
pub open spec fn spec_link_array(tbl: SpecTable, a: SpecArray, fuel: nat) -> Result<
    SpecLinkedNode,
    SpecError,
>
    decreases fuel, a,
{
    match spec_link_node(tbl, *a.ty, fuel) {
        Err(e) => Err(e),
        Ok(SpecLinkedNode::Array(_)) => Err(SpecError::InvalidArray),
        Ok(SpecLinkedNode::Fields(_)) => Err(SpecError::InvalidArray),
        Ok(SpecLinkedNode::Struct(_)) => Err(SpecError::InvalidArray),
        Ok(ln) => Ok(SpecLinkedNode::Array(SpecLinkedArray { len: a.len, ty: Box::new(ln) })),
    }
}

/// What a member list resolves to: a flat field list, fail-fast and in
/// declaration order.
pub open spec fn spec_link_fields(tbl: SpecTable, members: Seq<SpecNode>, fuel: nat) -> Result<
    Seq<SpecLinkedKeyVal>,
    SpecError,
>
    decreases fuel, members,
{
    if members.len() == 0 {
        Ok(Seq::empty())
    } else {
        match spec_link_fields(tbl, members.drop_last(), fuel) {
            Err(e) => Err(e),
            Ok(fields) => match spec_link_field_member(tbl, members.last(), fuel) {
                Err(e) => Err(e),
                Ok(more) => Ok(fields + more),
            },
        }
    }
}

/// What one member contributes: a named field contributes itself, a
/// reference to another group splices that group's fields in place, and
/// anything else is rejected.
pub open spec fn spec_link_field_member(tbl: SpecTable, n: SpecNode, fuel: nat) -> Result<
    Seq<SpecLinkedKeyVal>,
    SpecError,
>
    decreases fuel, n,
{
    match n {
        SpecNode::KeyVal(kv) => match spec_link_node(tbl, *kv.val, fuel) {
            Ok(ln) => Ok(seq![SpecLinkedKeyVal { key: kv.key, val: ln }]),
            Err(e) => Err(e),
        },
        SpecNode::Foreign(key) => match map_get(tbl, key) {
            Some(SpecNode::Group(members)) => if fuel == 0 {
                Err(SpecError::CyclicReference(key))
            } else {
                spec_link_fields(tbl, members, (fuel - 1) as nat)
            },
            _ => Err(SpecError::InvalidType),
        },
        _ => Err(SpecError::InvalidGroupMissingKey),
    }
}

/// What the first `n` rules of a table resolve to, against the whole
/// table, each with fuel equal to the table's size.
pub open spec fn spec_link_upto(tbl: SpecTable, n: nat) -> Result<
    Seq<(Seq<char>, SpecLinkedNode)>,
    SpecError,
>
    decreases n,
{
    if n == 0 {
        Ok(Seq::empty())
    } else {
        match spec_link_upto(tbl, (n - 1) as nat) {
            Err(e) => Err(e),
            Ok(out) => match spec_link_node(tbl, tbl[n - 1].1, tbl.len()) {
                Err(e) => Err(e),
                Ok(ln) => Ok(out.push((tbl[n - 1].0, ln))),
            },
        }
    }
}

/// What a whole table resolves to: the closed graph, rule by rule and in
/// order, or the first error.
pub open spec fn spec_link_all(tbl: SpecTable) -> Result<
    Seq<(Seq<char>, SpecLinkedNode)>,
    SpecError,
> {
    spec_link_upto(tbl, tbl.len())
}

// ---------------------------------------------------------------------------
// The pass as executable code
// ---------------------------------------------------------------------------

/// The view of a fallible field list.
pub open spec fn fields_res_view(r: FlattenResult<Vec<LinkedKeyVal>>) -> Result<
    Seq<SpecLinkedKeyVal>,
    SpecError,
> {
    match r {
        Ok(v) => Ok(LinkedNode::model_fields(v@)),
        Err(e) => Err(e@),
    }
}

/// The view of a fallible resolved table.
pub open spec fn linked_res_view(r: FlattenResult<NameMap<LinkedNode>>) -> Result<
    Seq<(Seq<char>, SpecLinkedNode)>,
    SpecError,
> {
    match r {
        Ok(m) => Ok(m@),
        Err(e) => Err(e@),
    }
}

/// Concatenating field lists concatenates their models.
proof fn lemma_model_fields_concat(s1: Seq<LinkedKeyVal>, s2: Seq<LinkedKeyVal>)
    ensures
        LinkedNode::model_fields(s1 + s2) =~= LinkedNode::model_fields(s1)
            + LinkedNode::model_fields(s2),
{
    LinkedNode::lemma_model_fields(s1 + s2);
    LinkedNode::lemma_model_fields(s1);
    LinkedNode::lemma_model_fields(s2);
    assert forall|i: int| 0 <= i < s1.len() + s2.len() implies LinkedNode::model_fields(s1 + s2)[i]
        == (LinkedNode::model_fields(s1) + LinkedNode::model_fields(s2))[i] by {
        if i < s1.len() {
            assert((s1 + s2)[i] == s1[i]);
        } else {
            assert((s1 + s2)[i] == s2[i - s1.len()]);
        }
    }
}

fn link_node(n: &Node, ctx: &NameMap<Node>, fuel: usize) -> (r: FlattenResult<LinkedNode>)
    ensures
        res_view(r) == spec_link_node(ctx@, n@, fuel as nat),
    decreases fuel, n,
{
    match n {
        Node::Literal(l) => Ok(LinkedNode::Literal(l.clone())),
        Node::Primative(p) => Ok(LinkedNode::Primative(*p)),
        Node::Foreign(name) => match ctx.get(name.as_str()) {
            None => Err(FlattenError::ForeignKey(name.clone())),
            Some(found) => {
                if fuel == 0 {
                    Err(FlattenError::CyclicReference(name.clone()))
                } else {
                    match link_node(found, ctx, fuel - 1) {
                        Ok(LinkedNode::Struct(_)) => Ok(
                            LinkedNode::ForeignStruct(name.clone()),
                        ),
                        r => r,
                    }
                }
            },
        },
        Node::Group(g) => match link_fields(&g.members, ctx, fuel) {
            Ok(members) => Ok(LinkedNode::Fields(Fields { members })),
            Err(e) => Err(e),
        },
        Node::Record(g) => match link_fields(&g.members, ctx, fuel) {
            Ok(members) => Ok(LinkedNode::Struct(Fields { members })),
            Err(e) => Err(e),
        },
        Node::Array(a) => link_array(a, ctx, fuel),
        Node::KeyVal(_) => Err(FlattenError::Infallible),
    }
}

fn link_array(a: &crate::node::Array, ctx: &NameMap<Node>, fuel: usize) -> (r: FlattenResult<
    LinkedNode,
>)
    ensures
        res_view(r) == spec_link_array(ctx@, a@, fuel as nat),
    decreases fuel, a,
{
    match link_node(&a.ty, ctx, fuel) {
        Err(e) => Err(e),
        Ok(LinkedNode::Array(_)) => Err(FlattenError::InvalidArray),
        Ok(LinkedNode::Fields(_)) => Err(FlattenError::InvalidArray),
        Ok(LinkedNode::Struct(_)) => Err(FlattenError::InvalidArray),
        Ok(ln) => Ok(LinkedNode::Array(LinkedArray::new(ln, a.len))),
    }
}

fn link_fields(members: &Vec<Node>, ctx: &NameMap<Node>, fuel: usize) -> (r: FlattenResult<
    Vec<LinkedKeyVal>,
>)
    ensures
        fields_res_view(r) == spec_link_fields(ctx@, Node::model_members(members@), fuel as nat),
    decreases fuel, members,
{
    let ghost models = Node::model_members(members@);
    proof {
        Node::lemma_model_members(members@);
    }
    let mut acc: Vec<LinkedKeyVal> = Vec::new();
    let mut i: usize = 0;
    proof {
        assert(models.subrange(0, 0) =~= Seq::empty());
        assert(LinkedNode::model_fields(acc@) =~= Seq::empty());
    }
    while i < members.len()
        invariant
            0 <= i <= members.len(),
            models == Node::model_members(members@),
            models.len() == members@.len(),
            forall|j: int| 0 <= j < members@.len() ==> models[j] == members@[j].model(),
            spec_link_fields(ctx@, models.subrange(0, i as int), fuel as nat) == Ok::<
                _,
                SpecError,
            >(LinkedNode::model_fields(acc@)),
        decreases members.len() - i,
    {
        let ghost prefix = models.subrange(0, i as int);
        let mut more = match link_field_member(&members[i], ctx, fuel) {
            Ok(v) => v,
            Err(e) => {
                proof {
                    lemma_spec_link_fields_err(ctx@, models, fuel as nat, i as int);
                }
                return Err(e);
            },
        };
        proof {
            let longer = models.subrange(0, i as int + 1);
            assert(longer.drop_last() =~= prefix);
            assert(longer.last() == members@[i as int].model());
            lemma_model_fields_concat(acc@, more@);
        }
        acc.append(&mut more);
        i = i + 1;
    }
    proof {
        assert(models.subrange(0, members@.len() as int) =~= models);
    }
    Ok(acc)
}

/// Once one member fails, the whole list fails with that error.
proof fn lemma_spec_link_fields_err(tbl: SpecTable, models: Seq<SpecNode>, fuel: nat, i: int)
    requires
        0 <= i < models.len(),
        spec_link_fields(tbl, models.subrange(0, i), fuel) is Ok,
        spec_link_field_member(tbl, models[i], fuel) is Err,
    ensures
        spec_link_fields(tbl, models, fuel) == Err::<Seq<SpecLinkedKeyVal>, _>(
            spec_link_field_member(tbl, models[i], fuel).get_Err_0(),
        ),
    decreases models.len(),
{
    if models.len() > i + 1 {
        let shorter = models.drop_last();
        assert(shorter.subrange(0, i) =~= models.subrange(0, i));
        assert(shorter[i] == models[i]);
        lemma_spec_link_fields_err(tbl, shorter, fuel, i);
    } else {
        assert(models.drop_last() =~= models.subrange(0, i));
    }
}

fn link_field_member(n: &Node, ctx: &NameMap<Node>, fuel: usize) -> (r: FlattenResult<
    Vec<LinkedKeyVal>,
>)
    ensures
        fields_res_view(r) == spec_link_field_member(ctx@, n@, fuel as nat),
    decreases fuel, n,
{
    match n {
        Node::KeyVal(kv) => match link_node(&kv.1, ctx, fuel) {
            Ok(ln) => {
                let mut v: Vec<LinkedKeyVal> = Vec::new();
                v.push(LinkedKeyVal(kv.0.clone(), ln));
                proof {
                    LinkedNode::lemma_model_fields(v@);
                    assert(LinkedNode::model_fields(v@) =~= seq![
                        SpecLinkedKeyVal { key: kv.0@, val: v@[0].1.model() },
                    ]);
                }
                Ok(v)
            },
            Err(e) => Err(e),
        },
        Node::Foreign(key) => match ctx.get(key.as_str()) {
            Some(found) => match found {
                Node::Group(g) => {
                    if fuel == 0 {
                        Err(FlattenError::CyclicReference(key.clone()))
                    } else {
                        link_fields(&g.members, ctx, fuel - 1)
                    }
                },
                _ => Err(FlattenError::InvalidType),
            },
            None => Err(FlattenError::InvalidType),
        },
        _ => Err(FlattenError::InvalidGroupMissingKey),
    }
}

/// Resolve a flattened rule table into the closed graph: each rule's
/// node is linked against the whole table, in declaration order, and the
/// first error aborts the document.
pub fn link(nodes: NameMap<Node>) -> (r: FlattenResult<NameMap<LinkedNode>>)
    ensures
        linked_res_view(r) == spec_link_all(nodes@),
{
    let fuel = nodes.len();
    let mut out: NameMap<LinkedNode> = NameMap::new();
    let mut i: usize = 0;
    while i < nodes.len()
        invariant
            0 <= i <= nodes@.len(),
            fuel == nodes@.len(),
            spec_link_upto(nodes@, i as nat) == Ok::<_, SpecError>(out@),
        decreases nodes@.len() - i,
    {
        let entry = nodes.entry_at(i);
        let ln = match link_node(&entry.1, &nodes, fuel) {
            Ok(ln) => ln,
            Err(e) => {
                proof {
                    lemma_spec_link_upto_err(nodes@, i as int);
                }
                return Err(e);
            },
        };
        out.push_entry(entry.0.clone(), ln);
        i = i + 1;
    }
    Ok(out)
}

/// Once one rule fails to resolve, the whole table fails with that error.
proof fn lemma_spec_link_upto_err(tbl: SpecTable, i: int)
    requires
        0 <= i < tbl.len(),
        spec_link_upto(tbl, i as nat) is Ok,
        spec_link_node(tbl, tbl[i].1, tbl.len()) is Err,
    ensures
        spec_link_all(tbl) == Err::<Seq<(Seq<char>, SpecLinkedNode)>, _>(
            spec_link_node(tbl, tbl[i].1, tbl.len()).get_Err_0(),
        ),
{
    lemma_spec_link_upto_err_aux(tbl, i, tbl.len() as int);
}

proof fn lemma_spec_link_upto_err_aux(tbl: SpecTable, i: int, n: int)
    requires
        0 <= i < n <= tbl.len(),
        spec_link_upto(tbl, i as nat) is Ok,
        spec_link_node(tbl, tbl[i].1, tbl.len()) is Err,
    ensures
        spec_link_upto(tbl, n as nat) == Err::<Seq<(Seq<char>, SpecLinkedNode)>, _>(
            spec_link_node(tbl, tbl[i].1, tbl.len()).get_Err_0(),
        ),
    decreases n,
{
    if n > i + 1 {
        lemma_spec_link_upto_err_aux(tbl, i, n - 1);
    }
}

} // verus!
