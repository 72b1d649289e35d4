//! What holds of the pipeline as a whole.
//!
//! These proofs state the load-bearing guarantees of the two passes over
//! their mathematical forms: resolution is insensitive to spare fuel,
//! every rule name of a valid document reaches the output, aliases
//! collapse, spliced groups read as if written inline, unknown and
//! nominal references fail and pin exactly as specified, and field order
//! is declaration order.
use vstd::prelude::*;

use crate::error::SpecError;
use crate::flatten::spec_flatten_rules;
use crate::grammar::SpecGramRule;
use crate::link::{
    spec_link_all, spec_link_array, spec_link_field_member, spec_link_fields, spec_link_node,
    spec_link_upto, SpecTable,
};
use crate::node::{SpecLinkedKeyVal, SpecLinkedNode, SpecNode};
use crate::table::{map_get, map_has, map_insert};

verus! {

/// Lookup after an insert: the inserted name finds the new value, every
/// other name finds what it found before.
#[verifier::rlimit(50)]
pub proof fn lemma_map_insert_get<V>(m: Seq<(Seq<char>, V)>, k: Seq<char>, v: V, k2: Seq<char>)
    ensures
        map_get(map_insert(m, k, v), k2) == if k2 == k {
            Some(v)
        } else {
            map_get(m, k2)
        },
    decreases m.len(),
{
    if m.len() == 0 {
        assert(map_insert(m, k, v).drop_first() =~= Seq::<(Seq<char>, V)>::empty());
        assert(map_get(Seq::<(Seq<char>, V)>::empty(), k2) is None);
    } else if m[0].0 == k {
        assert(map_insert(m, k, v).drop_first() =~= m.drop_first());
        if k2 != k && k2 != m[0].0 {
            assert(map_get(m, k2) == map_get(m.drop_first(), k2));
        }
    } else {
        lemma_map_insert_get(m.drop_first(), k, v, k2);
        assert(map_insert(m, k, v).drop_first() =~= map_insert(m.drop_first(), k, v));
        if k2 != m[0].0 {
            assert(map_get(m, k2) == map_get(m.drop_first(), k2));
        }
    }
    if k2 == k {
        assert(map_get(map_insert(m, k, v), k2) == Some(v));
    } else {
        assert(map_get(map_insert(m, k, v), k2) == map_get(m, k2));
    }
}

/// A name is bound exactly when some entry carries it.
pub proof fn lemma_has_iff_exists<V>(m: Seq<(Seq<char>, V)>, k: Seq<char>)
    ensures
        map_has(m, k) <==> exists|i: int| 0 <= i < m.len() && m[i].0 == k,
    decreases m.len(),
{
    if m.len() > 0 {
        lemma_has_iff_exists(m.drop_first(), k);
        if m[0].0 != k {
            if map_has(m, k) {
                let i = choose|i: int| 0 <= i < m.drop_first().len() && m.drop_first()[i].0 == k;
                assert(m[i + 1].0 == k);
            }
            if exists|i: int| 0 <= i < m.len() && m[i].0 == k {
                let i = choose|i: int| 0 <= i < m.len() && m[i].0 == k;
                assert(m.drop_first()[i - 1].0 == k);
            }
        }
    }
}

// ---------------------------------------------------------------------------
// Fuel is slack: spare fuel never changes a successful resolution
// ---------------------------------------------------------------------------

/// A node that resolves with some fuel resolves to the same thing with
/// any more.
#[verifier::rlimit(50)]
pub proof fn lemma_link_node_fuel_mono(tbl: SpecTable, n: SpecNode, f1: nat, f2: nat)
    requires
        f1 <= f2,
        spec_link_node(tbl, n, f1) is Ok,
    ensures
        spec_link_node(tbl, n, f2) == spec_link_node(tbl, n, f1),
    decreases f1, n,
{
    match n {
        SpecNode::Foreign(name) => {
            if f1 == 0 {
                assert(spec_link_node(tbl, n, f1) is Err);
            } else {
                match map_get(tbl, name) {
                    Some(found) => {
                        let inner = spec_link_node(tbl, found, (f1 - 1) as nat);
                        assert(spec_link_node(tbl, n, f1) == match inner {
                            Ok(SpecLinkedNode::Struct(_)) => Ok::<_, SpecError>(
                                SpecLinkedNode::ForeignStruct(name),
                            ),
                            r => r,
                        });
                        if inner is Ok {
                            lemma_link_node_fuel_mono(
                                tbl,
                                found,
                                (f1 - 1) as nat,
                                (f2 - 1) as nat,
                            );
                            assert(spec_link_node(tbl, found, (f2 - 1) as nat) == inner);
                            assert(spec_link_node(tbl, n, f2) == match inner {
                                Ok(SpecLinkedNode::Struct(_)) => Ok::<_, SpecError>(
                                    SpecLinkedNode::ForeignStruct(name),
                                ),
                                r => r,
                            });
                            assert(spec_link_node(tbl, n, f2) == spec_link_node(tbl, n, f1));
                        } else {
                            assert(spec_link_node(tbl, n, f1) == inner);
                        }
                    },
                    None => {
                        assert(spec_link_node(tbl, n, f1) is Err);
                    },
                }
            }
        },
        SpecNode::Group(members) => {
            if spec_link_fields(tbl, members, f1) is Ok {
                lemma_link_fields_fuel_mono(tbl, members, f1, f2);
            }
            assert(spec_link_node(tbl, n, f2) == spec_link_node(tbl, n, f1));
        },
        SpecNode::Record(members) => {
            if spec_link_fields(tbl, members, f1) is Ok {
                lemma_link_fields_fuel_mono(tbl, members, f1, f2);
            }
            assert(spec_link_node(tbl, n, f2) == spec_link_node(tbl, n, f1));
        },
        SpecNode::Array(a) => {
            assert(spec_link_node(tbl, n, f1) == spec_link_array(tbl, a, f1));
            assert(spec_link_node(tbl, n, f2) == spec_link_array(tbl, a, f2));
            if spec_link_node(tbl, *a.ty, f1) is Ok {
                lemma_link_node_fuel_mono(tbl, *a.ty, f1, f2);
            }
            assert(spec_link_node(tbl, n, f2) == spec_link_node(tbl, n, f1));
        },
        SpecNode::Literal(_) => {
            assert(spec_link_node(tbl, n, f2) == spec_link_node(tbl, n, f1));
        },
        SpecNode::Primative(_) => {
            assert(spec_link_node(tbl, n, f2) == spec_link_node(tbl, n, f1));
        },
        SpecNode::KeyVal(_) => {
            assert(spec_link_node(tbl, n, f2) == spec_link_node(tbl, n, f1));
        },
    }
}

/// A member list that resolves with some fuel resolves to the same
/// fields with any more.
pub proof fn lemma_link_fields_fuel_mono(tbl: SpecTable, members: Seq<SpecNode>, f1: nat, f2: nat)
    requires
        f1 <= f2,
        spec_link_fields(tbl, members, f1) is Ok,
    ensures
        spec_link_fields(tbl, members, f2) == spec_link_fields(tbl, members, f1),
    decreases f1, members,
{
    if members.len() > 0 {
        lemma_link_fields_fuel_mono(tbl, members.drop_last(), f1, f2);
        if spec_link_field_member(tbl, members.last(), f1) is Ok {
            lemma_link_field_member_fuel_mono(tbl, members.last(), f1, f2);
        }
    }
}

/// A member that resolves with some fuel contributes the same fields
/// with any more.
pub proof fn lemma_link_field_member_fuel_mono(tbl: SpecTable, n: SpecNode, f1: nat, f2: nat)
    requires
        f1 <= f2,
        spec_link_field_member(tbl, n, f1) is Ok,
    ensures
        spec_link_field_member(tbl, n, f2) == spec_link_field_member(tbl, n, f1),
    decreases f1, n,
{
    match n {
        SpecNode::KeyVal(kv) => {
            if spec_link_node(tbl, *kv.val, f1) is Ok {
                lemma_link_node_fuel_mono(tbl, *kv.val, f1, f2);
            }
        },
        SpecNode::Foreign(key) => {
            if f1 > 0 {
                match map_get(tbl, key) {
                    Some(SpecNode::Group(members)) => {
                        if spec_link_fields(tbl, members, (f1 - 1) as nat) is Ok {
                            lemma_link_fields_fuel_mono(
                                tbl,
                                members,
                                (f1 - 1) as nat,
                                (f2 - 1) as nat,
                            );
                        }
                    },
                    _ => {},
                }
            }
        },
        _ => {},
    }
}

// ---------------------------------------------------------------------------
// Completeness: every rule name of a valid document reaches the output
// ---------------------------------------------------------------------------

/// Linking keeps the table's names, in order.
pub proof fn lemma_link_upto_names(tbl: SpecTable, n: nat)
    requires
        n <= tbl.len(),
        spec_link_upto(tbl, n) is Ok,
    ensures
        spec_link_upto(tbl, n).get_Ok_0().len() == n,
        forall|i: int| 0 <= i < n ==> spec_link_upto(tbl, n).get_Ok_0()[i].0 == tbl[i].0,
    decreases n,
{
    if n > 0 {
        lemma_link_upto_names(tbl, (n - 1) as nat);
    }
}

/// Flattening binds exactly the names of the document's rules.
pub proof fn lemma_flatten_rules_names(rules: Seq<SpecGramRule>)
    requires
        spec_flatten_rules(rules) is Ok,
    ensures
        forall|name: Seq<char>|
            map_has(spec_flatten_rules(rules).get_Ok_0(), name) <==> exists|i: int|
                0 <= i < rules.len() && rules[i].name == name,
    decreases rules.len(),
{
    if rules.len() == 0 {
        assert forall|name: Seq<char>| !map_has(
            spec_flatten_rules(rules).get_Ok_0(),
            name,
        ) by {
            lemma_has_iff_exists(spec_flatten_rules(rules).get_Ok_0(), name);
        }
    } else {
        let prefix = rules.drop_last();
        lemma_flatten_rules_names(prefix);
        let before = spec_flatten_rules(prefix).get_Ok_0();
        let node = crate::flatten::spec_flatten_rule(rules.last()).get_Ok_0();
        assert(spec_flatten_rules(rules) == Ok::<_, SpecError>(
            map_insert(before, rules.last().name, node),
        ));
        assert forall|name: Seq<char>|
            map_has(spec_flatten_rules(rules).get_Ok_0(), name) <==> exists|i: int|
                0 <= i < rules.len() && rules[i].name == name by {
            lemma_map_insert_get(before, rules.last().name, node, name);
            assert(map_has(spec_flatten_rules(prefix).get_Ok_0(), name) == (
            map_get(before, name) is Some));
            if name == rules.last().name {
                assert(rules[rules.len() - 1].name == name);
            } else {
                if exists|i: int| 0 <= i < rules.len() && rules[i].name == name {
                    let i = choose|i: int| 0 <= i < rules.len() && rules[i].name == name;
                    assert(rules[rules.len() - 1].name != name);
                    assert(i != rules.len() - 1);
                    assert(prefix[i] == rules[i]);
                    assert(prefix[i].name == name);
                }
                if exists|i: int| 0 <= i < prefix.len() && prefix[i].name == name {
                    let i = choose|i: int| 0 <= i < prefix.len() && prefix[i].name == name;
                    assert(rules[i] == prefix[i]);
                    assert(rules[i].name == name);
                }
            }
        }
    }
}

/// Completeness: when a document flattens and links, its output binds a
/// name exactly where some rule of the document declared it, and the
/// output lists the table's names unchanged and in order.
pub proof fn lemma_completeness(
    rules: Seq<SpecGramRule>,
    tbl: SpecTable,
    out: Seq<(Seq<char>, SpecLinkedNode)>,
)
    requires
        spec_flatten_rules(rules) == Ok::<_, SpecError>(tbl),
        spec_link_all(tbl) == Ok::<_, SpecError>(out),
    ensures
        out.len() == tbl.len(),
        forall|i: int| 0 <= i < tbl.len() ==> out[i].0 == tbl[i].0,
        forall|name: Seq<char>|
            map_has(out, name) <==> exists|i: int| 0 <= i < rules.len() && rules[i].name == name,
{
    lemma_link_upto_names(tbl, tbl.len());
    lemma_flatten_rules_names(rules);
    assert(out == spec_link_upto(tbl, tbl.len()).get_Ok_0());
    assert(tbl == spec_flatten_rules(rules).get_Ok_0());
    assert forall|name: Seq<char>|
        map_has(out, name) <==> exists|i: int| 0 <= i < rules.len() && rules[i].name
            == name by {
        lemma_has_iff_exists(out, name);
        lemma_has_iff_exists(tbl, name);
        assert(map_has(spec_flatten_rules(rules).get_Ok_0(), name) == map_has(tbl, name));
        if exists|i: int| 0 <= i < out.len() && out[i].0 == name {
            let i = choose|i: int| 0 <= i < out.len() && out[i].0 == name;
            assert(spec_link_upto(tbl, tbl.len()).get_Ok_0()[i].0 == tbl[i].0);
            assert(tbl[i].0 == name);
        }
        if exists|i: int| 0 <= i < tbl.len() && tbl[i].0 == name {
            let i = choose|i: int| 0 <= i < tbl.len() && tbl[i].0 == name;
            assert(spec_link_upto(tbl, tbl.len()).get_Ok_0()[i].0 == tbl[i].0);
            assert(out[i].0 == name);
        }
    }
}

/// Completeness at the pipeline's mouth: a document that compiles binds
/// a name exactly where one of its rules declared it.
pub proof fn lemma_parse_completeness(
    rules: Seq<SpecGramRule>,
    out: Seq<(Seq<char>, SpecLinkedNode)>,
)
    requires
        crate::spec_parse(rules) == Ok::<_, SpecError>(out),
    ensures
        forall|name: Seq<char>|
            map_has(out, name) <==> exists|i: int| 0 <= i < rules.len() && rules[i].name == name,
{
    let tbl = spec_flatten_rules(rules).get_Ok_0();
    lemma_completeness(rules, tbl, out);
}

// ---------------------------------------------------------------------------
// Resolution laws
// ---------------------------------------------------------------------------

/// A reference's resolution is never itself a nominal record: records
/// reached through a name are pinned as foreign-struct references.
pub proof fn lemma_foreign_never_struct(tbl: SpecTable, name: Seq<char>, fuel: nat)
    ensures
        !(spec_link_node(tbl, SpecNode::Foreign(name), fuel) matches Ok(n) && n is Struct),
{
}

/// Alias transitivity: a rule that merely names another resolves to
/// whatever that reference resolves to, one alias step collapsing per
/// unit of fuel.  Chained aliases collapse step by step to the final
/// target's resolution.
pub proof fn lemma_alias_transitivity(tbl: SpecTable, a: Seq<char>, b: Seq<char>, fuel: nat)
    requires
        map_get(tbl, b) == Some(SpecNode::Foreign(a)),
        fuel >= 1,
        spec_link_node(tbl, SpecNode::Foreign(a), (fuel - 1) as nat) is Ok,
    ensures
        spec_link_node(tbl, SpecNode::Foreign(b), fuel) == spec_link_node(
            tbl,
            SpecNode::Foreign(a),
            (fuel - 1) as nat,
        ),
{
    lemma_foreign_never_struct(tbl, a, (fuel - 1) as nat);
}

/// Group splice equivalence: a map that holds only a reference to a
/// named group resolves to the same record as the map written with that
/// group's members inlined directly.
pub proof fn lemma_group_splice_equivalence(
    tbl: SpecTable,
    g: Seq<char>,
    members: Seq<SpecNode>,
    fuel: nat,
)
    requires
        map_get(tbl, g) == Some(SpecNode::Group(members)),
        fuel >= 1,
        spec_link_fields(tbl, members, (fuel - 1) as nat) is Ok,
    ensures
        spec_link_node(tbl, SpecNode::Record(seq![SpecNode::Foreign(g)]), fuel) == spec_link_node(
            tbl,
            SpecNode::Record(members),
            (fuel - 1) as nat,
        ),
{
    let spliced = seq![SpecNode::Foreign(g)];
    assert(spliced.drop_last() =~= Seq::<SpecNode>::empty());
    assert(spec_link_fields(tbl, spliced.drop_last(), fuel) == Ok::<_, SpecError>(
        Seq::<SpecLinkedKeyVal>::empty(),
    ));
    assert(spliced.last() == SpecNode::Foreign(g));
    assert(spec_link_field_member(tbl, SpecNode::Foreign(g), fuel) == spec_link_fields(
        tbl,
        members,
        (fuel - 1) as nat,
    ));
    let more = spec_link_fields(tbl, members, (fuel - 1) as nat).get_Ok_0();
    assert(Seq::<SpecLinkedKeyVal>::empty() + more =~= more);
    assert(spec_link_fields(tbl, spliced, fuel) == Ok::<_, SpecError>(more));
}

/// Unknown reference rejection: a reference to a name the document
/// never defines fails with the foreign-key error carrying that name.
pub proof fn lemma_unknown_reference(tbl: SpecTable, name: Seq<char>, fuel: nat)
    requires
        !map_has(tbl, name),
    ensures
        spec_link_node(tbl, SpecNode::Foreign(name), fuel) == Err::<SpecLinkedNode, _>(
            SpecError::ForeignKey(name),
        ),
{
}

/// Struct non-inlining: a reference that resolves to a nominal record
/// becomes a by-name foreign-struct reference, never an inline copy.
pub proof fn lemma_struct_not_inlined(
    tbl: SpecTable,
    name: Seq<char>,
    members: Seq<SpecNode>,
    fuel: nat,
)
    requires
        map_get(tbl, name) == Some(SpecNode::Record(members)),
        fuel >= 1,
        spec_link_fields(tbl, members, (fuel - 1) as nat) is Ok,
    ensures
        spec_link_node(tbl, SpecNode::Foreign(name), fuel) == Ok::<_, SpecError>(
            SpecLinkedNode::ForeignStruct(name),
        ),
{
    let fields = spec_link_fields(tbl, members, (fuel - 1) as nat).get_Ok_0();
    assert(spec_link_node(tbl, SpecNode::Record(members), (fuel - 1) as nat) == Ok::<
        _,
        SpecError,
    >(SpecLinkedNode::Struct(fields)));
}

/// Field order preservation: a record written as named fields resolves
/// to fields under the same names, in declaration order.
pub proof fn lemma_field_order(tbl: SpecTable, members: Seq<SpecNode>, fuel: nat)
    requires
        forall|i: int| 0 <= i < members.len() ==> members[i] is KeyVal,
        spec_link_fields(tbl, members, fuel) is Ok,
    ensures
        spec_link_fields(tbl, members, fuel).get_Ok_0().len() == members.len(),
        forall|i: int| 0 <= i < members.len() ==> spec_link_fields(
            tbl,
            members,
            fuel,
        ).get_Ok_0()[i].key == members[i]->KeyVal_0.key,
    decreases members.len(),
{
    if members.len() > 0 {
        let prefix = members.drop_last();
        assert(forall|i: int| 0 <= i < prefix.len() ==> prefix[i] == members[i]);
        lemma_field_order(tbl, prefix, fuel);
        let last = members.last();
        let kv = last->KeyVal_0;
        assert(spec_link_node(tbl, *kv.val, fuel) is Ok);
        let more = spec_link_field_member(tbl, last, fuel).get_Ok_0();
        assert(more == seq![
            SpecLinkedKeyVal { key: kv.key, val: spec_link_node(tbl, *kv.val, fuel).get_Ok_0() },
        ]);
        let whole = spec_link_fields(tbl, members, fuel).get_Ok_0();
        assert(whole == spec_link_fields(tbl, prefix, fuel).get_Ok_0() + more);
        assert(whole[members.len() - 1].key == kv.key);
    }
}

} // verus!
