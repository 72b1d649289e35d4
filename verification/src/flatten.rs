//! The flatten pass: from the grammar tree to the unresolved node tree.
//!
//! Each rule's right-hand side is classified.  Exactly one alternative is
//! required; literals are normalized; bare primitives must carry a
//! `.size` control; parenthesized groups become [`Node::Group`], braced
//! groups become [`Node::Record`], bracketed groups must hold exactly one
//! exact-count member; ranges, choices and generics are rejected.  The
//! pass is fail-fast: the first error aborts the whole document.
use vstd::prelude::*;

use crate::cddl;
use crate::error::{res_view, FlattenError, FlattenResult, SpecError};
use crate::grammar::{
    GramChoice, GramControl, GramEntry, GramGroup, GramKey, GramOccur, GramRule, GramRuleVal,
    GramType, GramType1, GramType2, GramValue, SpecGramControl, SpecGramEntry, SpecGramEntryVal,
    SpecGramGroup, SpecGramKey, SpecGramMember, SpecGramRule, SpecGramRuleVal, SpecGramType1,
    SpecGramType2, SpecGramValue,
};
use crate::node::{
    spec_classify_text, spec_constrain, spec_prim_of, Array, ConstrainedPrimative, KeyVal, Literal,
    Node, Primative, SpecArray, SpecKeyVal, SpecNode, SpecPrimative,
};
use crate::table::{map_insert, NameMap};

verus! {

// ---------------------------------------------------------------------------
// The pass as a mathematical function
// ---------------------------------------------------------------------------

/// What a literal value flattens to.
pub open spec fn spec_flatten_value(v: SpecGramValue) -> Result<SpecNode, SpecError> {
    match v {
        SpecGramValue::Text(s) => Ok(SpecNode::Literal(spec_classify_text(s))),
        SpecGramValue::Uint(u) => Ok(SpecNode::Literal(crate::node::SpecLiteral::UInt(u))),
        SpecGramValue::Nint(i) => Ok(SpecNode::Literal(crate::node::SpecLiteral::Int(i))),
        SpecGramValue::Bytes(b) => Ok(SpecNode::Literal(crate::node::SpecLiteral::Bytes(b))),
        SpecGramValue::Other => Err(SpecError::InvalidLiteral),
    }
}

/// What a bare type name flattens to: primitives other than `bool` must
/// carry a size, the boolean literals resolve, and any other name is an
/// unresolved reference.
pub open spec fn spec_flatten_typename(name: Seq<char>) -> Result<SpecNode, SpecError> {
    match spec_prim_of(name) {
        SpecPrimative::Int => Err(SpecError::InvalidUnconstrainedPrimative),
        SpecPrimative::UInt => Err(SpecError::InvalidUnconstrainedPrimative),
        SpecPrimative::TStr => Err(SpecError::InvalidUnconstrainedPrimative),
        SpecPrimative::BStr => Err(SpecError::InvalidUnconstrainedPrimative),
        SpecPrimative::Bool => Ok(SpecNode::Primative(ConstrainedPrimative::Bool)),
        SpecPrimative::Unresolved(s) => if s == "false"@ {
            Ok(SpecNode::Literal(crate::node::SpecLiteral::Bool(false)))
        } else if s == "true"@ {
            Ok(SpecNode::Literal(crate::node::SpecLiteral::Bool(true)))
        } else {
            Ok(SpecNode::Foreign(s))
        },
    }
}

/// What a control flattens to: the argument must be an unsigned integer,
/// the operator must be `size`, and the target must be a primitive name
/// the size fits.
pub open spec fn spec_flatten_control(c: SpecGramControl) -> Result<SpecNode, SpecError> {
    match *c.arg {
        SpecGramType2::Value(SpecGramValue::Uint(n)) => if c.op == "size"@ {
            match *c.target {
                SpecGramType2::Typename(s) => match spec_constrain(spec_prim_of(s), n) {
                    Ok(p) => Ok(SpecNode::Primative(p)),
                    Err(e) => Err(e),
                },
                _ => Err(SpecError::InvalidControl),
            }
        } else {
            Err(SpecError::NotSupportedControl(c.op))
        },
        _ => Err(SpecError::InvalidControl),
    }
}

/// The single entry list of a group; a group with any other number of
/// choices is rejected.
pub open spec fn spec_group_entries(g: SpecGramGroup) -> Result<Seq<SpecGramEntry>, SpecError> {
    if g.choices.len() == 1 {
        Ok(g.choices[0])
    } else {
        Err(SpecError::InvalidEnum0)
    }
}

/// What a type (a list of alternatives) flattens to: every alternative is
/// flattened first, then exactly one is required.
pub open spec fn spec_flatten_type(t: Seq<SpecGramType1>) -> Result<SpecNode, SpecError>
    decreases t, 3nat,
{
    match spec_flatten_type1s(t) {
        Err(e) => Err(e),
        Ok(nodes) => if nodes.len() == 0 {
            Err(SpecError::InvalidEnum0)
        } else if nodes.len() == 1 {
            Ok(nodes[0])
        } else {
            Err(SpecError::TodoEnums)
        },
    }
}

/// What each alternative of a type flattens to, fail-fast and in order.
pub open spec fn spec_flatten_type1s(t: Seq<SpecGramType1>) -> Result<Seq<SpecNode>, SpecError>
    decreases t, 2nat,
{
    if t.len() == 0 {
        Ok(Seq::empty())
    } else {
        match spec_flatten_type1s(t.drop_last()) {
            Err(e) => Err(e),
            Ok(nodes) => match spec_flatten_type1(t.last()) {
                Err(e) => Err(e),
                Ok(n) => Ok(nodes.push(n)),
            },
        }
    }
}

/// What one alternative flattens to; ranges are rejected here.
pub open spec fn spec_flatten_type1(t: SpecGramType1) -> Result<SpecNode, SpecError>
    decreases t, 3nat,
{
    match t {
        SpecGramType1::Simple(t2) => spec_flatten_type2(*t2),
        SpecGramType1::Range => Err(SpecError::NotSupportedRange),
        SpecGramType1::Control(c) => spec_flatten_control(c),
    }
}

/// What a plain type flattens to; unwraps and choices are rejected here.
pub open spec fn spec_flatten_type2(t: SpecGramType2) -> Result<SpecNode, SpecError>
    decreases t, 3nat,
{
    match t {
        SpecGramType2::Value(v) => spec_flatten_value(v),
        SpecGramType2::Typename(n) => spec_flatten_typename(n),
        SpecGramType2::Parenthesized(inner) => spec_flatten_type(inner),
        SpecGramType2::Record(g) => spec_flatten_map(g),
        SpecGramType2::Array(g) => spec_flatten_array(g),
        SpecGramType2::Unwrap => Err(SpecError::NotSupportedGenerics),
        SpecGramType2::Choiceify => Err(SpecError::NotSupportedChoice),
        SpecGramType2::ChoiceifyInline => Err(SpecError::NotSupportedChoice),
    }
}

/// What a braced group flattens to: a nominal record.
pub open spec fn spec_flatten_map(g: SpecGramGroup) -> Result<SpecNode, SpecError>
    decreases g, 2nat,
{
    match spec_flatten_group(g) {
        Ok(members) => Ok(SpecNode::Record(members)),
        Err(e) => Err(e),
    }
}

/// What a group's members flatten to, fail-fast and in order.
pub open spec fn spec_flatten_group(g: SpecGramGroup) -> Result<Seq<SpecNode>, SpecError>
    decreases g, 1nat,
{
    match spec_group_entries(g) {
        Ok(entries) => spec_flatten_entries(entries),
        Err(e) => Err(e),
    }
}

/// What an entry list flattens to, fail-fast and in order.
pub open spec fn spec_flatten_entries(es: Seq<SpecGramEntry>) -> Result<Seq<SpecNode>, SpecError>
    decreases es, 1nat,
{
    if es.len() == 0 {
        Ok(Seq::empty())
    } else {
        match spec_flatten_entries(es.drop_last()) {
            Err(e) => Err(e),
            Ok(nodes) => match spec_flatten_groupentry(es.last()) {
                Err(e) => Err(e),
                Ok(n) => Ok(nodes.push(n)),
            },
        }
    }
}

/// What one group entry flattens to; group names in entry position are
/// rejected.
pub open spec fn spec_flatten_groupentry(e: SpecGramEntry) -> Result<SpecNode, SpecError>
    decreases e, 3nat,
{
    match e.val {
        SpecGramEntryVal::Member(m) => spec_flatten_member(m),
        SpecGramEntryVal::Parenthesized(g) => match spec_flatten_group(g) {
            Ok(members) => Ok(SpecNode::Group(members)),
            Err(e) => Err(e),
        },
        SpecGramEntryVal::Groupname(n) => Err(SpecError::NotSupportedGroupname(n)),
    }
}

/// What a group member flattens to: a bareword key names a field, a
/// keyless member must be a reference to another named group, and any
/// other key shape is rejected.
pub open spec fn spec_flatten_member(m: SpecGramMember) -> Result<SpecNode, SpecError>
    decreases m, 3nat,
{
    match m.key {
        Some(SpecGramKey::Bareword(s)) => match spec_flatten_type(m.value) {
            Ok(n) => Ok(SpecNode::KeyVal(SpecKeyVal { key: s, val: Box::new(n) })),
            Err(e) => Err(e),
        },
        Some(SpecGramKey::Other) => Err(SpecError::InvalidGroupMissingKey),
        None => spec_assume_foreign(m.value),
    }
}

/// A keyless member is accepted only where it flattens to a reference.
pub open spec fn spec_assume_foreign(t: Seq<SpecGramType1>) -> Result<SpecNode, SpecError>
    decreases t, 4nat,
{
    match spec_flatten_type(t) {
        Ok(SpecNode::Foreign(s)) => Ok(SpecNode::Foreign(s)),
        _ => Err(SpecError::InvalidType),
    }
}

/// What an array's single entry flattens to: a keyless member is the
/// element type itself, with no group-reference assumption.
pub open spec fn spec_flatten_array_entry(e: SpecGramEntry) -> Result<SpecNode, SpecError>
    decreases e, 3nat,
{
    match e.val {
        SpecGramEntryVal::Member(m) => match m.key {
            None => spec_flatten_type(m.value),
            Some(_) => spec_flatten_member(m),
        },
        SpecGramEntryVal::Parenthesized(g) => match spec_flatten_group(g) {
            Ok(members) => Ok(SpecNode::Group(members)),
            Err(e) => Err(e),
        },
        SpecGramEntryVal::Groupname(n) => Err(SpecError::NotSupportedGroupname(n)),
    }
}

/// What a bracketed group flattens to: exactly one member whose
/// occurrence is an exact count.
pub open spec fn spec_flatten_array(g: SpecGramGroup) -> Result<SpecNode, SpecError>
    decreases g, 4nat,
{
    match spec_group_entries(g) {
        Err(e) => Err(e),
        Ok(entries) => if entries.len() == 1 {
            match entries[0].occur {
                Some(GramOccur::Numbered(a, len)) => if a == len {
                    match spec_flatten_array_entry(entries[0]) {
                        Ok(n) => Ok(SpecNode::Array(SpecArray { len: len, ty: Box::new(n) })),
                        Err(e) => Err(e),
                    }
                } else {
                    Err(SpecError::InvalidArraySize)
                },
                _ => Err(SpecError::InvalidArraySize),
            }
        } else {
            Err(SpecError::InvalidArray)
        },
    }
}

/// What one rule's right-hand side flattens to.
pub open spec fn spec_flatten_rule(r: SpecGramRule) -> Result<SpecNode, SpecError>
    decreases r, 9nat,
{
    match r.val {
        SpecGramRuleVal::AssignType(t) => spec_flatten_type(t),
        SpecGramRuleVal::AssignGroup(g) => spec_flatten_groupentry(g),
    }
}

/// What a rule list flattens to: a table in declaration order, or the
/// first error.
pub open spec fn spec_flatten_rules(rules: Seq<SpecGramRule>) -> Result<
    Seq<(Seq<char>, SpecNode)>,
    SpecError,
>
    decreases rules, 9nat,
{
    if rules.len() == 0 {
        Ok(Seq::empty())
    } else {
        match spec_flatten_rules(rules.drop_last()) {
            Err(e) => Err(e),
            Ok(m) => match spec_flatten_rule(rules.last()) {
                Err(e) => Err(e),
                Ok(n) => Ok(map_insert(m, rules.last().name, n)),
            },
        }
    }
}

// ---------------------------------------------------------------------------
// The pass as executable code
// ---------------------------------------------------------------------------

/// The view of a fallible node list.
pub open spec fn nodes_res_view(r: FlattenResult<Vec<Node>>) -> Result<Seq<SpecNode>, SpecError> {
    match r {
        Ok(v) => Ok(Node::model_members(v@)),
        Err(e) => Err(e@),
    }
}

fn flatten_value(v: &GramValue) -> (r: FlattenResult<Node>)
    ensures
        res_view(r) == spec_flatten_value(v@),
{
    match v {
        GramValue::Text(s) => Ok(Node::Literal(Literal::from_text(s.clone()))),
        GramValue::Uint(u) => Ok(Node::Literal(Literal::UInt(*u))),
        GramValue::Nint(i) => Ok(Node::Literal(Literal::Int(*i))),
        GramValue::Bytes(b) => Ok(Node::Literal(Literal::Bytes(b.clone()))),
        GramValue::Other => Err(FlattenError::InvalidLiteral),
    }
}

fn flatten_typename(name: &String) -> (r: FlattenResult<Node>)
    ensures
        res_view(r) == spec_flatten_typename(name@),
{
    match Primative::from_name(name.clone()) {
        Primative::Int => Err(FlattenError::InvalidUnconstrainedPrimative),
        Primative::UInt => Err(FlattenError::InvalidUnconstrainedPrimative),
        Primative::TStr => Err(FlattenError::InvalidUnconstrainedPrimative),
        Primative::BStr => Err(FlattenError::InvalidUnconstrainedPrimative),
        Primative::Bool => Ok(Node::Primative(ConstrainedPrimative::Bool)),
        Primative::Unresolved(s) => {
            if crate::text::str_eq(s.as_str(), "false") {
                Ok(Node::Literal(Literal::Bool(false)))
            } else if crate::text::str_eq(s.as_str(), "true") {
                Ok(Node::Literal(Literal::Bool(true)))
            } else {
                Ok(Node::Foreign(s))
            }
        },
    }
}

fn flatten_control(c: &GramControl) -> (r: FlattenResult<Node>)
    ensures
        res_view(r) == spec_flatten_control(c@),
{
    let n: u64 = match &c.arg {
        GramType2::Value(GramValue::Uint(n)) => *n,
        _ => {
            return Err(FlattenError::InvalidControl);
        },
    };
    if crate::text::str_eq(c.op.as_str(), "size") {
        match &c.target {
            GramType2::Typename(s) => match Primative::from_name(s.clone()).constrain(n) {
                Ok(p) => Ok(Node::Primative(p)),
                Err(e) => Err(e),
            },
            _ => Err(FlattenError::InvalidControl),
        }
    } else {
        Err(FlattenError::NotSupportedControl(c.op.clone()))
    }
}

fn flatten_type(t: &GramType) -> (r: FlattenResult<Node>)
    ensures
        res_view(r) == spec_flatten_type(t@),
    decreases t, 3nat,
{
    let nodes = match flatten_type1s(&t.0) {
        Ok(nodes) => nodes,
        Err(e) => {
            return Err(e);
        },
    };
    proof {
        Node::lemma_model_members(nodes@);
    }
    if nodes.len() == 0 {
        Err(FlattenError::InvalidEnum0)
    } else if nodes.len() == 1 {
        let ghost orig = nodes@;
        let mut nodes = nodes;
        let node = nodes.pop().unwrap();
        proof {
            Node::lemma_model_members(orig);
            assert(orig.last() == orig[0]);
        }
        Ok(node)
    } else {
        Err(FlattenError::TodoEnums)
    }
}

fn flatten_type1s(list: &Vec<GramType1>) -> (r: FlattenResult<Vec<Node>>)
    ensures
        nodes_res_view(r) == spec_flatten_type1s(GramType2::model_type1s(list@)),
    decreases list, 2nat,
{
    let ghost models = GramType2::model_type1s(list@);
    proof {
        GramType2::lemma_model_type1s(list@);
    }
    let mut acc: Vec<Node> = Vec::new();
    let mut i: usize = 0;
    proof {
        assert(models.subrange(0, 0) =~= Seq::empty());
        assert(Node::model_members(acc@) =~= Seq::empty());
    }
    while i < list.len()
        invariant
            0 <= i <= list.len(),
            models == GramType2::model_type1s(list@),
            models.len() == list@.len(),
            forall|j: int| 0 <= j < list@.len() ==> models[j] == list@[j].model(),
            spec_flatten_type1s(models.subrange(0, i as int)) == Ok::<_, SpecError>(
                Node::model_members(acc@),
            ),
        decreases list.len() - i,
    {
        let ghost prefix = models.subrange(0, i as int);
        let node = match flatten_type1(&list[i]) {
            Ok(n) => n,
            Err(e) => {
                proof {
                    let longer = models.subrange(0, i as int + 1);
                    assert(longer.drop_last() =~= prefix);
                    assert(longer.last() == list@[i as int].model());
                    lemma_spec_flatten_type1s_err(models, i as int);
                }
                return Err(e);
            },
        };
        proof {
            let longer = models.subrange(0, i as int + 1);
            assert(longer.drop_last() =~= prefix);
            assert(longer.last() == list@[i as int].model());
            Node::lemma_model_members_push(acc@, node);
        }
        acc.push(node);
        i = i + 1;
    }
    proof {
        assert(models.subrange(0, list@.len() as int) =~= models);
    }
    Ok(acc)
}

/// Once one alternative fails, the whole list fails with that error.
proof fn lemma_spec_flatten_type1s_err(models: Seq<SpecGramType1>, i: int)
    requires
        0 <= i < models.len(),
        spec_flatten_type1s(models.subrange(0, i)) is Ok,
        spec_flatten_type1(models[i]) is Err,
    ensures
        spec_flatten_type1s(models) == Err::<Seq<SpecNode>, _>(
            spec_flatten_type1(models[i]).get_Err_0(),
        ),
    decreases models.len(),
{
    if models.len() > i + 1 {
        let shorter = models.drop_last();
        assert(shorter.subrange(0, i) =~= models.subrange(0, i));
        assert(shorter[i] == models[i]);
        lemma_spec_flatten_type1s_err(shorter, i);
    } else {
        assert(models.drop_last() =~= models.subrange(0, i));
    }
}

fn flatten_type1(t: &GramType1) -> (r: FlattenResult<Node>)
    ensures
        res_view(r) == spec_flatten_type1(t@),
    decreases t, 3nat,
{
    match t {
        GramType1::Simple(t2) => flatten_type2(t2),
        GramType1::Range => Err(FlattenError::NotSupportedRange),
        GramType1::Control(c) => flatten_control(c),
    }
}

fn flatten_type2(t: &GramType2) -> (r: FlattenResult<Node>)
    ensures
        res_view(r) == spec_flatten_type2(t@),
    decreases t, 3nat,
{
    match t {
        GramType2::Value(v) => flatten_value(v),
        GramType2::Typename(n) => flatten_typename(n),
        GramType2::Parenthesized(inner) => flatten_type(inner),
        GramType2::Record(g) => flatten_map(g),
        GramType2::Array(g) => flatten_array(g),
        GramType2::Unwrap => Err(FlattenError::NotSupportedGenerics),
        GramType2::Choiceify => Err(FlattenError::NotSupportedChoice),
        GramType2::ChoiceifyInline => Err(FlattenError::NotSupportedChoice),
    }
}

fn flatten_map(g: &GramGroup) -> (r: FlattenResult<Node>)
    ensures
        res_view(r) == spec_flatten_map(g@),
    decreases g, 2nat,
{
    match flatten_group(g) {
        Ok(members) => Ok(Node::Record(crate::node::Group { members })),
        Err(e) => Err(e),
    }
}

fn flatten_group(g: &GramGroup) -> (r: FlattenResult<Vec<Node>>)
    ensures
        nodes_res_view(r) == spec_flatten_group(g@),
    decreases g, 1nat,
{
    proof {
        GramGroup::lemma_model_choices(g.0@);
    }
    if g.0.len() == 1 {
        flatten_entries(&g.0[0].0)
    } else {
        Err(FlattenError::InvalidEnum0)
    }
}

fn flatten_entries(es: &Vec<GramEntry>) -> (r: FlattenResult<Vec<Node>>)
    ensures
        nodes_res_view(r) == spec_flatten_entries(GramChoice::model_entries(es@)),
    decreases es, 1nat,
{
    let ghost models = GramChoice::model_entries(es@);
    proof {
        GramChoice::lemma_model_entries(es@);
    }
    let mut acc: Vec<Node> = Vec::new();
    let mut i: usize = 0;
    proof {
        assert(models.subrange(0, 0) =~= Seq::empty());
        assert(Node::model_members(acc@) =~= Seq::empty());
    }
    while i < es.len()
        invariant
            0 <= i <= es.len(),
            models == GramChoice::model_entries(es@),
            models.len() == es@.len(),
            forall|j: int| 0 <= j < es@.len() ==> models[j] == es@[j].model(),
            spec_flatten_entries(models.subrange(0, i as int)) == Ok::<_, SpecError>(
                Node::model_members(acc@),
            ),
        decreases es.len() - i,
    {
        let ghost prefix = models.subrange(0, i as int);
        let node = match flatten_groupentry(&es[i]) {
            Ok(n) => n,
            Err(e) => {
                proof {
                    lemma_spec_flatten_entries_err(models, i as int);
                }
                return Err(e);
            },
        };
        proof {
            let longer = models.subrange(0, i as int + 1);
            assert(longer.drop_last() =~= prefix);
            assert(longer.last() == es@[i as int].model());
            Node::lemma_model_members_push(acc@, node);
        }
        acc.push(node);
        i = i + 1;
    }
    proof {
        assert(models.subrange(0, es@.len() as int) =~= models);
    }
    Ok(acc)
}

/// Once one entry fails, the whole list fails with that error.
proof fn lemma_spec_flatten_entries_err(models: Seq<SpecGramEntry>, i: int)
    requires
        0 <= i < models.len(),
        spec_flatten_entries(models.subrange(0, i)) is Ok,
        spec_flatten_groupentry(models[i]) is Err,
    ensures
        spec_flatten_entries(models) == Err::<Seq<SpecNode>, _>(
            spec_flatten_groupentry(models[i]).get_Err_0(),
        ),
    decreases models.len(),
{
    if models.len() > i + 1 {
        let shorter = models.drop_last();
        assert(shorter.subrange(0, i) =~= models.subrange(0, i));
        assert(shorter[i] == models[i]);
        lemma_spec_flatten_entries_err(shorter, i);
    } else {
        assert(models.drop_last() =~= models.subrange(0, i));
    }
}

fn flatten_groupentry(e: &GramEntry) -> (r: FlattenResult<Node>)
    ensures
        res_view(r) == spec_flatten_groupentry(e@),
    decreases e, 3nat,
{
    match &e.val {
        crate::grammar::GramEntryVal::Member(m) => flatten_group_member(m),
        crate::grammar::GramEntryVal::Parenthesized(g) => match flatten_group(g) {
            Ok(members) => Ok(Node::Group(crate::node::Group { members })),
            Err(e) => Err(e),
        },
        crate::grammar::GramEntryVal::Groupname(n) => Err(
            FlattenError::NotSupportedGroupname(n.clone()),
        ),
    }
}

fn flatten_group_member(m: &crate::grammar::GramMember) -> (r: FlattenResult<Node>)
    ensures
        res_view(r) == spec_flatten_member(m@),
    decreases m, 3nat,
{
    match &m.key {
        Some(GramKey::Bareword(s)) => match flatten_type(&m.value) {
            Ok(n) => Ok(Node::KeyVal(KeyVal::new(s.as_str(), n))),
            Err(e) => Err(e),
        },
        Some(GramKey::Other) => Err(FlattenError::InvalidGroupMissingKey),
        None => assume_foreign_value(&m.value),
    }
}

fn assume_foreign_value(t: &GramType) -> (r: FlattenResult<Node>)
    ensures
        res_view(r) == spec_assume_foreign(t@),
    decreases t, 4nat,
{
    match flatten_type(t) {
        Ok(Node::Foreign(s)) => Ok(Node::Foreign(s)),
        _ => Err(FlattenError::InvalidType),
    }
}

fn flatten_array_entry(e: &GramEntry) -> (r: FlattenResult<Node>)
    ensures
        res_view(r) == spec_flatten_array_entry(e@),
    decreases e, 3nat,
{
    match &e.val {
        crate::grammar::GramEntryVal::Member(m) => match &m.key {
            None => flatten_type(&m.value),
            Some(_) => flatten_group_member(m),
        },
        crate::grammar::GramEntryVal::Parenthesized(g) => match flatten_group(g) {
            Ok(members) => Ok(Node::Group(crate::node::Group { members })),
            Err(e) => Err(e),
        },
        crate::grammar::GramEntryVal::Groupname(n) => Err(
            FlattenError::NotSupportedGroupname(n.clone()),
        ),
    }
}

fn flatten_array(g: &GramGroup) -> (r: FlattenResult<Node>)
    ensures
        res_view(r) == spec_flatten_array(g@),
    decreases g, 4nat,
{
    proof {
        GramGroup::lemma_model_choices(g.0@);
    }
    if g.0.len() != 1 {
        return Err(FlattenError::InvalidEnum0);
    }
    let entries = &g.0[0].0;
    proof {
        GramChoice::lemma_model_entries(entries@);
    }
    if entries.len() == 1 {
        match &entries[0].occur {
            Some(GramOccur::Numbered(a, len)) => {
                if *a == *len {
                    match flatten_array_entry(&entries[0]) {
                        Ok(n) => Ok(Node::Array(Array::new(n, *len))),
                        Err(e) => Err(e),
                    }
                } else {
                    Err(FlattenError::InvalidArraySize)
                }
            },
            _ => Err(FlattenError::InvalidArraySize),
        }
    } else {
        Err(FlattenError::InvalidArray)
    }
}

fn flatten_rule(r: &GramRule) -> (res: FlattenResult<Node>)
    ensures
        res_view(res) == spec_flatten_rule(r@),
    decreases r, 9nat,
{
    match &r.val {
        GramRuleVal::AssignType(t) => flatten_type(t),
        GramRuleVal::AssignGroup(g) => flatten_groupentry(g),
    }
}

/// The view of a fallible rule table.
pub open spec fn table_res_view(r: FlattenResult<NameMap<Node>>) -> Result<
    Seq<(Seq<char>, SpecNode)>,
    SpecError,
> {
    match r {
        Ok(m) => Ok(m@),
        Err(e) => Err(e@),
    }
}

fn flatten_rules(rules: &Vec<GramRule>) -> (r: FlattenResult<NameMap<Node>>)
    ensures
        table_res_view(r) == spec_flatten_rules(crate::grammar::model_rules(rules@)),
    decreases rules, 9nat,
{
    let ghost models = crate::grammar::model_rules(rules@);
    proof {
        crate::grammar::lemma_model_rules(rules@);
    }
    let mut acc: NameMap<Node> = NameMap::new();
    let mut i: usize = 0;
    proof {
        assert(models.subrange(0, 0) =~= Seq::empty());
    }
    while i < rules.len()
        invariant
            0 <= i <= rules.len(),
            models == crate::grammar::model_rules(rules@),
            models.len() == rules@.len(),
            forall|j: int| 0 <= j < rules@.len() ==> models[j] == rules@[j].model(),
            spec_flatten_rules(models.subrange(0, i as int)) == Ok::<_, SpecError>(acc@),
        decreases rules.len() - i,
    {
        let ghost prefix = models.subrange(0, i as int);
        let node = match flatten_rule(&rules[i]) {
            Ok(n) => n,
            Err(e) => {
                proof {
                    lemma_spec_flatten_rules_err(models, i as int);
                }
                return Err(e);
            },
        };
        proof {
            let longer = models.subrange(0, i as int + 1);
            assert(longer.drop_last() =~= prefix);
            assert(longer.last() == rules@[i as int].model());
        }
        acc.insert(rules[i].name.clone(), node);
        i = i + 1;
    }
    proof {
        assert(models.subrange(0, rules@.len() as int) =~= models);
    }
    Ok(acc)
}

/// Once one rule fails, the whole document fails with that error.
proof fn lemma_spec_flatten_rules_err(models: Seq<SpecGramRule>, i: int)
    requires
        0 <= i < models.len(),
        spec_flatten_rules(models.subrange(0, i)) is Ok,
        spec_flatten_rule(models[i]) is Err,
    ensures
        spec_flatten_rules(models) == Err::<Seq<(Seq<char>, SpecNode)>, _>(
            spec_flatten_rule(models[i]).get_Err_0(),
        ),
    decreases models.len(),
{
    if models.len() > i + 1 {
        let shorter = models.drop_last();
        assert(shorter.subrange(0, i) =~= models.subrange(0, i));
        assert(shorter[i] == models[i]);
        lemma_spec_flatten_rules_err(shorter, i);
    } else {
        assert(models.drop_last() =~= models.subrange(0, i));
    }
}

/// Flatten a schema document: parse the text through the grammar front
/// end, then flatten every rule into the unresolved node table, in
/// declaration order, or fail with the first error.
pub fn flatten(cddl_text: &str) -> (r: FlattenResult<NameMap<Node>>)
    ensures
        cddl::cddl_rules_of(cddl_text@) is None ==> r is Err && r.get_Err_0()@ is Parser,
        cddl::cddl_rules_of(cddl_text@) matches Some(rules) ==> table_res_view(r)
            == spec_flatten_rules(rules),
{
    match cddl::parse_rules(cddl_text) {
        Ok(rules) => flatten_rules(&rules),
        Err(msg) => Err(FlattenError::Parser(msg)),
    }
}

} // verus!
