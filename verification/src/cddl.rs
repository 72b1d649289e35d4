//! The grammar front end: the one place this crate calls an outside crate.
//!
//! The low-level tokenizer and grammar parser is `cddl_cat`.  Its
//! [`cddl_cat::parse_cddl`] turns schema text into a grammar tree; the
//! converters below move that tree, arm by arm and field by field, into
//! this crate's own model ([`crate::ast`]), which the verified passes
//! read.  What the parse returns is a function of the text alone, so it
//! is given a name, [`cddl_rules_of`], and the contract of [`parse_rules`]
//! speaks through that name.
use vstd::prelude::*;

use crate::grammar;

verus! {

#[verifier::external_type_specification]
#[verifier::external_body]
pub struct ExRule(cddl_cat::ast::Rule);

#[verifier::external_type_specification]
#[verifier::external_body]
pub struct ExType(cddl_cat::ast::Type);

#[verifier::external_type_specification]
#[verifier::external_body]
pub struct ExType1(cddl_cat::ast::Type1);

#[verifier::external_type_specification]
#[verifier::external_body]
pub struct ExType2(cddl_cat::ast::Type2);

#[verifier::external_type_specification]
#[verifier::external_body]
pub struct ExValue(cddl_cat::ast::Value);

#[verifier::external_type_specification]
#[verifier::external_body]
pub struct ExGrpChoice(cddl_cat::ast::GrpChoice);

#[verifier::external_type_specification]
#[verifier::external_body]
pub struct ExGrpEnt(cddl_cat::ast::GrpEnt);

#[verifier::external_type_specification]
#[verifier::external_body]
pub struct ExGrpEntVal(cddl_cat::ast::GrpEntVal);

#[verifier::external_type_specification]
#[verifier::external_body]
pub struct ExMember(cddl_cat::ast::Member);

/// What the grammar front end makes of a text: `None` where the text is
/// not well-formed CDDL, otherwise the model of its rule list.  The
/// result depends on the characters alone.
pub uninterp spec fn cddl_rules_of(s: Seq<char>) -> Option<Seq<grammar::SpecGramRule>>;

/// Moves a literal of `cddl_cat`'s tree into the crate's model; the
/// float shape has no place in this subset and maps to `Other`.
#[verifier::external_body]
fn conv_value(v: cddl_cat::ast::Value) -> grammar::GramValue {
    match v {
        cddl_cat::ast::Value::Text(s) => grammar::GramValue::Text(s),
        cddl_cat::ast::Value::Uint(u) => grammar::GramValue::Uint(u),
        cddl_cat::ast::Value::Nint(i) => grammar::GramValue::Nint(i),
        cddl_cat::ast::Value::Bytes(b) => grammar::GramValue::Bytes(b),
        cddl_cat::ast::Value::Float(_) => grammar::GramValue::Other,
    }
}

/// Moves a type of `cddl_cat`'s tree into the crate's model; generic
/// arguments are dropped, as the pipeline never reads them.
#[verifier::external_body]
fn conv_type2(t: cddl_cat::ast::Type2) -> grammar::GramType2 {
    match t {
        cddl_cat::ast::Type2::Value(v) => grammar::GramType2::Value(conv_value(v)),
        cddl_cat::ast::Type2::Typename(n) => grammar::GramType2::Typename(n.name),
        cddl_cat::ast::Type2::Parethesized(t) => grammar::GramType2::Parenthesized(conv_type(t)),
        cddl_cat::ast::Type2::Map(g) => grammar::GramType2::Record(conv_choices(g.0)),
        cddl_cat::ast::Type2::Array(g) => grammar::GramType2::Array(conv_choices(g.0)),
        cddl_cat::ast::Type2::Unwrap(_) => grammar::GramType2::Unwrap,
        cddl_cat::ast::Type2::Choiceify(_) => grammar::GramType2::Choiceify,
        cddl_cat::ast::Type2::ChoiceifyInline(_) => grammar::GramType2::ChoiceifyInline,
    }
}

/// Moves a type-with-operator of `cddl_cat`'s tree into the crate's
/// model; a range keeps no payload, as the pipeline only rejects it.
#[verifier::external_body]
fn conv_type1(t: cddl_cat::ast::Type1) -> grammar::GramType1 {
    match t {
        cddl_cat::ast::Type1::Simple(t2) => grammar::GramType1::Simple(conv_type2(t2)),
        cddl_cat::ast::Type1::Range(_) => grammar::GramType1::Range,
        cddl_cat::ast::Type1::Control(c) => grammar::GramType1::Control(
            grammar::GramControl { target: conv_type2(c.target), arg: conv_type2(c.arg), op: c.op },
        ),
    }
}

/// Moves a type choice list of `cddl_cat`'s tree into the crate's model.
#[verifier::external_body]
fn conv_type(t: cddl_cat::ast::Type) -> grammar::GramType {
    grammar::GramType(t.0.into_iter().map(conv_type1).collect())
}

/// Moves a group member of `cddl_cat`'s tree into the crate's model;
/// only bareword keys name a field, every other key shape is `Other`.
#[verifier::external_body]
fn conv_member(m: cddl_cat::ast::Member) -> grammar::GramMember {
    grammar::GramMember {
        key: m.key.map(|k| match k.val {
            cddl_cat::ast::MemberKeyVal::Bareword(s) => grammar::GramKey::Bareword(s),
            _ => grammar::GramKey::Other,
        }),
        value: conv_type(m.value),
    }
}

/// Moves a group entry payload of `cddl_cat`'s tree into the crate's model.
#[verifier::external_body]
fn conv_grpentval(v: cddl_cat::ast::GrpEntVal) -> grammar::GramEntryVal {
    match v {
        cddl_cat::ast::GrpEntVal::Member(m) => grammar::GramEntryVal::Member(conv_member(m)),
        cddl_cat::ast::GrpEntVal::Groupname(n) => grammar::GramEntryVal::Groupname(n),
        cddl_cat::ast::GrpEntVal::Parenthesized(g) => grammar::GramEntryVal::Parenthesized(conv_choices(g.0)),
    }
}

/// Moves a group entry of `cddl_cat`'s tree into the crate's model.
#[verifier::external_body]
fn conv_grpent(e: cddl_cat::ast::GrpEnt) -> grammar::GramEntry {
    grammar::GramEntry {
        occur: e.occur.map(|o| match o {
            cddl_cat::ast::Occur::Optional => grammar::GramOccur::Optional,
            cddl_cat::ast::Occur::ZeroOrMore => grammar::GramOccur::ZeroOrMore,
            cddl_cat::ast::Occur::OneOrMore => grammar::GramOccur::OneOrMore,
            cddl_cat::ast::Occur::Numbered(a, b) => grammar::GramOccur::Numbered(a, b),
        }),
        val: conv_grpentval(e.val),
    }
}

/// Moves a group choice of `cddl_cat`'s tree into the crate's model.
#[verifier::external_body]
fn conv_grpchoice(c: cddl_cat::ast::GrpChoice) -> grammar::GramChoice {
    grammar::GramChoice(c.0.into_iter().map(conv_grpent).collect())
}

/// Moves a group's choices of `cddl_cat`'s tree into the crate's model.
#[verifier::external_body]
fn conv_choices(cs: Vec<cddl_cat::ast::GrpChoice>) -> grammar::GramGroup {
    grammar::GramGroup(cs.into_iter().map(conv_grpchoice).collect())
}

/// Moves a rule of `cddl_cat`'s tree into the crate's model; generic
/// parameters are dropped, as the pipeline never reads them.
#[verifier::external_body]
fn conv_rule(r: cddl_cat::ast::Rule) -> grammar::GramRule {
    grammar::GramRule {
        name: r.name,
        val: match r.val {
            cddl_cat::ast::RuleVal::AssignType(t) => grammar::GramRuleVal::AssignType(conv_type(t)),
            cddl_cat::ast::RuleVal::AssignGroup(g) => grammar::GramRuleVal::AssignGroup(conv_grpent(g)),
        },
    }
}

/// Relies on `cddl_cat::parse_cddl`: whether a text parses, and the rule
/// list it parses into, depend on the characters alone.  A failed parse
/// hands back the front end's rendered message.
#[verifier::external_body]
pub fn parse_rules(text: &str) -> (r: Result<Vec<grammar::GramRule>, String>)
    ensures
        match r {
            Ok(rules) => cddl_rules_of(text@) == Some(grammar::model_rules(rules@)),
            Err(_) => cddl_rules_of(text@) is None,
        },
{
    match cddl_cat::parse_cddl(text) {
        Ok(cddl) => Ok(cddl.rules.into_iter().map(conv_rule).collect()),
        Err(e) => Err(format!("{}", e)),
    }
}

} // verus!
