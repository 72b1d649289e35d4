//! The grammar tree a schema document parses into.
//!
//! The grammar front end (an outside collaborator, see [`crate::cddl`])
//! hands the pipeline one [`GramRule`] per named rule of the document.  This
//! module models exactly the part of the grammar that the flatten pass
//! reads: literal values, type names, controls, groups, maps, arrays and
//! occurrences.  Constructs the subset rejects (ranges, choices, unwraps)
//! are kept as bare variants, since the pass only ever names them in an
//! error.
use vstd::prelude::*;

verus! {

/// A literal value in type position, such as `3`, `"hello"` or `h'FF'`.
/// GramValue shapes the subset cannot hold (floating point) are [`GramValue::Other`].
#[derive(Debug, PartialEq)]
pub enum GramValue {
    /// A text-string literal.
    Text(String),
    /// An unsigned integer literal.
    Uint(u64),
    /// A negative integer literal.
    Nint(i64),
    /// A byte-string literal.
    Bytes(Vec<u8>),
    /// Any other literal shape; always rejected.
    Other,
}

/// Ghost form of [`GramValue`].
pub enum SpecGramValue {
    Text(Seq<char>),
    Uint(u64),
    Nint(i64),
    Bytes(Seq<u8>),
    Other,
}

impl View for GramValue {
    type V = SpecGramValue;

    open spec fn view(&self) -> SpecGramValue {
        match self {
            GramValue::Text(s) => SpecGramValue::Text(s@),
            GramValue::Uint(u) => SpecGramValue::Uint(*u),
            GramValue::Nint(i) => SpecGramValue::Nint(*i),
            GramValue::Bytes(b) => SpecGramValue::Bytes(b@),
            GramValue::Other => SpecGramValue::Other,
        }
    }
}

/// How many elements a group entry may match: `?`, `*`, `+` or an exact
/// `a*b` numbered occurrence.
#[derive(Debug, PartialEq, Eq, Structural, Clone, Copy)]
pub enum GramOccur {
    Optional,
    ZeroOrMore,
    OneOrMore,
    Numbered(usize, usize),
}

impl View for GramOccur {
    type V = GramOccur;

    open spec fn view(&self) -> GramOccur {
        *self
    }
}

/// The key of a key-value group member.  Only bareword keys name a field
/// in this subset; every other key shape is [`GramKey::Other`].
#[derive(Debug, PartialEq)]
pub enum GramKey {
    /// A bare field name, as in `port: u16`.
    Bareword(String),
    /// Any other key shape; always rejected.
    Other,
}

/// Ghost form of [`GramKey`].
pub enum SpecGramKey {
    Bareword(Seq<char>),
    Other,
}

impl View for GramKey {
    type V = SpecGramKey;

    open spec fn view(&self) -> SpecGramKey {
        match self {
            GramKey::Bareword(s) => SpecGramKey::Bareword(s@),
            GramKey::Other => SpecGramKey::Other,
        }
    }
}

/// A control applied to a type, such as `uint .size 2`.
#[derive(Debug, PartialEq)]
pub struct GramControl {
    /// The type the control applies to.
    pub target: GramType2,
    /// The control's argument.
    pub arg: GramType2,
    /// The control operator's name, without the dot.
    pub op: String,
}

/// Ghost form of [`GramControl`].
pub struct SpecGramControl {
    pub target: Box<SpecGramType2>,
    pub arg: Box<SpecGramType2>,
    pub op: Seq<char>,
}

/// A type with a range or control operator attached, or a plain type.
#[derive(Debug, PartialEq)]
pub enum GramType1 {
    /// A plain type without operators.
    Simple(GramType2),
    /// A range such as `1..10`; always rejected.
    Range,
    /// A type with a control operator, such as `bstr .size 32`.
    Control(GramControl),
}

/// Ghost form of [`GramType1`].
pub enum SpecGramType1 {
    Simple(Box<SpecGramType2>),
    Range,
    Control(SpecGramControl),
}

/// The main representation of a type.
#[derive(Debug, PartialEq)]
pub enum GramType2 {
    /// A literal value.
    Value(GramValue),
    /// A type or rule name.
    Typename(String),
    /// A parenthesized type.
    Parenthesized(GramType),
    /// A map, written with curly braces.
    Record(GramGroup),
    /// An array, written with square brackets.
    Array(GramGroup),
    /// An unwrapped name, `~name`; always rejected.
    Unwrap,
    /// A choiceified group name, `&name`; always rejected.
    Choiceify,
    /// A choiceified inline group, `&(...)`; always rejected.
    ChoiceifyInline,
}

/// Ghost form of [`GramType2`].
pub enum SpecGramType2 {
    Value(SpecGramValue),
    Typename(Seq<char>),
    Parenthesized(Seq<SpecGramType1>),
    Record(SpecGramGroup),
    Array(SpecGramGroup),
    Unwrap,
    Choiceify,
    ChoiceifyInline,
}

/// A type as a list of alternatives; this subset accepts exactly one.
#[derive(Debug, PartialEq)]
pub struct GramType(pub Vec<GramType1>);

/// A group: a list of group choices; this subset accepts exactly one.
#[derive(Debug, PartialEq)]
pub struct GramGroup(pub Vec<GramChoice>);

/// Ghost form of [`GramGroup`].
pub struct SpecGramGroup {
    pub choices: Seq<Seq<SpecGramEntry>>,
}

/// One choice of a group: a list of group entries.
#[derive(Debug, PartialEq)]
pub struct GramChoice(pub Vec<GramEntry>);

/// One element of a group, with its occurrence.
#[derive(Debug, PartialEq)]
pub struct GramEntry {
    pub occur: Option<GramOccur>,
    pub val: GramEntryVal,
}

/// Ghost form of [`GramEntry`].
pub struct SpecGramEntry {
    pub occur: Option<GramOccur>,
    pub val: SpecGramEntryVal,
}

/// The payload of a group entry.
#[derive(Debug, PartialEq)]
pub enum GramEntryVal {
    /// A member, usually `key: type`.
    Member(GramMember),
    /// A group referenced by name.
    Groupname(String),
    /// An inline parenthesized group.
    Parenthesized(GramGroup),
}

/// Ghost form of [`GramEntryVal`].
pub enum SpecGramEntryVal {
    Member(SpecGramMember),
    Groupname(Seq<char>),
    Parenthesized(SpecGramGroup),
}

/// A group member: an optional key and a type.
#[derive(Debug, PartialEq)]
pub struct GramMember {
    pub key: Option<GramKey>,
    pub value: GramType,
}

/// Ghost form of [`GramMember`].
pub struct SpecGramMember {
    pub key: Option<SpecGramKey>,
    pub value: Seq<SpecGramType1>,
}

/// The right-hand side of a rule: a type assignment or a group assignment.
#[derive(Debug, PartialEq)]
pub enum GramRuleVal {
    /// `name = <type>`
    AssignType(GramType),
    /// `name = ( ... )` assigned as a group entry
    AssignGroup(GramEntry),
}

/// Ghost form of [`GramRuleVal`].
pub enum SpecGramRuleVal {
    AssignType(Seq<SpecGramType1>),
    AssignGroup(SpecGramEntry),
}

/// One named rule of a schema document.
#[derive(Debug, PartialEq)]
pub struct GramRule {
    /// The rule's name.
    pub name: String,
    /// The rule's right-hand side.
    pub val: GramRuleVal,
}

/// Ghost form of [`GramRule`].
pub struct SpecGramRule {
    pub name: Seq<char>,
    pub val: SpecGramRuleVal,
}

impl GramType2 {
    /// The ghost model of a type.
    pub open spec fn model(self) -> SpecGramType2
        decreases self,
    {
        match self {
            GramType2::Value(v) => SpecGramType2::Value(v@),
            GramType2::Typename(n) => SpecGramType2::Typename(n@),
            GramType2::Parenthesized(t) => SpecGramType2::Parenthesized(Self::model_type1s(t.0@)),
            GramType2::Record(g) => SpecGramType2::Record(g.model()),
            GramType2::Array(g) => SpecGramType2::Array(g.model()),
            GramType2::Unwrap => SpecGramType2::Unwrap,
            GramType2::Choiceify => SpecGramType2::Choiceify,
            GramType2::ChoiceifyInline => SpecGramType2::ChoiceifyInline,
        }
    }

    /// The ghost models of a list of alternatives, in order.
    pub open spec fn model_type1s(s: Seq<GramType1>) -> Seq<SpecGramType1>
        decreases s,
    {
        if s.len() == 0 {
            Seq::empty()
        } else {
            seq![s[0].model()] + Self::model_type1s(s.drop_first())
        }
    }

    /// A list of alternatives models element by element.
    pub proof fn lemma_model_type1s(s: Seq<GramType1>)
        ensures
            Self::model_type1s(s).len() == s.len(),
            forall|i: int| 0 <= i < s.len() ==> Self::model_type1s(s)[i] == s[i].model(),
        decreases s,
    {
        if s.len() > 0 {
            Self::lemma_model_type1s(s.drop_first());
            assert forall|i: int| 0 <= i < s.len() implies Self::model_type1s(s)[i]
                == s[i].model() by {
                if i > 0 {
                    assert(Self::model_type1s(s)[i] == Self::model_type1s(s.drop_first())[i - 1]);
                    assert(s.drop_first()[i - 1] == s[i]);
                }
            }
        }
    }
}

impl GramType1 {
    /// The ghost model of a type with operators.
    pub open spec fn model(self) -> SpecGramType1
        decreases self,
    {
        match self {
            GramType1::Simple(t2) => SpecGramType1::Simple(Box::new(t2.model())),
            GramType1::Range => SpecGramType1::Range,
            GramType1::Control(c) => SpecGramType1::Control(
                SpecGramControl {
                    target: Box::new(c.target.model()),
                    arg: Box::new(c.arg.model()),
                    op: c.op@,
                },
            ),
        }
    }
}

impl GramGroup {
    /// The ghost model of a group.
    pub open spec fn model(self) -> SpecGramGroup
        decreases self,
    {
        SpecGramGroup { choices: Self::model_choices(self.0@) }
    }

    /// The ghost models of a list of group choices, in order.
    pub open spec fn model_choices(s: Seq<GramChoice>) -> Seq<Seq<SpecGramEntry>>
        decreases s,
    {
        if s.len() == 0 {
            Seq::empty()
        } else {
            seq![GramChoice::model_entries(s[0].0@)] + Self::model_choices(s.drop_first())
        }
    }

    /// A list of group choices models element by element.
    pub proof fn lemma_model_choices(s: Seq<GramChoice>)
        ensures
            Self::model_choices(s).len() == s.len(),
            forall|i: int| 0 <= i < s.len() ==> Self::model_choices(s)[i]
                == GramChoice::model_entries(s[i].0@),
        decreases s,
    {
        if s.len() > 0 {
            Self::lemma_model_choices(s.drop_first());
            assert forall|i: int| 0 <= i < s.len() implies Self::model_choices(s)[i]
                == GramChoice::model_entries(s[i].0@) by {
                if i > 0 {
                    assert(Self::model_choices(s)[i] == Self::model_choices(s.drop_first())[i - 1]);
                    assert(s.drop_first()[i - 1] == s[i]);
                }
            }
        }
    }
}

impl GramChoice {
    /// The ghost models of a list of group entries, in order.
    pub open spec fn model_entries(s: Seq<GramEntry>) -> Seq<SpecGramEntry>
        decreases s,
    {
        if s.len() == 0 {
            Seq::empty()
        } else {
            seq![s[0].model()] + Self::model_entries(s.drop_first())
        }
    }

    /// A list of group entries models element by element.
    pub proof fn lemma_model_entries(s: Seq<GramEntry>)
        ensures
            Self::model_entries(s).len() == s.len(),
            forall|i: int| 0 <= i < s.len() ==> Self::model_entries(s)[i] == s[i].model(),
        decreases s,
    {
        if s.len() > 0 {
            Self::lemma_model_entries(s.drop_first());
            assert forall|i: int| 0 <= i < s.len() implies Self::model_entries(s)[i]
                == s[i].model() by {
                if i > 0 {
                    assert(Self::model_entries(s)[i] == Self::model_entries(s.drop_first())[i - 1]);
                    assert(s.drop_first()[i - 1] == s[i]);
                }
            }
        }
    }
}

impl GramEntry {
    /// The ghost model of a group entry.
    pub open spec fn model(self) -> SpecGramEntry
        decreases self,
    {
        SpecGramEntry { occur: self.occur, val: self.val.model() }
    }
}

impl GramEntryVal {
    /// The ghost model of a group entry's payload.
    pub open spec fn model(self) -> SpecGramEntryVal
        decreases self,
    {
        match self {
            GramEntryVal::Member(m) => SpecGramEntryVal::Member(
                SpecGramMember {
                    key: match m.key {
                        Some(k) => Some(k@),
                        None => None,
                    },
                    value: GramType2::model_type1s(m.value.0@),
                },
            ),
            GramEntryVal::Groupname(n) => SpecGramEntryVal::Groupname(n@),
            GramEntryVal::Parenthesized(g) => SpecGramEntryVal::Parenthesized(g.model()),
        }
    }
}

impl GramRule {
    /// The ghost model of a rule.
    pub open spec fn model(self) -> SpecGramRule {
        SpecGramRule {
            name: self.name@,
            val: match self.val {
                GramRuleVal::AssignType(t) => SpecGramRuleVal::AssignType(GramType2::model_type1s(t.0@)),
                GramRuleVal::AssignGroup(g) => SpecGramRuleVal::AssignGroup(g.model()),
            },
        }
    }
}

impl View for GramControl {
    type V = SpecGramControl;

    open spec fn view(&self) -> SpecGramControl {
        SpecGramControl {
            target: Box::new(self.target.model()),
            arg: Box::new(self.arg.model()),
            op: self.op@,
        }
    }
}

impl View for GramMember {
    type V = SpecGramMember;

    open spec fn view(&self) -> SpecGramMember {
        SpecGramMember {
            key: match &self.key {
                Some(k) => Some(k@),
                None => None,
            },
            value: GramType2::model_type1s(self.value.0@),
        }
    }
}

impl View for GramType2 {
    type V = SpecGramType2;

    open spec fn view(&self) -> SpecGramType2 {
        self.model()
    }
}

impl View for GramType1 {
    type V = SpecGramType1;

    open spec fn view(&self) -> SpecGramType1 {
        self.model()
    }
}

impl View for GramType {
    type V = Seq<SpecGramType1>;

    open spec fn view(&self) -> Seq<SpecGramType1> {
        GramType2::model_type1s(self.0@)
    }
}

impl View for GramGroup {
    type V = SpecGramGroup;

    open spec fn view(&self) -> SpecGramGroup {
        self.model()
    }
}

impl View for GramChoice {
    type V = Seq<SpecGramEntry>;

    open spec fn view(&self) -> Seq<SpecGramEntry> {
        GramChoice::model_entries(self.0@)
    }
}

impl View for GramEntry {
    type V = SpecGramEntry;

    open spec fn view(&self) -> SpecGramEntry {
        self.model()
    }
}

impl View for GramEntryVal {
    type V = SpecGramEntryVal;

    open spec fn view(&self) -> SpecGramEntryVal {
        self.model()
    }
}

impl View for GramRule {
    type V = SpecGramRule;

    open spec fn view(&self) -> SpecGramRule {
        self.model()
    }
}

/// The ghost models of a rule list, in order.
pub open spec fn model_rules(s: Seq<GramRule>) -> Seq<SpecGramRule>
    decreases s,
{
    if s.len() == 0 {
        Seq::empty()
    } else {
        seq![s[0].model()] + model_rules(s.drop_first())
    }
}

/// A rule list models element by element.
pub proof fn lemma_model_rules(s: Seq<GramRule>)
    ensures
        model_rules(s).len() == s.len(),
        forall|i: int| 0 <= i < s.len() ==> model_rules(s)[i] == s[i].model(),
    decreases s,
{
    if s.len() > 0 {
        lemma_model_rules(s.drop_first());
        assert forall|i: int| 0 <= i < s.len() implies model_rules(s)[i] == s[i].model() by {
            if i > 0 {
                assert(model_rules(s)[i] == model_rules(s.drop_first())[i - 1]);
                assert(s.drop_first()[i - 1] == s[i]);
            }
        }
    }
}

} // verus!
