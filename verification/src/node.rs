//! The two intermediate trees of the compiler.
//!
//! [`Node`] is the unresolved tree the flatten pass produces: it may still
//! hold [`Node::Foreign`] placeholders that point at other rules by name.
//! [`LinkedNode`] is the resolved tree the link pass produces: every
//! reference has either been inlined or pinned as a by-name
//! [`LinkedNode::ForeignStruct`].
//!
//! Each executable type has a ghost model (`Spec*`) reached through its
//! view; all contracts in this crate speak about those models.
use vstd::prelude::*;

use crate::error::{FlattenError, FlattenResult, SpecError};
use crate::text::str_eq;

verus! {

// ---------------------------------------------------------------------------
// Primitives
// ---------------------------------------------------------------------------

/// A primitive type name as it occurs in the schema text, before any size
/// control is applied.  A name that is no primitive is kept as
/// [`Primative::Unresolved`] and later treated as a reference.
#[derive(Debug, PartialEq)]
pub enum Primative {
    /// The unsigned integer primitive, `uint`.
    UInt,
    /// The signed integer primitive, `int`.
    Int,
    /// The byte-string primitive, `bstr` or `bytes`.
    BStr,
    /// The text-string primitive, `tstr` or `text`.
    TStr,
    /// The boolean primitive, `bool` or `boolean`.
    Bool,
    /// A name defined by another rule of the document.
    Unresolved(String),
}

/// Ghost form of [`Primative`].
pub enum SpecPrimative {
    UInt,
    Int,
    BStr,
    TStr,
    Bool,
    Unresolved(Seq<char>),
}

impl View for Primative {
    type V = SpecPrimative;

    open spec fn view(&self) -> SpecPrimative {
        match self {
            Primative::UInt => SpecPrimative::UInt,
            Primative::Int => SpecPrimative::Int,
            Primative::BStr => SpecPrimative::BStr,
            Primative::TStr => SpecPrimative::TStr,
            Primative::Bool => SpecPrimative::Bool,
            Primative::Unresolved(s) => SpecPrimative::Unresolved(s@),
        }
    }
}

/// A sized primitive: every numeric, text or byte primitive of this schema
/// subset carries an explicit size.
#[derive(Debug, PartialEq, Eq, Structural, Clone, Copy)]
pub enum ConstrainedPrimative {
    /// `uint .size 1`
    U8,
    /// `int .size 1`
    I8,
    /// `uint .size 2`
    U16,
    /// `int .size 2`
    I16,
    /// `uint .size 4`
    U32,
    /// `int .size 4`
    I32,
    /// `uint .size 8`
    U64,
    /// `int .size 8`
    I64,
    /// `bool`
    Bool,
    /// A text string of exactly N bytes, `tstr .size N`.
    Str(u64),
    /// A byte array of exactly N bytes, `bstr .size N`.
    Bytes(u64),
}

impl View for ConstrainedPrimative {
    type V = ConstrainedPrimative;

    open spec fn view(&self) -> ConstrainedPrimative {
        *self
    }
}

// ---------------------------------------------------------------------------
// Literals
// ---------------------------------------------------------------------------

/// A literal value bound to a rule name, such as `3`, `"hello"` or `false`.
#[derive(Debug, PartialEq)]
pub enum Literal {
    /// A negative integer literal.
    Int(i64),
    /// An unsigned integer literal.
    UInt(u64),
    /// A boolean literal.
    Bool(bool),
    /// A text literal of more than one character.
    Str(String),
    /// A text literal of exactly one character.
    Char(char),
    /// A byte-string literal.
    Bytes(Vec<u8>),
}

/// Ghost form of [`Literal`].
pub enum SpecLiteral {
    Int(i64),
    UInt(u64),
    Bool(bool),
    Str(Seq<char>),
    Char(char),
    Bytes(Seq<u8>),
}

impl View for Literal {
    type V = SpecLiteral;

    open spec fn view(&self) -> SpecLiteral {
        match self {
            Literal::Int(i) => SpecLiteral::Int(*i),
            Literal::UInt(u) => SpecLiteral::UInt(*u),
            Literal::Bool(b) => SpecLiteral::Bool(*b),
            Literal::Str(s) => SpecLiteral::Str(s@),
            Literal::Char(c) => SpecLiteral::Char(*c),
            Literal::Bytes(b) => SpecLiteral::Bytes(b@),
        }
    }
}

/// How a text literal is classified: a single-character text becomes a
/// character literal, anything else stays a string literal.
pub open spec fn spec_classify_text(s: Seq<char>) -> SpecLiteral {
    if s.len() == 1 {
        SpecLiteral::Char(s[0])
    } else {
        SpecLiteral::Str(s)
    }
}

impl Literal {
    /// Turn a text literal into its normal form: `"C"` becomes `Char('C')`,
    /// `"CD"` stays `Str("CD")`.
    pub fn from_text(text: String) -> (r: Literal)
        ensures
            r@ == spec_classify_text(text@),
    {
        let n = text.as_str().unicode_len();
        if n == 1 {
            Literal::Char(text.as_str().get_char(0))
        } else {
            Literal::Str(text)
        }
    }
}

impl Clone for Literal {
    /// The clone carries the same model.
    fn clone(&self) -> (r: Literal)
        ensures
            r@ == self@,
    {
        match self {
            Literal::Int(i) => Literal::Int(*i),
            Literal::UInt(u) => Literal::UInt(*u),
            Literal::Bool(b) => Literal::Bool(*b),
            Literal::Str(s) => Literal::Str(s.clone()),
            Literal::Char(c) => Literal::Char(*c),
            Literal::Bytes(b) => {
                let c = b.clone();
                proof {
                    assert forall|i: int| 0 <= i < b@.len() implies c@[i] == b@[i] by {
                        assert(cloned::<u8>(b@[i], c@[i]));
                    }
                    assert(c@ =~= b@);
                }
                Literal::Bytes(c)
            },
        }
    }
}

// ---------------------------------------------------------------------------
// The unresolved tree
// ---------------------------------------------------------------------------

/// One named field of a group or map, before linking.
#[derive(Debug, PartialEq)]
pub struct KeyVal(pub String, pub Box<Node>);

/// Ghost form of [`KeyVal`].
pub struct SpecKeyVal {
    pub key: Seq<char>,
    pub val: Box<SpecNode>,
}

/// A fixed-size array before linking: an exact element count and a single
/// element type.
#[derive(Debug, PartialEq)]
pub struct Array {
    pub len: usize,
    pub ty: Box<Node>,
}

/// Ghost form of [`Array`].
pub struct SpecArray {
    pub len: usize,
    pub ty: Box<SpecNode>,
}

/// The members of a group or map before linking.
#[derive(Debug, PartialEq)]
pub struct Group {
    pub members: Vec<Node>,
}

/// The unresolved intermediate tree produced by the flatten pass.
#[derive(Debug, PartialEq)]
pub enum Node {
    /// A literal value, such as `3` or `"hello"`.
    Literal(Literal),
    /// A sized primitive, such as `uint .size 1`.
    Primative(ConstrainedPrimative),
    /// A fixed-size array, such as `[ 6*6 u8 ]`.
    Array(Array),
    /// A composable field list written with parentheses, meant to be
    /// spliced into maps.
    Group(Group),
    /// A nominal record written with curly braces.
    Record(Group),
    /// A single `key: value` member.
    KeyVal(KeyVal),
    /// A reference to another rule by name, resolved by the link pass.
    Foreign(String),
}

/// Ghost form of [`Node`].
pub enum SpecNode {
    Literal(SpecLiteral),
    Primative(ConstrainedPrimative),
    Array(SpecArray),
    Group(Seq<SpecNode>),
    Record(Seq<SpecNode>),
    KeyVal(SpecKeyVal),
    Foreign(Seq<char>),
}

impl Node {
    /// The ghost model of this node.
    pub open spec fn model(self) -> SpecNode
        decreases self,
    {
        match self {
            Node::Literal(l) => SpecNode::Literal(l@),
            Node::Primative(p) => SpecNode::Primative(p),
            Node::Array(a) => SpecNode::Array(
                SpecArray { len: a.len, ty: Box::new((*a.ty).model()) },
            ),
            Node::Group(g) => SpecNode::Group(Self::model_members(g.members@)),
            Node::Record(g) => SpecNode::Record(Self::model_members(g.members@)),
            Node::KeyVal(kv) => SpecNode::KeyVal(
                SpecKeyVal { key: kv.0@, val: Box::new((*kv.1).model()) },
            ),
            Node::Foreign(name) => SpecNode::Foreign(name@),
        }
    }

    /// The ghost models of a member list, in order.
    pub open spec fn model_members(s: Seq<Node>) -> Seq<SpecNode>
        decreases s,
    {
        if s.len() == 0 {
            Seq::empty()
        } else {
            seq![s[0].model()] + Self::model_members(s.drop_first())
        }
    }

    /// A member list models element by element.
    pub proof fn lemma_model_members(s: Seq<Node>)
        ensures
            Self::model_members(s).len() == s.len(),
            forall|i: int| 0 <= i < s.len() ==> Self::model_members(s)[i] == s[i].model(),
        decreases s,
    {
        if s.len() > 0 {
            Self::lemma_model_members(s.drop_first());
            assert forall|i: int| 0 <= i < s.len() implies Self::model_members(s)[i]
                == s[i].model() by {
                if i > 0 {
                    assert(Self::model_members(s)[i] == Self::model_members(s.drop_first())[i - 1]);
                    assert(s.drop_first()[i - 1] == s[i]);
                }
            }
        }
    }
}

impl Node {
    /// Extending a member list extends its model.
    pub proof fn lemma_model_members_push(s: Seq<Node>, x: Node)
        ensures
            Self::model_members(s.push(x)) =~= Self::model_members(s).push(x.model()),
    {
        Self::lemma_model_members(s.push(x));
        Self::lemma_model_members(s);
        assert forall|i: int| 0 <= i < s.len() implies Self::model_members(s.push(x))[i]
            == Self::model_members(s)[i] by {
            assert(s.push(x)[i] == s[i]);
        }
        assert(s.push(x)[s.len() as int] == x);
    }
}

impl View for Node {
    type V = SpecNode;

    open spec fn view(&self) -> SpecNode {
        self.model()
    }
}

impl View for KeyVal {
    type V = SpecKeyVal;

    open spec fn view(&self) -> SpecKeyVal {
        SpecKeyVal { key: self.0@, val: Box::new((*self.1).model()) }
    }
}

impl View for Array {
    type V = SpecArray;

    open spec fn view(&self) -> SpecArray {
        SpecArray { len: self.len, ty: Box::new((*self.ty).model()) }
    }
}

impl View for Group {
    type V = Seq<SpecNode>;

    open spec fn view(&self) -> Seq<SpecNode> {
        Node::model_members(self.members@)
    }
}

impl KeyVal {
    /// Build a named field.
    pub fn new(key: &str, node: Node) -> (r: KeyVal)
        ensures
            r@ == (SpecKeyVal { key: key@, val: Box::new(node@) }),
    {
        KeyVal(key.to_owned(), Box::new(node))
    }
}

impl Array {
    /// Build a fixed-size array node.
    pub fn new(node: Node, len: usize) -> (r: Array)
        ensures
            r@ == (SpecArray { len: len, ty: Box::new(node@) }),
    {
        Array { ty: Box::new(node), len }
    }
}


// ---------------------------------------------------------------------------
// Primitive sizing
// ---------------------------------------------------------------------------

/// The schema-text name of a primitive.
pub open spec fn spec_prim_name(p: SpecPrimative) -> Seq<char> {
    match p {
        SpecPrimative::Int => "int"@,
        SpecPrimative::UInt => "uint"@,
        SpecPrimative::TStr => "tstr"@,
        SpecPrimative::BStr => "bstr"@,
        SpecPrimative::Bool => "bool"@,
        SpecPrimative::Unresolved(s) => s,
    }
}

/// Which primitive a schema-text name denotes; an unknown name stays
/// unresolved and is later treated as a reference.
pub open spec fn spec_prim_of(s: Seq<char>) -> SpecPrimative {
    if s == "int"@ {
        SpecPrimative::Int
    } else if s == "uint"@ {
        SpecPrimative::UInt
    } else if s == "tstr"@ || s == "text"@ {
        SpecPrimative::TStr
    } else if s == "bstr"@ || s == "bytes"@ {
        SpecPrimative::BStr
    } else if s == "bool"@ || s == "boolean"@ {
        SpecPrimative::Bool
    } else {
        SpecPrimative::Unresolved(s)
    }
}

/// How a `.size N` control constrains a primitive: integers admit the four
/// power-of-two widths, strings and byte arrays admit any size, and
/// everything else is rejected with the primitive's name and the size.
pub open spec fn spec_constrain(p: SpecPrimative, size: u64) -> Result<
    ConstrainedPrimative,
    SpecError,
> {
    match p {
        SpecPrimative::Int => if size == 1 {
            Ok(ConstrainedPrimative::I8)
        } else if size == 2 {
            Ok(ConstrainedPrimative::I16)
        } else if size == 4 {
            Ok(ConstrainedPrimative::I32)
        } else if size == 8 {
            Ok(ConstrainedPrimative::I64)
        } else {
            Err(SpecError::InvalidSizeConstraint(spec_prim_name(p), size))
        },
        SpecPrimative::UInt => if size == 1 {
            Ok(ConstrainedPrimative::U8)
        } else if size == 2 {
            Ok(ConstrainedPrimative::U16)
        } else if size == 4 {
            Ok(ConstrainedPrimative::U32)
        } else if size == 8 {
            Ok(ConstrainedPrimative::U64)
        } else {
            Err(SpecError::InvalidSizeConstraint(spec_prim_name(p), size))
        },
        SpecPrimative::TStr => Ok(ConstrainedPrimative::Str(size)),
        SpecPrimative::BStr => Ok(ConstrainedPrimative::Bytes(size)),
        _ => Err(SpecError::InvalidSizeConstraint(spec_prim_name(p), size)),
    }
}

impl Primative {
    /// The schema-text name of this primitive, as used in error payloads.
    pub fn name(&self) -> (r: String)
        ensures
            r@ == spec_prim_name(self@),
    {
        match self {
            Primative::Int => String::from_str("int"),
            Primative::UInt => String::from_str("uint"),
            Primative::TStr => String::from_str("tstr"),
            Primative::BStr => String::from_str("bstr"),
            Primative::Bool => String::from_str("bool"),
            Primative::Unresolved(s) => s.clone(),
        }
    }

    /// Which primitive a schema-text name denotes.
    pub fn from_name(name: String) -> (r: Primative)
        ensures
            r@ == spec_prim_of(name@),
    {
        if str_eq(name.as_str(), "int") {
            Primative::Int
        } else if str_eq(name.as_str(), "uint") {
            Primative::UInt
        } else if str_eq(name.as_str(), "tstr") || str_eq(name.as_str(), "text") {
            Primative::TStr
        } else if str_eq(name.as_str(), "bstr") || str_eq(name.as_str(), "bytes") {
            Primative::BStr
        } else if str_eq(name.as_str(), "bool") || str_eq(name.as_str(), "boolean") {
            Primative::Bool
        } else {
            Primative::Unresolved(name)
        }
    }

    /// Apply an explicit `.size` control to this primitive.
    pub fn constrain(self, size: u64) -> (r: FlattenResult<ConstrainedPrimative>)
        ensures
            crate::error::res_view(r) == spec_constrain(self@, size),
    {
        match (self, size) {
            (Primative::Int, 1) => Ok(ConstrainedPrimative::I8),
            (Primative::Int, 2) => Ok(ConstrainedPrimative::I16),
            (Primative::Int, 4) => Ok(ConstrainedPrimative::I32),
            (Primative::Int, 8) => Ok(ConstrainedPrimative::I64),
            (Primative::UInt, 1) => Ok(ConstrainedPrimative::U8),
            (Primative::UInt, 2) => Ok(ConstrainedPrimative::U16),
            (Primative::UInt, 4) => Ok(ConstrainedPrimative::U32),
            (Primative::UInt, 8) => Ok(ConstrainedPrimative::U64),
            (Primative::TStr, n) => Ok(ConstrainedPrimative::Str(n)),
            (Primative::BStr, n) => Ok(ConstrainedPrimative::Bytes(n)),
            (prim, n) => Err(FlattenError::InvalidSizeConstraint(prim.name(), n)),
        }
    }
}

// ---------------------------------------------------------------------------
// The resolved tree
// ---------------------------------------------------------------------------

/// One named field of a resolved field list.
#[derive(Debug, PartialEq)]
pub struct LinkedKeyVal(pub String, pub LinkedNode);

/// Ghost form of [`LinkedKeyVal`].
pub struct SpecLinkedKeyVal {
    pub key: Seq<char>,
    pub val: SpecLinkedNode,
}

/// A resolved field list: the members of a record, in declaration order.
/// The order is load-bearing; downstream wire encodings are positional.
#[derive(Debug, PartialEq)]
pub struct Fields {
    /// The fields of the record, in declaration order.
    pub members: Vec<LinkedKeyVal>,
}

/// A resolved fixed-size array: an exact element count and a resolved
/// element type.
#[derive(Debug, PartialEq)]
pub struct LinkedArray {
    pub len: usize,
    pub ty: Box<LinkedNode>,
}

/// Ghost form of [`LinkedArray`].
pub struct SpecLinkedArray {
    pub len: usize,
    pub ty: Box<SpecLinkedNode>,
}

/// The resolved intermediate tree produced by the link pass.
#[derive(Debug, PartialEq)]
pub enum LinkedNode {
    /// A literal value.
    Literal(Literal),
    /// A sized primitive.
    Primative(ConstrainedPrimative),
    /// A fixed-size array of a primitive, literal or foreign-struct type.
    Array(LinkedArray),
    /// An inline field list that is not itself a nominal record.
    Fields(Fields),
    /// A nominal record; only top-level rules resolve to this.
    Struct(Fields),
    /// A by-name reference to another top-level record, left unexpanded.
    ForeignStruct(String),
}

/// Ghost form of [`LinkedNode`].
pub enum SpecLinkedNode {
    Literal(SpecLiteral),
    Primative(ConstrainedPrimative),
    Array(SpecLinkedArray),
    Fields(Seq<SpecLinkedKeyVal>),
    Struct(Seq<SpecLinkedKeyVal>),
    ForeignStruct(Seq<char>),
}

impl LinkedNode {
    /// The ghost model of this resolved node.
    pub open spec fn model(self) -> SpecLinkedNode
        decreases self,
    {
        match self {
            LinkedNode::Literal(l) => SpecLinkedNode::Literal(l@),
            LinkedNode::Primative(p) => SpecLinkedNode::Primative(p),
            LinkedNode::Array(a) => SpecLinkedNode::Array(
                SpecLinkedArray { len: a.len, ty: Box::new((*a.ty).model()) },
            ),
            LinkedNode::Fields(f) => SpecLinkedNode::Fields(Self::model_fields(f.members@)),
            LinkedNode::Struct(f) => SpecLinkedNode::Struct(Self::model_fields(f.members@)),
            LinkedNode::ForeignStruct(name) => SpecLinkedNode::ForeignStruct(name@),
        }
    }

    /// The ghost models of a resolved field list, in order.
    pub open spec fn model_fields(s: Seq<LinkedKeyVal>) -> Seq<SpecLinkedKeyVal>
        decreases s,
    {
        if s.len() == 0 {
            Seq::empty()
        } else {
            seq![
                SpecLinkedKeyVal { key: s[0].0@, val: s[0].1.model() },
            ] + Self::model_fields(s.drop_first())
        }
    }

    /// A resolved field list models element by element.
    pub proof fn lemma_model_fields(s: Seq<LinkedKeyVal>)
        ensures
            Self::model_fields(s).len() == s.len(),
            forall|i: int| 0 <= i < s.len() ==> Self::model_fields(s)[i]
                == (SpecLinkedKeyVal { key: s[i].0@, val: s[i].1.model() }),
        decreases s,
    {
        if s.len() > 0 {
            Self::lemma_model_fields(s.drop_first());
            assert forall|i: int| 0 <= i < s.len() implies Self::model_fields(s)[i]
                == (SpecLinkedKeyVal { key: s[i].0@, val: s[i].1.model() }) by {
                if i > 0 {
                    assert(Self::model_fields(s)[i] == Self::model_fields(s.drop_first())[i - 1]);
                    assert(s.drop_first()[i - 1] == s[i]);
                }
            }
        }
    }
}

impl LinkedNode {
    /// Extending a resolved field list extends its model.
    pub proof fn lemma_model_fields_push(s: Seq<LinkedKeyVal>, x: LinkedKeyVal)
        ensures
            Self::model_fields(s.push(x)) =~= Self::model_fields(s).push(
                SpecLinkedKeyVal { key: x.0@, val: x.1.model() },
            ),
    {
        Self::lemma_model_fields(s.push(x));
        Self::lemma_model_fields(s);
        assert forall|i: int| 0 <= i < s.len() implies Self::model_fields(s.push(x))[i]
            == Self::model_fields(s)[i] by {
            assert(s.push(x)[i] == s[i]);
        }
        assert(s.push(x)[s.len() as int] == x);
    }
}

impl View for LinkedNode {
    type V = SpecLinkedNode;

    open spec fn view(&self) -> SpecLinkedNode {
        self.model()
    }
}

impl View for LinkedKeyVal {
    type V = SpecLinkedKeyVal;

    open spec fn view(&self) -> SpecLinkedKeyVal {
        SpecLinkedKeyVal { key: self.0@, val: self.1.model() }
    }
}

impl View for LinkedArray {
    type V = SpecLinkedArray;

    open spec fn view(&self) -> SpecLinkedArray {
        SpecLinkedArray { len: self.len, ty: Box::new((*self.ty).model()) }
    }
}

impl View for Fields {
    type V = Seq<SpecLinkedKeyVal>;

    open spec fn view(&self) -> Seq<SpecLinkedKeyVal> {
        LinkedNode::model_fields(self.members@)
    }
}

impl LinkedKeyVal {
    /// Build a resolved named field.
    pub fn new(key: &str, node: LinkedNode) -> (r: LinkedKeyVal)
        ensures
            r@ == (SpecLinkedKeyVal { key: key@, val: node@ }),
    {
        LinkedKeyVal(key.to_owned(), node)
    }
}

impl LinkedArray {
    /// Build a resolved fixed-size array.
    pub fn new(node: LinkedNode, len: usize) -> (r: LinkedArray)
        ensures
            r@ == (SpecLinkedArray { len: len, ty: Box::new(node@) }),
    {
        LinkedArray { ty: Box::new(node), len }
    }
}

} // verus!
