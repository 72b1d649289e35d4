//! Read-only queries over the resolved rule table.
//!
//! After both passes succeed, downstream code generators ask two
//! questions of the result: which rules are literal-valued, for constant
//! definitions, and which are struct-valued, for record definitions.
use vstd::prelude::*;

use crate::node::{Fields, LinkedNode, Literal, SpecLinkedKeyVal, SpecLinkedNode, SpecLiteral};
use crate::table::NameMap;

verus! {

/// The struct-valued rules of a resolved table, in table order.
pub open spec fn spec_structs(m: Seq<(Seq<char>, SpecLinkedNode)>) -> Seq<
    (Seq<char>, Seq<SpecLinkedKeyVal>),
>
    decreases m.len(),
{
    if m.len() == 0 {
        Seq::empty()
    } else {
        match m.last().1 {
            SpecLinkedNode::Struct(fields) => spec_structs(m.drop_last()).push(
                (m.last().0, fields),
            ),
            _ => spec_structs(m.drop_last()),
        }
    }
}

/// The literal-valued rules of a resolved table, in table order.
pub open spec fn spec_literals(m: Seq<(Seq<char>, SpecLinkedNode)>) -> Seq<
    (Seq<char>, SpecLiteral),
>
    decreases m.len(),
{
    if m.len() == 0 {
        Seq::empty()
    } else {
        match m.last().1 {
            SpecLinkedNode::Literal(l) => spec_literals(m.drop_last()).push((m.last().0, l)),
            _ => spec_literals(m.drop_last()),
        }
    }
}

/// The views of a list of borrowed pairs.
pub open spec fn ref_pairs_view<A: View, B: View>(s: Seq<(A, B)>) -> Seq<(A::V, B::V)> {
    Seq::new(s.len(), |i: int| (s[i].0@, s[i].1@))
}

/// A resolved schema document, ready to be queried.
#[derive(Debug, PartialEq)]
pub struct Context(NameMap<LinkedNode>);

impl View for Context {
    type V = Seq<(Seq<char>, SpecLinkedNode)>;

    closed spec fn view(&self) -> Seq<(Seq<char>, SpecLinkedNode)> {
        self.0@
    }
}

impl Context {
    /// Wrap a resolved rule table for querying.
    pub fn new(map: NameMap<LinkedNode>) -> (r: Context)
        ensures
            r@ == map@,
    {
        Context(map)
    }

    /// Give the resolved rule table back up.
    pub fn into_inner(self) -> (r: NameMap<LinkedNode>)
        ensures
            r@ == self@,
    {
        self.0
    }

    /// The struct-valued rules: one `(name, fields)` pair per nominal
    /// record, in table order.
    pub fn structs(&self) -> (r: Vec<(&String, &Fields)>)
        ensures
            ref_pairs_view(r@) == spec_structs(self@),
    {
        let mut out: Vec<(&String, &Fields)> = Vec::new();
        let mut i: usize = 0;
        proof {
            assert(self@.subrange(0, 0) =~= Seq::<(Seq<char>, SpecLinkedNode)>::empty());
            assert(ref_pairs_view(out@) =~= Seq::<(Seq<char>, Seq<SpecLinkedKeyVal>)>::empty());
        }
        while i < self.0.len()
            invariant
                0 <= i <= self@.len(),
                ref_pairs_view(out@) == spec_structs(self@.subrange(0, i as int)),
            decreases self@.len() - i,
        {
            let ghost prefix = self@.subrange(0, i as int);
            let entry = self.0.entry_at(i);
            proof {
                let longer = self@.subrange(0, i as int + 1);
                assert(longer.drop_last() =~= prefix);
                assert(longer.last() == self@[i as int]);
            }
            match &entry.1 {
                LinkedNode::Struct(fields) => {
                    let ghost before = out@;
                    out.push((&entry.0, fields));
                    proof {
                        assert(ref_pairs_view(out@) =~= ref_pairs_view(before).push(
                            (entry.0@, fields@),
                        ));
                    }
                },
                _ => {},
            }
            i = i + 1;
        }
        proof {
            assert(self@.subrange(0, self@.len() as int) =~= self@);
        }
        out
    }

    /// The literal-valued rules: one `(name, literal)` pair per literal
    /// rule, in table order.
    pub fn literals(&self) -> (r: Vec<(&String, &Literal)>)
        ensures
            ref_pairs_view(r@) == spec_literals(self@),
    {
        let mut out: Vec<(&String, &Literal)> = Vec::new();
        let mut i: usize = 0;
        proof {
            assert(self@.subrange(0, 0) =~= Seq::<(Seq<char>, SpecLinkedNode)>::empty());
            assert(ref_pairs_view(out@) =~= Seq::<(Seq<char>, SpecLiteral)>::empty());
        }
        while i < self.0.len()
            invariant
                0 <= i <= self@.len(),
                ref_pairs_view(out@) == spec_literals(self@.subrange(0, i as int)),
            decreases self@.len() - i,
        {
            let ghost prefix = self@.subrange(0, i as int);
            let entry = self.0.entry_at(i);
            proof {
                let longer = self@.subrange(0, i as int + 1);
                assert(longer.drop_last() =~= prefix);
                assert(longer.last() == self@[i as int]);
            }
            match &entry.1 {
                LinkedNode::Literal(lit) => {
                    let ghost before = out@;
                    out.push((&entry.0, lit));
                    proof {
                        assert(ref_pairs_view(out@) =~= ref_pairs_view(before).push(
                            (entry.0@, lit@),
                        ));
                    }
                },
                _ => {},
            }
            i = i + 1;
        }
        proof {
            assert(self@.subrange(0, self@.len() as int) =~= self@);
        }
        out
    }
}

} // verus!
