//! A schema compiler for a constrained subset of the CDDL schema language:
//! fixed-size integers, booleans, fixed-length strings and byte arrays,
//! exact-count arrays, composable groups and named record types.
//!
//! The core is a two-pass pipeline.  The flatten pass turns the grammar
//! tree of each named rule into an unresolved [`node::Node`]; the link pass
//! resolves every by-name reference against the full rule table and yields
//! a closed [`node::LinkedNode`] graph, or the first error.
pub mod bytes;
pub mod cddl;
pub mod context;
pub mod encode;
pub mod error;
pub mod flatten;
pub mod grammar;
pub mod iters;
pub mod laws;
pub mod link;
pub mod node;
pub mod table;
pub mod text;

pub use error::{FlattenError, FlattenResult};

use vstd::prelude::*;

verus! {

/// What a whole rule list compiles to: the flattened table linked into
/// the closed graph, or the first error of either pass.
pub open spec fn spec_parse(rules: Seq<grammar::SpecGramRule>) -> Result<
    Seq<(Seq<char>, node::SpecLinkedNode)>,
    error::SpecError,
> {
    match flatten::spec_flatten_rules(rules) {
        Err(e) => Err(e),
        Ok(tbl) => link::spec_link_all(tbl),
    }
}

/// Compile a schema document: parse the text, flatten every rule into
/// the unresolved table, and link the table into the closed graph, in
/// declaration order, or fail with the first error.
pub fn parse(cddl_text: &str) -> (r: error::FlattenResult<table::NameMap<node::LinkedNode>>)
    ensures
        cddl::cddl_rules_of(cddl_text@) is None ==> r is Err && r.get_Err_0()@ is Parser,
        cddl::cddl_rules_of(cddl_text@) matches Some(rules) ==> link::linked_res_view(r)
            == spec_parse(rules),
{
    match flatten::flatten(cddl_text) {
        Ok(nodes) => link::link(nodes),
        Err(e) => Err(e),
    }
}

} // verus!
