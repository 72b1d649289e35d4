//! The closed error taxonomy of the schema compiler.
//!
//! Every error aborts the whole document: there is no recovery and no
//! partial output.  Errors carry the offending name or size so that a
//! caller can act on them.
use vstd::prelude::*;

verus! {

/// Ghost form of [`FlattenError`]: strings are sequences of characters.
pub enum SpecError {
    Parser(Seq<char>),
    InvalidEnum0,
    InvalidUnconstrainedPrimative,
    InvalidLiteral,
    InvalidControl,
    InvalidControlArg,
    InvalidGroupMissingKey,
    InvalidType,
    InvalidSizeConstraint(Seq<char>, u64),
    InvalidArray,
    InvalidArraySize,
    TodoEnums,
    NotSupportedRange,
    NotSupportedChoice,
    NotSupportedGenerics,
    NotSupportedControl(Seq<char>),
    NotSupportedGroupname(Seq<char>),
    ForeignKey(Seq<char>),
    CyclicReference(Seq<char>),
    Infallible,
}

/// What can go wrong while flattening and linking a schema document.
#[derive(Debug, PartialEq)]
pub enum FlattenError {
    /// The grammar front end rejected the text; the payload is its message.
    Parser(String),
    /// A type with zero alternatives (also: a group with other than one choice).
    InvalidEnum0,
    /// A bare primitive such as `uint` without an explicit `.size` control.
    InvalidUnconstrainedPrimative,
    /// A literal value of an unsupported shape.
    InvalidLiteral,
    /// A control whose argument or target has the wrong shape.
    InvalidControl,
    /// A control argument that is not an unsigned integer.
    InvalidControlArg,
    /// A group member without a key where one is required.
    InvalidGroupMissingKey,
    /// A member that resolves to something a field list cannot hold.
    InvalidType,
    /// A `.size` argument that does not fit the primitive; carries the
    /// primitive's name and the attempted size.
    InvalidSizeConstraint(String, u64),
    /// A bracketed group without exactly one member, or an array whose
    /// element resolves to a nested array or inline field list.
    InvalidArray,
    /// An array occurrence that is not an exact count, e.g. `3*6`.
    InvalidArraySize,
    /// Choice types are unsupported by design.
    TodoEnums,
    /// Ranges are unsupported by design.
    NotSupportedRange,
    /// Inline choice constructs are unsupported by design.
    NotSupportedChoice,
    /// Generics are unsupported by design.
    NotSupportedGenerics,
    /// A control operator other than `.size`; carries the operator.
    NotSupportedControl(String),
    /// A group name used in a position this subset does not allow.
    NotSupportedGroupname(String),
    /// A reference to a rule name that the document never defines.
    ForeignKey(String),
    /// A reference chain that returns to a name already being resolved.
    CyclicReference(String),
    /// An internal invariant was violated; well-formed input never sees it.
    Infallible,
}

impl View for FlattenError {
    type V = SpecError;

    open spec fn view(&self) -> SpecError {
        match self {
            FlattenError::Parser(s) => SpecError::Parser(s@),
            FlattenError::InvalidEnum0 => SpecError::InvalidEnum0,
            FlattenError::InvalidUnconstrainedPrimative => SpecError::InvalidUnconstrainedPrimative,
            FlattenError::InvalidLiteral => SpecError::InvalidLiteral,
            FlattenError::InvalidControl => SpecError::InvalidControl,
            FlattenError::InvalidControlArg => SpecError::InvalidControlArg,
            FlattenError::InvalidGroupMissingKey => SpecError::InvalidGroupMissingKey,
            FlattenError::InvalidType => SpecError::InvalidType,
            FlattenError::InvalidSizeConstraint(p, s) => SpecError::InvalidSizeConstraint(p@, *s),
            FlattenError::InvalidArray => SpecError::InvalidArray,
            FlattenError::InvalidArraySize => SpecError::InvalidArraySize,
            FlattenError::TodoEnums => SpecError::TodoEnums,
            FlattenError::NotSupportedRange => SpecError::NotSupportedRange,
            FlattenError::NotSupportedChoice => SpecError::NotSupportedChoice,
            FlattenError::NotSupportedGenerics => SpecError::NotSupportedGenerics,
            FlattenError::NotSupportedControl(c) => SpecError::NotSupportedControl(c@),
            FlattenError::NotSupportedGroupname(n) => SpecError::NotSupportedGroupname(n@),
            FlattenError::ForeignKey(k) => SpecError::ForeignKey(k@),
            FlattenError::CyclicReference(k) => SpecError::CyclicReference(k@),
            FlattenError::Infallible => SpecError::Infallible,
        }
    }
}

/// The result type of both passes: fail-fast, first error wins.
pub type FlattenResult<T> = Result<T, FlattenError>;

/// The view of a fallible result: both sides abstracted to their models.
pub open spec fn res_view<T: View>(r: FlattenResult<T>) -> Result<T::V, SpecError> {
    match r {
        Ok(v) => Ok(v@),
        Err(e) => Err(e@),
    }
}

} // verus!
