//! The error type shared by the whole pipeline, and its ghost mirror.
//!
//! Every failure aborts the run that produced it; no partial output is ever
//! committed once one of these values appears.

use vstd::prelude::*;

verus! {

/// Ghost mirror of [`MemlError`], used by the specification functions.
pub enum ErrV {
    /// The grammar rejects the input at the given character position.
    ParseFailure { pos: int },
    /// A constant, template, callable or imported name is not defined.
    /// For failed imports, `available` lists the names of the matching
    /// category, sorted.
    UndefinedReference { name: Seq<char>, pos: int, available: Seq<Seq<char>> },
    /// A `#name` argument reference appeared outside a call frame.
    UnexpectedArgumentReference { pos: int },
    /// A macro or function call supplied the wrong number of arguments.
    ArityMismatch { name: Seq<char>, expected: int, got: int },
    /// A macro blueprint omits a declared placeholder `#i`.
    MissingPlaceholder { name: Seq<char>, index: int },
    /// A manifest section is missing a required field, or holds an unknown
    /// or unsupported one.
    InvalidManifestSection { section: Seq<char>, field: Seq<char> },
    /// The evaluation recursion depth guard ran out.
    RecursionLimitExceeded,
    /// A node of an unexpected kind reached the evaluator: an internal
    /// invariant violation, surfaced with the node's position and raw text.
    InternalInvariant { pos: int, text: Seq<char> },
}

/// One failure of parsing, resolution, evaluation or manifest validation.
#[derive(Debug, Clone, PartialEq, Eq)]
pub enum MemlError {
    ParseFailure { pos: usize },
    UndefinedReference { name: String, pos: usize, available: Vec<String> },
    UnexpectedArgumentReference { pos: usize },
    ArityMismatch { name: String, expected: usize, got: usize },
    MissingPlaceholder { name: String, index: usize },
    InvalidManifestSection { section: String, field: String },
    RecursionLimitExceeded,
    InternalInvariant { pos: usize, text: String },
}

impl View for MemlError {
    type V = ErrV;

    open spec fn view(&self) -> ErrV {
        match self {
            MemlError::ParseFailure { pos } => ErrV::ParseFailure { pos: *pos as int },
            MemlError::UndefinedReference { name, pos, available } => ErrV::UndefinedReference {
                name: name@,
                pos: *pos as int,
                available: available.deep_view(),
            },
            MemlError::UnexpectedArgumentReference { pos } => ErrV::UnexpectedArgumentReference {
                pos: *pos as int,
            },
            MemlError::ArityMismatch { name, expected, got } => ErrV::ArityMismatch {
                name: name@,
                expected: *expected as int,
                got: *got as int,
            },
            MemlError::MissingPlaceholder { name, index } => ErrV::MissingPlaceholder {
                name: name@,
                index: *index as int,
            },
            MemlError::InvalidManifestSection { section, field } => ErrV::InvalidManifestSection {
                section: section@,
                field: field@,
            },
            MemlError::RecursionLimitExceeded => ErrV::RecursionLimitExceeded,
            MemlError::InternalInvariant { pos, text } => ErrV::InternalInvariant {
                pos: *pos as int,
                text: text@,
            },
        }
    }
}

/// The view of a result: the payload's view, or the error's.
pub open spec fn res_view<T: View>(r: Result<T, MemlError>) -> Result<T::V, ErrV> {
    match r {
        Ok(t) => Ok(t@),
        Err(e) => Err(e@),
    }
}

} // verus!
