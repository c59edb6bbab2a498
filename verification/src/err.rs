//! The errors that locating and editing attribute bindings can produce.

use vstd::prelude::*;

verus! {

/// Everything that can go wrong while locating an attribute path in a
/// document tree or while applying a textual edit.
#[derive(Debug, Clone, PartialEq, Eq)]
pub enum EditError {
    /// A (line, column) position did not exist in the buffer it was resolved
    /// against — typically a stale position from an earlier buffer version.
    PositionNotFound { line: usize, column: usize },
    /// An `inherit` binding or a string interpolation stood where only plain
    /// key-value bindings and literal values are supported.
    UnsupportedConstruct { line: usize, column: usize },
    /// An expression of a kind this editor cannot descend into or rewrite,
    /// together with the name of that kind.
    UnsupportedExpressionKind { kind: Vec<char>, line: usize, column: usize },
    /// A string value made of more than one part (it contains interpolation),
    /// so it cannot be replaced as a whole literal.
    MultiPartValue { line: usize, column: usize },
    /// An attribute that was just located has disappeared from the tree.
    MissingAttribute,
    /// A short-form reference that is not `org/repo` or `org/repo/version`.
    MalformedReference,
    /// No input name was given and none could be inferred from the reference.
    AmbiguousName,
    /// The reference could not be parsed as a URL at all.
    InvalidFlakeRef,
}

/// An error over character sequences: the same variants, with the embedded
/// kind name viewed as a sequence.
pub enum EditErrorV {
    PositionNotFound { line: usize, column: usize },
    UnsupportedConstruct { line: usize, column: usize },
    UnsupportedExpressionKind { kind: Seq<char>, line: usize, column: usize },
    MultiPartValue { line: usize, column: usize },
    MissingAttribute,
    MalformedReference,
    AmbiguousName,
    InvalidFlakeRef,
}

/// The error a caller holds, viewed over character sequences.
pub open spec fn error_view(e: EditError) -> EditErrorV {
    match e {
        EditError::PositionNotFound { line, column } => EditErrorV::PositionNotFound {
            line,
            column,
        },
        EditError::UnsupportedConstruct { line, column } => EditErrorV::UnsupportedConstruct {
            line,
            column,
        },
        EditError::UnsupportedExpressionKind { kind, line, column } => {
            EditErrorV::UnsupportedExpressionKind { kind: kind@, line, column }
        },
        EditError::MultiPartValue { line, column } => EditErrorV::MultiPartValue { line, column },
        EditError::MissingAttribute => EditErrorV::MissingAttribute,
        EditError::MalformedReference => EditErrorV::MalformedReference,
        EditError::AmbiguousName => EditErrorV::AmbiguousName,
        EditError::InvalidFlakeRef => EditErrorV::InvalidFlakeRef,
    }
}

/// Equality on errors up to the view of the embedded kind name: two errors
/// match when they are the same variant with equal payloads, comparing the
/// `kind` vector by its character sequence.
pub open spec fn err_matches(a: EditError, b: EditError) -> bool {
    error_view(a) == error_view(b)
}

} // verus!
