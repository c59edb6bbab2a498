//! The document model: expressions, bindings and source positions.
//!
//! The tree mirrors what the external parser reports about a document, reduced
//! to the plain values this editor reads: raw token text, source spans, map
//! bindings and function-head parameter names. Buffers are sequences of
//! characters, and all offsets are character offsets.

use vstd::prelude::*;

verus! {

/// A 1-indexed (line, column) source position.
#[derive(Clone, Copy, PartialEq, Eq, Structural, Debug)]
pub struct Position {
    pub line: usize,
    pub column: usize,
}

/// A half-open region of the source text: `start` is the first character
/// included, `end` the position just past the last included character.
#[derive(Clone, Copy, PartialEq, Eq, Structural, Debug)]
pub struct Span {
    pub start: Position,
    pub end: Position,
}

/// A literal token together with the span it occupies in the source.
#[derive(Debug)]
pub struct RawToken {
    pub content: Vec<char>,
    pub span: Span,
}

/// One component of an attribute path or of a string value.
pub enum Part {
    /// A literal path segment or literal string content.
    Raw(RawToken),
    /// An interpolated fragment; never supported as a segment or value.
    Interpolation { span: Span },
}

/// One binding inside an attribute set.
pub enum Binding {
    /// `a.b.c = value;` — the attribute path on the left and the value on the
    /// right.
    KeyValue { from: Vec<Part>, to: Box<Expr> },
    /// `inherit ...;` — never supported as a matchable or editable node.
    Inherit { span: Span },
}

/// The head of a function expression.
pub enum FunctionHead {
    /// `{ a, b, ... }:` — the named parameters of a destructuring head.
    Destructured { args: Vec<Vec<char>> },
    /// Any other function head shape.
    Simple,
}

/// An expression of the document tree. Kinds this editor cannot work with are
/// collapsed into `Other`, keeping only their kind name and position.
pub enum Expr {
    AttrSet { bindings: Vec<Binding>, span: Span },
    Str { parts: Vec<Part>, span: Span },
    /// A function expression; `kind` keeps the kind name the parser reports,
    /// for error reporting when a path resolves into the function.
    Function { head: FunctionHead, kind: Vec<char>, span: Span },
    Other { kind: Vec<char>, span: Span },
}

impl Expr {
    /// The span the expression occupies in the source.
    pub open spec fn spec_span(self) -> Span {
        match self {
            Expr::AttrSet { span, .. } => span,
            Expr::Str { span, .. } => span,
            Expr::Function { span, .. } => span,
            Expr::Other { span, .. } => span,
        }
    }

    /// Executable accessor for the expression's span.
    pub fn span(&self) -> (s: Span)
        ensures
            s == self.spec_span(),
    {
        match self {
            Expr::AttrSet { span, .. } => *span,
            Expr::Str { span, .. } => *span,
            Expr::Function { span, .. } => *span,
            Expr::Other { span, .. } => *span,
        }
    }
}

/// Token equality up to the view of the content vector.
pub open spec fn token_matches(a: RawToken, b: RawToken) -> bool {
    a.content@ == b.content@ && a.span == b.span
}

} // verus!
