//! Structured errors: what went wrong, the trail of lowering phases that the
//! failure passed through on its way out, and where in the source it was.

use vstd::prelude::*;
use crate::ast::{Range, ResolvedType};

verus! {

/// The phase of lowering in which a failure was met.
#[derive(Debug, Clone, Copy, PartialEq, Eq)]
pub enum ContextType {
    VariableDeclStatement,
    ReturnStatement,
    AsignStatement,
    DiscardedExpressionStatement,
}

#[derive(Debug, PartialEq, Eq)]
pub enum CompileErrorKind {
    /// A type name that is no primitive, or a primitive with generic arguments.
    UnknownType,
    /// A variable that no declaration has bound.
    UnknownVariable,
    /// A dereference of something that is not a pointer. `deref_count` is the
    /// number of dereferences that the source asked for.
    CannotDeref { name: String, deref_count: u32 },
    /// An index applied to a value of type `ty`, which is not a pointer.
    CannotIndexAccess { name: String, ty: ResolvedType },
    /// Two types that had to agree and do not. Nothing is widened or narrowed.
    TypeMismatch { expected: ResolvedType, actual: ResolvedType },
    /// Literal text that is no number of the type it is read as.
    MalformedLiteral,
    /// A call that fits no known signature, or an operator applied to the
    /// wrong number or kind of operands.
    ArityOrSignatureMismatch,
    /// A value of type `ty` was to be loaded, stored, passed or measured, and
    /// the backend has no representation for it. This is no fault of the
    /// source program to recover from: callers are expected to stop.
    Unrepresentable { ty: ResolvedType },
}

#[derive(Debug, PartialEq, Eq)]
pub struct CompileError {
    pub kind: CompileErrorKind,
    /// The phases the error passed through, innermost first.
    pub contexts: Vec<ContextType>,
    /// The source range of the statement or of the type that failed, once
    /// the failure has reached a place that knows it.
    pub range: Option<Range>,
}

impl CompileError {
    /// An error of the given kind that has not passed through any phase yet
    /// and has no place in the source yet.
    pub open spec fn is_plain(self, kind: CompileErrorKind) -> bool {
        self.kind == kind && self.contexts@.len() == 0 && self.range is None
    }

    /// An error of the given kind, met at the given place, that has not
    /// passed through any phase.
    pub open spec fn is_at(self, kind: CompileErrorKind, range: Range) -> bool {
        self.kind == kind && self.contexts@.len() == 0 && self.range == Some(range)
    }

    pub fn from_error_kind(kind: CompileErrorKind) -> (e: CompileError)
        ensures
            e.is_plain(kind),
    {
        CompileError { kind, contexts: Vec::new(), range: None }
    }

    /// Records that the error passed through `context`. The rest is kept.
    pub fn with_context(self, context: ContextType) -> (e: CompileError)
        ensures
            e.kind == self.kind,
            e.contexts@ == self.contexts@.push(context),
            e.range == self.range,
    {
        let mut contexts = self.contexts;
        contexts.push(context);
        CompileError { kind: self.kind, contexts, range: self.range }
    }

    /// Records where in the source the error was met. The rest is kept.
    pub fn at(self, range: Range) -> (e: CompileError)
        ensures
            e.kind == self.kind,
            e.contexts == self.contexts,
            e.range == Some(range),
    {
        CompileError { kind: self.kind, contexts: self.contexts, range: Some(range) }
    }
}

} // verus!
