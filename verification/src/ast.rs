//! The syntax tree that the lowering consumes, and the two type languages:
//! types as written in source, and the canonical types they resolve to.

use vstd::prelude::*;

verus! {

/// A place in the source text.
#[derive(Debug, Clone, Copy, Eq, PartialEq, Hash, Default)]
pub struct Position {
    pub line: u32,
    pub col: usize,
}

/// The stretch of source text that a node was read from.
#[derive(Debug, Clone, Copy, Eq, PartialEq, Hash, Default)]
pub struct Range {
    pub from: Position,
    pub to: Position,
}

/// A node together with the source range it came from. The range travels with
/// the node for diagnostics; lowering never looks at it.
#[derive(Debug, Clone, Eq, PartialEq, Hash)]
pub struct Located<T> {
    pub range: Range,
    pub value: T,
}

/// The integer operations of the language.
#[derive(Debug, Clone, Copy, Eq, PartialEq)]
pub enum BinaryOp {
    Add,
    Sub,
    Mul,
    Div,
}

#[derive(Debug, Eq, PartialEq)]
pub enum Expression {
    /// A variable, read through `deref_count` pointer layers, and optionally
    /// indexed as an array after that.
    VariableRef {
        deref_count: u32,
        index_access: Option<Located<Box<Expression>>>,
        name: String,
    },
    /// A number as written in the source; its type comes from the context.
    NumberLiteral {
        value: String,
    },
    BinaryExpr {
        op: BinaryOp,
        args: Vec<Located<Expression>>,
    },
    CallExpr {
        name: String,
        args: Vec<Located<Expression>>,
    },
}

/// A canonical, backend-representable type.
#[derive(Debug, PartialEq, Eq)]
pub enum ResolvedType {
    I32,
    U32,
    U64,
    USize,
    U8,
    Ptr(Box<ResolvedType>),
    Void,
}

/// A type as written in the source, before its names are looked up.
#[derive(Debug, PartialEq, Eq, Hash)]
pub enum UnresolvedType {
    TypeRef {
        name: String,
        generic_args: Option<Vec<UnresolvedType>>,
    },
    Ptr(Box<UnresolvedType>),
}

impl UnresolvedType {
    /// The number of pointer layers around the innermost type name.
    pub open spec fn pointer_depth(self) -> nat
        decreases self,
    {
        match self {
            UnresolvedType::TypeRef { .. } => 0,
            UnresolvedType::Ptr(inner) => 1 + inner.pointer_depth(),
        }
    }

    pub fn is_ptr_type(&self) -> (r: bool)
        ensures
            r == (self is Ptr),
            r == (self.pointer_depth() > 0),
    {
        match self {
            UnresolvedType::Ptr(_) => true,
            _ => false,
        }
    }
}

impl Clone for ResolvedType {
    fn clone(&self) -> (r: Self)
        ensures
            r == *self,
        decreases self,
    {
        match self {
            ResolvedType::I32 => ResolvedType::I32,
            ResolvedType::U32 => ResolvedType::U32,
            ResolvedType::U64 => ResolvedType::U64,
            ResolvedType::USize => ResolvedType::USize,
            ResolvedType::U8 => ResolvedType::U8,
            ResolvedType::Ptr(inner) => ResolvedType::Ptr(Box::new(ResolvedType::clone(inner))),
            ResolvedType::Void => ResolvedType::Void,
        }
    }
}

impl ResolvedType {
    /// The number of pointer layers around the innermost non-pointer type.
    pub open spec fn pointer_depth(self) -> nat
        decreases self,
    {
        match self {
            ResolvedType::Ptr(inner) => 1 + inner.pointer_depth(),
            _ => 0,
        }
    }

    /// Whether values of this type are integers of some width.
    pub open spec fn is_integer(self) -> bool {
        self is I32 || self is U32 || self is U64 || self is USize || self is U8
    }

    pub fn is_integer_type(&self) -> (r: bool)
        ensures
            r == self.is_integer(),
    {
        match self {
            ResolvedType::I32 => true,
            ResolvedType::USize => true,
            ResolvedType::U8 => true,
            ResolvedType::U32 => true,
            ResolvedType::U64 => true,
            ResolvedType::Ptr(_) => false,
            ResolvedType::Void => false,
        }
    }

    /// Whether values of this type may be operands of arithmetic: exactly the
    /// integers. Pointers and `Void` may not.
    pub fn is_valid_as_operand(&self) -> (r: bool)
        ensures
            r == self.is_integer(),
    {
        match self {
            ResolvedType::I32 => true,
            ResolvedType::U32 => true,
            ResolvedType::U64 => true,
            ResolvedType::USize => true,
            ResolvedType::U8 => true,
            ResolvedType::Ptr(_) => false,
            ResolvedType::Void => false,
        }
    }

    pub fn is_pointer_type(&self) -> (r: bool)
        ensures
            r == (self is Ptr),
            r == (self.pointer_depth() > 0),
    {
        if let ResolvedType::Ptr(_) = self {
            true
        } else {
            false
        }
    }
}

#[derive(Debug, Eq, PartialEq)]
pub enum Statement {
    Asignment {
        deref_count: u32,
        index_access: Option<Located<Expression>>,
        name: String,
        expression: Located<Expression>,
    },
    VariableDecl {
        ty: Located<UnresolvedType>,
        name: String,
        value: Located<Expression>,
    },
    Return {
        expression: Option<Located<Expression>>,
    },
    Effect {
        expression: Located<Expression>,
    },
}

/// The name of a generic parameter. It is accepted and carried along; nothing
/// is instantiated from it.
#[derive(Debug, Clone, Eq, PartialEq)]
pub struct GenericArgument {
    pub name: String,
}

#[derive(Debug, Eq, PartialEq)]
pub struct FunctionDecl {
    pub name: String,
    pub generic_args: Option<Vec<Located<GenericArgument>>>,
    pub params: Vec<(Located<UnresolvedType>, String)>,
    pub return_type: Located<UnresolvedType>,
}

#[derive(Debug, Eq, PartialEq)]
pub struct Function {
    pub decl: FunctionDecl,
    pub body: Vec<Located<Statement>>,
}

#[derive(Debug, Eq, PartialEq)]
pub enum TopLevel {
    Function(Function),
}

#[derive(Debug, Eq, PartialEq)]
pub struct Module {
    pub toplevels: Vec<Located<TopLevel>>,
}

} // verus!
