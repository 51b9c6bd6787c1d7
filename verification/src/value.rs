//! What an evaluation yields: a handle to a backend value, tagged with the
//! type that the value has.

use vstd::prelude::*;
use crate::ast::ResolvedType;

verus! {

/// A value that an instruction can take as input.
#[derive(Debug, Clone, Copy, PartialEq, Eq)]
pub enum Operand {
    /// An integer constant. Its width is that of the instruction or value
    /// that holds it.
    Constant(u64),
    /// The value produced by the instruction at this position of the stream.
    Value(usize),
}

/// A handle to the stack slot of a variable. The slot belongs to the backend;
/// the handle only names it.
#[derive(Debug, Clone, Copy, PartialEq, Eq)]
pub enum StorageHandle {
    /// The slot allocated by the instruction at this position of the stream.
    Slot(usize),
    /// No slot at all: what a `void` variable is bound to. It is never loaded
    /// from nor stored to.
    Placeholder,
}

/// A typed runtime value: one variant for each integer type, one for
/// pointers, which carries the type pointed to, and one for `void`, which
/// carries nothing.
#[derive(Debug, PartialEq, Eq)]
pub enum Value {
    I32Value(Operand),
    U32Value(Operand),
    U64Value(Operand),
    U8Value(Operand),
    USizeValue(Operand),
    PointerValue(ResolvedType, Operand),
    Void,
}

impl Value {
    /// The type that the tag of the value stands for.
    pub open spec fn type_of(self) -> ResolvedType {
        match self {
            Value::I32Value(_) => ResolvedType::I32,
            Value::U32Value(_) => ResolvedType::U32,
            Value::U64Value(_) => ResolvedType::U64,
            Value::U8Value(_) => ResolvedType::U8,
            Value::USizeValue(_) => ResolvedType::USize,
            Value::PointerValue(pointee, _) => ResolvedType::Ptr(Box::new(pointee)),
            Value::Void => ResolvedType::Void,
        }
    }

    /// The backend value inside; `Void` has none.
    pub open spec fn operand_of(self) -> Option<Operand> {
        match self {
            Value::I32Value(v) => Some(v),
            Value::U32Value(v) => Some(v),
            Value::U64Value(v) => Some(v),
            Value::U8Value(v) => Some(v),
            Value::USizeValue(v) => Some(v),
            Value::PointerValue(_, v) => Some(v),
            Value::Void => None,
        }
    }

    /// The value of type `ty` that holds `operand`. For `Void` the operand is
    /// dropped.
    pub open spec fn typed(ty: ResolvedType, operand: Operand) -> Value {
        match ty {
            ResolvedType::I32 => Value::I32Value(operand),
            ResolvedType::U32 => Value::U32Value(operand),
            ResolvedType::U64 => Value::U64Value(operand),
            ResolvedType::U8 => Value::U8Value(operand),
            ResolvedType::USize => Value::USizeValue(operand),
            ResolvedType::Ptr(pointee) => Value::PointerValue(*pointee, operand),
            ResolvedType::Void => Value::Void,
        }
    }

    pub fn new(ty: ResolvedType, operand: Operand) -> (v: Value)
        ensures
            v == Value::typed(ty, operand),
            v.type_of() == ty,
            !(ty is Void) ==> v.operand_of() == Some(operand),
    {
        match ty {
            ResolvedType::I32 => Value::I32Value(operand),
            ResolvedType::U32 => Value::U32Value(operand),
            ResolvedType::U64 => Value::U64Value(operand),
            ResolvedType::U8 => Value::U8Value(operand),
            ResolvedType::USize => Value::USizeValue(operand),
            ResolvedType::Ptr(pointee) => Value::PointerValue(*pointee, operand),
            ResolvedType::Void => Value::Void,
        }
    }

    pub fn get_type(&self) -> (ty: ResolvedType)
        ensures
            ty == self.type_of(),
    {
        match self {
            Value::I32Value(_) => ResolvedType::I32,
            Value::U32Value(_) => ResolvedType::U32,
            Value::U64Value(_) => ResolvedType::U64,
            Value::U8Value(_) => ResolvedType::U8,
            Value::USizeValue(_) => ResolvedType::USize,
            Value::PointerValue(pointee, _) => ResolvedType::Ptr(Box::new(pointee.clone())),
            Value::Void => ResolvedType::Void,
        }
    }

    pub fn operand(&self) -> (r: Option<Operand>)
        ensures
            r == self.operand_of(),
            r is None <==> *self is Void,
    {
        match self {
            Value::I32Value(v) => Some(*v),
            Value::U32Value(v) => Some(*v),
            Value::U64Value(v) => Some(*v),
            Value::U8Value(v) => Some(*v),
            Value::USizeValue(v) => Some(*v),
            Value::PointerValue(_, v) => Some(*v),
            Value::Void => None,
        }
    }

    /// The backend value inside anything but `Void`.
    pub fn unwrap_operand(&self) -> (v: Operand)
        requires
            !(*self is Void),
        ensures
            self.operand_of() == Some(v),
    {
        match self {
            Value::I32Value(v) => *v,
            Value::U32Value(v) => *v,
            Value::U64Value(v) => *v,
            Value::U8Value(v) => *v,
            Value::USizeValue(v) => *v,
            Value::PointerValue(_, v) => *v,
            Value::Void => Operand::Constant(0),
        }
    }

    /// The integer inside an integer value.
    pub fn unwrap_int_value(&self) -> (v: Operand)
        requires
            self.type_of().is_integer(),
        ensures
            self.operand_of() == Some(v),
    {
        match self {
            Value::I32Value(v) => *v,
            Value::U32Value(v) => *v,
            Value::U64Value(v) => *v,
            Value::U8Value(v) => *v,
            Value::USizeValue(v) => *v,
            Value::PointerValue(_, v) => *v,
            Value::Void => Operand::Constant(0),
        }
    }

    /// The address inside a pointer value.
    pub fn unwrap_pointer_value(&self) -> (v: Operand)
        requires
            *self is PointerValue,
        ensures
            self.operand_of() == Some(v),
    {
        match self {
            Value::PointerValue(_, v) => *v,
            Value::I32Value(v) => *v,
            Value::U32Value(v) => *v,
            Value::U64Value(v) => *v,
            Value::U8Value(v) => *v,
            Value::USizeValue(v) => *v,
            Value::Void => Operand::Constant(0),
        }
    }
}

} // verus!
