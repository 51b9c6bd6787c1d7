//! Type resolution: from types as written to canonical types, and the sizes
//! that canonical types take on the configured target.

use vstd::prelude::*;
use crate::ast::{ResolvedType, UnresolvedType};
use crate::error::{CompileError, CompileErrorKind};
use crate::text::str_eq;

verus! {

/// The width of an address, and of `usize`, on the target.
#[derive(Debug, Clone, Copy, PartialEq, Eq)]
pub enum PointerSize {
    Bits32,
    Bits64,
}

impl PointerSize {
    pub open spec fn byte_width(self) -> nat {
        match self {
            PointerSize::Bits32 => 4,
            PointerSize::Bits64 => 8,
        }
    }

    pub fn bytes(self) -> (r: u64)
        ensures
            r == self.byte_width(),
    {
        match self {
            PointerSize::Bits32 => 4,
            PointerSize::Bits64 => 8,
        }
    }
}

/// How much room a value takes in memory. The backend allocates, loads and
/// stores by size class.
#[derive(Debug, Clone, Copy, PartialEq, Eq)]
pub enum SizeClass {
    /// One byte.
    Byte,
    /// Four bytes.
    Word,
    /// Eight bytes.
    DoubleWord,
    /// As wide as an address on the target.
    Address,
}

impl SizeClass {
    pub open spec fn byte_width(self, pointer_size: PointerSize) -> nat {
        match self {
            SizeClass::Byte => 1,
            SizeClass::Word => 4,
            SizeClass::DoubleWord => 8,
            SizeClass::Address => pointer_size.byte_width(),
        }
    }

    pub fn bytes(self, pointer_size: PointerSize) -> (r: u64)
        ensures
            r == self.byte_width(pointer_size),
    {
        match self {
            SizeClass::Byte => 1,
            SizeClass::Word => 4,
            SizeClass::DoubleWord => 8,
            SizeClass::Address => pointer_size.bytes(),
        }
    }
}

impl ResolvedType {
    /// The size class of values of this type; `Void` has none. `usize` is as
    /// wide as the target's addresses, and every pointer is one address.
    pub open spec fn size_class_of(self, pointer_size: PointerSize) -> Option<SizeClass> {
        match self {
            ResolvedType::I32 => Some(SizeClass::Word),
            ResolvedType::U32 => Some(SizeClass::Word),
            ResolvedType::U64 => Some(SizeClass::DoubleWord),
            ResolvedType::USize => match pointer_size {
                PointerSize::Bits32 => Some(SizeClass::Word),
                PointerSize::Bits64 => Some(SizeClass::DoubleWord),
            },
            ResolvedType::U8 => Some(SizeClass::Byte),
            ResolvedType::Ptr(_) => Some(SizeClass::Address),
            ResolvedType::Void => None,
        }
    }

    /// The number of bytes that a value of this type takes; `Void` has none.
    pub open spec fn byte_size_of(self, pointer_size: PointerSize) -> Option<nat> {
        match self.size_class_of(pointer_size) {
            Some(class) => Some(class.byte_width(pointer_size)),
            None => None,
        }
    }

    /// Only `i32` is signed.
    pub open spec fn is_signed(self) -> bool {
        self is I32
    }

    pub fn size_class(&self, pointer_size: PointerSize) -> (r: Option<SizeClass>)
        ensures
            r == self.size_class_of(pointer_size),
            r is None <==> *self is Void,
    {
        match self {
            ResolvedType::I32 => Some(SizeClass::Word),
            ResolvedType::U32 => Some(SizeClass::Word),
            ResolvedType::U64 => Some(SizeClass::DoubleWord),
            ResolvedType::USize => match pointer_size {
                PointerSize::Bits32 => Some(SizeClass::Word),
                PointerSize::Bits64 => Some(SizeClass::DoubleWord),
            },
            ResolvedType::U8 => Some(SizeClass::Byte),
            ResolvedType::Ptr(_) => Some(SizeClass::Address),
            ResolvedType::Void => None,
        }
    }

    pub fn size_of(&self, pointer_size: PointerSize) -> (r: Option<u64>)
        ensures
            match r {
                Some(n) => self.byte_size_of(pointer_size) == Some(n as nat),
                None => self.byte_size_of(pointer_size) is None,
            },
    {
        match self.size_class(pointer_size) {
            Some(class) => Some(class.bytes(pointer_size)),
            None => None,
        }
    }

    /// Structural equality of two types.
    pub fn same_as(&self, other: &ResolvedType) -> (r: bool)
        ensures
            r == (*self == *other),
        decreases self,
    {
        match (self, other) {
            (ResolvedType::I32, ResolvedType::I32) => true,
            (ResolvedType::U32, ResolvedType::U32) => true,
            (ResolvedType::U64, ResolvedType::U64) => true,
            (ResolvedType::USize, ResolvedType::USize) => true,
            (ResolvedType::U8, ResolvedType::U8) => true,
            (ResolvedType::Void, ResolvedType::Void) => true,
            (ResolvedType::Ptr(a), ResolvedType::Ptr(b)) => a.same_as(b),
            _ => false,
        }
    }
}

/// The canonical type that a primitive name stands for, if it is one. The
/// two 64-bit names share the one 64-bit type.
pub open spec fn primitive_type(name: Seq<char>) -> Option<ResolvedType> {
    if name == "void"@ {
        Some(ResolvedType::Void)
    } else if name == "u8"@ {
        Some(ResolvedType::U8)
    } else if name == "u32"@ {
        Some(ResolvedType::U32)
    } else if name == "u64"@ {
        Some(ResolvedType::U64)
    } else if name == "i32"@ {
        Some(ResolvedType::I32)
    } else if name == "i64"@ {
        Some(ResolvedType::U64)
    } else if name == "usize"@ {
        Some(ResolvedType::USize)
    } else {
        None
    }
}

/// What a type as written resolves to. A name resolves if it is a primitive
/// and carries no generic-argument list, not even an empty one; a pointer
/// resolves if what it points to does.
pub open spec fn resolve_spec(ty: UnresolvedType) -> Option<ResolvedType>
    decreases ty,
{
    match ty {
        UnresolvedType::TypeRef { name, generic_args } => if generic_args is None {
            primitive_type(name@)
        } else {
            None
        },
        UnresolvedType::Ptr(inner) => match resolve_spec(*inner) {
            Some(pointee) => Some(ResolvedType::Ptr(Box::new(pointee))),
            None => None,
        },
    }
}

/// The name at the heart of a type as written, under all its pointer layers.
pub open spec fn innermost_name(ty: UnresolvedType) -> Seq<char>
    decreases ty,
{
    match ty {
        UnresolvedType::TypeRef { name, .. } => name@,
        UnresolvedType::Ptr(inner) => innermost_name(*inner),
    }
}

/// Whether the type is a primitive name without generic arguments, under any
/// number of pointer layers.
pub open spec fn built_from_primitive(ty: UnresolvedType) -> bool
    decreases ty,
{
    match ty {
        UnresolvedType::TypeRef { name, generic_args } => generic_args is None && primitive_type(
            name@,
        ) is Some,
        UnresolvedType::Ptr(inner) => built_from_primitive(*inner),
    }
}

pub fn primitive(name: &str) -> (r: Option<ResolvedType>)
    ensures
        r == primitive_type(name@),
{
    if str_eq(name, "void") {
        Some(ResolvedType::Void)
    } else if str_eq(name, "u8") {
        Some(ResolvedType::U8)
    } else if str_eq(name, "u32") {
        Some(ResolvedType::U32)
    } else if str_eq(name, "u64") {
        Some(ResolvedType::U64)
    } else if str_eq(name, "i32") {
        Some(ResolvedType::I32)
    } else if str_eq(name, "i64") {
        Some(ResolvedType::U64)
    } else if str_eq(name, "usize") {
        Some(ResolvedType::USize)
    } else {
        None
    }
}

/// Resolves a type as written. It fails with `UnknownType`, and only with
/// that, exactly when `resolve_spec` gives nothing; a type that does resolve
/// keeps its pointer depth.
pub fn resolve_type(ty: &UnresolvedType) -> (r: Result<ResolvedType, CompileError>)
    ensures
        match r {
            Ok(resolved) => resolve_spec(*ty) == Some(resolved) && resolved.pointer_depth()
                == ty.pointer_depth(),
            Err(e) => resolve_spec(*ty) is None && e.is_plain(CompileErrorKind::UnknownType),
        },
    decreases ty,
{
    match ty {
        UnresolvedType::TypeRef { name, generic_args } => {
            if generic_args.is_some() {
                return Err(CompileError::from_error_kind(CompileErrorKind::UnknownType));
            }
            match primitive(name.as_str()) {
                Some(resolved) => {
                    proof {
                        lemma_primitive_is_no_pointer(name@);
                    }
                    Ok(resolved)
                },
                None => Err(CompileError::from_error_kind(CompileErrorKind::UnknownType)),
            }
        },
        UnresolvedType::Ptr(inner) => match resolve_type(inner) {
            Ok(pointee) => Ok(ResolvedType::Ptr(Box::new(pointee))),
            Err(e) => Err(e),
        },
    }
}

/// No primitive name stands for a pointer.
pub proof fn lemma_primitive_is_no_pointer(name: Seq<char>)
    ensures
        primitive_type(name) matches Some(resolved) ==> resolved.pointer_depth() == 0,
{
}

/// A type built from a primitive name under `d` pointer layers resolves, and
/// resolves to a type of pointer depth exactly `d`.
pub proof fn lemma_resolve_keeps_depth(ty: UnresolvedType)
    requires
        built_from_primitive(ty),
    ensures
        resolve_spec(ty) is Some,
        resolve_spec(ty).unwrap().pointer_depth() == ty.pointer_depth(),
    decreases ty,
{
    match ty {
        UnresolvedType::TypeRef { name, .. } => {
            lemma_primitive_is_no_pointer(name@);
        },
        UnresolvedType::Ptr(inner) => {
            lemma_resolve_keeps_depth(*inner);
        },
    }
}

/// A type whose innermost name is no primitive does not resolve, however
/// many pointer layers surround the name.
pub proof fn lemma_unknown_name_fails(ty: UnresolvedType)
    requires
        primitive_type(innermost_name(ty)) is None,
    ensures
        resolve_spec(ty) is None,
    decreases ty,
{
    match ty {
        UnresolvedType::TypeRef { .. } => {},
        UnresolvedType::Ptr(inner) => {
            lemma_unknown_name_fails(*inner);
        },
    }
}

/// A type resolves exactly when it is built from a primitive name.
pub proof fn lemma_resolves_iff_primitive(ty: UnresolvedType)
    ensures
        resolve_spec(ty) is Some <==> built_from_primitive(ty),
    decreases ty,
{
    match ty {
        UnresolvedType::TypeRef { .. } => {},
        UnresolvedType::Ptr(inner) => {
            lemma_resolves_iff_primitive(*inner);
        },
    }
}

} // verus!
