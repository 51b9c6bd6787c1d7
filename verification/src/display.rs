//! The written form of types, for messages.

use vstd::prelude::*;
use vstd::string::*;
use crate::ast::{ResolvedType, UnresolvedType};

verus! {

impl ResolvedType {
    /// The written form of a resolved type: the name of a primitive, and `&`
    /// before what a pointer points to.
    pub open spec fn text(self) -> Seq<char>
        decreases self,
    {
        match self {
            ResolvedType::I32 => "i32"@,
            ResolvedType::U32 => "u32"@,
            ResolvedType::U64 => "u64"@,
            ResolvedType::USize => "usize"@,
            ResolvedType::U8 => "u8"@,
            ResolvedType::Ptr(inner) => "&"@ + inner.text(),
            ResolvedType::Void => "void"@,
        }
    }

    pub fn to_string(&self) -> (r: String)
        ensures
            r@ == self.text(),
        decreases self,
    {
        match self {
            ResolvedType::I32 => String::from_str("i32"),
            ResolvedType::U32 => String::from_str("u32"),
            ResolvedType::U64 => String::from_str("u64"),
            ResolvedType::USize => String::from_str("usize"),
            ResolvedType::U8 => String::from_str("u8"),
            ResolvedType::Ptr(inner) => {
                let mut out = String::from_str("&");
                let pointee = inner.to_string();
                out.append(pointee.as_str());
                out
            },
            ResolvedType::Void => String::from_str("void"),
        }
    }
}

/// The written forms of the first `count` types of a list, one after the
/// other with nothing between them.
pub open spec fn texts(types: Seq<UnresolvedType>, count: int) -> Seq<char>
    decreases types, count,
{
    if count <= 0 || count > types.len() {
        Seq::empty()
    } else {
        texts(types, count - 1) + types[count - 1].text()
    }
}

impl UnresolvedType {
    /// The written form of a type as written: a name, with its generic
    /// arguments between `<` and `>` if it has a list of them, or what a
    /// pointer points to between `[` and `]`.
    pub open spec fn text(self) -> Seq<char>
        decreases self, 0int,
    {
        match self {
            UnresolvedType::TypeRef { name, generic_args } => match generic_args {
                None => name@,
                Some(args) => name@ + "<"@ + texts(args@, args@.len() as int) + ">"@,
            },
            UnresolvedType::Ptr(inner) => "["@ + inner.text() + "]"@,
        }
    }

    pub fn to_string(&self) -> (r: String)
        ensures
            r@ == self.text(),
        decreases self,
    {
        match self {
            UnresolvedType::TypeRef { name, generic_args } => {
                let mut out = name.clone();
                match generic_args {
                    None => {},
                    Some(args) => {
                        out.append("<");
                        let mut i: usize = 0;
                        while i < args.len()
                            invariant
                                i <= args.len(),
                                *self matches UnresolvedType::TypeRef {
                                    generic_args: Some(list),
                                    ..
                                } && list == *args,
                                out@ == name@ + "<"@ + texts(args@, i as int),
                            decreases args.len() - i,
                        {
                            let argument = args[i].to_string();
                            out.append(argument.as_str());
                            i += 1;
                        }
                        out.append(">");
                    },
                }
                out
            },
            UnresolvedType::Ptr(inner) => {
                let mut out = String::from_str("[");
                let pointee = inner.to_string();
                out.append(pointee.as_str());
                out.append("]");
                out
            },
        }
    }
}

} // verus!
