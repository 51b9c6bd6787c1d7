//! Number literals: decimal digits, read as the type that the context asks
//! for. A literal where a pointer is expected is an address.

use vstd::prelude::*;
use vstd::string::*;
use crate::ast::ResolvedType;
use crate::error::{CompileError, CompileErrorKind};
use crate::types::PointerSize;
use crate::value::{Operand, Value};

verus! {

pub open spec fn is_digit(c: char) -> bool {
    '0' <= c && c <= '9'
}

pub open spec fn digit_value(c: char) -> nat {
    (c as nat - '0' as nat) as nat
}

/// The number that a sequence of decimal digits denotes, most significant
/// digit first.
pub open spec fn decimal_value(digits: Seq<char>) -> nat
    decreases digits.len(),
{
    if digits.len() == 0 {
        0
    } else {
        decimal_value(digits.drop_last()) * 10 + digit_value(digits.last())
    }
}

/// Literal text is one or more decimal digits and nothing else.
pub open spec fn is_decimal(text: Seq<char>) -> bool {
    text.len() > 0 && forall|i: int| 0 <= i < text.len() ==> is_digit(#[trigger] text[i])
}

/// The number that `text` denotes, if it is a decimal number of at most `max`.
pub open spec fn decimal_within(text: Seq<char>, max: nat) -> Option<nat> {
    if is_decimal(text) && decimal_value(text) <= max {
        Some(decimal_value(text))
    } else {
        None
    }
}

/// The type that a literal is read as: the expected type, or `i32` where
/// none is expected. No number is a `void`.
pub open spec fn literal_type(expected: Option<ResolvedType>) -> Option<ResolvedType> {
    match expected {
        Some(ResolvedType::Void) => None,
        Some(ty) => Some(ty),
        None => Some(ResolvedType::I32),
    }
}

/// The largest literal of a type. An address is as wide as the target says.
pub open spec fn literal_max(ty: ResolvedType, pointer_size: PointerSize) -> nat {
    match ty {
        ResolvedType::U8 => 0xff,
        ResolvedType::I32 => 0x7fff_ffff,
        ResolvedType::U32 => 0xffff_ffff,
        ResolvedType::U64 => 0xffff_ffff_ffff_ffff,
        ResolvedType::USize | ResolvedType::Ptr(_) => match pointer_size {
            PointerSize::Bits32 => 0xffff_ffff,
            PointerSize::Bits64 => 0xffff_ffff_ffff_ffff,
        },
        ResolvedType::Void => 0,
    }
}

/// The value of a literal: a constant of the literal's type, if there is
/// such a type and the text is a decimal number which that type can hold.
pub open spec fn literal_value(
    text: Seq<char>,
    expected: Option<ResolvedType>,
    pointer_size: PointerSize,
) -> Option<Value> {
    match literal_type(expected) {
        None => None,
        Some(ty) => match decimal_within(text, literal_max(ty, pointer_size)) {
            Some(n) => Some(Value::typed(ty, Operand::Constant(n as u64))),
            None => None,
        },
    }
}

/// A prefix of a decimal number denotes no more than the whole.
pub proof fn lemma_prefix_is_no_larger(digits: Seq<char>, n: int)
    requires
        0 <= n <= digits.len(),
    ensures
        decimal_value(digits.subrange(0, n)) <= decimal_value(digits),
    decreases digits.len(),
{
    if n == digits.len() {
        assert(digits.subrange(0, n) =~= digits);
    } else {
        assert(digits.subrange(0, n) =~= digits.drop_last().subrange(0, n));
        lemma_prefix_is_no_larger(digits.drop_last(), n);
    }
}

/// Reads `text` as a decimal number of at most `max`.
pub fn parse_decimal(text: &str, max: u64) -> (r: Option<u64>)
    ensures
        match r {
            Some(n) => decimal_within(text@, max as nat) == Some(n as nat),
            None => decimal_within(text@, max as nat) is None,
        },
{
    let n = text.unicode_len();
    if n == 0 {
        return None;
    }
    let mut acc: u64 = 0;
    let mut i: usize = 0;
    while i < n
        invariant
            i <= n,
            n == text@.len(),
            forall|k: int| 0 <= k < i ==> is_digit(#[trigger] text@[k]),
            acc == decimal_value(text@.subrange(0, i as int)),
            acc <= max,
        decreases n - i,
    {
        let c = text.get_char(i);
        if c < '0' || c > '9' {
            assert(!is_digit(text@[i as int]));
            return None;
        }
        let digit: u64 = (c as u32 - '0' as u32) as u64;
        let next: u128 = acc as u128 * 10 + digit as u128;
        proof {
            let prefix = text@.subrange(0, i as int + 1);
            assert(prefix.drop_last() =~= text@.subrange(0, i as int));
            assert(prefix.last() == text@[i as int]);
            assert(next == decimal_value(prefix));
            lemma_prefix_is_no_larger(text@, i as int + 1);
        }
        if next > max as u128 {
            return None;
        }
        acc = next as u64;
        i += 1;
    }
    assert(text@.subrange(0, n as int) =~= text@);
    Some(acc)
}

/// The largest literal of a type, as a machine number.
pub fn max_literal(ty: &ResolvedType, pointer_size: PointerSize) -> (r: u64)
    ensures
        r == literal_max(*ty, pointer_size),
{
    match ty {
        ResolvedType::U8 => 0xff,
        ResolvedType::I32 => 0x7fff_ffff,
        ResolvedType::U32 => 0xffff_ffff,
        ResolvedType::U64 => 0xffff_ffff_ffff_ffff,
        ResolvedType::USize | ResolvedType::Ptr(_) => match pointer_size {
            PointerSize::Bits32 => 0xffff_ffff,
            PointerSize::Bits64 => 0xffff_ffff_ffff_ffff,
        },
        ResolvedType::Void => 0,
    }
}

/// Evaluates a number literal. The literal takes the expected type, or `i32`
/// where none is expected. Text that is no decimal number, or a number too
/// large for the type, is a `MalformedLiteral`, and so is any literal where
/// `void` is expected.
pub fn eval_literal(
    text: &str,
    expected: Option<&ResolvedType>,
    pointer_size: PointerSize,
) -> (r: Result<(ResolvedType, Value), CompileError>)
    ensures
        match r {
            Ok((ty, value)) => literal_value(
                text@,
                match expected {
                    Some(e) => Some(*e),
                    None => None,
                },
                pointer_size,
            ) == Some(value) && ty == value.type_of(),
            Err(e) => literal_value(
                text@,
                match expected {
                    Some(e) => Some(*e),
                    None => None,
                },
                pointer_size,
            ) is None && e.is_plain(CompileErrorKind::MalformedLiteral),
        },
{
    let ty = match expected {
        Some(ResolvedType::Void) => {
            return Err(CompileError::from_error_kind(CompileErrorKind::MalformedLiteral));
        },
        Some(e) => e.clone(),
        None => ResolvedType::I32,
    };
    match parse_decimal(text, max_literal(&ty, pointer_size)) {
        Some(n) => {
            let value = Value::new(ty.clone(), Operand::Constant(n));
            Ok((ty, value))
        },
        None => Err(CompileError::from_error_kind(CompileErrorKind::MalformedLiteral)),
    }
}

} // verus!
