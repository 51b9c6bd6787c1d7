//! The instructions that lowering emits. A stream of them is what a backend
//! is handed: it performs them one by one, in order.

use vstd::prelude::*;
use crate::ast::BinaryOp;
use crate::types::SizeClass;
use crate::value::Operand;

verus! {

/// One primitive of the backend. An instruction that produces a value is
/// named by its position in the stream: `Operand::Value(i)` is what the
/// instruction at position `i` produced.
#[derive(Debug, Clone, Copy, PartialEq, Eq)]
pub enum Instruction {
    /// Opens the body of the function at this position of the signature
    /// table. What follows, up to the next `Begin`, belongs to it.
    Begin { function: usize },
    /// Allocates a stack slot and yields its address.
    Alloca { size: SizeClass },
    /// Reads `size` from `address` and yields what was read.
    Load { address: Operand, size: SizeClass },
    /// Writes `value`, of the given size, to `address`.
    Store { address: Operand, value: Operand, size: SizeClass },
    /// Yields the address `base + index * element_size`.
    PointerOffset { base: Operand, index: Operand, element_size: u64 },
    /// Applies `op` to two integers of the given size and yields the result.
    Binary { op: BinaryOp, size: SizeClass, signed: bool, lhs: Operand, rhs: Operand },
    /// Hands one argument to the call that follows. The arguments of a call
    /// stand directly before it, in order.
    Argument { value: Operand },
    /// Calls the function at this position of the signature table with the
    /// `argument_count` arguments before it, and yields what it returns.
    Call { function: usize, argument_count: usize },
    /// Returns from the function with a value of the given size.
    Return { value: Operand, size: SizeClass },
    /// Returns from the function without a value.
    ReturnVoid,
}

} // verus!
