//! Semantic analysis and lowering for a small systems language with explicit
//! pointer types, dereferences, array-style indexing and fixed integer widths.
//!
//! The crate turns a syntax tree into a typed, address-correct stream of
//! low-level instructions for a backend to perform. It resolves types,
//! evaluates expressions, keeps the variables of the function at hand, and
//! lowers statements one by one, reporting the first failure with the phase
//! it occurred in.
//!
//! Every function is verified. What lowering does is defined by spec
//! functions (`eval_spec`, `statement_spec`, `body_spec` and those they are
//! built from); each executable function is proved to return exactly the
//! result and to emit exactly the instructions that the definition gives, on
//! every input. On top of the definitions stand general laws, as proof
//! functions: resolution keeps pointer depth, a new binding shadows the old,
//! a `return` does not end lowering, lowering only ever appends, and every
//! stream it emits uses only values that the same function body produced
//! before.
//!
//! - [`ast`]: the syntax tree and the two type languages
//! - [`types`]: type resolution and sizes on the target
//! - [`literal`]: number literals
//! - [`value`]: typed values and the handles they hold
//! - [`instruction`]: the instructions of the stream
//! - [`bindings`]: the variable table
//! - [`signature`]: function signatures
//! - [`error`]: error kinds and phase contexts
//! - [`codegen`]: the code generator and what its steps come to
//! - [`expression`]: evaluation of expressions
//! - [`statement`]: lowering of statements
//! - [`function`]: lowering of functions and modules
//! - [`wellformed`]: well-formed streams
//! - [`display`]: the written form of types
//! - [`text`]: comparison of names

pub mod ast;
pub mod bindings;
pub mod codegen;
pub mod display;
pub mod error;
pub mod expression;
pub mod function;
pub mod instruction;
pub mod literal;
pub mod signature;
pub mod statement;
pub mod text;
pub mod types;
pub mod value;
pub mod wellformed;
