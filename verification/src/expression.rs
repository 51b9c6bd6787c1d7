//! Evaluation of expressions: what each form evaluates to, what it emits on
//! the way, and how it fails.
//!
//! The spec functions of this module are the definition; the executable
//! functions are proved to emit exactly the stream and to return exactly the
//! value or failure that the definition gives.

use vstd::prelude::*;
use crate::ast::{BinaryOp, Expression, Located, ResolvedType};
use crate::codegen::{Env, LLVMCodegenerator, Outcome};
use crate::error::{CompileError, CompileErrorKind};
use crate::instruction::Instruction;
use crate::literal::{eval_literal, literal_value};
use crate::signature::find_function;
use crate::types::{resolve_spec, PointerSize, SizeClass};
use crate::value::{Operand, StorageHandle, Value};

verus! {

/// The expected type as a plain value.
pub open spec fn expected_type(expected: Option<&ResolvedType>) -> Option<ResolvedType> {
    match expected {
        Some(ty) => Some(*ty),
        None => None,
    }
}

/// Follows `steps` pointers, starting at `address`, where a value of type `ty`
/// lies. Each step needs `ty` to be a pointer: it loads the address stored at
/// `address` and goes on there, with the type pointed to. A step on anything
/// else fails with `CannotDeref`, which names the variable and the number of
/// dereferences asked for in all.
pub open spec fn deref_spec(
    name: String,
    deref_count: u32,
    steps: nat,
    address: Operand,
    ty: ResolvedType,
    stream: Seq<Instruction>,
) -> Outcome<(Operand, ResolvedType)>
    decreases steps,
{
    if steps == 0 {
        Outcome::done(stream, (address, ty))
    } else {
        match ty {
            ResolvedType::Ptr(pointee) => deref_spec(
                name,
                deref_count,
                (steps - 1) as nat,
                Operand::Value(stream.len() as usize),
                *pointee,
                stream.push(Instruction::Load { address, size: SizeClass::Address }),
            ),
            _ => Outcome::fail(stream, CompileErrorKind::CannotDeref { name, deref_count }),
        }
    }
}

/// The place that a variable under `deref_count` dereferences denotes: the
/// address of the place and the type of what lies there. The variable must be
/// bound (`UnknownVariable`), its declared type must resolve (`UnknownType`),
/// and it must have a slot (`Unrepresentable`: a placeholder is never
/// touched). With no dereference the place is the slot itself.
pub open spec fn base_spec(env: Env, name: String, deref_count: u32, stream: Seq<Instruction>)
    -> Outcome<(Operand, ResolvedType)> {
    if !env.variables.contains_key(name@) {
        Outcome::fail(stream, CompileErrorKind::UnknownVariable)
    } else {
        match resolve_spec(env.variables[name@].ty) {
            None => Outcome::fail(stream, CompileErrorKind::UnknownType),
            Some(ty) => match env.variables[name@].storage {
                StorageHandle::Placeholder => Outcome::fail(
                    stream,
                    CompileErrorKind::Unrepresentable { ty },
                ),
                StorageHandle::Slot(slot) => deref_spec(
                    name,
                    deref_count,
                    deref_count as nat,
                    Operand::Value(slot),
                    ty,
                    stream,
                ),
            },
        }
    }
}

/// What indexing a value of type `ty` steps over: the type of one element and
/// its size in bytes. Only a pointer can be indexed (`CannotIndexAccess`), and
/// its elements must have a size (`Unrepresentable`).
pub open spec fn element_spec(name: String, ty: ResolvedType, pointer_size: PointerSize) -> Result<
    (ResolvedType, u64),
    CompileErrorKind,
> {
    match ty {
        ResolvedType::Ptr(element) => match element.byte_size_of(pointer_size) {
            Some(size) => Ok((*element, size as u64)),
            None => Err(CompileErrorKind::Unrepresentable { ty: *element }),
        },
        _ => Err(CompileErrorKind::CannotIndexAccess { name, ty }),
    }
}

/// The place of the element at an index, given how the evaluation of the
/// index came out. The index must be a `usize` (`TypeMismatch`). The pointer
/// stored at `address` is loaded, and the element lies at that pointer plus
/// index times element size.
pub open spec fn offset_spec(
    address: Operand,
    element: ResolvedType,
    element_size: u64,
    index: Outcome<Value>,
) -> Outcome<(Operand, ResolvedType)> {
    match index.result {
        Err(kind) => Outcome::fail(index.stream, kind),
        Ok(value) => if value.type_of() != ResolvedType::USize {
            Outcome::fail(
                index.stream,
                CompileErrorKind::TypeMismatch {
                    expected: ResolvedType::USize,
                    actual: value.type_of(),
                },
            )
        } else {
            let loaded = index.stream.push(
                Instruction::Load { address, size: SizeClass::Address },
            );
            Outcome::done(
                loaded.push(
                    Instruction::PointerOffset {
                        base: Operand::Value(index.stream.len() as usize),
                        index: value.operand_of().unwrap(),
                        element_size,
                    },
                ),
                (Operand::Value(loaded.len() as usize), element),
            )
        },
    }
}

/// Reads the value of type `ty` that lies at `address`. A type without a size
/// cannot be read (`Unrepresentable`).
pub open spec fn read_spec(
    address: Operand,
    ty: ResolvedType,
    stream: Seq<Instruction>,
    pointer_size: PointerSize,
) -> Outcome<Value> {
    match ty.size_class_of(pointer_size) {
        None => Outcome::fail(stream, CompileErrorKind::Unrepresentable { ty }),
        Some(size) => Outcome::done(
            stream.push(Instruction::Load { address, size }),
            Value::typed(ty, Operand::Value(stream.len() as usize)),
        ),
    }
}

/// Reads what lies at a place, if there is a place.
pub open spec fn read_place_spec(place: Outcome<(Operand, ResolvedType)>, pointer_size: PointerSize)
    -> Outcome<Value> {
    match place.result {
        Err(kind) => Outcome::fail(place.stream, kind),
        Ok((address, ty)) => read_spec(address, ty, place.stream, pointer_size),
    }
}

/// Applies an operator to two evaluated operands. They must be of one type
/// (`TypeMismatch`, which emits nothing), and of an integer type
/// (`ArityOrSignatureMismatch`: pointers and `void` take no arithmetic).
pub open spec fn binary_spec(
    op: BinaryOp,
    left: Value,
    right: Value,
    stream: Seq<Instruction>,
    pointer_size: PointerSize,
) -> Outcome<Value> {
    let ty = left.type_of();
    if ty != right.type_of() {
        Outcome::fail(
            stream,
            CompileErrorKind::TypeMismatch { expected: ty, actual: right.type_of() },
        )
    } else if !ty.is_integer() {
        Outcome::fail(stream, CompileErrorKind::ArityOrSignatureMismatch)
    } else {
        Outcome::done(
            stream.push(
                Instruction::Binary {
                    op,
                    size: ty.size_class_of(pointer_size).unwrap(),
                    signed: ty.is_signed(),
                    lhs: left.operand_of().unwrap(),
                    rhs: right.operand_of().unwrap(),
                },
            ),
            Value::typed(ty, Operand::Value(stream.len() as usize)),
        )
    }
}

/// The instructions that hand the operands to a call, in order.
pub open spec fn arguments(operands: Seq<Operand>) -> Seq<Instruction> {
    Seq::new(operands.len(), |i: int| Instruction::Argument { value: operands[i] })
}

/// Calls the function at position `function` on evaluated arguments. The
/// value of the call has the function's return type.
pub open spec fn call_spec(
    function: int,
    operands: Seq<Operand>,
    return_type: ResolvedType,
    stream: Seq<Instruction>,
) -> Outcome<Value> {
    let handed = stream + arguments(operands);
    Outcome::done(
        handed.push(
            Instruction::Call {
                function: function as usize,
                argument_count: operands.len() as usize,
            },
        ),
        Value::typed(return_type, Operand::Value(handed.len() as usize)),
    )
}

/// What an expression evaluates to in `env`, after `stream`.
///
/// A literal takes the expected type and emits nothing. A variable is read
/// from the place it denotes. The operands of an operator are evaluated left
/// to right, each with the expected type of the whole. The arguments of a
/// call are evaluated left to right, each with the type of its parameter as
/// the expected type. The first failure ends the evaluation.
pub open spec fn eval_spec(
    env: Env,
    expr: Expression,
    expected: Option<ResolvedType>,
    stream: Seq<Instruction>,
) -> Outcome<Value>
    decreases expr, 0nat,
{
    match expr {
        Expression::NumberLiteral { value } => match literal_value(
            value@,
            expected,
            env.pointer_size,
        ) {
            Some(v) => Outcome::done(stream, v),
            None => Outcome::fail(stream, CompileErrorKind::MalformedLiteral),
        },
        Expression::VariableRef { deref_count, index_access, name } => {
            let base = base_spec(env, name, deref_count, stream);
            match index_access {
                None => read_place_spec(base, env.pointer_size),
                Some(index) => read_place_spec(
                    indexed_spec(env, name, base, *index.value),
                    env.pointer_size,
                ),
            }
        },
        Expression::BinaryExpr { op, args } => if args@.len() != 2 {
            Outcome::fail(stream, CompileErrorKind::ArityOrSignatureMismatch)
        } else {
            let lhs = eval_spec(env, args@[0].value, expected, stream);
            match lhs.result {
                Err(kind) => Outcome::fail(lhs.stream, kind),
                Ok(left) => {
                    let rhs = eval_spec(env, args@[1].value, expected, lhs.stream);
                    match rhs.result {
                        Err(kind) => Outcome::fail(rhs.stream, kind),
                        Ok(right) => binary_spec(op, left, right, rhs.stream, env.pointer_size),
                    }
                },
            }
        },
        Expression::CallExpr { name, args } => match find_function(env.functions, name@) {
            None => Outcome::fail(stream, CompileErrorKind::ArityOrSignatureMismatch),
            Some(function) => if args@.len() != env.functions[function].params@.len() {
                Outcome::fail(stream, CompileErrorKind::ArityOrSignatureMismatch)
            } else {
                let evaluated = eval_args_spec(
                    env,
                    args@,
                    env.functions[function].params@,
                    0,
                    stream,
                    Seq::empty(),
                );
                match evaluated.result {
                    Err(kind) => Outcome::fail(evaluated.stream, kind),
                    Ok(operands) => call_spec(
                        function,
                        operands,
                        env.functions[function].return_type,
                        evaluated.stream,
                    ),
                }
            },
        },
    }
}

/// Evaluates the arguments of a call from position `i` on, after `operands`
/// were gathered from the arguments before. Each argument must come out with
/// exactly the type of its parameter (`ArityOrSignatureMismatch`) and must
/// have a value to hand over (`Unrepresentable`).
pub open spec fn eval_args_spec(
    env: Env,
    args: Seq<Located<Expression>>,
    params: Seq<ResolvedType>,
    i: int,
    stream: Seq<Instruction>,
    operands: Seq<Operand>,
) -> Outcome<Seq<Operand>>
    decreases args, args.len() - i,
{
    if i < 0 || i >= args.len() || i >= params.len() {
        Outcome::done(stream, operands)
    } else {
        let argument = eval_spec(env, args[i].value, Some(params[i]), stream);
        match argument.result {
            Err(kind) => Outcome::fail(argument.stream, kind),
            Ok(value) => if value.type_of() != params[i] {
                Outcome::fail(argument.stream, CompileErrorKind::ArityOrSignatureMismatch)
            } else {
                match value.operand_of() {
                    None => Outcome::fail(
                        argument.stream,
                        CompileErrorKind::Unrepresentable { ty: params[i] },
                    ),
                    Some(operand) => eval_args_spec(
                        env,
                        args,
                        params,
                        i + 1,
                        argument.stream,
                        operands.push(operand),
                    ),
                }
            },
        }
    }
}

/// The place of the element of `base` at the index that `at` evaluates to.
/// What lies at `base` must be a pointer to elements that have a size; the
/// index is evaluated after that is known, with `usize` as the expected type.
pub open spec fn indexed_spec(
    env: Env,
    name: String,
    base: Outcome<(Operand, ResolvedType)>,
    at: Expression,
) -> Outcome<(Operand, ResolvedType)>
    decreases at, 1nat,
{
    match base.result {
        Err(kind) => Outcome::fail(base.stream, kind),
        Ok((address, ty)) => match element_spec(name, ty, env.pointer_size) {
            Err(kind) => Outcome::fail(base.stream, kind),
            Ok((element, size)) => offset_spec(
                address,
                element,
                size,
                eval_spec(env, at, Some(ResolvedType::USize), base.stream),
            ),
        },
    }
}

/// The place that an assignment writes and a variable reference reads: the
/// variable, under its dereferences, at its index if it has one.
pub open spec fn place_spec(
    env: Env,
    name: String,
    deref_count: u32,
    index: Option<Expression>,
    stream: Seq<Instruction>,
) -> Outcome<(Operand, ResolvedType)> {
    let base = base_spec(env, name, deref_count, stream);
    match index {
        None => base,
        Some(at) => indexed_spec(env, name, base, at),
    }
}

/// An operator whose operands evaluate to values of different types fails
/// with `TypeMismatch`, which names the type of the left operand as expected
/// and that of the right as actual. The stream is then what the evaluation of
/// the two operands left: for the operator itself nothing is emitted.
pub proof fn lemma_mismatched_operands_emit_nothing(
    env: Env,
    op: BinaryOp,
    args: Vec<Located<Expression>>,
    expected: Option<ResolvedType>,
    stream: Seq<Instruction>,
)
    requires
        args@.len() == 2,
        eval_spec(env, args@[0].value, expected, stream).result is Ok,
        eval_spec(
            env,
            args@[1].value,
            expected,
            eval_spec(env, args@[0].value, expected, stream).stream,
        ).result is Ok,
        eval_spec(env, args@[0].value, expected, stream).result.unwrap().type_of() != eval_spec(
            env,
            args@[1].value,
            expected,
            eval_spec(env, args@[0].value, expected, stream).stream,
        ).result.unwrap().type_of(),
    ensures
        ({
            let lhs = eval_spec(env, args@[0].value, expected, stream);
            let rhs = eval_spec(env, args@[1].value, expected, lhs.stream);
            eval_spec(env, Expression::BinaryExpr { op, args }, expected, stream) == Outcome::<
                Value,
            >::fail(
                rhs.stream,
                CompileErrorKind::TypeMismatch {
                    expected: lhs.result.unwrap().type_of(),
                    actual: rhs.result.unwrap().type_of(),
                },
            )
        }),
{
}

/// An operator applied to two values of one integer type emits exactly one
/// instruction, the operation itself, and yields a value of that type.
pub proof fn lemma_binary_of_integers(
    op: BinaryOp,
    left: Value,
    right: Value,
    stream: Seq<Instruction>,
    pointer_size: PointerSize,
)
    requires
        left.type_of() == right.type_of(),
        left.type_of().is_integer(),
    ensures
        binary_spec(op, left, right, stream, pointer_size).result is Ok,
        binary_spec(op, left, right, stream, pointer_size).result.unwrap().type_of()
            == left.type_of(),
        binary_spec(op, left, right, stream, pointer_size).stream.len() == stream.len() + 1,
        binary_spec(op, left, right, stream, pointer_size).stream.last() is Binary,
{
}

/// Following pointers from a type of pointer depth `d` succeeds exactly when
/// no more than `d` steps are asked for, and each step loads once.
pub proof fn lemma_deref_within_depth(
    name: String,
    deref_count: u32,
    steps: nat,
    address: Operand,
    ty: ResolvedType,
    stream: Seq<Instruction>,
)
    ensures
        deref_spec(name, deref_count, steps, address, ty, stream).result is Ok <==> steps
            <= ty.pointer_depth(),
        deref_spec(name, deref_count, steps, address, ty, stream).result matches Ok((_, found))
            ==> found.pointer_depth() + steps == ty.pointer_depth() && deref_spec(
            name,
            deref_count,
            steps,
            address,
            ty,
            stream,
        ).stream.len() == stream.len() + steps,
        deref_spec(name, deref_count, steps, address, ty, stream).result matches Err(kind) ==> kind
            == (CompileErrorKind::CannotDeref { name, deref_count }),
    decreases steps,
{
    if steps > 0 {
        match ty {
            ResolvedType::Ptr(pointee) => {
                lemma_deref_within_depth(
                    name,
                    deref_count,
                    (steps - 1) as nat,
                    Operand::Value(stream.len() as usize),
                    *pointee,
                    stream.push(Instruction::Load { address, size: SizeClass::Address }),
                );
            },
            _ => {},
        }
    }
}

/// Whether `after` is `before` with instructions added at its end.
pub open spec fn extends(after: Seq<Instruction>, before: Seq<Instruction>) -> bool {
    before.len() <= after.len() && after.subrange(0, before.len() as int) =~= before
}

pub proof fn lemma_extends_transitive(
    last: Seq<Instruction>,
    middle: Seq<Instruction>,
    first: Seq<Instruction>,
)
    requires
        extends(last, middle),
        extends(middle, first),
    ensures
        extends(last, first),
{
    assert(last.subrange(0, first.len() as int) =~= middle.subrange(0, first.len() as int));
}

/// Following pointers only adds to the stream.
pub proof fn lemma_deref_appends(
    name: String,
    deref_count: u32,
    steps: nat,
    address: Operand,
    ty: ResolvedType,
    stream: Seq<Instruction>,
)
    ensures
        extends(deref_spec(name, deref_count, steps, address, ty, stream).stream, stream),
    decreases steps,
{
    if steps > 0 {
        match ty {
            ResolvedType::Ptr(pointee) => {
                let next = stream.push(Instruction::Load { address, size: SizeClass::Address });
                lemma_deref_appends(
                    name,
                    deref_count,
                    (steps - 1) as nat,
                    Operand::Value(stream.len() as usize),
                    *pointee,
                    next,
                );
                lemma_extends_transitive(
                    deref_spec(name, deref_count, steps, address, ty, stream).stream,
                    next,
                    stream,
                );
            },
            _ => {},
        }
    }
}

/// Evaluation only adds to the stream: whatever an expression evaluates to,
/// and also where it fails, the instructions that stood before still stand,
/// in their places.
pub proof fn lemma_eval_appends(
    env: Env,
    expr: Expression,
    expected: Option<ResolvedType>,
    stream: Seq<Instruction>,
)
    ensures
        extends(eval_spec(env, expr, expected, stream).stream, stream),
    decreases expr, 0nat,
{
    match expr {
        Expression::NumberLiteral { .. } => {},
        Expression::VariableRef { deref_count, index_access, name } => {
            let base = base_spec(env, name, deref_count, stream);
            lemma_base_appends(env, name, deref_count, stream);
            match index_access {
                None => {},
                Some(index) => {
                    lemma_indexed_appends(env, name, base, *index.value);
                    lemma_extends_transitive(
                        indexed_spec(env, name, base, *index.value).stream,
                        base.stream,
                        stream,
                    );
                },
            }
        },
        Expression::BinaryExpr { op, args } => {
            if args@.len() == 2 {
                let lhs = eval_spec(env, args@[0].value, expected, stream);
                lemma_eval_appends(env, args@[0].value, expected, stream);
                if lhs.result is Ok {
                    let rhs = eval_spec(env, args@[1].value, expected, lhs.stream);
                    lemma_eval_appends(env, args@[1].value, expected, lhs.stream);
                    lemma_extends_transitive(rhs.stream, lhs.stream, stream);
                }
            }
        },
        Expression::CallExpr { name, args } => {
            match find_function(env.functions, name@) {
                None => {},
                Some(function) => {
                    if args@.len() == env.functions[function].params@.len() {
                        lemma_args_append(
                            env,
                            args@,
                            env.functions[function].params@,
                            0,
                            stream,
                            Seq::empty(),
                        );
                    }
                },
            }
        },
    }
}

/// Finding the place of a variable only adds to the stream.
pub proof fn lemma_base_appends(env: Env, name: String, deref_count: u32, stream: Seq<Instruction>)
    ensures
        extends(base_spec(env, name, deref_count, stream).stream, stream),
{
    if env.variables.contains_key(name@) {
        match resolve_spec(env.variables[name@].ty) {
            None => {},
            Some(ty) => match env.variables[name@].storage {
                StorageHandle::Placeholder => {},
                StorageHandle::Slot(slot) => {
                    lemma_deref_appends(
                        name,
                        deref_count,
                        deref_count as nat,
                        Operand::Value(slot),
                        ty,
                        stream,
                    );
                },
            },
        }
    }
}

/// Finding the place of an element only adds to the stream.
pub proof fn lemma_indexed_appends(
    env: Env,
    name: String,
    base: Outcome<(Operand, ResolvedType)>,
    at: Expression,
)
    ensures
        extends(indexed_spec(env, name, base, at).stream, base.stream),
    decreases at, 1nat,
{
    match base.result {
        Err(_) => {},
        Ok((address, ty)) => match element_spec(name, ty, env.pointer_size) {
            Err(_) => {},
            Ok(_) => {
                lemma_eval_appends(env, at, Some(ResolvedType::USize), base.stream);
            },
        },
    }
}

/// Evaluating arguments only adds to the stream.
pub proof fn lemma_args_append(
    env: Env,
    args: Seq<Located<Expression>>,
    params: Seq<ResolvedType>,
    i: int,
    stream: Seq<Instruction>,
    operands: Seq<Operand>,
)
    ensures
        extends(eval_args_spec(env, args, params, i, stream, operands).stream, stream),
    decreases args, args.len() - i,
{
    if !(i < 0 || i >= args.len() || i >= params.len()) {
        let argument = eval_spec(env, args[i].value, Some(params[i]), stream);
        lemma_eval_appends(env, args[i].value, Some(params[i]), stream);
        match argument.result {
            Err(_) => {},
            Ok(value) => {
                if value.type_of() == params[i] {
                    match value.operand_of() {
                        None => {},
                        Some(operand) => {
                            lemma_args_append(
                                env,
                                args,
                                params,
                                i + 1,
                                argument.stream,
                                operands.push(operand),
                            );
                            lemma_extends_transitive(
                                eval_args_spec(env, args, params, i, stream, operands).stream,
                                argument.stream,
                                stream,
                            );
                        },
                    }
                }
            },
        }
    }
}

impl LLVMCodegenerator {
    /// The place of a variable under `deref_count` dereferences.
    pub fn resolve_base(&mut self, name: &String, deref_count: u32) -> (r: Result<
        (Operand, ResolvedType),
        CompileError,
    >)
        ensures
            final(self).env() == old(self).env(),
            base_spec(old(self).env(), *name, deref_count, old(self).stream()).describes(
                final(self).stream(),
                r,
            ),
    {
        let (declared, storage) = match self.find_variable(name.as_str()) {
            Ok(binding) => match self.resolve_type(&binding.ty) {
                Ok(ty) => (ty, binding.storage),
                Err(e) => {
                    return Err(e);
                },
            },
            Err(e) => {
                return Err(e);
            },
        };
        let slot = match storage {
            StorageHandle::Slot(slot) => slot,
            StorageHandle::Placeholder => {
                return Err(
                    CompileError::from_error_kind(
                        CompileErrorKind::Unrepresentable { ty: declared },
                    ),
                );
            },
        };
        let mut address = Operand::Value(slot);
        let mut ty = declared;
        let mut done: u32 = 0;
        while done < deref_count
            invariant
                done <= deref_count,
                self.env() == old(self).env(),
                base_spec(old(self).env(), *name, deref_count, old(self).stream()) == deref_spec(
                    *name,
                    deref_count,
                    (deref_count - done) as nat,
                    address,
                    ty,
                    self.stream(),
                ),
            decreases deref_count - done,
        {
            match ty {
                ResolvedType::Ptr(pointee) => {
                    let loaded = self.emit(
                        Instruction::Load { address, size: SizeClass::Address },
                    );
                    address = Operand::Value(loaded);
                    ty = *pointee;
                },
                _ => {
                    return Err(
                        CompileError::from_error_kind(
                            CompileErrorKind::CannotDeref { name: name.clone(), deref_count },
                        ),
                    );
                },
            }
            done += 1;
        }
        Ok((address, ty))
    }

    /// The element type and element size for an index into a value of type
    /// `ty`.
    pub fn element_of(&self, name: &String, ty: ResolvedType) -> (r: Result<
        (ResolvedType, u64),
        CompileError,
    >)
        ensures
            match r {
                Ok(found) => element_spec(*name, ty, self.env().pointer_size) == Ok::<
                    (ResolvedType, u64),
                    CompileErrorKind,
                >(found),
                Err(e) => element_spec(*name, ty, self.env().pointer_size) matches Err(kind)
                    && e.is_plain(kind),
            },
    {
        match ty {
            ResolvedType::Ptr(element) => match element.size_of(self.pointer_size()) {
                Some(size) => Ok((*element, size)),
                None => Err(
                    CompileError::from_error_kind(
                        CompileErrorKind::Unrepresentable { ty: *element },
                    ),
                ),
            },
            _ => Err(
                CompileError::from_error_kind(
                    CompileErrorKind::CannotIndexAccess { name: name.clone(), ty },
                ),
            ),
        }
    }

    /// The place of the element at an evaluated index.
    pub fn offset(
        &mut self,
        address: Operand,
        element: ResolvedType,
        element_size: u64,
        index: Value,
    ) -> (r: Result<(Operand, ResolvedType), CompileError>)
        ensures
            final(self).env() == old(self).env(),
            offset_spec(
                address,
                element,
                element_size,
                Outcome::done(old(self).stream(), index),
            ).describes(final(self).stream(), r),
    {
        let actual = index.get_type();
        if !actual.same_as(&ResolvedType::USize) {
            return Err(
                CompileError::from_error_kind(
                    CompileErrorKind::TypeMismatch { expected: ResolvedType::USize, actual },
                ),
            );
        }
        let base = self.emit(Instruction::Load { address, size: SizeClass::Address });
        let place = self.emit(
            Instruction::PointerOffset {
                base: Operand::Value(base),
                index: index.unwrap_int_value(),
                element_size,
            },
        );
        Ok((Operand::Value(place), element))
    }

    /// Reads the value of type `ty` at `address`.
    pub fn read(&mut self, address: Operand, ty: ResolvedType) -> (r: Result<
        (ResolvedType, Value),
        CompileError,
    >)
        ensures
            final(self).env() == old(self).env(),
            final(self).stream() == read_spec(
                address,
                ty,
                old(self).stream(),
                old(self).env().pointer_size,
            ).stream,
            match r {
                Ok((found, value)) => read_spec(
                    address,
                    ty,
                    old(self).stream(),
                    old(self).env().pointer_size,
                ).result == Ok::<Value, CompileErrorKind>(value) && found == value.type_of(),
                Err(e) => read_spec(
                    address,
                    ty,
                    old(self).stream(),
                    old(self).env().pointer_size,
                ).result matches Err(kind) && e.is_plain(kind),
            },
    {
        match ty.size_class(self.pointer_size()) {
            None => Err(CompileError::from_error_kind(CompileErrorKind::Unrepresentable { ty })),
            Some(size) => {
                let loaded = self.emit(Instruction::Load { address, size });
                let value = Value::new(ty.clone(), Operand::Value(loaded));
                Ok((ty, value))
            },
        }
    }

    /// Applies an operator to two evaluated operands.
    pub fn binary(&mut self, op: BinaryOp, left: Value, right: Value) -> (r: Result<
        (ResolvedType, Value),
        CompileError,
    >)
        ensures
            final(self).env() == old(self).env(),
            final(self).stream() == binary_spec(
                op,
                left,
                right,
                old(self).stream(),
                old(self).env().pointer_size,
            ).stream,
            match r {
                Ok((ty, value)) => binary_spec(
                    op,
                    left,
                    right,
                    old(self).stream(),
                    old(self).env().pointer_size,
                ).result == Ok::<Value, CompileErrorKind>(value) && ty == value.type_of(),
                Err(e) => binary_spec(
                    op,
                    left,
                    right,
                    old(self).stream(),
                    old(self).env().pointer_size,
                ).result matches Err(kind) && e.is_plain(kind),
            },
    {
        let ty = left.get_type();
        let other = right.get_type();
        if !ty.same_as(&other) {
            return Err(
                CompileError::from_error_kind(
                    CompileErrorKind::TypeMismatch { expected: ty, actual: other },
                ),
            );
        }
        if !ty.is_valid_as_operand() {
            return Err(CompileError::from_error_kind(CompileErrorKind::ArityOrSignatureMismatch));
        }
        let size = match ty.size_class(self.pointer_size()) {
            Some(size) => size,
            None => {
                return Err(
                    CompileError::from_error_kind(CompileErrorKind::ArityOrSignatureMismatch),
                );
            },
        };
        let signed = match ty {
            ResolvedType::I32 => true,
            _ => false,
        };
        let result = self.emit(
            Instruction::Binary {
                op,
                size,
                signed,
                lhs: left.unwrap_int_value(),
                rhs: right.unwrap_int_value(),
            },
        );
        let value = Value::new(ty.clone(), Operand::Value(result));
        Ok((ty, value))
    }

    /// Hands the operands over and calls the function at position `function`.
    pub(crate) fn call(&mut self, function: usize, operands: &Vec<Operand>) -> (r: (
        ResolvedType,
        Value,
    ))
        requires
            function < old(self).env().functions.len(),
        ensures
            final(self).env() == old(self).env(),
            final(self).stream() == call_spec(
                function as int,
                operands@,
                old(self).env().functions[function as int].return_type,
                old(self).stream(),
            ).stream,
            call_spec(
                function as int,
                operands@,
                old(self).env().functions[function as int].return_type,
                old(self).stream(),
            ).result == Ok::<Value, CompileErrorKind>(r.1),
            r.0 == r.1.type_of(),
    {
        let mut i: usize = 0;
        assert(old(self).stream() + arguments(operands@.subrange(0, 0)) =~= old(self).stream());
        while i < operands.len()
            invariant
                i <= operands.len(),
                self.env() == old(self).env(),
                self.stream() == old(self).stream() + arguments(operands@.subrange(0, i as int)),
            decreases operands.len() - i,
        {
            self.emit(Instruction::Argument { value: operands[i] });
            proof {
                assert(arguments(operands@.subrange(0, i as int)).push(
                    Instruction::Argument { value: operands@[i as int] },
                ) =~= arguments(operands@.subrange(0, i as int + 1)));
            }
            i += 1;
        }
        assert(operands@.subrange(0, i as int) =~= operands@);
        let result = self.emit(Instruction::Call { function, argument_count: operands.len() });
        let ty = self.functions()[function].return_type.clone();
        let value = Value::new(ty.clone(), Operand::Value(result));
        (ty, value)
    }

    /// Evaluates an expression, with the type that the context expects of it
    /// as a hint. The value comes paired with its type. See `eval_spec`.
    pub fn eval_expression(&mut self, expr: &Expression, expected: Option<&ResolvedType>) -> (r:
        Result<(ResolvedType, Value), CompileError>)
        ensures
            final(self).env() == old(self).env(),
            final(self).stream() == eval_spec(
                old(self).env(),
                *expr,
                expected_type(expected),
                old(self).stream(),
            ).stream,
            match r {
                Ok((ty, value)) => eval_spec(
                    old(self).env(),
                    *expr,
                    expected_type(expected),
                    old(self).stream(),
                ).result == Ok::<Value, CompileErrorKind>(value) && ty == value.type_of(),
                Err(e) => eval_spec(
                    old(self).env(),
                    *expr,
                    expected_type(expected),
                    old(self).stream(),
                ).result matches Err(kind) && e.is_plain(kind),
            },
        decreases expr, 0nat,
    {
        match expr {
            Expression::NumberLiteral { value } => eval_literal(
                value.as_str(),
                expected,
                self.pointer_size(),
            ),
            Expression::VariableRef { deref_count, index_access, name } => {
                proof {
                    reveal_with_fuel(eval_spec, 2);
                }
                let (address, ty) = match self.resolve_base(name, *deref_count) {
                    Ok(place) => place,
                    Err(e) => {
                        return Err(e);
                    },
                };
                match index_access {
                    None => self.read(address, ty),
                    Some(index) => match self.index_place(name, address, ty, &*index.value) {
                        Ok((place, found)) => self.read(place, found),
                        Err(e) => Err(e),
                    },
                }
            },
            Expression::BinaryExpr { op, args } => {
                if args.len() != 2 {
                    return Err(
                        CompileError::from_error_kind(CompileErrorKind::ArityOrSignatureMismatch),
                    );
                }
                let left = match self.eval_expression(&args[0].value, expected) {
                    Ok((_, value)) => value,
                    Err(e) => {
                        return Err(e);
                    },
                };
                let right = match self.eval_expression(&args[1].value, expected) {
                    Ok((_, value)) => value,
                    Err(e) => {
                        return Err(e);
                    },
                };
                self.binary(*op, left, right)
            },
            Expression::CallExpr { name, args } => {
                let function = match self.find_function(name.as_str()) {
                    Some(function) => function,
                    None => {
                        return Err(
                            CompileError::from_error_kind(
                                CompileErrorKind::ArityOrSignatureMismatch,
                            ),
                        );
                    },
                };
                if args.len() != self.functions()[function].params.len() {
                    return Err(
                        CompileError::from_error_kind(CompileErrorKind::ArityOrSignatureMismatch),
                    );
                }
                match self.eval_arguments(args, function) {
                    Ok(operands) => Ok(self.call(function, &operands)),
                    Err(e) => Err(e),
                }
            },
        }
    }

    /// The place of the element at the index that `at` evaluates to, in what
    /// lies at `address` and has type `ty`. See `indexed_spec`.
    pub fn index_place(
        &mut self,
        name: &String,
        address: Operand,
        ty: ResolvedType,
        at: &Expression,
    ) -> (r: Result<(Operand, ResolvedType), CompileError>)
        ensures
            final(self).env() == old(self).env(),
            indexed_spec(
                old(self).env(),
                *name,
                Outcome::done(old(self).stream(), (address, ty)),
                *at,
            ).describes(final(self).stream(), r),
        decreases at, 1nat,
    {
        let (element, size) = match self.element_of(name, ty) {
            Ok(found) => found,
            Err(e) => {
                return Err(e);
            },
        };
        let index = match self.eval_expression(at, Some(&ResolvedType::USize)) {
            Ok((_, value)) => value,
            Err(e) => {
                return Err(e);
            },
        };
        self.offset(address, element, size, index)
    }

    /// Evaluates the arguments of a call to the function at position
    /// `function` and gathers their values. See `eval_args_spec`.
    pub(crate) fn eval_arguments(&mut self, args: &Vec<Located<Expression>>, function: usize) -> (r:
        Result<Vec<Operand>, CompileError>)
        requires
            function < old(self).env().functions.len(),
            args.len() == old(self).env().functions[function as int].params.len(),
        ensures
            final(self).env() == old(self).env(),
            final(self).stream() == eval_args_spec(
                old(self).env(),
                args@,
                old(self).env().functions[function as int].params@,
                0,
                old(self).stream(),
                Seq::empty(),
            ).stream,
            match r {
                Ok(operands) => eval_args_spec(
                    old(self).env(),
                    args@,
                    old(self).env().functions[function as int].params@,
                    0,
                    old(self).stream(),
                    Seq::empty(),
                ).result == Ok::<Seq<Operand>, CompileErrorKind>(operands@),
                Err(e) => eval_args_spec(
                    old(self).env(),
                    args@,
                    old(self).env().functions[function as int].params@,
                    0,
                    old(self).stream(),
                    Seq::empty(),
                ).result matches Err(kind) && e.is_plain(kind),
            },
        decreases args, 1nat,
    {
        let ghost env = self.env();
        let ghost params = env.functions[function as int].params@;
        let ghost whole = eval_args_spec(env, args@, params, 0, self.stream(), Seq::empty());
        let mut operands: Vec<Operand> = Vec::new();
        let mut i: usize = 0;
        while i < args.len()
            invariant
                i <= args.len(),
                args.len() == params.len(),
                function < env.functions.len(),
                params == env.functions[function as int].params@,
                self.env() == env,
                env == old(self).env(),
                whole == eval_args_spec(
                    env,
                    args@,
                    params,
                    0,
                    old(self).stream(),
                    Seq::empty(),
                ),
                whole == eval_args_spec(env, args@, params, i as int, self.stream(), operands@),
            decreases args.len() - i,
        {
            let param = self.functions()[function].params[i].clone();
            let value = match self.eval_expression(&args[i].value, Some(&param)) {
                Ok((_, value)) => value,
                Err(e) => {
                    return Err(e);
                },
            };
            if !value.get_type().same_as(&param) {
                return Err(
                    CompileError::from_error_kind(CompileErrorKind::ArityOrSignatureMismatch),
                );
            }
            match value.operand() {
                Some(operand) => {
                    operands.push(operand);
                },
                None => {
                    return Err(
                        CompileError::from_error_kind(
                            CompileErrorKind::Unrepresentable { ty: param },
                        ),
                    );
                },
            }
            i += 1;
        }
        Ok(operands)
    }
}

} // verus!
