//! Well-formed streams. An instruction may only use what an earlier
//! instruction of the same function body has produced. Lowering emits
//! nothing else: that is proved here, of every expression, statement, body
//! and module.

use vstd::prelude::*;
use crate::ast::{BinaryOp, Expression, Located, ResolvedType, Statement, TopLevel};
use crate::codegen::{Env, Lowered, Outcome};
use crate::expression::{
    arguments, base_spec, binary_spec, call_spec, deref_spec, element_spec, eval_args_spec,
    eval_spec, extends, indexed_spec, lemma_args_append, lemma_base_appends, lemma_deref_appends,
    lemma_eval_appends, lemma_extends_transitive, lemma_indexed_appends, offset_spec,
    place_spec, read_spec,
};
use crate::function::{
    bodies_spec, body_of, body_spec, declared, function_body_spec, lemma_body_appends,
    lemma_statement_appends,
};
use crate::instruction::Instruction;
use crate::signature::{find_function, lemma_find_function_in_range, FunctionSignature};
use crate::statement::{index_of, statement_spec, store_spec};
use crate::types::{resolve_spec, PointerSize, SizeClass};
use crate::value::{Operand, StorageHandle, Value};

verus! {

/// Whether an instruction produces a value that later ones may use. A call
/// does if the function it calls returns one.
pub open spec fn yields(functions: Seq<FunctionSignature>, instruction: Instruction) -> bool {
    match instruction {
        Instruction::Alloca { .. } => true,
        Instruction::Load { .. } => true,
        Instruction::PointerOffset { .. } => true,
        Instruction::Binary { .. } => true,
        Instruction::Call { function, .. } => function < functions.len() && !(
        functions[function as int].return_type is Void),
        _ => false,
    }
}

/// Whether the instruction at position `at` may take `operand`: a constant,
/// or what an instruction produced that stands before `at` and not before
/// `start`, where the function body begins.
pub open spec fn operand_ok(
    functions: Seq<FunctionSignature>,
    stream: Seq<Instruction>,
    start: int,
    at: int,
    operand: Operand,
) -> bool {
    match operand {
        Operand::Constant(_) => true,
        Operand::Value(i) => start <= i < at && i < stream.len() && yields(
            functions,
            stream[i as int],
        ),
    }
}

/// Whether the instruction at position `at` is in order, in a function body
/// that begins at `start`. Its operands must be; a call must name a known
/// function and stand directly behind as many arguments as that function
/// has parameters; and a body is opened at its beginning only.
pub open spec fn instruction_ok(
    functions: Seq<FunctionSignature>,
    stream: Seq<Instruction>,
    start: int,
    at: int,
) -> bool {
    match stream[at] {
        Instruction::Begin { function } => at == start && function < functions.len(),
        Instruction::Alloca { .. } => true,
        Instruction::Load { address, .. } => operand_ok(functions, stream, start, at, address),
        Instruction::Store { address, value, .. } => operand_ok(
            functions,
            stream,
            start,
            at,
            address,
        ) && operand_ok(functions, stream, start, at, value),
        Instruction::PointerOffset { base, index, .. } => operand_ok(
            functions,
            stream,
            start,
            at,
            base,
        ) && operand_ok(functions, stream, start, at, index),
        Instruction::Binary { lhs, rhs, .. } => operand_ok(functions, stream, start, at, lhs)
            && operand_ok(functions, stream, start, at, rhs),
        Instruction::Argument { value } => operand_ok(functions, stream, start, at, value),
        Instruction::Call { function, argument_count } => {
            &&& function < functions.len()
            &&& argument_count == functions[function as int].params@.len()
            &&& start <= at - argument_count
            &&& forall|k: int| at - argument_count <= k < at ==> (#[trigger] stream[k]) is Argument
        },
        Instruction::Return { value, .. } => operand_ok(functions, stream, start, at, value),
        Instruction::ReturnVoid => true,
    }
}

/// Whether everything from `start` on is in order, as part of one function
/// body that begins at `start`.
pub open spec fn segment_ok(
    functions: Seq<FunctionSignature>,
    stream: Seq<Instruction>,
    start: int,
) -> bool {
    &&& 0 <= start <= stream.len()
    &&& forall|at: int|
        start <= at < stream.len() ==> #[trigger] instruction_ok(functions, stream, start, at)
}

/// Whether every variable that has a slot has one that the function body
/// allocated.
pub open spec fn env_ok(env: Env, stream: Seq<Instruction>, start: int) -> bool {
    forall|name: Seq<char>| #[trigger]
        env.variables.contains_key(name) ==> match env.variables[name].storage {
            StorageHandle::Slot(slot) => start <= slot < stream.len()
                && stream[slot as int] is Alloca,
            StorageHandle::Placeholder => true,
        }
}

/// Whether a value, if it holds an operand, holds one that the next
/// instruction may take.
pub open spec fn value_ok(
    functions: Seq<FunctionSignature>,
    stream: Seq<Instruction>,
    start: int,
    value: Value,
) -> bool {
    match value.operand_of() {
        Some(operand) => operand_ok(functions, stream, start, stream.len() as int, operand),
        None => true,
    }
}

/// A stream that extends another agrees with it wherever the other is
/// defined.
pub proof fn lemma_extends_index(after: Seq<Instruction>, before: Seq<Instruction>, k: int)
    requires
        extends(after, before),
        0 <= k < before.len(),
    ensures
        after[k] == before[k],
{
    assert(after.subrange(0, before.len() as int)[k] == before[k]);
}

/// An operand stays in order when instructions are added behind it.
pub proof fn lemma_operand_stays_ok(
    functions: Seq<FunctionSignature>,
    before: Seq<Instruction>,
    after: Seq<Instruction>,
    start: int,
    at: int,
    later: int,
    operand: Operand,
)
    requires
        operand_ok(functions, before, start, at, operand),
        extends(after, before),
        at <= later,
    ensures
        operand_ok(functions, after, start, later, operand),
{
    match operand {
        Operand::Constant(_) => {},
        Operand::Value(i) => {
            lemma_extends_index(after, before, i as int);
        },
    }
}

/// An instruction stays in order when instructions are added behind it.
pub proof fn lemma_instruction_stays_ok(
    functions: Seq<FunctionSignature>,
    before: Seq<Instruction>,
    after: Seq<Instruction>,
    start: int,
    at: int,
)
    requires
        0 <= start <= at < before.len(),
        instruction_ok(functions, before, start, at),
        extends(after, before),
    ensures
        instruction_ok(functions, after, start, at),
{
    lemma_extends_index(after, before, at);
    match before[at] {
        Instruction::Load { address, .. } => {
            lemma_operand_stays_ok(functions, before, after, start, at, at, address);
        },
        Instruction::Store { address, value, .. } => {
            lemma_operand_stays_ok(functions, before, after, start, at, at, address);
            lemma_operand_stays_ok(functions, before, after, start, at, at, value);
        },
        Instruction::PointerOffset { base, index, .. } => {
            lemma_operand_stays_ok(functions, before, after, start, at, at, base);
            lemma_operand_stays_ok(functions, before, after, start, at, at, index);
        },
        Instruction::Binary { lhs, rhs, .. } => {
            lemma_operand_stays_ok(functions, before, after, start, at, at, lhs);
            lemma_operand_stays_ok(functions, before, after, start, at, at, rhs);
        },
        Instruction::Argument { value } => {
            lemma_operand_stays_ok(functions, before, after, start, at, at, value);
        },
        Instruction::Call { function, argument_count } => {
            assert forall|k: int| at - argument_count <= k < at implies (
            #[trigger] after[k]) is Argument by {
                lemma_extends_index(after, before, k);
                assert(before[k] is Argument);
            }
        },
        Instruction::Return { value, .. } => {
            lemma_operand_stays_ok(functions, before, after, start, at, at, value);
        },
        _ => {},
    }
}

/// A segment in order stays in order when an instruction in order is added.
pub proof fn lemma_segment_push(
    functions: Seq<FunctionSignature>,
    stream: Seq<Instruction>,
    start: int,
    instruction: Instruction,
)
    requires
        segment_ok(functions, stream, start),
        instruction_ok(functions, stream.push(instruction), start, stream.len() as int),
    ensures
        segment_ok(functions, stream.push(instruction), start),
{
    let after = stream.push(instruction);
    assert(after.subrange(0, stream.len() as int) =~= stream);
    assert forall|at: int| start <= at < after.len() implies #[trigger] instruction_ok(
        functions,
        after,
        start,
        at,
    ) by {
        if at < stream.len() {
            assert(instruction_ok(functions, stream, start, at));
            lemma_instruction_stays_ok(functions, stream, after, start, at);
        }
    }
}

/// The variables stay in order when instructions are added.
pub proof fn lemma_env_stays_ok(
    env: Env,
    before: Seq<Instruction>,
    after: Seq<Instruction>,
    start: int,
)
    requires
        env_ok(env, before, start),
        extends(after, before),
    ensures
        env_ok(env, after, start),
{
    assert forall|name: Seq<char>| #[trigger]
        env.variables.contains_key(name) implies match env.variables[name].storage {
        StorageHandle::Slot(slot) => start <= slot < after.len() && after[slot as int] is Alloca,
        StorageHandle::Placeholder => true,
    } by {
        match env.variables[name].storage {
            StorageHandle::Slot(slot) => {
                lemma_extends_index(after, before, slot as int);
            },
            StorageHandle::Placeholder => {},
        }
    }
}

/// Following pointers from an address in order emits loads in order and
/// ends at an address in order.
pub proof fn lemma_deref_ok(
    functions: Seq<FunctionSignature>,
    name: String,
    deref_count: u32,
    steps: nat,
    address: Operand,
    ty: ResolvedType,
    stream: Seq<Instruction>,
    start: int,
)
    requires
        segment_ok(functions, stream, start),
        operand_ok(functions, stream, start, stream.len() as int, address),
        deref_spec(name, deref_count, steps, address, ty, stream).stream.len() <= usize::MAX,
    ensures
        ({
            let out = deref_spec(name, deref_count, steps, address, ty, stream);
            &&& segment_ok(functions, out.stream, start)
            &&& out.result matches Ok((found, _)) ==> operand_ok(
                functions,
                out.stream,
                start,
                out.stream.len() as int,
                found,
            )
        }),
    decreases steps,
{
    if steps > 0 {
        match ty {
            ResolvedType::Ptr(pointee) => {
                let load = Instruction::Load { address, size: SizeClass::Address };
                let next = stream.push(load);
                let loaded = Operand::Value(stream.len() as usize);
                lemma_deref_appends(name, deref_count, (steps - 1) as nat, loaded, *pointee, next);
                assert(next.subrange(0, stream.len() as int) =~= stream);
                lemma_operand_stays_ok(
                    functions,
                    stream,
                    next,
                    start,
                    stream.len() as int,
                    stream.len() as int,
                    address,
                );
                lemma_segment_push(functions, stream, start, load);
                lemma_deref_ok(
                    functions,
                    name,
                    deref_count,
                    (steps - 1) as nat,
                    loaded,
                    *pointee,
                    next,
                    start,
                );
            },
            _ => {},
        }
    }
}

/// The place of a variable is in order.
pub proof fn lemma_base_ok(
    env: Env,
    name: String,
    deref_count: u32,
    stream: Seq<Instruction>,
    start: int,
)
    requires
        segment_ok(env.functions, stream, start),
        env_ok(env, stream, start),
        base_spec(env, name, deref_count, stream).stream.len() <= usize::MAX,
    ensures
        ({
            let out = base_spec(env, name, deref_count, stream);
            &&& segment_ok(env.functions, out.stream, start)
            &&& out.result matches Ok((found, _)) ==> operand_ok(
                env.functions,
                out.stream,
                start,
                out.stream.len() as int,
                found,
            )
        }),
{
    if env.variables.contains_key(name@) {
        match resolve_spec(env.variables[name@].ty) {
            None => {},
            Some(ty) => match env.variables[name@].storage {
                StorageHandle::Placeholder => {},
                StorageHandle::Slot(slot) => {
                    lemma_deref_ok(
                        env.functions,
                        name,
                        deref_count,
                        deref_count as nat,
                        Operand::Value(slot),
                        ty,
                        stream,
                        start,
                    );
                },
            },
        }
    }
}

/// Reading from an address in order emits a load in order and yields a value
/// in order.
pub proof fn lemma_read_ok(
    functions: Seq<FunctionSignature>,
    address: Operand,
    ty: ResolvedType,
    stream: Seq<Instruction>,
    pointer_size: PointerSize,
    start: int,
)
    requires
        segment_ok(functions, stream, start),
        operand_ok(functions, stream, start, stream.len() as int, address),
        read_spec(address, ty, stream, pointer_size).stream.len() <= usize::MAX,
    ensures
        ({
            let out = read_spec(address, ty, stream, pointer_size);
            &&& segment_ok(functions, out.stream, start)
            &&& out.result matches Ok(value) ==> value_ok(functions, out.stream, start, value)
        }),
{
    match ty.size_class_of(pointer_size) {
        None => {},
        Some(size) => {
            let load = Instruction::Load { address, size };
            let next = stream.push(load);
            assert(next.subrange(0, stream.len() as int) =~= stream);
            lemma_operand_stays_ok(
                functions,
                stream,
                next,
                start,
                stream.len() as int,
                stream.len() as int,
                address,
            );
            lemma_segment_push(functions, stream, start, load);
        },
    }
}

/// The place of an element is in order if the place indexed and the index
/// are.
pub proof fn lemma_offset_ok(
    functions: Seq<FunctionSignature>,
    address: Operand,
    element: ResolvedType,
    element_size: u64,
    index: Outcome<Value>,
    start: int,
)
    requires
        segment_ok(functions, index.stream, start),
        operand_ok(functions, index.stream, start, index.stream.len() as int, address),
        index.result matches Ok(value) ==> value_ok(functions, index.stream, start, value),
        offset_spec(address, element, element_size, index).stream.len() <= usize::MAX,
    ensures
        ({
            let out = offset_spec(address, element, element_size, index);
            &&& segment_ok(functions, out.stream, start)
            &&& out.result matches Ok((found, _)) ==> operand_ok(
                functions,
                out.stream,
                start,
                out.stream.len() as int,
                found,
            )
        }),
{
    match index.result {
        Err(_) => {},
        Ok(value) => {
            if value.type_of() == ResolvedType::USize {
                let stream = index.stream;
                let load = Instruction::Load { address, size: SizeClass::Address };
                let loaded = stream.push(load);
                let at = value.operand_of().unwrap();
                let offset = Instruction::PointerOffset {
                    base: Operand::Value(stream.len() as usize),
                    index: at,
                    element_size,
                };
                assert(loaded.subrange(0, stream.len() as int) =~= stream);
                lemma_operand_stays_ok(
                    functions,
                    stream,
                    loaded,
                    start,
                    stream.len() as int,
                    stream.len() as int,
                    address,
                );
                lemma_segment_push(functions, stream, start, load);
                let moved = loaded.push(offset);
                assert(moved.subrange(0, loaded.len() as int) =~= loaded);
                lemma_extends_transitive(moved, loaded, stream);
                lemma_operand_stays_ok(
                    functions,
                    stream,
                    moved,
                    start,
                    stream.len() as int,
                    loaded.len() as int,
                    at,
                );
                lemma_segment_push(functions, loaded, start, offset);
            }
        },
    }
}

/// An operation on values in order is in order, and so is its result.
pub proof fn lemma_binary_ok(
    functions: Seq<FunctionSignature>,
    op: BinaryOp,
    left: Value,
    right: Value,
    stream: Seq<Instruction>,
    pointer_size: PointerSize,
    start: int,
)
    requires
        segment_ok(functions, stream, start),
        value_ok(functions, stream, start, left),
        value_ok(functions, stream, start, right),
        binary_spec(op, left, right, stream, pointer_size).stream.len() <= usize::MAX,
    ensures
        ({
            let out = binary_spec(op, left, right, stream, pointer_size);
            &&& segment_ok(functions, out.stream, start)
            &&& out.result matches Ok(value) ==> value_ok(functions, out.stream, start, value)
        }),
{
    let ty = left.type_of();
    if ty == right.type_of() && ty.is_integer() {
        let operation = Instruction::Binary {
            op,
            size: ty.size_class_of(pointer_size).unwrap(),
            signed: ty.is_signed(),
            lhs: left.operand_of().unwrap(),
            rhs: right.operand_of().unwrap(),
        };
        let next = stream.push(operation);
        assert(next.subrange(0, stream.len() as int) =~= stream);
        lemma_operand_stays_ok(
            functions,
            stream,
            next,
            start,
            stream.len() as int,
            stream.len() as int,
            left.operand_of().unwrap(),
        );
        lemma_operand_stays_ok(
            functions,
            stream,
            next,
            start,
            stream.len() as int,
            stream.len() as int,
            right.operand_of().unwrap(),
        );
        lemma_segment_push(functions, stream, start, operation);
    }
}

/// Whether each of the operands may be taken by the next instruction.
pub open spec fn operands_ok(
    functions: Seq<FunctionSignature>,
    stream: Seq<Instruction>,
    start: int,
    operands: Seq<Operand>,
) -> bool {
    forall|k: int|
        0 <= k < operands.len() ==> operand_ok(
            functions,
            stream,
            start,
            stream.len() as int,
            #[trigger] operands[k],
        )
}

/// A call of a known function on as many operands in order as it has
/// parameters is in order, and so is its value.
pub proof fn lemma_call_ok(
    functions: Seq<FunctionSignature>,
    function: int,
    operands: Seq<Operand>,
    stream: Seq<Instruction>,
    start: int,
)
    requires
        segment_ok(functions, stream, start),
        operands_ok(functions, stream, start, operands),
        0 <= function < functions.len(),
        function <= usize::MAX,
        operands.len() == functions[function].params@.len(),
        call_spec(function, operands, functions[function].return_type, stream).stream.len()
            <= usize::MAX,
    ensures
        ({
            let out = call_spec(function, operands, functions[function].return_type, stream);
            &&& segment_ok(functions, out.stream, start)
            &&& out.result matches Ok(value) ==> value_ok(functions, out.stream, start, value)
        }),
{
    let handed = stream + arguments(operands);
    lemma_arguments_ok(functions, operands, operands.len() as int, stream, start);
    assert(stream + arguments(operands.subrange(0, operands.len() as int)) =~= handed);
    let call = Instruction::Call {
        function: function as usize,
        argument_count: operands.len() as usize,
    };
    let out = handed.push(call);
    assert(handed.len() == stream.len() + operands.len());
    assert(out[handed.len() as int] == call);
    assert forall|k: int| handed.len() - operands.len() <= k < handed.len() implies (
    #[trigger] out[k]) is Argument by {
        assert(out[k] == arguments(operands)[k - stream.len()]);
    }
    assert(instruction_ok(functions, out, start, handed.len() as int));
    lemma_segment_push(functions, handed, start, call);
    assert(yields(functions, out[handed.len() as int]) || functions[function].return_type is Void);
}

/// Handing over the first `count` of the operands, which are in order, is in
/// order.
pub proof fn lemma_arguments_ok(
    functions: Seq<FunctionSignature>,
    operands: Seq<Operand>,
    count: int,
    stream: Seq<Instruction>,
    start: int,
)
    requires
        segment_ok(functions, stream, start),
        operands_ok(functions, stream, start, operands),
        0 <= count <= operands.len(),
    ensures
        segment_ok(functions, stream + arguments(operands.subrange(0, count)), start),
    decreases count,
{
    if count == 0 {
        assert(stream + arguments(operands.subrange(0, 0)) =~= stream);
    } else {
        lemma_arguments_ok(functions, operands, count - 1, stream, start);
        let before = stream + arguments(operands.subrange(0, count - 1));
        let argument = Instruction::Argument { value: operands[count - 1] };
        assert(before.push(argument) =~= stream + arguments(operands.subrange(0, count)));
        assert(before.push(argument).subrange(0, stream.len() as int) =~= stream);
        lemma_operand_stays_ok(
            functions,
            stream,
            before.push(argument),
            start,
            stream.len() as int,
            before.len() as int,
            operands[count - 1],
        );
        lemma_segment_push(functions, before, start, argument);
    }
}

/// Operands in order stay in order when instructions are added.
pub proof fn lemma_operands_stay_ok(
    functions: Seq<FunctionSignature>,
    before: Seq<Instruction>,
    after: Seq<Instruction>,
    start: int,
    operands: Seq<Operand>,
)
    requires
        operands_ok(functions, before, start, operands),
        extends(after, before),
    ensures
        operands_ok(functions, after, start, operands),
{
    assert forall|k: int| 0 <= k < operands.len() implies operand_ok(
        functions,
        after,
        start,
        after.len() as int,
        #[trigger] operands[k],
    ) by {
        lemma_operand_stays_ok(
            functions,
            before,
            after,
            start,
            before.len() as int,
            after.len() as int,
            operands[k],
        );
    }
}

/// A value in order stays in order when instructions are added.
pub proof fn lemma_value_stays_ok(
    functions: Seq<FunctionSignature>,
    before: Seq<Instruction>,
    after: Seq<Instruction>,
    start: int,
    value: Value,
)
    requires
        value_ok(functions, before, start, value),
        extends(after, before),
    ensures
        value_ok(functions, after, start, value),
{
    match value.operand_of() {
        Some(operand) => {
            lemma_operand_stays_ok(
                functions,
                before,
                after,
                start,
                before.len() as int,
                after.len() as int,
                operand,
            );
        },
        None => {},
    }
}

/// Evaluation keeps a stream in order. Started on a function body that is in
/// order, with variables whose slots lie in that body, the evaluation of any
/// expression leaves the body in order, whether it succeeds or fails, and a
/// value that it yields may be used by what comes next.
pub proof fn lemma_eval_ok(
    env: Env,
    expr: Expression,
    expected: Option<ResolvedType>,
    stream: Seq<Instruction>,
    start: int,
)
    requires
        segment_ok(env.functions, stream, start),
        env_ok(env, stream, start),
        env.functions.len() <= usize::MAX,
        eval_spec(env, expr, expected, stream).stream.len() <= usize::MAX,
    ensures
        ({
            let out = eval_spec(env, expr, expected, stream);
            &&& segment_ok(env.functions, out.stream, start)
            &&& out.result matches Ok(value) ==> value_ok(env.functions, out.stream, start, value)
        }),
    decreases expr, 0nat,
{
    let functions = env.functions;
    match expr {
        Expression::NumberLiteral { .. } => {},
        Expression::VariableRef { deref_count, index_access, name } => {
            let base = base_spec(env, name, deref_count, stream);
            lemma_base_appends(env, name, deref_count, stream);
            match index_access {
                None => {
                    lemma_base_ok(env, name, deref_count, stream, start);
                    match base.result {
                        Err(_) => {},
                        Ok((address, ty)) => {
                            lemma_read_ok(
                                functions,
                                address,
                                ty,
                                base.stream,
                                env.pointer_size,
                                start,
                            );
                        },
                    }
                },
                Some(index) => {
                    let place = indexed_spec(env, name, base, *index.value);
                    lemma_indexed_appends(env, name, base, *index.value);
                    lemma_base_ok(env, name, deref_count, stream, start);
                    lemma_env_stays_ok(env, stream, base.stream, start);
                    lemma_indexed_ok(env, name, base, *index.value, start);
                    match place.result {
                        Err(_) => {},
                        Ok((address, ty)) => {
                            lemma_read_ok(
                                functions,
                                address,
                                ty,
                                place.stream,
                                env.pointer_size,
                                start,
                            );
                        },
                    }
                },
            }
        },
        Expression::BinaryExpr { op, args } => {
            if args@.len() == 2 {
                let lhs = eval_spec(env, args@[0].value, expected, stream);
                lemma_eval_appends(env, args@[0].value, expected, stream);
                match lhs.result {
                    Err(_) => {
                        lemma_eval_ok(env, args@[0].value, expected, stream, start);
                    },
                    Ok(left) => {
                        let rhs = eval_spec(env, args@[1].value, expected, lhs.stream);
                        lemma_eval_appends(env, args@[1].value, expected, lhs.stream);
                        lemma_eval_ok(env, args@[0].value, expected, stream, start);
                        lemma_env_stays_ok(env, stream, lhs.stream, start);
                        lemma_eval_ok(env, args@[1].value, expected, lhs.stream, start);
                        match rhs.result {
                            Err(_) => {},
                            Ok(right) => {
                                lemma_value_stays_ok(
                                    functions,
                                    lhs.stream,
                                    rhs.stream,
                                    start,
                                    left,
                                );
                                lemma_binary_ok(
                                    functions,
                                    op,
                                    left,
                                    right,
                                    rhs.stream,
                                    env.pointer_size,
                                    start,
                                );
                            },
                        }
                    },
                }
            }
        },
        Expression::CallExpr { name, args } => {
            match find_function(functions, name@) {
                None => {},
                Some(function) => {
                    lemma_find_function_in_range(functions, name@);
                    let params = functions[function].params@;
                    if args@.len() == params.len() {
                        let evaluated = eval_args_spec(
                            env,
                            args@,
                            params,
                            0,
                            stream,
                            Seq::empty(),
                        );
                        lemma_args_ok(env, args@, params, 0, stream, Seq::empty(), start);
                        match evaluated.result {
                            Err(_) => {},
                            Ok(operands) => {
                                lemma_call_ok(
                                    functions,
                                    function,
                                    operands,
                                    evaluated.stream,
                                    start,
                                );
                            },
                        }
                    }
                },
            }
        },
    }
}

/// Finding the place of an element keeps a stream in order, and the place
/// found may be used by what comes next.
pub proof fn lemma_indexed_ok(
    env: Env,
    name: String,
    base: Outcome<(Operand, ResolvedType)>,
    at: Expression,
    start: int,
)
    requires
        segment_ok(env.functions, base.stream, start),
        env_ok(env, base.stream, start),
        base.result matches Ok((address, _)) ==> operand_ok(
            env.functions,
            base.stream,
            start,
            base.stream.len() as int,
            address,
        ),
        env.functions.len() <= usize::MAX,
        indexed_spec(env, name, base, at).stream.len() <= usize::MAX,
    ensures
        ({
            let out = indexed_spec(env, name, base, at);
            &&& segment_ok(env.functions, out.stream, start)
            &&& out.result matches Ok((found, _)) ==> operand_ok(
                env.functions,
                out.stream,
                start,
                out.stream.len() as int,
                found,
            )
        }),
    decreases at, 1nat,
{
    match base.result {
        Err(_) => {},
        Ok((address, ty)) => match element_spec(name, ty, env.pointer_size) {
            Err(_) => {},
            Ok((element, size)) => {
                let index = eval_spec(env, at, Some(ResolvedType::USize), base.stream);
                lemma_eval_appends(env, at, Some(ResolvedType::USize), base.stream);
                lemma_eval_ok(env, at, Some(ResolvedType::USize), base.stream, start);
                lemma_operand_stays_ok(
                    env.functions,
                    base.stream,
                    index.stream,
                    start,
                    base.stream.len() as int,
                    index.stream.len() as int,
                    address,
                );
                lemma_offset_ok(env.functions, address, element, size, index, start);
            },
        },
    }
}

/// Evaluating arguments keeps a stream in order, and the operands gathered
/// may be handed to the call: there is one for each parameter.
pub proof fn lemma_args_ok(
    env: Env,
    args: Seq<Located<Expression>>,
    params: Seq<ResolvedType>,
    i: int,
    stream: Seq<Instruction>,
    operands: Seq<Operand>,
    start: int,
)
    requires
        segment_ok(env.functions, stream, start),
        env_ok(env, stream, start),
        operands_ok(env.functions, stream, start, operands),
        0 <= i <= args.len(),
        args.len() == params.len(),
        operands.len() == i,
        env.functions.len() <= usize::MAX,
        eval_args_spec(env, args, params, i, stream, operands).stream.len() <= usize::MAX,
    ensures
        ({
            let out = eval_args_spec(env, args, params, i, stream, operands);
            &&& segment_ok(env.functions, out.stream, start)
            &&& out.result matches Ok(gathered) ==> gathered.len() == args.len() && operands_ok(
                env.functions,
                out.stream,
                start,
                gathered,
            )
        }),
    decreases args, args.len() - i,
{
    if i < args.len() {
        let argument = eval_spec(env, args[i].value, Some(params[i]), stream);
        lemma_eval_appends(env, args[i].value, Some(params[i]), stream);
        match argument.result {
            Err(_) => {
                lemma_eval_ok(env, args[i].value, Some(params[i]), stream, start);
            },
            Ok(value) => {
                if value.type_of() == params[i] {
                    match value.operand_of() {
                        None => {
                            lemma_eval_ok(env, args[i].value, Some(params[i]), stream, start);
                        },
                        Some(operand) => {
                            let gathered = operands.push(operand);
                            lemma_args_append(
                                env,
                                args,
                                params,
                                i + 1,
                                argument.stream,
                                gathered,
                            );
                            lemma_eval_ok(env, args[i].value, Some(params[i]), stream, start);
                            lemma_env_stays_ok(env, stream, argument.stream, start);
                            lemma_operands_stay_ok(
                                env.functions,
                                stream,
                                argument.stream,
                                start,
                                operands,
                            );
                            assert forall|k: int| 0 <= k < gathered.len() implies operand_ok(
                                env.functions,
                                argument.stream,
                                start,
                                argument.stream.len() as int,
                                #[trigger] gathered[k],
                            ) by {
                                if k < operands.len() {
                                    assert(gathered[k] == operands[k]);
                                }
                            }
                            lemma_args_ok(
                                env,
                                args,
                                params,
                                i + 1,
                                argument.stream,
                                gathered,
                                start,
                            );
                        },
                    }
                } else {
                    lemma_eval_ok(env, args[i].value, Some(params[i]), stream, start);
                }
            },
        }
    }
}

/// Storing a value in order at an address in order is in order.
pub proof fn lemma_store_ok(
    functions: Seq<FunctionSignature>,
    address: Operand,
    ty: ResolvedType,
    value: Value,
    stream: Seq<Instruction>,
    pointer_size: PointerSize,
    start: int,
)
    requires
        segment_ok(functions, stream, start),
        operand_ok(functions, stream, start, stream.len() as int, address),
        value_ok(functions, stream, start, value),
        value.type_of() == ty,
    ensures
        segment_ok(functions, store_spec(address, ty, value, stream, pointer_size).stream, start),
{
    match ty.size_class_of(pointer_size) {
        None => {},
        Some(size) => {
            let stored = value.operand_of().unwrap();
            let store = Instruction::Store { address, value: stored, size };
            let next = stream.push(store);
            assert(next.subrange(0, stream.len() as int) =~= stream);
            lemma_operand_stays_ok(
                functions,
                stream,
                next,
                start,
                stream.len() as int,
                stream.len() as int,
                address,
            );
            lemma_operand_stays_ok(
                functions,
                stream,
                next,
                start,
                stream.len() as int,
                stream.len() as int,
                stored,
            );
            lemma_segment_push(functions, stream, start, store);
        },
    }
}

/// Lowering a statement keeps a stream in order, and the variables too: a
/// declaration binds its name to a slot that it has just allocated.
pub proof fn lemma_statement_ok(
    env: Env,
    statement: Statement,
    stream: Seq<Instruction>,
    start: int,
)
    requires
        segment_ok(env.functions, stream, start),
        env_ok(env, stream, start),
        env.functions.len() <= usize::MAX,
        statement_spec(env, statement, stream).stream.len() <= usize::MAX,
    ensures
        ({
            let out = statement_spec(env, statement, stream);
            &&& segment_ok(env.functions, out.stream, start)
            &&& env_ok(Env { variables: out.variables, ..env }, out.stream, start)
        }),
{
    let functions = env.functions;
    let out = statement_spec(env, statement, stream);
    lemma_statement_appends(env, statement, stream);
    match statement {
        Statement::VariableDecl { ty, name, value } => {
            match resolve_spec(ty.value) {
                None => {},
                Some(declared) => {
                    let initial = eval_spec(env, value.value, Some(declared), stream);
                    lemma_eval_appends(env, value.value, Some(declared), stream);
                    match initial.result {
                        Err(_) => {
                            lemma_eval_ok(env, value.value, Some(declared), stream, start);
                            lemma_env_stays_ok(env, stream, initial.stream, start);
                        },
                        Ok(evaluated) => {
                            match declared.size_class_of(env.pointer_size) {
                                None => {
                                    lemma_eval_ok(env, value.value, Some(declared), stream, start);
                                    lemma_env_stays_ok(env, stream, initial.stream, start);
                                },
                                Some(size) => {
                                    if evaluated.type_of() == declared {
                                        let alloca = Instruction::Alloca { size };
                                        let allocated = initial.stream.push(alloca);
                                        let slot = Operand::Value(initial.stream.len() as usize);
                                        assert(allocated.subrange(0, initial.stream.len() as int)
                                            =~= initial.stream);
                                        assert(extends(out.stream, allocated));
                                        lemma_eval_ok(
                                            env,
                                            value.value,
                                            Some(declared),
                                            stream,
                                            start,
                                        );
                                        lemma_segment_push(
                                            functions,
                                            initial.stream,
                                            start,
                                            alloca,
                                        );
                                        lemma_value_stays_ok(
                                            functions,
                                            initial.stream,
                                            allocated,
                                            start,
                                            evaluated,
                                        );
                                        lemma_store_ok(
                                            functions,
                                            slot,
                                            declared,
                                            evaluated,
                                            allocated,
                                            env.pointer_size,
                                            start,
                                        );
                                        lemma_env_stays_ok(env, stream, out.stream, start);
                                        lemma_extends_index(
                                            out.stream,
                                            allocated,
                                            initial.stream.len() as int,
                                        );
                                    } else {
                                        lemma_eval_ok(
                                            env,
                                            value.value,
                                            Some(declared),
                                            stream,
                                            start,
                                        );
                                        lemma_env_stays_ok(env, stream, initial.stream, start);
                                    }
                                },
                            }
                        },
                    }
                },
            }
        },
        Statement::Return { expression } => {
            match expression {
                None => {
                    lemma_segment_push(functions, stream, start, Instruction::ReturnVoid);
                },
                Some(returned) => {
                    let evaluated = eval_spec(env, returned.value, None, stream);
                    lemma_eval_ok(env, returned.value, None, stream, start);
                    match evaluated.result {
                        Err(_) => {},
                        Ok(value) => {
                            let instruction = match value.type_of().size_class_of(
                                env.pointer_size,
                            ) {
                                Some(size) => Instruction::Return {
                                    value: value.operand_of().unwrap(),
                                    size,
                                },
                                None => Instruction::ReturnVoid,
                            };
                            let next = evaluated.stream.push(instruction);
                            assert(next.subrange(0, evaluated.stream.len() as int)
                                =~= evaluated.stream);
                            lemma_value_stays_ok(functions, evaluated.stream, next, start, value);
                            match value.operand_of() {
                                Some(operand) => {
                                    lemma_operand_stays_ok(
                                        functions,
                                        evaluated.stream,
                                        next,
                                        start,
                                        evaluated.stream.len() as int,
                                        evaluated.stream.len() as int,
                                        operand,
                                    );
                                },
                                None => {},
                            }
                            lemma_segment_push(functions, evaluated.stream, start, instruction);
                        },
                    }
                },
            }
            lemma_env_stays_ok(env, stream, out.stream, start);
        },
        Statement::Asignment { deref_count, index_access, name, expression } => {
            let base = base_spec(env, name, deref_count, stream);
            let place = place_spec(env, name, deref_count, index_of(index_access), stream);
            lemma_base_appends(env, name, deref_count, stream);
            match index_access {
                None => {
                    lemma_place_bound(env, expression.value, place, out);
                    lemma_base_ok(env, name, deref_count, stream, start);
                },
                Some(index) => {
                    lemma_indexed_appends(env, name, base, index.value);
                    lemma_place_bound(env, expression.value, place, out);
                    lemma_base_ok(env, name, deref_count, stream, start);
                    lemma_env_stays_ok(env, stream, base.stream, start);
                    lemma_indexed_ok(env, name, base, index.value, start);
                    lemma_extends_transitive(place.stream, base.stream, stream);
                },
            }
            match place.result {
                Err(_) => {},
                Ok((address, target)) => {
                    let evaluated = eval_spec(env, expression.value, Some(target), place.stream);
                    lemma_eval_appends(env, expression.value, Some(target), place.stream);
                    lemma_env_stays_ok(env, stream, place.stream, start);
                    lemma_eval_ok(env, expression.value, Some(target), place.stream, start);
                    match evaluated.result {
                        Err(_) => {},
                        Ok(value) => {
                            if value.type_of() == target {
                                lemma_operand_stays_ok(
                                    functions,
                                    place.stream,
                                    evaluated.stream,
                                    start,
                                    place.stream.len() as int,
                                    evaluated.stream.len() as int,
                                    address,
                                );
                                lemma_store_ok(
                                    functions,
                                    address,
                                    target,
                                    value,
                                    evaluated.stream,
                                    env.pointer_size,
                                    start,
                                );
                            }
                        },
                    }
                },
            }
            lemma_env_stays_ok(env, stream, out.stream, start);
        },
        Statement::Effect { expression } => {
            lemma_eval_ok(env, expression.value, None, stream, start);
            lemma_env_stays_ok(env, stream, out.stream, start);
        },
    }
}

/// What an assignment leaves is no shorter than what finding its place left.
proof fn lemma_place_bound(
    env: Env,
    expression: Expression,
    place: Outcome<(Operand, ResolvedType)>,
    out: Lowered,
)
    requires
        match place.result {
            Err(_) => out.stream == place.stream,
            Ok((address, target)) => extends(
                out.stream,
                eval_spec(env, expression, Some(target), place.stream).stream,
            ),
        },
    ensures
        place.stream.len() <= out.stream.len(),
{
    match place.result {
        Err(_) => {},
        Ok((address, target)) => {
            lemma_eval_appends(env, expression, Some(target), place.stream);
        },
    }
}

/// Lowering the statements of a body keeps the body and its variables in
/// order.
pub proof fn lemma_body_ok(
    env: Env,
    body: Seq<Located<Statement>>,
    from: int,
    stream: Seq<Instruction>,
    start: int,
)
    requires
        segment_ok(env.functions, stream, start),
        env_ok(env, stream, start),
        env.functions.len() <= usize::MAX,
        body_spec(env, body, from, stream).stream.len() <= usize::MAX,
    ensures
        ({
            let out = body_spec(env, body, from, stream);
            &&& segment_ok(env.functions, out.stream, start)
            &&& env_ok(Env { variables: out.variables, ..env }, out.stream, start)
        }),
    decreases body.len() - from,
{
    if !(from < 0 || from >= body.len()) {
        let step = statement_spec(env, body[from].value, stream);
        let next = Env { variables: step.variables, ..env };
        if step.result is Ok {
            lemma_body_appends(next, body, from + 1, step.stream);
        }
        lemma_statement_ok(env, body[from].value, stream, start);
        if step.result is Ok {
            lemma_body_ok(next, body, from + 1, step.stream, start);
        }
    } else {
        assert((Env { variables: env.variables, ..env }) == env);
    }
}

/// The body of a known function is lowered to a segment in order: from its
/// opening on, every instruction uses only what the body itself produced
/// before.
pub proof fn lemma_function_body_ok(
    env: Env,
    function: usize,
    body: Seq<Located<Statement>>,
    stream: Seq<Instruction>,
)
    requires
        function < env.functions.len(),
        env.functions.len() <= usize::MAX,
        function_body_spec(env, function, body, stream).stream.len() <= usize::MAX,
    ensures
        segment_ok(
            env.functions,
            function_body_spec(env, function, body, stream).stream,
            stream.len() as int,
        ),
        extends(function_body_spec(env, function, body, stream).stream, stream),
        function_body_spec(env, function, body, stream).stream[stream.len() as int] is Begin,
{
    let fresh = Env { variables: Map::empty(), ..env };
    let opened = stream.push(Instruction::Begin { function });
    let start = stream.len() as int;
    assert(opened.subrange(0, start) =~= stream);
    assert(segment_ok(env.functions, opened, start)) by {
        assert forall|at: int| start <= at < opened.len() implies #[trigger] instruction_ok(
            env.functions,
            opened,
            start,
            at,
        ) by {}
    }
    lemma_body_appends(fresh, body, 0, opened);
    lemma_body_ok(fresh, body, 0, opened, start);
    let out = body_spec(fresh, body, 0, opened).stream;
    lemma_extends_transitive(out, opened, stream);
    lemma_extends_index(out, opened, start);
}

/// The position at which the function body begins that the instruction at
/// `at` belongs to: that of the last opening up to there, or the beginning of
/// the stream.
pub open spec fn frame_of(stream: Seq<Instruction>, at: int) -> int
    decreases at,
{
    if at <= 0 {
        0
    } else if stream[at] is Begin {
        at
    } else {
        frame_of(stream, at - 1)
    }
}

/// Whether a whole stream is in order: every instruction uses only what the
/// function body it belongs to has produced before it.
pub open spec fn well_formed(functions: Seq<FunctionSignature>, stream: Seq<Instruction>) -> bool {
    forall|at: int|
        0 <= at < stream.len() ==> #[trigger] instruction_ok(
            functions,
            stream,
            frame_of(stream, at),
            at,
        )
}

pub proof fn lemma_frame_in_range(stream: Seq<Instruction>, at: int)
    requires
        0 <= at,
    ensures
        0 <= frame_of(stream, at) <= at,
    decreases at,
{
    if at > 0 && !(stream[at] is Begin) {
        lemma_frame_in_range(stream, at - 1);
    }
}

/// Where a function body begins does not depend on what comes later.
pub proof fn lemma_frame_stays(after: Seq<Instruction>, before: Seq<Instruction>, at: int)
    requires
        extends(after, before),
        0 <= at < before.len(),
    ensures
        frame_of(after, at) == frame_of(before, at),
    decreases at,
{
    lemma_extends_index(after, before, at);
    if at > 0 && !(before[at] is Begin) {
        lemma_frame_stays(after, before, at - 1);
    }
}

/// Inside a segment in order that an opening begins, every instruction
/// belongs to the body that the opening begins.
pub proof fn lemma_frame_of_segment(
    functions: Seq<FunctionSignature>,
    stream: Seq<Instruction>,
    start: int,
    at: int,
)
    requires
        segment_ok(functions, stream, start),
        start <= at < stream.len(),
        start == 0 || stream[start] is Begin,
    ensures
        frame_of(stream, at) == start,
    decreases at,
{
    if at > start {
        assert(instruction_ok(functions, stream, start, at));
        lemma_frame_of_segment(functions, stream, start, at - 1);
    }
}

/// A stream in order, followed by a function body in order, is in order.
pub proof fn lemma_segment_joins(
    functions: Seq<FunctionSignature>,
    before: Seq<Instruction>,
    after: Seq<Instruction>,
)
    requires
        well_formed(functions, before),
        extends(after, before),
        segment_ok(functions, after, before.len() as int),
        before.len() < after.len() ==> before.len() == 0 || after[before.len() as int] is Begin,
    ensures
        well_formed(functions, after),
{
    assert forall|at: int| 0 <= at < after.len() implies #[trigger] instruction_ok(
        functions,
        after,
        frame_of(after, at),
        at,
    ) by {
        if at < before.len() {
            lemma_frame_stays(after, before, at);
            lemma_frame_in_range(before, at);
            assert(instruction_ok(functions, before, frame_of(before, at), at));
            lemma_instruction_stays_ok(functions, before, after, frame_of(before, at), at);
        } else {
            lemma_frame_of_segment(functions, after, before.len() as int, at);
            assert(instruction_ok(functions, after, before.len() as int, at));
        }
    }
}

/// Lowering bodies only adds to the stream.
pub proof fn lemma_bodies_append(
    env: Env,
    toplevels: Seq<Located<TopLevel>>,
    from: int,
    base: int,
    stream: Seq<Instruction>,
)
    ensures
        extends(bodies_spec(env, toplevels, from, base, stream).stream, stream),
    decreases toplevels.len() - from,
{
    if !(from < 0 || from >= toplevels.len()) {
        let function = (base + from) as usize;
        let body = body_of(toplevels[from]);
        let lowered = function_body_spec(env, function, body, stream);
        let opened = stream.push(Instruction::Begin { function });
        assert(opened.subrange(0, stream.len() as int) =~= stream);
        lemma_body_appends(Env { variables: Map::empty(), ..env }, body, 0, opened);
        lemma_extends_transitive(lowered.stream, opened, stream);
        if lowered.result is Ok {
            let next = Env { variables: lowered.variables, ..env };
            lemma_bodies_append(next, toplevels, from + 1, base, lowered.stream);
            lemma_extends_transitive(
                bodies_spec(env, toplevels, from, base, stream).stream,
                lowered.stream,
                stream,
            );
        }
    }
}

/// Every stream that lowering emits is in order. Lowering the bodies of a
/// module, whose functions all stand in the signature table, onto a stream in
/// order leaves a stream in order, whether the lowering succeeds or fails.
pub proof fn lemma_bodies_ok(
    env: Env,
    toplevels: Seq<Located<TopLevel>>,
    from: int,
    base: int,
    stream: Seq<Instruction>,
)
    requires
        well_formed(env.functions, stream),
        0 <= from,
        0 <= base,
        base + toplevels.len() <= env.functions.len() <= usize::MAX,
        bodies_spec(env, toplevels, from, base, stream).stream.len() <= usize::MAX,
    ensures
        well_formed(env.functions, bodies_spec(env, toplevels, from, base, stream).stream),
    decreases toplevels.len() - from,
{
    if !(from < 0 || from >= toplevels.len()) {
        let function = (base + from) as usize;
        let body = body_of(toplevels[from]);
        let lowered = function_body_spec(env, function, body, stream);
        let next = Env { variables: lowered.variables, ..env };
        if lowered.result is Ok {
            lemma_bodies_append(next, toplevels, from + 1, base, lowered.stream);
        }
        lemma_function_body_ok(env, function, body, stream);
        lemma_segment_joins(env.functions, stream, lowered.stream);
        if lowered.result is Ok {
            lemma_bodies_ok(next, toplevels, from + 1, base, lowered.stream);
        }
    }
}

/// Whether `more` is `functions` with signatures added at its end.
pub open spec fn grows(more: Seq<FunctionSignature>, functions: Seq<FunctionSignature>) -> bool {
    &&& functions.len() <= more.len()
    &&& forall|i: int| 0 <= i < functions.len() ==> #[trigger] more[i] == functions[i]
}

/// A stream in order stays in order when more functions become known.
pub proof fn lemma_more_functions_keep_order(
    functions: Seq<FunctionSignature>,
    more: Seq<FunctionSignature>,
    stream: Seq<Instruction>,
)
    requires
        well_formed(functions, stream),
        grows(more, functions),
    ensures
        well_formed(more, stream),
{
    assert forall|at: int| 0 <= at < stream.len() implies #[trigger] instruction_ok(
        more,
        stream,
        frame_of(stream, at),
        at,
    ) by {
        let start = frame_of(stream, at);
        assert(instruction_ok(functions, stream, start, at));
        assert forall|operand: Operand|
            operand_ok(functions, stream, start, at, operand) implies operand_ok(
            more,
            stream,
            start,
            at,
            operand,
        ) by {
            match operand {
                Operand::Constant(_) => {},
                Operand::Value(i) => {
                    match stream[i as int] {
                        Instruction::Call { function, .. } => {
                            assert(more[function as int] == functions[function as int]);
                        },
                        _ => {},
                    }
                },
            }
        }
        match stream[at] {
            Instruction::Call { function, .. } => {
                assert(more[function as int] == functions[function as int]);
            },
            _ => {},
        }
    }
}

/// Every module is lowered to a stream in order. Once the signatures of a
/// module have been declared on top of those known before, lowering its
/// bodies onto a stream in order leaves a stream in order, whether the
/// lowering succeeds or fails.
pub proof fn lemma_module_ok(
    before: Env,
    toplevels: Seq<Located<TopLevel>>,
    known: Seq<FunctionSignature>,
    stream: Seq<Instruction>,
)
    requires
        well_formed(before.functions, stream),
        declared(before.functions, known, toplevels, toplevels.len() as int),
        known.len() <= usize::MAX,
        bodies_spec(
            Env { functions: known, ..before },
            toplevels,
            0,
            before.functions.len() as int,
            stream,
        ).stream.len() <= usize::MAX,
    ensures
        well_formed(
            known,
            bodies_spec(
                Env { functions: known, ..before },
                toplevels,
                0,
                before.functions.len() as int,
                stream,
            ).stream,
        ),
{
    assert forall|i: int| 0 <= i < before.functions.len() implies #[trigger] known[i]
        == before.functions[i] by {
        assert(known.subrange(0, before.functions.len() as int)[i] == before.functions[i]);
    }
    lemma_more_functions_keep_order(before.functions, known, stream);
    lemma_bodies_ok(
        Env { functions: known, ..before },
        toplevels,
        0,
        before.functions.len() as int,
        stream,
    );
}

} // verus!
