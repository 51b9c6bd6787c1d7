use codegen_core::ast::{
    BinaryOp, Expression, Function, FunctionDecl, GenericArgument, Located, Module, Position,
    Range, ResolvedType, Statement, TopLevel, UnresolvedType,
};
use codegen_core::codegen::LLVMCodegenerator;
use codegen_core::error::{CompileErrorKind, ContextType};
use codegen_core::instruction::Instruction;
use codegen_core::types::{PointerSize, SizeClass};
use codegen_core::value::{Operand, StorageHandle, Value};
use std::collections::HashMap;

fn at<T>(value: T) -> Located<T> {
    Located { range: Range::default(), value }
}

fn named(name: &str) -> UnresolvedType {
    UnresolvedType::TypeRef { name: name.to_string(), generic_args: None }
}

fn pointer(inner: UnresolvedType) -> UnresolvedType {
    UnresolvedType::Ptr(Box::new(inner))
}

fn ptr(inner: ResolvedType) -> ResolvedType {
    ResolvedType::Ptr(Box::new(inner))
}

fn num(text: &str) -> Expression {
    Expression::NumberLiteral { value: text.to_string() }
}

fn var(name: &str) -> Expression {
    Expression::VariableRef { deref_count: 0, index_access: None, name: name.to_string() }
}

fn deref(count: u32, name: &str) -> Expression {
    Expression::VariableRef { deref_count: count, index_access: None, name: name.to_string() }
}

fn indexed(name: &str, index: Expression) -> Expression {
    Expression::VariableRef {
        deref_count: 0,
        index_access: Some(at(Box::new(index))),
        name: name.to_string(),
    }
}

fn binary(op: BinaryOp, left: Expression, right: Expression) -> Expression {
    Expression::BinaryExpr { op, args: vec![at(left), at(right)] }
}

fn call(name: &str, args: Vec<Expression>) -> Expression {
    Expression::CallExpr { name: name.to_string(), args: args.into_iter().map(at).collect() }
}

fn declare(ty: UnresolvedType, name: &str, value: Expression) -> Statement {
    Statement::VariableDecl { ty: at(ty), name: name.to_string(), value: at(value) }
}

fn assign(count: u32, name: &str, index: Option<Expression>, value: Expression) -> Statement {
    Statement::Asignment {
        deref_count: count,
        index_access: index.map(at),
        name: name.to_string(),
        expression: at(value),
    }
}

fn ret(value: Option<Expression>) -> Statement {
    Statement::Return { expression: value.map(at) }
}

fn effect(value: Expression) -> Statement {
    Statement::Effect { expression: at(value) }
}

fn decl(name: &str, params: Vec<(&str, UnresolvedType)>, return_type: UnresolvedType) -> FunctionDecl {
    FunctionDecl {
        name: name.to_string(),
        generic_args: None,
        params: params.into_iter().map(|(n, t)| (at(t), n.to_string())).collect(),
        return_type: at(return_type),
    }
}

fn function(d: FunctionDecl, body: Vec<Statement>) -> Function {
    Function { decl: d, body: body.into_iter().map(at).collect() }
}

fn generator() -> LLVMCodegenerator {
    LLVMCodegenerator::new(PointerSize::Bits64)
}

/// A generator that knows `buffer(): [u32]`, `byte(): u8`, `nothing(): void`
/// and `add(u32, u32): u32`, at positions 0 to 3.
fn generator_with_functions() -> LLVMCodegenerator {
    let mut g = generator();
    assert_eq!(g.declare_function(&decl("buffer", vec![], pointer(named("u32")))), Ok(0));
    assert_eq!(g.declare_function(&decl("byte", vec![], named("u8"))), Ok(1));
    assert_eq!(g.declare_function(&decl("nothing", vec![], named("void"))), Ok(2));
    assert_eq!(
        g.declare_function(&decl(
            "add",
            vec![("a", named("u32")), ("b", named("u32"))],
            named("u32")
        )),
        Ok(3)
    );
    g
}

fn width(size: SizeClass) -> u64 {
    size.bytes(PointerSize::Bits64)
}

/// Performs a stream on a small machine: slots lie 64 bytes apart from
/// address 4096 on, memory is kept by address, and a call returns what
/// `returns` gives for its position in the signature table.
fn run(stream: &[Instruction], returns: &dyn Fn(usize) -> u64) -> (Vec<Option<u64>>, HashMap<u64, u64>) {
    let mut values: Vec<Option<u64>> = Vec::new();
    let mut memory: HashMap<u64, u64> = HashMap::new();
    let mut next_slot = 4096u64;
    let get = |values: &Vec<Option<u64>>, operand: Operand| match operand {
        Operand::Constant(c) => c,
        Operand::Value(i) => values[i].unwrap(),
    };
    for instruction in stream {
        let produced = match *instruction {
            Instruction::Begin { .. } => None,
            Instruction::Alloca { .. } => {
                next_slot += 64;
                Some(next_slot)
            }
            Instruction::Load { address, size } => {
                let a = get(&values, address);
                let raw = *memory.get(&a).unwrap();
                Some(if width(size) == 8 { raw } else { raw & ((1u64 << (8 * width(size))) - 1) })
            }
            Instruction::Store { address, value, .. } => {
                let a = get(&values, address);
                let v = get(&values, value);
                memory.insert(a, v);
                None
            }
            Instruction::PointerOffset { base, index, element_size } => {
                Some(get(&values, base) + get(&values, index) * element_size)
            }
            Instruction::Binary { op, lhs, rhs, .. } => {
                let (l, r) = (get(&values, lhs), get(&values, rhs));
                Some(match op {
                    BinaryOp::Add => l.wrapping_add(r),
                    BinaryOp::Sub => l.wrapping_sub(r),
                    BinaryOp::Mul => l.wrapping_mul(r),
                    BinaryOp::Div => l / r,
                })
            }
            Instruction::Argument { .. } => None,
            Instruction::Call { function, .. } => Some(returns(function)),
            Instruction::Return { .. } => None,
            Instruction::ReturnVoid => None,
        };
        values.push(produced);
    }
    (values, memory)
}

fn value_of(v: &Value) -> Operand {
    v.operand().unwrap()
}

#[test]
fn declared_u32_reads_back_as_u32_value_5() {
    let mut g = generator();
    assert_eq!(g.gen_statement(declare(named("u32"), "x", num("5"))), Ok(()));
    assert_eq!(
        g.instructions().as_slice(),
        &[
            Instruction::Alloca { size: SizeClass::Word },
            Instruction::Store {
                address: Operand::Value(0),
                value: Operand::Constant(5),
                size: SizeClass::Word
            },
        ]
    );
    let (ty, value) = g.eval_expression(&var("x"), None).unwrap();
    assert_eq!(ty, ResolvedType::U32);
    assert_eq!(value, Value::U32Value(Operand::Value(2)));
    assert_eq!(
        g.instructions()[2],
        Instruction::Load { address: Operand::Value(0), size: SizeClass::Word }
    );
    let (values, _) = run(g.instructions(), &|_| 0);
    assert_eq!(values[2], Some(5));
}

#[test]
fn store_through_one_pointer_layer_succeeds_and_two_fail() {
    let mut g = generator_with_functions();
    assert_eq!(g.gen_statement(declare(pointer(named("u32")), "p", call("buffer", vec![]))), Ok(()));
    let before = g.instructions().len();
    assert_eq!(g.gen_statement(assign(1, "p", None, num("7"))), Ok(()));
    assert_eq!(
        &g.instructions()[before..],
        &[
            Instruction::Load { address: Operand::Value(1), size: SizeClass::Address },
            Instruction::Store {
                address: Operand::Value(before),
                value: Operand::Constant(7),
                size: SizeClass::Word
            },
        ]
    );
    let (_, memory) = run(g.instructions(), &|_| 20000);
    assert_eq!(memory.get(&20000), Some(&7));

    let e = g.gen_statement(assign(2, "p", None, num("7"))).unwrap_err();
    assert_eq!(e.kind, CompileErrorKind::CannotDeref { name: "p".to_string(), deref_count: 2 });
    assert_eq!(e.contexts, vec![ContextType::AsignStatement]);
}

#[test]
fn u8_into_u32_target_is_a_type_mismatch() {
    let mut g = generator_with_functions();
    assert_eq!(g.gen_statement(declare(named("u32"), "x", num("1"))), Ok(()));
    assert_eq!(g.gen_statement(declare(named("u8"), "b", num("2"))), Ok(()));
    let before = g.instructions().len();
    let e = g.gen_statement(assign(0, "x", None, var("b"))).unwrap_err();
    assert_eq!(
        e.kind,
        CompileErrorKind::TypeMismatch { expected: ResolvedType::U32, actual: ResolvedType::U8 }
    );
    assert_eq!(e.contexts, vec![ContextType::AsignStatement]);
    // The right-hand side was read, and nothing was stored.
    assert_eq!(
        &g.instructions()[before..],
        &[Instruction::Load { address: Operand::Value(2), size: SizeClass::Byte }]
    );
    let e = g.gen_statement(assign(0, "x", None, call("byte", vec![]))).unwrap_err();
    assert_eq!(
        e.kind,
        CompileErrorKind::TypeMismatch { expected: ResolvedType::U32, actual: ResolvedType::U8 }
    );
    // The other way round is no better: nothing is narrowed either.
    let e = g.gen_statement(assign(0, "b", None, var("x"))).unwrap_err();
    assert_eq!(
        e.kind,
        CompileErrorKind::TypeMismatch { expected: ResolvedType::U8, actual: ResolvedType::U32 }
    );
}

#[test]
fn indexed_store_lands_at_base_plus_two_elements() {
    let mut g = generator_with_functions();
    assert_eq!(g.gen_statement(declare(pointer(named("u32")), "arr", call("buffer", vec![]))), Ok(()));
    let before = g.instructions().len();
    assert_eq!(before, 3);
    assert_eq!(g.gen_statement(assign(0, "arr", Some(num("2")), num("9"))), Ok(()));
    assert_eq!(
        &g.instructions()[before..],
        &[
            Instruction::Load { address: Operand::Value(1), size: SizeClass::Address },
            Instruction::PointerOffset {
                base: Operand::Value(3),
                index: Operand::Constant(2),
                element_size: 4
            },
            Instruction::Store {
                address: Operand::Value(4),
                value: Operand::Constant(9),
                size: SizeClass::Word
            },
        ]
    );
    let (ty, value) = g.eval_expression(&indexed("arr", num("2")), None).unwrap();
    assert_eq!(ty, ResolvedType::U32);
    let read = match value {
        Value::U32Value(Operand::Value(i)) => i,
        other => panic!("{:?}", other),
    };
    let base = 50000u64;
    let (values, memory) = run(g.instructions(), &|_| base);
    assert_eq!(values[4], Some(base + 2 * 4));
    assert_eq!(memory.get(&(base + 8)), Some(&9));
    assert_eq!(values[read], Some(9));
}

#[test]
fn element_size_follows_the_pointee() {
    let mut g = generator_with_functions();
    g.declare_function(&decl("bytes", vec![], pointer(named("u8")))).unwrap();
    g.declare_function(&decl("table", vec![], pointer(pointer(named("u8"))))).unwrap();
    g.declare_function(&decl("wide", vec![], pointer(named("u64")))).unwrap();
    g.gen_statement(declare(pointer(named("u8")), "b", call("bytes", vec![]))).unwrap();
    g.gen_statement(declare(pointer(pointer(named("u8"))), "t", call("table", vec![]))).unwrap();
    g.gen_statement(declare(pointer(named("u64")), "w", call("wide", vec![]))).unwrap();
    for (name, size, ty) in [
        ("b", 1u64, ResolvedType::U8),
        ("t", 8, ptr(ResolvedType::U8)),
        ("w", 8, ResolvedType::U64),
    ] {
        let (found, _) = g.eval_expression(&indexed(name, num("3")), None).unwrap();
        assert_eq!(found, ty);
        let n = g.instructions().len();
        match g.instructions()[n - 2] {
            Instruction::PointerOffset { index, element_size, .. } => {
                assert_eq!(index, Operand::Constant(3));
                assert_eq!(element_size, size);
            }
            other => panic!("{:?}", other),
        }
    }
    let mut small = LLVMCodegenerator::new(PointerSize::Bits32);
    small.declare_function(&decl("table", vec![], pointer(pointer(named("u8"))))).unwrap();
    small.gen_statement(declare(pointer(pointer(named("u8"))), "t", call("table", vec![]))).unwrap();
    small.eval_expression(&indexed("t", num("3")), None).unwrap();
    let n = small.instructions().len();
    assert_eq!(
        small.instructions()[n - 2],
        Instruction::PointerOffset {
            base: Operand::Value(n - 3),
            index: Operand::Constant(3),
            element_size: 4
        }
    );
}

#[test]
fn redeclaration_shadows_the_earlier_binding() {
    let mut g = generator();
    g.gen_statement(declare(named("u32"), "x", num("5"))).unwrap();
    {
        let b = g.find_variable("x").unwrap();
        assert_eq!(b.ty, named("u32"));
        assert_eq!(b.storage, StorageHandle::Slot(0));
    }
    g.gen_statement(declare(named("u8"), "x", num("6"))).unwrap();
    {
        let b = g.find_variable("x").unwrap();
        assert_eq!(b.ty, named("u8"));
        assert_eq!(b.storage, StorageHandle::Slot(2));
    }
    let (ty, value) = g.eval_expression(&var("x"), None).unwrap();
    assert_eq!(ty, ResolvedType::U8);
    assert_eq!(value, Value::U8Value(Operand::Value(4)));
    assert_eq!(
        g.instructions()[4],
        Instruction::Load { address: Operand::Value(2), size: SizeClass::Byte }
    );
    let (values, _) = run(g.instructions(), &|_| 0);
    assert_eq!(values[4], Some(6));
    // An assignment sees the new type too.
    let e = g.gen_statement(assign(0, "x", None, num("300"))).unwrap_err();
    assert_eq!(e.kind, CompileErrorKind::MalformedLiteral);
}

#[test]
fn a_failed_declaration_binds_nothing() {
    let mut g = generator();
    g.gen_statement(declare(named("u32"), "x", num("5"))).unwrap();
    let e = g.gen_statement(declare(named("u8"), "x", num("256"))).unwrap_err();
    assert_eq!(e.kind, CompileErrorKind::MalformedLiteral);
    assert_eq!(e.contexts, vec![ContextType::VariableDeclStatement]);
    assert_eq!(g.find_variable("x").unwrap().ty, named("u32"));
    let e = g.gen_statement(declare(named("string"), "s", num("1"))).unwrap_err();
    assert_eq!(e.kind, CompileErrorKind::UnknownType);
    assert_eq!(e.contexts, vec![ContextType::VariableDeclStatement]);
    assert_eq!(g.find_variable("s").unwrap_err().kind, CompileErrorKind::UnknownVariable);
    assert_eq!(g.instructions().len(), 2);
}

#[test]
fn statements_after_a_return_are_lowered() {
    let mut g = generator();
    let body = vec![
        ret(None),
        declare(named("u32"), "x", num("5")),
        ret(Some(var("x"))),
        assign(0, "x", None, num("6")),
    ];
    assert_eq!(g.gen_function(function(decl("main", vec![], named("void")), body)), Ok(()));
    assert_eq!(
        g.instructions().as_slice(),
        &[
            Instruction::Begin { function: 0 },
            Instruction::ReturnVoid,
            Instruction::Alloca { size: SizeClass::Word },
            Instruction::Store {
                address: Operand::Value(2),
                value: Operand::Constant(5),
                size: SizeClass::Word
            },
            Instruction::Load { address: Operand::Value(2), size: SizeClass::Word },
            Instruction::Return { value: Operand::Value(4), size: SizeClass::Word },
            Instruction::Store {
                address: Operand::Value(2),
                value: Operand::Constant(6),
                size: SizeClass::Word
            },
        ]
    );
}

#[test]
fn return_is_not_held_against_the_return_type() {
    let mut g = generator_with_functions();
    let body = vec![ret(Some(num("5"))), ret(Some(call("nothing", vec![])))];
    assert_eq!(g.gen_function(function(decl("main", vec![], named("u64")), body)), Ok(()));
    let n = g.instructions().len();
    assert_eq!(
        &g.instructions()[n - 3..],
        &[
            Instruction::Return { value: Operand::Constant(5), size: SizeClass::Word },
            Instruction::Call { function: 2, argument_count: 0 },
            Instruction::ReturnVoid,
        ]
    );
}

#[test]
fn u32_plus_u8_is_a_type_mismatch_without_arithmetic() {
    let mut g = generator();
    g.gen_statement(declare(named("u32"), "a", num("1"))).unwrap();
    g.gen_statement(declare(named("u8"), "b", num("2"))).unwrap();
    let before = g.instructions().len();
    let e = g.eval_expression(&binary(BinaryOp::Add, var("a"), var("b")), None).unwrap_err();
    assert_eq!(
        e.kind,
        CompileErrorKind::TypeMismatch { expected: ResolvedType::U32, actual: ResolvedType::U8 }
    );
    assert!(e.contexts.is_empty());
    assert_eq!(
        &g.instructions()[before..],
        &[
            Instruction::Load { address: Operand::Value(0), size: SizeClass::Word },
            Instruction::Load { address: Operand::Value(2), size: SizeClass::Byte },
        ]
    );
    assert!(!g.instructions().iter().any(|i| matches!(i, Instruction::Binary { .. })));
    let e = g.gen_statement(effect(binary(BinaryOp::Add, var("a"), var("b")))).unwrap_err();
    assert_eq!(e.contexts, vec![ContextType::DiscardedExpressionStatement]);
}

#[test]
fn arithmetic_on_one_integer_type() {
    let mut g = generator();
    g.gen_statement(declare(named("u32"), "a", num("6"))).unwrap();
    g.gen_statement(declare(named("i32"), "s", num("7"))).unwrap();
    let (ty, value) = g.eval_expression(&binary(BinaryOp::Mul, var("a"), num("7")), Some(&ResolvedType::U32)).unwrap();
    assert_eq!(ty, ResolvedType::U32);
    let n = g.instructions().len();
    assert_eq!(value, Value::U32Value(Operand::Value(n - 1)));
    assert_eq!(
        g.instructions()[n - 1],
        Instruction::Binary {
            op: BinaryOp::Mul,
            size: SizeClass::Word,
            signed: false,
            lhs: Operand::Value(n - 2),
            rhs: Operand::Constant(7)
        }
    );
    let (values, _) = run(g.instructions(), &|_| 0);
    assert_eq!(values[n - 1], Some(42));
    // Without a hint the literal is an i32, which is no u32.
    let e = g.eval_expression(&binary(BinaryOp::Mul, var("a"), num("7")), None).unwrap_err();
    assert_eq!(
        e.kind,
        CompileErrorKind::TypeMismatch { expected: ResolvedType::U32, actual: ResolvedType::I32 }
    );
    let (ty, _) = g.eval_expression(&binary(BinaryOp::Div, var("s"), num("2")), None).unwrap();
    assert_eq!(ty, ResolvedType::I32);
    let n = g.instructions().len();
    assert_eq!(
        g.instructions()[n - 1],
        Instruction::Binary {
            op: BinaryOp::Div,
            size: SizeClass::Word,
            signed: true,
            lhs: Operand::Value(n - 2),
            rhs: Operand::Constant(2)
        }
    );
    let (ty, value) = g.eval_expression(&binary(BinaryOp::Sub, num("9"), num("4")), Some(&ResolvedType::USize)).unwrap();
    assert_eq!(ty, ResolvedType::USize);
    let n = g.instructions().len();
    assert_eq!(value, Value::USizeValue(Operand::Value(n - 1)));
    assert_eq!(
        g.instructions()[n - 1],
        Instruction::Binary {
            op: BinaryOp::Sub,
            size: SizeClass::DoubleWord,
            signed: false,
            lhs: Operand::Constant(9),
            rhs: Operand::Constant(4)
        }
    );
}

#[test]
fn pointers_and_wrong_operand_counts_take_no_arithmetic() {
    let mut g = generator_with_functions();
    g.gen_statement(declare(pointer(named("u32")), "p", call("buffer", vec![]))).unwrap();
    let before = g.instructions().len();
    let e = g.eval_expression(&binary(BinaryOp::Add, var("p"), var("p")), None).unwrap_err();
    assert_eq!(e.kind, CompileErrorKind::ArityOrSignatureMismatch);
    assert_eq!(g.instructions().len(), before + 2);
    let e = g
        .eval_expression(
            &binary(BinaryOp::Add, call("nothing", vec![]), call("nothing", vec![])),
            None,
        )
        .unwrap_err();
    assert_eq!(e.kind, CompileErrorKind::ArityOrSignatureMismatch);
    let before = g.instructions().len();
    let one = Expression::BinaryExpr { op: BinaryOp::Add, args: vec![at(num("1"))] };
    assert_eq!(
        g.eval_expression(&one, None).unwrap_err().kind,
        CompileErrorKind::ArityOrSignatureMismatch
    );
    let three = Expression::BinaryExpr {
        op: BinaryOp::Add,
        args: vec![at(num("1")), at(num("2")), at(num("3"))],
    };
    assert_eq!(
        g.eval_expression(&three, None).unwrap_err().kind,
        CompileErrorKind::ArityOrSignatureMismatch
    );
    assert_eq!(g.instructions().len(), before);
}

#[test]
fn unknown_variable_in_every_position() {
    let mut g = generator();
    let e = g.eval_expression(&var("x"), None).unwrap_err();
    assert_eq!(e.kind, CompileErrorKind::UnknownVariable);
    assert!(e.contexts.is_empty());
    let e = g.gen_statement(assign(0, "x", None, num("1"))).unwrap_err();
    assert_eq!(e.kind, CompileErrorKind::UnknownVariable);
    assert_eq!(e.contexts, vec![ContextType::AsignStatement]);
    let e = g.gen_statement(ret(Some(var("x")))).unwrap_err();
    assert_eq!(e.kind, CompileErrorKind::UnknownVariable);
    assert_eq!(e.contexts, vec![ContextType::ReturnStatement]);
    let e = g.gen_statement(declare(named("u32"), "y", var("x"))).unwrap_err();
    assert_eq!(e.kind, CompileErrorKind::UnknownVariable);
    assert_eq!(e.contexts, vec![ContextType::VariableDeclStatement]);
    assert!(g.instructions().is_empty());
}

#[test]
fn deref_reads_through_pointer_layers() {
    let mut g = generator_with_functions();
    g.declare_function(&decl("table", vec![], pointer(pointer(named("u8"))))).unwrap();
    g.gen_statement(declare(pointer(pointer(named("u8"))), "t", call("table", vec![]))).unwrap();
    let before = g.instructions().len();
    let (ty, value) = g.eval_expression(&deref(2, "t"), None).unwrap();
    assert_eq!(ty, ResolvedType::U8);
    assert_eq!(value, Value::U8Value(Operand::Value(before + 2)));
    assert_eq!(
        &g.instructions()[before..],
        &[
            Instruction::Load { address: Operand::Value(1), size: SizeClass::Address },
            Instruction::Load { address: Operand::Value(before), size: SizeClass::Address },
            Instruction::Load { address: Operand::Value(before + 1), size: SizeClass::Byte },
        ]
    );
    let (ty, value) = g.eval_expression(&deref(1, "t"), None).unwrap();
    assert_eq!(ty, ptr(ResolvedType::U8));
    assert_eq!(value, Value::PointerValue(ResolvedType::U8, Operand::Value(before + 4)));
    let before = g.instructions().len();
    let e = g.eval_expression(&deref(3, "t"), None).unwrap_err();
    assert_eq!(e.kind, CompileErrorKind::CannotDeref { name: "t".to_string(), deref_count: 3 });
    // Two layers were followed before the third was found missing.
    assert_eq!(g.instructions().len(), before + 2);
}

#[test]
fn index_needs_a_pointer_and_a_usize() {
    let mut g = generator_with_functions();
    g.gen_statement(declare(named("u32"), "x", num("5"))).unwrap();
    g.gen_statement(declare(pointer(named("u32")), "arr", call("buffer", vec![]))).unwrap();
    g.gen_statement(declare(named("u32"), "i", num("1"))).unwrap();
    g.gen_statement(declare(named("usize"), "n", num("1"))).unwrap();
    let e = g.eval_expression(&indexed("x", num("0")), None).unwrap_err();
    assert_eq!(
        e.kind,
        CompileErrorKind::CannotIndexAccess { name: "x".to_string(), ty: ResolvedType::U32 }
    );
    let e = g.gen_statement(assign(0, "x", Some(num("0")), num("1"))).unwrap_err();
    assert_eq!(
        e.kind,
        CompileErrorKind::CannotIndexAccess { name: "x".to_string(), ty: ResolvedType::U32 }
    );
    assert_eq!(e.contexts, vec![ContextType::AsignStatement]);
    let e = g.eval_expression(&indexed("arr", var("i")), None).unwrap_err();
    assert_eq!(
        e.kind,
        CompileErrorKind::TypeMismatch { expected: ResolvedType::USize, actual: ResolvedType::U32 }
    );
    let (ty, _) = g.eval_expression(&indexed("arr", var("n")), None).unwrap();
    assert_eq!(ty, ResolvedType::U32);
    // One dereference of `arr` leaves a u32, which cannot be indexed.
    let shallow = Expression::VariableRef {
        deref_count: 1,
        index_access: Some(at(Box::new(num("0")))),
        name: "arr".to_string(),
    };
    let e = g.eval_expression(&shallow, None).unwrap_err();
    assert_eq!(
        e.kind,
        CompileErrorKind::CannotIndexAccess { name: "arr".to_string(), ty: ResolvedType::U32 }
    );
}

#[test]
fn void_declaration_binds_a_placeholder_that_is_never_touched() {
    let mut g = generator_with_functions();
    assert_eq!(g.gen_statement(declare(named("void"), "v", call("nothing", vec![]))), Ok(()));
    assert_eq!(g.instructions().as_slice(), &[Instruction::Call { function: 2, argument_count: 0 }]);
    assert_eq!(g.find_variable("v").unwrap().storage, StorageHandle::Placeholder);
    let e = g.eval_expression(&var("v"), None).unwrap_err();
    assert_eq!(e.kind, CompileErrorKind::Unrepresentable { ty: ResolvedType::Void });
    let e = g.gen_statement(assign(0, "v", None, call("nothing", vec![]))).unwrap_err();
    assert_eq!(e.kind, CompileErrorKind::Unrepresentable { ty: ResolvedType::Void });
    assert_eq!(g.instructions().len(), 1);
    // The initializer of a void declaration still fails where it fails.
    let e = g.gen_statement(declare(named("void"), "w", var("missing"))).unwrap_err();
    assert_eq!(e.kind, CompileErrorKind::UnknownVariable);
    assert_eq!(g.find_variable("w").unwrap_err().kind, CompileErrorKind::UnknownVariable);
}

#[test]
fn pointer_to_void_can_be_held_but_not_read_through() {
    let mut g = generator_with_functions();
    g.declare_function(&decl("raw", vec![], pointer(named("void")))).unwrap();
    assert_eq!(g.gen_statement(declare(pointer(named("void")), "p", call("raw", vec![]))), Ok(()));
    let e = g.eval_expression(&deref(1, "p"), None).unwrap_err();
    assert_eq!(e.kind, CompileErrorKind::Unrepresentable { ty: ResolvedType::Void });
    let e = g.eval_expression(&indexed("p", num("1")), None).unwrap_err();
    assert_eq!(e.kind, CompileErrorKind::Unrepresentable { ty: ResolvedType::Void });
}

#[test]
fn declaration_needs_the_declared_type() {
    let mut g = generator_with_functions();
    let e = g.gen_statement(declare(named("u32"), "x", call("byte", vec![]))).unwrap_err();
    assert_eq!(
        e.kind,
        CompileErrorKind::TypeMismatch { expected: ResolvedType::U32, actual: ResolvedType::U8 }
    );
    assert_eq!(e.contexts, vec![ContextType::VariableDeclStatement]);
    // The call was made; no slot was allocated for the failed declaration.
    assert_eq!(g.instructions().as_slice(), &[Instruction::Call { function: 1, argument_count: 0 }]);
    let e = g.gen_statement(declare(pointer(named("u32")), "p", call("byte", vec![]))).unwrap_err();
    assert_eq!(
        e.kind,
        CompileErrorKind::TypeMismatch { expected: ptr(ResolvedType::U32), actual: ResolvedType::U8 }
    );
    let mut g = generator_with_functions();
    g.gen_statement(effect(call("byte", vec![]))).unwrap();
    assert_eq!(g.gen_statement(declare(pointer(named("u32")), "p", call("buffer", vec![]))), Ok(()));
    assert_eq!(
        &g.instructions()[1..],
        &[
            Instruction::Call { function: 0, argument_count: 0 },
            Instruction::Alloca { size: SizeClass::Address },
            Instruction::Store {
                address: Operand::Value(2),
                value: Operand::Value(1),
                size: SizeClass::Address
            },
        ]
    );
}

#[test]
fn calls_hand_over_their_arguments_in_order() {
    let mut g = generator_with_functions();
    g.gen_statement(declare(named("u32"), "a", num("1"))).unwrap();
    let before = g.instructions().len();
    let (ty, value) = g.eval_expression(&call("add", vec![var("a"), num("2")]), None).unwrap();
    assert_eq!(ty, ResolvedType::U32);
    assert_eq!(value, Value::U32Value(Operand::Value(before + 3)));
    assert_eq!(
        &g.instructions()[before..],
        &[
            Instruction::Load { address: Operand::Value(0), size: SizeClass::Word },
            Instruction::Argument { value: Operand::Value(before) },
            Instruction::Argument { value: Operand::Constant(2) },
            Instruction::Call { function: 3, argument_count: 2 },
        ]
    );
    let (ty, value) = g.eval_expression(&call("nothing", vec![]), Some(&ResolvedType::U32)).unwrap();
    assert_eq!(ty, ResolvedType::Void);
    assert_eq!(value, Value::Void);
}

#[test]
fn calls_that_fit_no_signature() {
    let mut g = generator_with_functions();
    g.gen_statement(declare(named("u8"), "b", num("1"))).unwrap();
    let mismatch = CompileErrorKind::ArityOrSignatureMismatch;
    assert_eq!(g.eval_expression(&call("missing", vec![]), None).unwrap_err().kind, mismatch);
    let before = g.instructions().len();
    assert_eq!(g.eval_expression(&call("add", vec![num("1")]), None).unwrap_err().kind, mismatch);
    assert_eq!(
        g.eval_expression(&call("add", vec![num("1"), num("2"), num("3")]), None).unwrap_err().kind,
        mismatch
    );
    assert_eq!(g.eval_expression(&call("nothing", vec![num("1")]), None).unwrap_err().kind, mismatch);
    // A wrong count is seen before any argument is evaluated.
    assert_eq!(g.instructions().len(), before);
    let e = g.eval_expression(&call("add", vec![num("1"), var("b")]), None).unwrap_err();
    assert_eq!(e.kind, mismatch);
    assert_eq!(
        &g.instructions()[before..],
        &[Instruction::Load { address: Operand::Value(0), size: SizeClass::Byte }]
    );
    // A failure inside an argument keeps its own kind.
    let e = g.eval_expression(&call("add", vec![num("x"), num("2")]), None).unwrap_err();
    assert_eq!(e.kind, CompileErrorKind::MalformedLiteral);
    let e = g.gen_statement(effect(call("missing", vec![]))).unwrap_err();
    assert_eq!(e.kind, mismatch);
    assert_eq!(e.contexts, vec![ContextType::DiscardedExpressionStatement]);
}

#[test]
fn a_void_argument_has_nothing_to_hand_over() {
    let mut g = generator_with_functions();
    g.declare_function(&decl("take", vec![("x", named("void"))], named("void"))).unwrap();
    let e = g.eval_expression(&call("take", vec![call("nothing", vec![])]), None).unwrap_err();
    assert_eq!(e.kind, CompileErrorKind::Unrepresentable { ty: ResolvedType::Void });
}

#[test]
fn a_later_declaration_of_a_function_wins() {
    let mut g = generator_with_functions();
    assert_eq!(g.find_function("byte"), Some(1));
    assert_eq!(g.declare_function(&decl("byte", vec![], named("u64"))), Ok(4));
    assert_eq!(g.find_function("byte"), Some(4));
    let (ty, value) = g.eval_expression(&call("byte", vec![]), None).unwrap();
    assert_eq!(ty, ResolvedType::U64);
    assert_eq!(value, Value::U64Value(Operand::Value(0)));
    assert_eq!(g.instructions()[0], Instruction::Call { function: 4, argument_count: 0 });
}

#[test]
fn declaring_a_function_resolves_its_signature() {
    let mut g = generator();
    let mut d = decl(
        "f",
        vec![("a", pointer(named("u8"))), ("n", named("usize"))],
        named("i64"),
    );
    d.generic_args = Some(vec![at(GenericArgument { name: "T".to_string() })]);
    assert_eq!(g.declare_function(&d), Ok(0));
    assert_eq!(g.functions().len(), 1);
    assert_eq!(g.functions()[0].name, "f");
    assert_eq!(g.functions()[0].params, vec![ptr(ResolvedType::U8), ResolvedType::USize]);
    assert_eq!(g.functions()[0].return_type, ResolvedType::U64);
    let e = g.declare_function(&decl("g", vec![("a", named("T"))], named("u8"))).unwrap_err();
    assert_eq!(e.kind, CompileErrorKind::UnknownType);
    assert!(e.contexts.is_empty());
    let e = g.declare_function(&decl("g", vec![], named("T"))).unwrap_err();
    assert_eq!(e.kind, CompileErrorKind::UnknownType);
    assert_eq!(g.functions().len(), 1);
    assert!(g.instructions().is_empty());
}

#[test]
fn each_function_starts_without_variables() {
    let mut g = generator();
    let first = function(
        decl("first", vec![("a", named("u32"))], named("void")),
        vec![declare(named("u32"), "x", num("1"))],
    );
    assert_eq!(g.gen_function(first), Ok(()));
    assert!(g.find_variable("x").is_ok());
    // Parameters are not variables.
    assert_eq!(g.find_variable("a").unwrap_err().kind, CompileErrorKind::UnknownVariable);
    let second = function(decl("second", vec![], named("void")), vec![ret(Some(var("x")))]);
    let e = g.gen_function(second).unwrap_err();
    assert_eq!(e.kind, CompileErrorKind::UnknownVariable);
    assert_eq!(e.contexts, vec![ContextType::ReturnStatement]);
    assert_eq!(g.instructions().last(), Some(&Instruction::Begin { function: 1 }));
}

#[test]
fn the_first_failure_ends_the_function() {
    let mut g = generator();
    let body = vec![
        declare(named("u32"), "x", num("1")),
        assign(0, "y", None, num("2")),
        declare(named("u32"), "z", num("3")),
    ];
    let e = g.gen_function(function(decl("f", vec![], named("void")), body)).unwrap_err();
    assert_eq!(e.kind, CompileErrorKind::UnknownVariable);
    assert_eq!(e.contexts, vec![ContextType::AsignStatement]);
    assert_eq!(g.instructions().len(), 3);
    assert!(g.find_variable("x").is_ok());
    assert!(g.find_variable("z").is_err());
    let e = g.gen_function(function(decl("g", vec![], named("T")), vec![ret(None)])).unwrap_err();
    assert_eq!(e.kind, CompileErrorKind::UnknownType);
    assert!(e.contexts.is_empty());
    assert_eq!(g.instructions().len(), 3);
    assert_eq!(g.functions().len(), 1);
}

#[test]
fn a_module_may_call_a_function_that_stands_later() {
    let mut g = generator();
    let module = Module {
        toplevels: vec![
            at(TopLevel::Function(function(
                decl("main", vec![], named("u32")),
                vec![ret(Some(call("five", vec![])))],
            ))),
            at(TopLevel::Function(function(
                decl("five", vec![], named("u32")),
                vec![ret(Some(num("5")))],
            ))),
        ],
    };
    assert_eq!(g.gen_module(module), Ok(()));
    assert_eq!(g.functions().len(), 2);
    assert_eq!(
        g.instructions().as_slice(),
        &[
            Instruction::Begin { function: 0 },
            Instruction::Call { function: 1, argument_count: 0 },
            Instruction::Return { value: Operand::Value(1), size: SizeClass::Word },
            Instruction::Begin { function: 1 },
            Instruction::Return { value: Operand::Constant(5), size: SizeClass::Word },
        ]
    );
}

#[test]
fn a_module_with_an_unresolved_signature_emits_nothing() {
    let mut g = generator();
    let module = Module {
        toplevels: vec![
            at(TopLevel::Function(function(decl("a", vec![], named("u32")), vec![ret(None)]))),
            at(TopLevel::Function(function(decl("b", vec![], named("T")), vec![ret(None)]))),
            at(TopLevel::Function(function(decl("c", vec![], named("u32")), vec![ret(None)]))),
        ],
    };
    let e = g.gen_module(module).unwrap_err();
    assert_eq!(e.kind, CompileErrorKind::UnknownType);
    assert!(e.contexts.is_empty());
    assert!(g.instructions().is_empty());
    assert_eq!(g.functions().len(), 1);
    let mut g = generator();
    assert_eq!(g.gen_module(Module { toplevels: vec![] }), Ok(()));
    assert!(g.instructions().is_empty());
}

#[test]
fn a_module_stops_at_the_first_failing_body() {
    let mut g = generator();
    let module = Module {
        toplevels: vec![
            at(TopLevel::Function(function(decl("a", vec![], named("u32")), vec![ret(None)]))),
            at(TopLevel::Function(function(
                decl("b", vec![], named("u32")),
                vec![effect(var("x"))],
            ))),
            at(TopLevel::Function(function(decl("c", vec![], named("u32")), vec![ret(None)]))),
        ],
    };
    let e = g.gen_module(module).unwrap_err();
    assert_eq!(e.kind, CompileErrorKind::UnknownVariable);
    assert_eq!(e.contexts, vec![ContextType::DiscardedExpressionStatement]);
    assert_eq!(g.functions().len(), 3);
    assert_eq!(
        g.instructions().as_slice(),
        &[
            Instruction::Begin { function: 0 },
            Instruction::ReturnVoid,
            Instruction::Begin { function: 1 },
        ]
    );
}

#[test]
fn usize_follows_the_target_width() {
    let mut g = LLVMCodegenerator::new(PointerSize::Bits32);
    assert_eq!(g.pointer_size(), PointerSize::Bits32);
    g.gen_statement(declare(named("usize"), "n", num("4294967295"))).unwrap();
    assert_eq!(g.instructions()[0], Instruction::Alloca { size: SizeClass::Word });
    let e = g.gen_statement(declare(named("usize"), "m", num("4294967296"))).unwrap_err();
    assert_eq!(e.kind, CompileErrorKind::MalformedLiteral);
    let mut g = generator();
    g.gen_statement(declare(named("usize"), "m", num("4294967296"))).unwrap();
    assert_eq!(g.instructions()[0], Instruction::Alloca { size: SizeClass::DoubleWord });
    assert_eq!(value_of(&g.eval_expression(&var("m"), None).unwrap().1), Operand::Value(2));
}

#[test]
fn lowering_only_appends() {
    let mut g = generator_with_functions();
    g.gen_statement(declare(named("u32"), "x", num("5"))).unwrap();
    let before = g.instructions().clone();
    let _ = g.gen_statement(assign(0, "x", None, binary(BinaryOp::Add, var("x"), var("y"))));
    let _ = g.gen_statement(declare(named("u32"), "y", call("add", vec![var("x"), num("1")])));
    let _ = g.gen_statement(ret(Some(deref(1, "x"))));
    assert!(g.instructions().len() > before.len());
    assert_eq!(&g.instructions()[..before.len()], before.as_slice());
}

fn yields(g: &LLVMCodegenerator, instruction: &Instruction) -> bool {
    match *instruction {
        Instruction::Alloca { .. }
        | Instruction::Load { .. }
        | Instruction::PointerOffset { .. }
        | Instruction::Binary { .. } => true,
        Instruction::Call { function, .. } => {
            function < g.functions().len()
                && g.functions()[function].return_type != ResolvedType::Void
        }
        _ => false,
    }
}

/// Whether every instruction uses only what the function body it stands in
/// has produced before it.
fn in_order(g: &LLVMCodegenerator) -> bool {
    let stream = g.instructions();
    let mut start = 0;
    for (at, instruction) in stream.iter().enumerate() {
        if at > 0 && matches!(instruction, Instruction::Begin { .. }) {
            start = at;
        }
        let ok = |operand: Operand| match operand {
            Operand::Constant(_) => true,
            Operand::Value(i) => start <= i && i < at && yields(g, &stream[i]),
        };
        let fine = match *instruction {
            Instruction::Begin { function } => at == start && function < g.functions().len(),
            Instruction::Alloca { .. } | Instruction::ReturnVoid => true,
            Instruction::Load { address, .. } => ok(address),
            Instruction::Store { address, value, .. } => ok(address) && ok(value),
            Instruction::PointerOffset { base, index, .. } => ok(base) && ok(index),
            Instruction::Binary { lhs, rhs, .. } => ok(lhs) && ok(rhs),
            Instruction::Argument { value } => ok(value),
            Instruction::Return { value, .. } => ok(value),
            Instruction::Call { function, argument_count } => {
                function < g.functions().len()
                    && argument_count == g.functions()[function].params.len()
                    && start + argument_count <= at
                    && stream[at - argument_count..at]
                        .iter()
                        .all(|i| matches!(i, Instruction::Argument { .. }))
            }
        };
        if !fine {
            return false;
        }
    }
    true
}

#[test]
fn emitted_streams_are_in_order() {
    let mut g = generator();
    let module = Module {
        toplevels: vec![
            at(TopLevel::Function(function(
                decl("main", vec![], named("u32")),
                vec![
                    declare(named("u32"), "x", num("5")),
                    declare(pointer(named("u32")), "p", call("buffer", vec![var("x")])),
                    assign(0, "p", Some(num("1")), binary(BinaryOp::Add, var("x"), deref(1, "p"))),
                    assign(1, "p", None, call("sum", vec![var("x"), indexed("p", num("0"))])),
                    effect(call("nothing", vec![])),
                    ret(Some(var("x"))),
                    declare(named("u32"), "x", indexed("p", num("3"))),
                    ret(None),
                ],
            ))),
            at(TopLevel::Function(function(
                decl("buffer", vec![("n", named("u32"))], pointer(named("u32"))),
                vec![],
            ))),
            at(TopLevel::Function(function(
                decl("sum", vec![("a", named("u32")), ("b", named("u32"))], named("u32")),
                vec![declare(named("u32"), "y", num("1")), ret(Some(var("y")))],
            ))),
            at(TopLevel::Function(function(
                decl("nothing", vec![], named("void")),
                vec![
                    declare(named("u8"), "y", num("1")),
                    // This fails, and what stood before stays in order.
                    assign(0, "y", None, var("x")),
                ],
            ))),
        ],
    };
    let e = g.gen_module(module).unwrap_err();
    assert_eq!(e.kind, CompileErrorKind::UnknownVariable);
    assert!(g.instructions().len() > 25);
    assert!(in_order(&g));
    // A stream that uses what a later instruction produces is not in order.
    let mut bad = generator();
    bad.emit(Instruction::Load { address: Operand::Value(1), size: SizeClass::Word });
    bad.emit(Instruction::Alloca { size: SizeClass::Word });
    assert!(!in_order(&bad));
    // Nor is one that reaches into the body of another function.
    let mut bad = generator();
    bad.declare_function(&decl("f", vec![], named("void"))).unwrap();
    bad.emit(Instruction::Begin { function: 0 });
    bad.emit(Instruction::Alloca { size: SizeClass::Word });
    bad.emit(Instruction::Begin { function: 0 });
    bad.emit(Instruction::Load { address: Operand::Value(1), size: SizeClass::Word });
    assert!(!in_order(&bad));
}

#[test]
fn a_literal_address_initializes_a_pointer() {
    let mut g = generator();
    assert_eq!(g.gen_statement(declare(pointer(named("u32")), "p", num("4096"))), Ok(()));
    assert_eq!(g.gen_statement(assign(1, "p", None, num("7"))), Ok(()));
    assert_eq!(
        g.instructions().as_slice(),
        &[
            Instruction::Alloca { size: SizeClass::Address },
            Instruction::Store {
                address: Operand::Value(0),
                value: Operand::Constant(4096),
                size: SizeClass::Address
            },
            Instruction::Load { address: Operand::Value(0), size: SizeClass::Address },
            Instruction::Store {
                address: Operand::Value(2),
                value: Operand::Constant(7),
                size: SizeClass::Word
            },
        ]
    );
    let (_, memory) = run(g.instructions(), &|_| 0);
    assert_eq!(memory.get(&4096), Some(&7));
    let e = g.gen_statement(assign(2, "p", None, num("7"))).unwrap_err();
    assert_eq!(e.kind, CompileErrorKind::CannotDeref { name: "p".to_string(), deref_count: 2 });
    // A void declaration has no number to take.
    let e = g.gen_statement(declare(named("void"), "v", num("1"))).unwrap_err();
    assert_eq!(e.kind, CompileErrorKind::MalformedLiteral);
}

fn line(n: u32) -> Range {
    Range { from: Position { line: n, col: 1 }, to: Position { line: n, col: 20 } }
}

#[test]
fn a_failure_in_a_body_is_at_the_failing_statement() {
    let mut g = generator();
    let body = vec![
        Located { range: line(2), value: declare(named("u32"), "x", num("1")) },
        Located { range: line(3), value: ret(Some(var("y"))) },
        Located { range: line(4), value: ret(Some(var("z"))) },
    ];
    let e = g.gen_function(Function { decl: decl("f", vec![], named("void")), body }).unwrap_err();
    assert_eq!(e.kind, CompileErrorKind::UnknownVariable);
    assert_eq!(e.contexts, vec![ContextType::ReturnStatement]);
    assert_eq!(e.range, Some(line(3)));
    // A statement lowered by itself knows no place.
    let e = g.gen_statement(ret(Some(var("y")))).unwrap_err();
    assert_eq!(e.range, None);
}

#[test]
fn an_unresolved_signature_is_at_the_first_unresolved_type() {
    let mut g = generator();
    let d = FunctionDecl {
        name: "f".to_string(),
        generic_args: None,
        params: vec![
            (Located { range: line(1), value: named("u8") }, "a".to_string()),
            (Located { range: line(2), value: named("T") }, "b".to_string()),
            (Located { range: line(3), value: named("U") }, "c".to_string()),
        ],
        return_type: Located { range: line(4), value: named("V") },
    };
    let e = g.declare_function(&d).unwrap_err();
    assert_eq!(e.kind, CompileErrorKind::UnknownType);
    assert!(e.contexts.is_empty());
    assert_eq!(e.range, Some(line(2)));
    let d = FunctionDecl {
        name: "f".to_string(),
        generic_args: None,
        params: vec![(Located { range: line(1), value: named("u8") }, "a".to_string())],
        return_type: Located { range: line(4), value: named("V") },
    };
    let e = g.gen_function(Function { decl: d, body: vec![] }).unwrap_err();
    assert_eq!(e.kind, CompileErrorKind::UnknownType);
    assert_eq!(e.range, Some(line(4)));
}
