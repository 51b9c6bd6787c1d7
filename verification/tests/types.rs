use codegen_core::ast::{Position, Range, ResolvedType, UnresolvedType};
use codegen_core::bindings::VariableTable;
use codegen_core::error::{CompileError, CompileErrorKind, ContextType};
use codegen_core::literal::{eval_literal, parse_decimal};
use codegen_core::signature::{lookup_function, FunctionSignature};
use codegen_core::text::str_eq;
use codegen_core::types::{primitive, resolve_type, PointerSize, SizeClass};
use codegen_core::value::{Operand, StorageHandle, Value};

fn named(name: &str) -> UnresolvedType {
    UnresolvedType::TypeRef { name: name.to_string(), generic_args: None }
}

fn pointer(inner: UnresolvedType) -> UnresolvedType {
    UnresolvedType::Ptr(Box::new(inner))
}

fn ptr(inner: ResolvedType) -> ResolvedType {
    ResolvedType::Ptr(Box::new(inner))
}

fn depth(ty: &ResolvedType) -> usize {
    match ty {
        ResolvedType::Ptr(inner) => 1 + depth(inner),
        _ => 0,
    }
}

#[test]
fn every_primitive_name_resolves() {
    assert_eq!(resolve_type(&named("void")), Ok(ResolvedType::Void));
    assert_eq!(resolve_type(&named("u8")), Ok(ResolvedType::U8));
    assert_eq!(resolve_type(&named("u32")), Ok(ResolvedType::U32));
    assert_eq!(resolve_type(&named("u64")), Ok(ResolvedType::U64));
    assert_eq!(resolve_type(&named("i32")), Ok(ResolvedType::I32));
    assert_eq!(resolve_type(&named("i64")), Ok(ResolvedType::U64));
    assert_eq!(resolve_type(&named("usize")), Ok(ResolvedType::USize));
}

#[test]
fn primitive_knows_only_the_seven_names() {
    assert_eq!(primitive("u32"), Some(ResolvedType::U32));
    assert_eq!(primitive("U32"), None);
    assert_eq!(primitive(""), None);
    assert_eq!(primitive("u3"), None);
    assert_eq!(primitive("u322"), None);
    assert_eq!(primitive("isize"), None);
}

#[test]
fn resolve_keeps_pointer_depth() {
    for name in ["void", "u8", "u32", "u64", "i32", "i64", "usize"] {
        let mut written = named(name);
        for d in 0..5 {
            let resolved = resolve_type(&written).unwrap();
            assert_eq!(depth(&resolved), d);
            written = pointer(written);
        }
    }
    assert_eq!(
        resolve_type(&pointer(pointer(named("u8")))),
        Ok(ptr(ptr(ResolvedType::U8)))
    );
}

#[test]
fn unknown_name_fails_with_unknown_type() {
    let plain =
        CompileError { kind: CompileErrorKind::UnknownType, contexts: vec![], range: None };
    assert_eq!(resolve_type(&named("string")), Err(plain));
    let e = resolve_type(&pointer(pointer(named("T")))).unwrap_err();
    assert_eq!(e.kind, CompileErrorKind::UnknownType);
    assert!(e.contexts.is_empty());
    assert_eq!(resolve_type(&named("")).unwrap_err().kind, CompileErrorKind::UnknownType);
}

#[test]
fn generic_arguments_on_a_primitive_are_rejected() {
    let with_args = UnresolvedType::TypeRef {
        name: "u32".to_string(),
        generic_args: Some(vec![named("u8")]),
    };
    assert_eq!(resolve_type(&with_args).unwrap_err().kind, CompileErrorKind::UnknownType);
    let with_empty_list =
        UnresolvedType::TypeRef { name: "u32".to_string(), generic_args: Some(vec![]) };
    assert_eq!(resolve_type(&with_empty_list).unwrap_err().kind, CompileErrorKind::UnknownType);
    assert_eq!(
        resolve_type(&pointer(with_empty_list)).unwrap_err().kind,
        CompileErrorKind::UnknownType
    );
}

#[test]
fn type_predicates() {
    assert!(pointer(named("u8")).is_ptr_type());
    assert!(!named("u8").is_ptr_type());
    for ty in [
        ResolvedType::I32,
        ResolvedType::U32,
        ResolvedType::U64,
        ResolvedType::USize,
        ResolvedType::U8,
    ] {
        assert!(ty.is_integer_type());
        assert!(ty.is_valid_as_operand());
        assert!(!ty.is_pointer_type());
    }
    let p = ptr(ResolvedType::U8);
    assert!(!p.is_integer_type());
    assert!(!p.is_valid_as_operand());
    assert!(p.is_pointer_type());
    assert!(!ResolvedType::Void.is_integer_type());
    assert!(!ResolvedType::Void.is_valid_as_operand());
    assert!(!ResolvedType::Void.is_pointer_type());
}

#[test]
fn sizes_follow_the_target() {
    assert_eq!(PointerSize::Bits32.bytes(), 4);
    assert_eq!(PointerSize::Bits64.bytes(), 8);
    assert_eq!(ResolvedType::U8.size_of(PointerSize::Bits64), Some(1));
    assert_eq!(ResolvedType::I32.size_of(PointerSize::Bits64), Some(4));
    assert_eq!(ResolvedType::U32.size_of(PointerSize::Bits32), Some(4));
    assert_eq!(ResolvedType::U64.size_of(PointerSize::Bits32), Some(8));
    assert_eq!(ResolvedType::USize.size_of(PointerSize::Bits32), Some(4));
    assert_eq!(ResolvedType::USize.size_of(PointerSize::Bits64), Some(8));
    assert_eq!(ptr(ResolvedType::U8).size_of(PointerSize::Bits32), Some(4));
    assert_eq!(ptr(ResolvedType::U8).size_of(PointerSize::Bits64), Some(8));
    assert_eq!(ResolvedType::Void.size_of(PointerSize::Bits64), None);
    assert_eq!(ResolvedType::USize.size_class(PointerSize::Bits32), Some(SizeClass::Word));
    assert_eq!(ResolvedType::USize.size_class(PointerSize::Bits64), Some(SizeClass::DoubleWord));
    assert_eq!(ptr(ResolvedType::Void).size_class(PointerSize::Bits64), Some(SizeClass::Address));
    assert_eq!(ResolvedType::Void.size_class(PointerSize::Bits64), None);
    assert_eq!(SizeClass::Address.bytes(PointerSize::Bits32), 4);
    assert_eq!(SizeClass::DoubleWord.bytes(PointerSize::Bits32), 8);
}

#[test]
fn same_as_is_structural() {
    assert!(ptr(ptr(ResolvedType::U8)).same_as(&ptr(ptr(ResolvedType::U8))));
    assert!(!ptr(ptr(ResolvedType::U8)).same_as(&ptr(ResolvedType::U8)));
    assert!(!ptr(ResolvedType::U8).same_as(&ptr(ResolvedType::U32)));
    assert!(!ResolvedType::I32.same_as(&ResolvedType::U32));
    assert!(ResolvedType::Void.same_as(&ResolvedType::Void));
    assert_eq!(ptr(ptr(ResolvedType::I32)).clone(), ptr(ptr(ResolvedType::I32)));
}

#[test]
fn written_forms() {
    assert_eq!(ResolvedType::USize.to_string(), "usize");
    assert_eq!(ResolvedType::Void.to_string(), "void");
    assert_eq!(ptr(ptr(ResolvedType::U32)).to_string(), "&&u32");
    assert_eq!(named("u64").to_string(), "u64");
    assert_eq!(pointer(pointer(named("T"))).to_string(), "[[T]]");
    let generic = UnresolvedType::TypeRef {
        name: "Pair".to_string(),
        generic_args: Some(vec![named("u8"), pointer(named("u32"))]),
    };
    assert_eq!(generic.to_string(), "Pair<u8[u32]>");
    let empty = UnresolvedType::TypeRef { name: "Unit".to_string(), generic_args: Some(vec![]) };
    assert_eq!(empty.to_string(), "Unit<>");
}

#[test]
fn names_compare_by_characters() {
    assert!(str_eq("", ""));
    assert!(str_eq("héllo", "héllo"));
    assert!(!str_eq("abc", "abd"));
    assert!(!str_eq("abc", "ab"));
    assert!(!str_eq("", "a"));
}

#[test]
fn decimal_numbers_within_a_bound() {
    assert_eq!(parse_decimal("0", 0), Some(0));
    assert_eq!(parse_decimal("255", 255), Some(255));
    assert_eq!(parse_decimal("256", 255), None);
    assert_eq!(parse_decimal("007", 255), Some(7));
    assert_eq!(parse_decimal("18446744073709551615", u64::MAX), Some(u64::MAX));
    assert_eq!(parse_decimal("18446744073709551616", u64::MAX), None);
    assert_eq!(parse_decimal("99999999999999999999999999", u64::MAX), None);
    assert_eq!(parse_decimal("", 255), None);
    assert_eq!(parse_decimal("-1", 255), None);
    assert_eq!(parse_decimal("+1", 255), None);
    assert_eq!(parse_decimal("1 ", 255), None);
    assert_eq!(parse_decimal("1a", 255), None);
    assert_eq!(parse_decimal("٣", 255), None);
}

#[test]
fn literal_takes_the_expected_integer_type() {
    let ps = PointerSize::Bits64;
    assert_eq!(
        eval_literal("5", None, ps),
        Ok((ResolvedType::I32, Value::I32Value(Operand::Constant(5))))
    );
    assert_eq!(
        eval_literal("5", Some(&ResolvedType::U32), ps),
        Ok((ResolvedType::U32, Value::U32Value(Operand::Constant(5))))
    );
    assert_eq!(
        eval_literal("255", Some(&ResolvedType::U8), ps),
        Ok((ResolvedType::U8, Value::U8Value(Operand::Constant(255))))
    );
    assert_eq!(
        eval_literal("4294967296", Some(&ResolvedType::USize), ps),
        Ok((ResolvedType::USize, Value::USizeValue(Operand::Constant(4294967296))))
    );
    assert_eq!(
        eval_literal("18446744073709551615", Some(&ResolvedType::U64), ps),
        Ok((ResolvedType::U64, Value::U64Value(Operand::Constant(u64::MAX))))
    );
    // Where a pointer is expected, the literal is an address.
    assert_eq!(
        eval_literal("4096", Some(&ptr(ResolvedType::U8)), ps),
        Ok((
            ptr(ResolvedType::U8),
            Value::PointerValue(ResolvedType::U8, Operand::Constant(4096))
        ))
    );
    assert_eq!(
        eval_literal("18446744073709551615", Some(&ptr(ptr(ResolvedType::Void))), ps),
        Ok((
            ptr(ptr(ResolvedType::Void)),
            Value::PointerValue(ptr(ResolvedType::Void), Operand::Constant(u64::MAX))
        ))
    );
}

#[test]
fn literal_out_of_range_is_malformed() {
    let ps = PointerSize::Bits64;
    let malformed = CompileErrorKind::MalformedLiteral;
    assert_eq!(eval_literal("256", Some(&ResolvedType::U8), ps).unwrap_err().kind, malformed);
    assert_eq!(eval_literal("2147483647", None, ps).unwrap().1, Value::I32Value(Operand::Constant(2147483647)));
    assert_eq!(eval_literal("2147483648", None, ps).unwrap_err().kind, malformed);
    assert_eq!(
        eval_literal("4294967296", Some(&ResolvedType::U32), ps).unwrap_err().kind,
        malformed
    );
    assert_eq!(
        eval_literal("4294967296", Some(&ResolvedType::USize), PointerSize::Bits32)
            .unwrap_err()
            .kind,
        malformed
    );
    assert_eq!(
        eval_literal("4294967296", Some(&ptr(ResolvedType::U8)), PointerSize::Bits32)
            .unwrap_err()
            .kind,
        malformed
    );
    // No number is a void.
    assert_eq!(eval_literal("5", Some(&ResolvedType::Void), ps).unwrap_err().kind, malformed);
    assert_eq!(eval_literal("abc", None, ps).unwrap_err().kind, malformed);
    let e = eval_literal("", None, ps).unwrap_err();
    assert_eq!(e.kind, malformed);
    assert!(e.contexts.is_empty());
}

#[test]
fn values_know_their_type() {
    let v = Value::new(ptr(ResolvedType::U8), Operand::Value(3));
    assert_eq!(v, Value::PointerValue(ResolvedType::U8, Operand::Value(3)));
    assert_eq!(v.get_type(), ptr(ResolvedType::U8));
    assert_eq!(v.unwrap_pointer_value(), Operand::Value(3));
    assert_eq!(v.operand(), Some(Operand::Value(3)));
    let n = Value::new(ResolvedType::USize, Operand::Constant(9));
    assert_eq!(n, Value::USizeValue(Operand::Constant(9)));
    assert_eq!(n.get_type(), ResolvedType::USize);
    assert_eq!(n.unwrap_int_value(), Operand::Constant(9));
    assert_eq!(n.unwrap_operand(), Operand::Constant(9));
    let nothing = Value::new(ResolvedType::Void, Operand::Constant(1));
    assert_eq!(nothing, Value::Void);
    assert_eq!(nothing.get_type(), ResolvedType::Void);
    assert_eq!(nothing.operand(), None);
}

#[test]
fn binding_table_shadows() {
    let mut table = VariableTable::new();
    assert_eq!(table.lookup("x").unwrap_err().kind, CompileErrorKind::UnknownVariable);
    table.bind("x".to_string(), named("u32"), StorageHandle::Slot(0));
    table.bind("y".to_string(), named("u8"), StorageHandle::Slot(2));
    {
        let x = table.lookup("x").unwrap();
        assert_eq!(x.ty, named("u32"));
        assert_eq!(x.storage, StorageHandle::Slot(0));
    }
    table.bind("x".to_string(), pointer(named("u8")), StorageHandle::Slot(4));
    let x = table.lookup("x").unwrap();
    assert_eq!(x.ty, pointer(named("u8")));
    assert_eq!(x.storage, StorageHandle::Slot(4));
    let y = table.lookup("y").unwrap();
    assert_eq!(y.ty, named("u8"));
    assert_eq!(y.storage, StorageHandle::Slot(2));
    let e = table.lookup("z").unwrap_err();
    assert_eq!(e.kind, CompileErrorKind::UnknownVariable);
    assert!(e.contexts.is_empty());
}

#[test]
fn the_last_signature_of_a_name_is_found() {
    let signature = |name: &str, ret: ResolvedType| FunctionSignature {
        name: name.to_string(),
        params: vec![],
        return_type: ret,
    };
    let table = vec![
        signature("f", ResolvedType::U8),
        signature("g", ResolvedType::U32),
        signature("f", ResolvedType::U64),
    ];
    assert_eq!(lookup_function(&table, "f"), Some(2));
    assert_eq!(lookup_function(&table, "g"), Some(1));
    assert_eq!(lookup_function(&table, "h"), None);
    assert_eq!(lookup_function(&vec![], "f"), None);
}

#[test]
fn context_is_added_and_kind_kept() {
    let e = CompileError::from_error_kind(CompileErrorKind::MalformedLiteral);
    assert!(e.contexts.is_empty());
    let e = e.with_context(ContextType::ReturnStatement).with_context(ContextType::AsignStatement);
    assert_eq!(e.kind, CompileErrorKind::MalformedLiteral);
    assert_eq!(e.contexts, vec![ContextType::ReturnStatement, ContextType::AsignStatement]);
    assert_eq!(e.range, None);
    let place =
        Range { from: Position { line: 3, col: 4 }, to: Position { line: 3, col: 9 } };
    let e = e.at(place);
    assert_eq!(e.kind, CompileErrorKind::MalformedLiteral);
    assert_eq!(e.contexts, vec![ContextType::ReturnStatement, ContextType::AsignStatement]);
    assert_eq!(e.range, Some(place));
}
