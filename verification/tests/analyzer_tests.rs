use vcompiler::analyzer::Analyzer;
use vcompiler::codegen::StructData;
use vcompiler::ir::{BinOp, LValue, SemanticError, StructDef, StructField, Type};
use vcompiler::tokenizer::TokenType;

fn prim(k: TokenType) -> Type {
    Type::Primitive(k)
}

fn ok_kind(r: Result<Type, vcompiler::ir::Error>) -> Option<TokenType> {
    match r {
        Ok(Type::Primitive(k)) => Some(k),
        _ => None,
    }
}

#[test]
fn arithmetic_takes_the_wider_type() {
    let mut a = Analyzer::new();
    assert_eq!(ok_kind(a.check_binary_types(&BinOp::Add, prim(TokenType::I8), prim(TokenType::I32))), Some(TokenType::I32));
    assert_eq!(ok_kind(a.check_binary_types(&BinOp::Mod, prim(TokenType::U64), prim(TokenType::U8))), Some(TokenType::U64));
    assert_eq!(ok_kind(a.check_binary_types(&BinOp::BitXor, prim(TokenType::I16), prim(TokenType::I16))), Some(TokenType::I16));
}

#[test]
fn pointer_arithmetic_keeps_the_pointer() {
    let mut a = Analyzer::new();
    let p = Type::Pointer(Box::new(prim(TokenType::U8)));
    let r = a.check_binary_types(&BinOp::Add, Type::Pointer(Box::new(prim(TokenType::U8))), prim(TokenType::I64));
    assert!(matches!(r, Ok(Type::Pointer(_))));
    let r2 = a.check_binary_types(&BinOp::Sub, prim(TokenType::I64), p);
    assert!(matches!(r2, Ok(Type::Pointer(_))));
}

#[test]
fn comparisons_give_i32() {
    let mut a = Analyzer::new();
    assert_eq!(ok_kind(a.check_binary_types(&BinOp::Lt, prim(TokenType::I8), prim(TokenType::I64))), Some(TokenType::I32));
    assert_eq!(
        ok_kind(a.check_binary_types(&BinOp::Eq, Type::Pointer(Box::new(prim(TokenType::I8))), Type::Pointer(Box::new(prim(TokenType::I64))))),
        Some(TokenType::I32)
    );
    assert_eq!(ok_kind(a.check_binary_types(&BinOp::Neq, Type::Struct("P".to_string()), Type::Struct("P".to_string()))), Some(TokenType::I32));
}

#[test]
fn shifts_keep_the_left_type() {
    let mut a = Analyzer::new();
    assert_eq!(ok_kind(a.check_binary_types(&BinOp::ShiftLeft, prim(TokenType::I8), prim(TokenType::I64))), Some(TokenType::I8));
}

#[test]
fn mixed_signedness_is_refused() {
    let mut a = Analyzer::new();
    a.current_file = "main.vmm".to_string();
    a.line = 7;
    a.col = 3;
    let r = a.check_binary_types(&BinOp::Add, prim(TokenType::I32), prim(TokenType::U32));
    match r {
        Err(e) => {
            assert_eq!(e.file, "main.vmm");
            assert_eq!(e.line, 7);
            assert_eq!(e.col, 3);
            assert!(matches!(e.ty, SemanticError::InvalidBinary { op: BinOp::Add, .. }));
        },
        Ok(_) => panic!("expected an error"),
    }
}

#[test]
fn non_numbers_are_refused() {
    let mut a = Analyzer::new();
    assert!(a.check_binary_types(&BinOp::Mul, Type::Struct("P".to_string()), prim(TokenType::I32)).is_err());
    assert!(a.check_binary_types(&BinOp::Eq, Type::Struct("P".to_string()), prim(TokenType::I32)).is_err());
    assert!(a.check_binary_types(&BinOp::And, prim(TokenType::IntType), prim(TokenType::I32)).is_err());
}

#[test]
fn variables_are_found_after_being_added() {
    let mut a = Analyzer::new();
    assert!(a.lookup(&"x".to_string()).is_none());
    a.add_var("x".to_string(), prim(TokenType::I64));
    assert!(matches!(a.lookup(&"x".to_string()), Some(Type::Primitive(TokenType::I64))));
    a.add_var("x".to_string(), prim(TokenType::U8));
    assert!(matches!(a.lookup(&"x".to_string()), Some(Type::Primitive(TokenType::U8))));
}

#[test]
fn outer_scopes_are_searched_first() {
    let mut a = Analyzer::new();
    a.add_var("x".to_string(), prim(TokenType::I64));
    a.push_scope();
    a.add_var("x".to_string(), prim(TokenType::U8));
    a.add_var("y".to_string(), prim(TokenType::I8));
    assert!(matches!(a.lookup(&"x".to_string()), Some(Type::Primitive(TokenType::I64))));
    assert!(matches!(a.lookup(&"y".to_string()), Some(Type::Primitive(TokenType::I8))));
    a.pop_scope();
    assert!(a.lookup(&"y".to_string()).is_none());
}

#[test]
fn globals_are_found_last() {
    let mut a = Analyzer::new();
    a.global_vars.push(("g".to_string(), prim(TokenType::I16)));
    assert!(matches!(a.lookup(&"g".to_string()), Some(Type::Primitive(TokenType::I16))));
}

#[test]
fn undeclared_variable_is_reported() {
    let mut a = Analyzer::new();
    let t = a.check_var(&"nope".to_string());
    assert!(matches!(t, Type::Primitive(TokenType::I64)));
    assert!(a.had_error);
    assert_eq!(a.errors.len(), 1);
    assert!(matches!(&a.errors[0].ty, SemanticError::UndeclaredVariable(n) if n == "nope"));
}

#[test]
fn number_literals_take_the_expected_primitive() {
    let mut a = Analyzer::new();
    assert!(matches!(a.check_num(&5, &prim(TokenType::U8)), Type::Primitive(TokenType::U8)));
    assert!(matches!(a.check_num(&5, &Type::Unknown), Type::Primitive(TokenType::I32)));
}

#[test]
fn generic_parameters_are_resolved() {
    let a = Analyzer::new();
    let map = vec![("T".to_string(), prim(TokenType::I8)), ("T".to_string(), prim(TokenType::U32))];
    let t = Type::Array(Box::new(Type::GenericType("T".to_string())), 3);
    let r = a.generic_to_ty(&t, &map);
    assert!(matches!(r, Type::Array(inner, 3) if matches!(*inner, Type::Primitive(TokenType::U32))));
    let g = a.generic_to_ty(&Type::GenericInst("V".to_string(), vec![Type::GenericType("T".to_string())]), &map);
    assert!(matches!(g, Type::GenericInst(n, args) if n == "V" && matches!(args[0], Type::Primitive(TokenType::U32))));
    let u = a.generic_to_ty(&Type::GenericType("U".to_string()), &map);
    assert!(matches!(u, Type::GenericType(n) if n == "U"));
}

#[test]
fn assignment_target_types() {
    let mut a = Analyzer::new();
    let def = StructDef {
        name: "P".to_string(),
        fields: vec![StructField { name: "x".to_string(), offset: 0, ty: prim(TokenType::U16) }],
        generic_type: vec![],
        size: 2,
    };
    a.structs.push(StructData::from_def(&def, 2));
    a.add_var("p".to_string(), Type::Pointer(Box::new(Type::Struct("P".to_string()))));
    a.add_var("arr".to_string(), Type::Array(Box::new(prim(TokenType::I8)), 4));
    let field = LValue::Field { base: Box::new(LValue::Variable("p".to_string())), name: "x".to_string() };
    assert!(matches!(a.lvalue_type(&field), Type::Primitive(TokenType::U16)));
    let deref = LValue::Deref(Box::new(LValue::Variable("p".to_string())));
    assert!(matches!(a.lvalue_type(&deref), Type::Struct(n) if n == "P"));
    let missing = LValue::Field { base: Box::new(LValue::Variable("p".to_string())), name: "y".to_string() };
    assert!(matches!(a.lvalue_type(&missing), Type::Unknown));
    let idx = LValue::Index {
        base: Box::new(LValue::Variable("arr".to_string())),
        index: Box::new(vcompiler::ir::Expr { ty: vcompiler::ir::ExprType::Number(0), file: String::new(), line: 0, col: 0 }),
    };
    assert!(matches!(a.lvalue_type(&idx), Type::Primitive(TokenType::I8)));
    assert!(matches!(a.lvalue_type(&LValue::Variable("nope".to_string())), Type::Unknown));
}

#[test]
fn generic_maps_resolve_through_the_bindings() {
    let mut a = Analyzer::new();
    a.generics.push(("X".to_string(), prim(TokenType::U16)));
    let m = a.build_generic_map(
        &vec!["T".to_string(), "U".to_string()],
        &vec![prim(TokenType::I32), Type::Pointer(Box::new(Type::GenericType("X".to_string())))],
    );
    assert_eq!(m.len(), 2);
    assert_eq!(m[0].0, "T");
    assert!(matches!(m[0].1, Type::Primitive(TokenType::I32)));
    assert!(matches!(&m[1].1, Type::Pointer(inner) if matches!(**inner, Type::Primitive(TokenType::U16))));
}

#[test]
fn resolving_through_zipped_bindings_is_substitution() {
    let a = Analyzer::new();
    let params = vec!["T".to_string(), "U".to_string()];
    let args = vec![prim(TokenType::I32), prim(TokenType::U8)];
    let map = vec![("T".to_string(), prim(TokenType::I32)), ("U".to_string(), prim(TokenType::U8))];
    let t = Type::Pointer(Box::new(Type::GenericInst(
        "Pair".to_string(),
        vec![Type::GenericType("U".to_string()), Type::GenericType("T".to_string())],
    )));
    let via_map = a.generic_to_ty(&t, &map);
    let substituted = vcompiler::shared::substitute_type(&t, &params, &args);
    assert_eq!(format!("{:?}", via_map), format!("{:?}", substituted));
    assert_eq!(format!("{:?}", via_map), "Pointer(GenericInst(\"Pair\", [Primitive(U8), Primitive(I32)]))");
    let empty: Vec<(String, Type)> = Vec::new();
    let plain = Type::Array(Box::new(Type::GenericType("T".to_string())), 2);
    assert_eq!(format!("{:?}", a.generic_to_ty(&plain, &empty)), format!("{:?}", plain));
}
