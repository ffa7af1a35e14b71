use vcompiler::ir::{LValue, Type};
use vcompiler::shared::{
    align16, aligned_size, arg_pos, build_generic_map, check_types, coerce_numeric, is_number, is_numeric,
    is_unsigned, lvalue_root, mangle_method_name, mangled_type_name, numeric_rank, same_signedness,
    substitute_type, to_base_reg, transform_generic_name,
};
use vcompiler::tokenizer::TokenType;

fn prim(k: TokenType) -> Type {
    Type::Primitive(k)
}

#[test]
fn numeric_ranks() {
    assert_eq!(numeric_rank(&prim(TokenType::I8)), Some((1, true)));
    assert_eq!(numeric_rank(&prim(TokenType::U64)), Some((4, false)));
    assert_eq!(numeric_rank(&prim(TokenType::Void)), None);
    assert_eq!(numeric_rank(&Type::Pointer(Box::new(prim(TokenType::I32)))), None);
}

#[test]
fn numeric_and_number_agree() {
    for k in [TokenType::I8, TokenType::U16, TokenType::I32, TokenType::U64, TokenType::IntType, TokenType::Void] {
        assert_eq!(is_numeric(&prim(k)), is_number(&prim(k)));
    }
    assert!(is_number(&prim(TokenType::I16)));
    assert!(!is_number(&prim(TokenType::IntType)));
}

#[test]
fn unsigned_types() {
    assert!(is_unsigned(&prim(TokenType::U8)));
    assert!(!is_unsigned(&prim(TokenType::I8)));
    assert!(!is_unsigned(&Type::Unknown));
}

#[test]
fn signedness_agreement() {
    assert!(same_signedness(&prim(TokenType::I8), &prim(TokenType::I64)));
    assert!(!same_signedness(&prim(TokenType::I8), &prim(TokenType::U64)));
    assert!(same_signedness(&prim(TokenType::U8), &Type::Unknown));
}

#[test]
fn coercion_picks_wider_then_unsigned() {
    assert!(matches!(coerce_numeric(&prim(TokenType::I8), &prim(TokenType::I32)), Type::Primitive(TokenType::I32)));
    assert!(matches!(coerce_numeric(&prim(TokenType::I64), &prim(TokenType::I32)), Type::Primitive(TokenType::I64)));
    assert!(matches!(coerce_numeric(&prim(TokenType::I32), &prim(TokenType::U32)), Type::Primitive(TokenType::U32)));
    assert!(matches!(coerce_numeric(&prim(TokenType::U16), &prim(TokenType::I16)), Type::Primitive(TokenType::U16)));
}

#[test]
fn alignment() {
    assert_eq!(align16(0), 0);
    assert_eq!(align16(1), 16);
    assert_eq!(align16(16), 16);
    assert_eq!(align16(17), 32);
    assert_eq!(aligned_size(13, 8), 16);
    assert_eq!(aligned_size(16, 8), 16);
    assert_eq!(aligned_size(5, 1), 5);
    assert_eq!(aligned_size(7, 4), 8);
}

#[test]
fn alignment_to_any_power_of_two() {
    assert_eq!(aligned_size(0, 4), 0);
    assert_eq!(aligned_size(1000, 64), 1024);
    assert_eq!(aligned_size(1024, 1024), 1024);
    assert_eq!(aligned_size(usize::MAX - 7, 8), usize::MAX - 7);
}

#[test]
fn substitution_leaves_types_without_the_parameters() {
    let t = Type::Pointer(Box::new(Type::Array(Box::new(Type::Struct("S".to_string())), 3)));
    let r = substitute_type(&t, &vec!["T".to_string()], &vec![]);
    assert_eq!(format!("{:?}", r), format!("{:?}", t));
    let u = Type::GenericType("U".to_string());
    let r2 = substitute_type(&u, &vec![], &vec![]);
    assert_eq!(format!("{:?}", r2), format!("{:?}", u));
}

#[test]
fn mangled_names() {
    assert_eq!(mangled_type_name(&prim(TokenType::I32)), "i32");
    assert_eq!(mangled_type_name(&Type::Pointer(Box::new(prim(TokenType::U8)))), "u8__ptr");
    assert_eq!(mangled_type_name(&Type::Array(Box::new(prim(TokenType::I64)), 10)), "i64__arr__10");
    assert_eq!(
        mangled_type_name(&Type::GenericInst("Vec".to_string(), vec![prim(TokenType::I32), Type::Struct("P".to_string())])),
        "Vec__i32_P"
    );
    assert_eq!(mangled_type_name(&prim(TokenType::IntType)), "IntType");
    assert_eq!(mangled_type_name(&Type::Unknown), "unknown");
}

#[test]
fn generic_names() {
    let args = vec![prim(TokenType::I32), prim(TokenType::U8)];
    assert_eq!(transform_generic_name(&"max".to_string(), &args, -1), "max__i32_u8");
    assert_eq!(transform_generic_name(&"max".to_string(), &args, 2), "max__i32_u8__2");
    assert_eq!(transform_generic_name(&"f".to_string(), &vec![], 0), "f__0");
    assert_eq!(transform_generic_name(&"f".to_string(), &vec![], -1), "f");
}

#[test]
fn method_names() {
    assert_eq!(mangle_method_name(&"Point".to_string(), &"len".to_string()), "Point$len");
}

#[test]
fn base_registers() {
    assert_eq!(to_base_reg("eax"), "rax");
    assert_eq!(to_base_reg("dl"), "rdx");
    assert_eq!(to_base_reg("sil"), "rsi");
    assert_eq!(to_base_reg("r10"), "r10");
}

#[test]
fn argument_registers() {
    assert_eq!(arg_pos(0, &prim(TokenType::I64)), "rdi");
    assert_eq!(arg_pos(1, &prim(TokenType::I32)), "esi");
    assert_eq!(arg_pos(2, &prim(TokenType::I16)), "dx");
    assert_eq!(arg_pos(3, &prim(TokenType::I8)), "cl");
    assert_eq!(arg_pos(4, &Type::Pointer(Box::new(prim(TokenType::I8)))), "r8");
    assert_eq!(arg_pos(7, &prim(TokenType::I32)), "r11d");
}

#[test]
fn substitution_of_generic_parameters() {
    let t = Type::Pointer(Box::new(Type::GenericType("T".to_string())));
    let r = substitute_type(&t, &vec!["T".to_string()], &vec![prim(TokenType::I32)]);
    assert!(matches!(r, Type::Pointer(inner) if matches!(*inner, Type::Primitive(TokenType::I32))));
    let u = substitute_type(&Type::GenericType("U".to_string()), &vec!["T".to_string()], &vec![prim(TokenType::I32)]);
    assert!(matches!(u, Type::GenericType(n) if n == "U"));
}

#[test]
fn generic_map_pairs_names_with_types() {
    let m = build_generic_map(&vec!["T".to_string(), "U".to_string()], &vec![prim(TokenType::I8), prim(TokenType::U8), prim(TokenType::I64)]);
    assert_eq!(m.len(), 2);
    assert_eq!(m[0].0, "T");
    assert!(matches!(m[1].1, Type::Primitive(TokenType::U8)));
}

#[test]
fn assignment_target_root() {
    let lv = LValue::Deref(Box::new(LValue::Field {
        base: Box::new(LValue::Variable("p".to_string())),
        name: "x".to_string(),
    }));
    assert_eq!(lvalue_root(&lv), "p");
}

#[test]
fn type_compatibility() {
    let i32t = prim(TokenType::I32);
    assert!(check_types(&i32t, &prim(TokenType::I32)));
    assert!(!check_types(&i32t, &prim(TokenType::I64)));
    assert!(check_types(&Type::GenericType("T".to_string()), &i32t));
    let arr = Type::Array(Box::new(prim(TokenType::U8)), 4);
    let ptr = Type::Pointer(Box::new(prim(TokenType::U8)));
    assert!(check_types(&ptr, &arr));
    assert!(check_types(&arr, &ptr));
    let void_ptr = Type::Pointer(Box::new(prim(TokenType::Void)));
    assert!(check_types(&void_ptr, &Type::Pointer(Box::new(i32t))));
    assert!(check_types(&Type::Enum("Opt__i32".to_string(), None), &Type::Enum("Opt".to_string(), None)));
    assert!(check_types(&Type::Named("P".to_string()), &Type::Struct("P".to_string())));
    assert!(!check_types(&Type::Struct("P".to_string()), &Type::Struct("Q".to_string())));
}
