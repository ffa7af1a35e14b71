use vcompiler::ir::{BinOp, Error, SemanticError, Type, UnaryOp};
use vcompiler::tokenizer::TokenType;

fn prim(k: TokenType) -> Type {
    Type::Primitive(k)
}

#[test]
fn undeclared_names() {
    assert_eq!(SemanticError::UndeclaredVariable("x".to_string()).message(), "Cannot find variable 'x' in this scope.");
    assert_eq!(SemanticError::UndeclaredFunction("f".to_string()).message(), "Cannot find function 'f' in this scope.");
    assert_eq!(SemanticError::UndeclaredStruct("S".to_string()).message(), "Cannot find struct 'S' in this scope.");
    assert_eq!(
        SemanticError::UndeclaredField("S".to_string(), "a".to_string()).message(),
        "Struct 'S' has no field named 'a'."
    );
}

#[test]
fn counts_are_printed_in_decimal() {
    let e = SemanticError::FunctionArgsMismatch { func_name: "f".to_string(), expected: 2, got: 13 };
    assert_eq!(e.message(), "Function 'f' expected 2 args, but got 13");
    let a = SemanticError::ArrayTooLarge { arr_name: "a".to_string(), expected: 4, got: 5 };
    assert_eq!(a.message(), "Array 'a' expects 4 elements, but got 5.");
}

#[test]
fn types_are_printed_as_their_debug_form() {
    let e = SemanticError::TypeMismatch {
        expected: Type::Pointer(Box::new(prim(TokenType::I32))),
        got: Type::Array(Box::new(prim(TokenType::U8)), 4),
    };
    assert_eq!(e.message(), "Type mismatch: expected Pointer(Primitive(I32)), found Array(Primitive(U8), 4).");
    let g = SemanticError::NotAPointer(Type::GenericInst(
        "Vec".to_string(),
        vec![prim(TokenType::I8), Type::Enum("E".to_string(), Some("A".to_string()))],
    ));
    assert_eq!(
        g.message(),
        "Type GenericInst(\"Vec\", [Primitive(I8), Enum(\"E\", Some(\"A\"))]) cannot be dereferenced. It is not a pointer."
    );
    assert_eq!(format!("{:?}", Type::Struct("P".to_string())), "Struct(\"P\")");
}

#[test]
fn debug_form_matches_derived_debug() {
    let ts = vec![
        Type::Unknown,
        Type::Named("N".to_string()),
        Type::GenericType("T".to_string()),
        Type::Enum("E".to_string(), None),
        Type::Struct("quo\"te".to_string()),
        Type::GenericInst("V".to_string(), vec![]),
    ];
    for t in ts {
        let expected = format!("Type {:?} cannot be indexed.", t);
        assert_eq!(SemanticError::NonArrayIndex(t).message(), expected);
    }
}

#[test]
fn operators_are_printed_by_name() {
    let e = SemanticError::InvalidBinary { op: BinOp::ShiftLeft, left: prim(TokenType::I8), right: Type::Unknown };
    assert_eq!(e.message(), "Cannot apply binary operator ShiftLeft to types Primitive(I8) and Unknown.");
    let u = SemanticError::InvalidUnary { op: UnaryOp::Neg, ty: prim(TokenType::Void) };
    assert_eq!(u.message(), "Cannot apply unary operator Neg to type Primitive(Void).");
}

#[test]
fn other_errors_print_their_debug_form() {
    assert_eq!(SemanticError::ReturnOutsideFunction.message(), "ReturnOutsideFunction");
    assert_eq!(SemanticError::CircularStruct("A".to_string()).message(), "CircularStruct(\"A\")");
    assert_eq!(SemanticError::MissingReturn("a\"b".to_string()).message(), "MissingReturn(\"a\\\"b\")");
    assert_eq!(SemanticError::DerefNonPointer(prim(TokenType::I64)).message(), "DerefNonPointer(Primitive(I64))");
}

#[test]
fn fixed_messages() {
    assert_eq!(SemanticError::EmptyArray.message(), "Cannot initialize an empty array without a specific type.");
    assert_eq!(SemanticError::BreakOutsideOfLoop.message(), "Break outside of loop");
    assert_eq!(SemanticError::BadType(TokenType::Semi).message(), "Expected type but got 'Semi'");
    assert_eq!(SemanticError::VoidVariable("v".to_string()).message(), "Variable 'v' cannot be declared with type 'void'.");
}

#[test]
fn error_report_names_the_place() {
    let e = Error { ty: SemanticError::UnkownType("Q".to_string()), file: "a.vmm".to_string(), line: 12, col: 0 };
    let (msg, at) = e.report();
    assert_eq!(msg, "Unkown type 'Q'");
    assert_eq!(at, "a.vmm:12:0");
}
