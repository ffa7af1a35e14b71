use vcompiler::ir::{BinOp, ExprType, LValue, MatchLeftValue, Stmt, StmtType, Type};
use vcompiler::parser::Parser;
use vcompiler::tokenizer::{Token, TokenType, Tokenizer};

fn tokens(src: &str) -> Vec<Token> {
    let mut t = Tokenizer::new(src.to_string());
    assert!(t.tokenize());
    t.m_res
}

fn parse(src: &str) -> Option<Vec<Stmt>> {
    let mut p = Parser::new(tokens(src), "main.vmm".to_string());
    p.parse()
}

#[test]
fn declaration_with_initializer() {
    let stmts = parse("int x = 1 + 2 * 3;\n").unwrap();
    assert_eq!(stmts.len(), 1);
    assert_eq!(stmts[0].file, "main.vmm");
    assert_eq!(stmts[0].line, 1);
    match &stmts[0].ty {
        StmtType::Declaration(d) => {
            assert_eq!(d.name, "x");
            assert!(matches!(d.ty, Type::Primitive(TokenType::IntType)));
            let init = d.initializer.as_ref().unwrap();
            match &init.ty {
                ExprType::Binary { op: BinOp::Add, left, right } => {
                    assert!(matches!(left.ty, ExprType::Number(1)));
                    assert!(matches!(&right.ty, ExprType::Binary { op: BinOp::Mul, .. }));
                },
                other => panic!("unexpected initializer {:?}", other),
            }
        },
        other => panic!("unexpected statement {:?}", other),
    }
}

#[test]
fn pointer_and_array_declarations() {
    let stmts = parse("char *p; int a[4]; char s[] = \"hi\";\n").unwrap();
    assert_eq!(stmts.len(), 3);
    match &stmts[0].ty {
        StmtType::Declaration(d) => assert!(matches!(&d.ty, Type::Pointer(inner) if matches!(**inner, Type::Primitive(TokenType::CharType)))),
        _ => panic!(),
    }
    match &stmts[1].ty {
        StmtType::Declaration(d) => assert!(matches!(&d.ty, Type::Array(_, 4))),
        _ => panic!(),
    }
    match &stmts[2].ty {
        StmtType::Declaration(d) => assert!(matches!(&d.ty, Type::Array(_, 3))),
        _ => panic!(),
    }
}

#[test]
fn function_with_parameters_and_return_type() {
    let stmts = parse("fn add(int a, int b) -> int { return a + b; }\n").unwrap();
    assert_eq!(stmts.len(), 1);
    match &stmts[0].ty {
        StmtType::InitFunc { name, args, ret_type, data } => {
            assert_eq!(name, "add");
            assert_eq!(args.len(), 2);
            assert_eq!(args[1].name, "b");
            assert!(matches!(ret_type, Type::Primitive(TokenType::IntType)));
            match &data.ty {
                StmtType::Block(body) => {
                    assert_eq!(body.len(), 1);
                    assert!(matches!(&body[0].ty, StmtType::Return(Some(_))));
                },
                _ => panic!(),
            }
        },
        other => panic!("unexpected statement {:?}", other),
    }
}

#[test]
fn generic_function() {
    let stmts = parse("fn id<T>(T x) -> T { return x; }\n").unwrap();
    match &stmts[0].ty {
        StmtType::GenericInitFunc { name, generic_types, args, ret_type, .. } => {
            assert_eq!(name, "id");
            assert_eq!(generic_types, &vec!["T".to_string()]);
            assert!(matches!(&args[0].ty, Type::GenericType(n) if n == "T"));
            assert!(matches!(ret_type, Type::GenericType(_)));
        },
        other => panic!("unexpected statement {:?}", other),
    }
}

#[test]
fn struct_declaration_lays_out_fields() {
    let stmts = parse("struct P { long x; long y; } P p;\n");
    // `long` has no size: the struct cannot be laid out.
    assert!(stmts.is_none());
    let mut p = Parser::new(tokens("struct Q { char *a; char *b; } Q q;\n"), "m".to_string());
    let stmts = p.parse().unwrap();
    assert_eq!(stmts.len(), 2);
    match &stmts[0].ty {
        StmtType::InitStruct(d) => {
            assert_eq!(d.name, "Q");
            assert_eq!(d.size, 16);
            assert_eq!(d.fields[1].offset, 8);
        },
        _ => panic!(),
    }
    match &stmts[1].ty {
        StmtType::Declaration(d) => assert!(matches!(&d.ty, Type::Struct(n) if n == "Q")),
        _ => panic!(),
    }
}

#[test]
fn enum_declaration_and_match() {
    let src = "enum Color { Red, Green, } match c { Color::Red => x = 1;, _ => x = 2;, }\n";
    let stmts = parse(src).unwrap();
    assert_eq!(stmts.len(), 2);
    match &stmts[0].ty {
        StmtType::InitEnum { name, variants, .. } => {
            assert_eq!(name, "Color");
            assert_eq!(variants.len(), 2);
            assert_eq!(variants[1].name, "Green");
            assert_eq!(variants[1].tag, 1);
        },
        _ => panic!(),
    }
    match &stmts[1].ty {
        StmtType::Match { variants, .. } => {
            assert_eq!(variants.len(), 2);
            assert!(matches!(&variants[0].left, MatchLeftValue::Enum { base, value, .. } if base == "Color" && value == "Red"));
            assert!(matches!(&variants[1].left, MatchLeftValue::Enum { base, .. } if base == "_"));
        },
        _ => panic!(),
    }
}

#[test]
fn control_flow() {
    let src = "if x < 1 { y = 2; } else { y = 3; } while i { i = i - 1; } for (int k = 0; k < 3; k = k + 1) { }\n";
    let stmts = parse(src).unwrap();
    assert_eq!(stmts.len(), 3);
    assert!(matches!(&stmts[0].ty, StmtType::If { else_block: Some(_), .. }));
    assert!(matches!(&stmts[1].ty, StmtType::While { .. }));
    match &stmts[2].ty {
        StmtType::For { init, condition, update, .. } => {
            assert!(init.is_some());
            assert!(condition.is_some());
            assert!(update.is_some());
        },
        _ => panic!(),
    }
}

#[test]
fn assignment_targets() {
    let stmts = parse("*p = 1; s.a[2] = 3; q->b = 4;\n").unwrap();
    assert_eq!(stmts.len(), 3);
    assert!(matches!(&stmts[0].ty, StmtType::Assignment { target: LValue::Deref(_), .. }));
    assert!(matches!(&stmts[1].ty, StmtType::Assignment { target: LValue::Index { .. }, .. }));
    match &stmts[2].ty {
        StmtType::Assignment { target: LValue::Field { base, name }, .. } => {
            assert_eq!(name, "b");
            assert!(matches!(**base, LValue::Deref(_)));
        },
        _ => panic!(),
    }
}

#[test]
fn calls_globals_asm_and_extern() {
    let src = "f(1, 2); global int g; asm { \"nop\" \"ret\" } extern fn puts<>(char *s) -> int int z;\n";
    let stmts = parse(src).unwrap();
    assert_eq!(stmts.len(), 5);
    match &stmts[0].ty {
        StmtType::ExprStmt(e) => assert!(matches!(&e.ty, ExprType::Call { name, args, .. } if name == "f" && args.len() == 2)),
        _ => panic!(),
    }
    assert!(matches!(&stmts[1].ty, StmtType::GlobalDecl(_)));
    match &stmts[2].ty {
        StmtType::AsmCode(lines) => assert_eq!(lines, &vec!["nop".to_string(), "ret".to_string()]),
        _ => panic!(),
    }
    assert!(matches!(&stmts[3].ty, StmtType::ExternFn(_)));
}

#[test]
fn parsing_stops_at_an_import() {
    let mut p = Parser::new(tokens("int a; import \"lib.vmm\" int b;\n"), "main.vmm".to_string());
    let first = p.parse().unwrap();
    assert_eq!(first.len(), 1);
    assert_eq!(p.pending_import().as_deref(), Some("lib.vmm"));
    let mut lib = Parser::new(tokens("struct L { char *p; } \n"), "lib.vmm".to_string());
    let lib_stmts = lib.parse().unwrap();
    assert_eq!(lib_stmts.len(), 1);
    p.merge_declarations(&lib);
    let block = p.skip_import();
    assert!(matches!(&block.ty, StmtType::Block(b) if b.is_empty()));
    let rest = p.parse().unwrap();
    assert_eq!(rest.len(), 1);
    assert!(p.is_done());
    // the imported struct is now a type of the importing file
    let mut q = Parser::new(tokens("int a; import \"lib.vmm\" L l;\n"), "main.vmm".to_string());
    q.parse().unwrap();
    q.merge_declarations(&lib);
    q.skip_import();
    let r = q.parse().unwrap();
    assert!(matches!(&r[0].ty, StmtType::Declaration(d) if matches!(&d.ty, Type::Struct(n) if n == "L")));
}

#[test]
fn file_of_statements_can_change() {
    let mut p = Parser::new(tokens("int a; int b;\n"), "one.vmm".to_string());
    let s = p.parse_stmt().unwrap();
    assert_eq!(s.file, "one.vmm");
    p.set_current_file("two.vmm".to_string());
    let t = p.parse_stmt().unwrap();
    assert_eq!(t.file, "two.vmm");
}

#[test]
fn unexpected_tokens_are_refused() {
    assert!(parse("int = 3;\n").is_none());
    assert!(parse("{ int a;\n").is_none());
}

#[test]
fn expressions() {
    let mut p = Parser::new(tokens("a.b[1] as long + sizeof(int) ;"), "m".to_string());
    let e = p.parse_expr().unwrap();
    assert!(matches!(&e.ty, ExprType::Binary { op: BinOp::Add, .. }));
    let mut q = Parser::new(tokens("-*&x ;"), "m".to_string());
    let u = q.parse_expr().unwrap();
    assert!(matches!(&u.ty, ExprType::Unary { .. }));
}

#[test]
fn char_array_before_the_name_takes_the_string_size() {
    let stmts = parse("char[] name = \"hello\";\nchar[4] buf;\nchar tail[] = \"ab\";\n").unwrap();
    assert_eq!(stmts.len(), 3);
    match &stmts[0].ty {
        StmtType::Declaration(d) => {
            assert_eq!(d.name, "name");
            assert!(matches!(&d.ty, Type::Array(inner, 6) if matches!(**inner, Type::Primitive(TokenType::CharType))));
            assert!(matches!(&d.initializer.as_ref().unwrap().ty, ExprType::String { str } if str == "hello"));
        },
        other => panic!("unexpected statement {:?}", other),
    }
    match &stmts[1].ty {
        StmtType::Declaration(d) => {
            assert_eq!(d.name, "buf");
            assert!(matches!(&d.ty, Type::Array(_, 4)));
        },
        other => panic!("unexpected statement {:?}", other),
    }
    match &stmts[2].ty {
        StmtType::Declaration(d) => assert!(matches!(&d.ty, Type::Array(_, 3))),
        other => panic!("unexpected statement {:?}", other),
    }
}
