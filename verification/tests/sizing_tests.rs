use vcompiler::codegen::{Gen, StructData};
use vcompiler::ir::{Declaration, EnumData, EnumVariant, MatchLeftValue, StmtType, StructDef, StructField, Type};
use vcompiler::tokenizer::TokenType;

fn prim(k: TokenType) -> Type {
    Type::Primitive(k)
}

fn field(name: &str, ty: Type) -> StructField {
    StructField { name: name.to_string(), offset: 0, ty }
}

fn option_enum(name: &str, generic: Vec<String>, payload: Vec<StructField>) -> EnumData {
    EnumData {
        name: name.to_string(),
        generic_type: generic,
        variants: vec![
            EnumVariant { name: "None".to_string(), tag: 0, args: vec![], size: 0 },
            EnumVariant { name: "Some".to_string(), tag: 1, args: payload, size: 0 },
        ],
        size: 0,
    }
}

fn pair_struct() -> StructData {
    let def = StructDef {
        name: "Pair".to_string(),
        fields: vec![field("a", Type::GenericType("T".to_string())), field("b", prim(TokenType::U8))],
        generic_type: vec!["T".to_string()],
        size: 0,
    };
    StructData::from_def(&def, 0)
}

#[test]
fn enum_variants_are_laid_out_after_the_tag() {
    let mut g = Gen::new();
    g.enums.push(option_enum("E", vec![], vec![field("x", prim(TokenType::I32)), field("y", prim(TokenType::I64))]));
    assert_eq!(g.ensure_enum_sized(&"E".to_string()), 20);
    let e = &g.enums[0];
    assert_eq!(e.size, 20);
    assert_eq!(e.variants[0].size, 8);
    assert_eq!(e.variants[1].size, 20);
    assert_eq!(e.variants[1].args[0].offset, 8);
    assert_eq!(e.variants[1].args[1].offset, 12);
    assert_eq!(g.ensure_enum_sized(&"E".to_string()), 20);
    assert_eq!(g.enums.len(), 1);
}

#[test]
fn an_enum_with_a_size_is_left_alone() {
    let mut g = Gen::new();
    let mut e = option_enum("E", vec![], vec![field("x", prim(TokenType::I64))]);
    e.size = 3;
    g.enums.push(e);
    assert_eq!(g.ensure_enum_sized(&"E".to_string()), 3);
    assert_eq!(g.enums[0].variants[1].args[0].offset, 0);
}

#[test]
fn generic_enum_instance() {
    let mut g = Gen::new();
    let def = option_enum("Opt", vec!["T".to_string()], vec![field("v", Type::GenericType("T".to_string()))]);
    let t = g.monomorphize_enum(&def, &vec![prim(TokenType::I16)]);
    assert!(matches!(&t, Type::Enum(n, None) if n == "Opt__i16"));
    assert_eq!(g.enums.len(), 1);
    let inst = &g.enums[0];
    assert_eq!(inst.name, "Opt__i16");
    assert!(inst.generic_type.is_empty());
    assert!(matches!(inst.variants[1].args[0].ty, Type::Primitive(TokenType::I16)));
    assert_eq!(inst.variants[1].args[0].offset, 8);
    assert_eq!(inst.variants[1].size, 10);
    assert_eq!(inst.size, 10);
    let again = g.monomorphize_enum(&def, &vec![prim(TokenType::I16)]);
    assert!(matches!(&again, Type::Enum(n, None) if n == "Opt__i16"));
    assert_eq!(g.enums.len(), 1);
}

#[test]
fn generic_struct_instance() {
    let mut g = Gen::new();
    let def = pair_struct();
    let t = g.monomorphize_struct(&def, &vec![prim(TokenType::I32)]);
    assert!(matches!(&t, Type::Struct(n) if n == "Pair__i32"));
    assert_eq!(g.structs.len(), 1);
    let inst = &g.structs[0];
    assert_eq!(inst.name, "Pair__i32");
    assert!(inst.generic_type.is_empty());
    assert_eq!(inst.size, 8);
    let a = inst.field(&"a".to_string()).unwrap();
    assert!(matches!(a.ty, Type::Primitive(TokenType::I32)));
    assert_eq!(a.offset, 0);
    assert_eq!(inst.field(&"b".to_string()).unwrap().offset, 4);
    let again = g.monomorphize_struct(&def, &vec![prim(TokenType::I32)]);
    assert!(matches!(&again, Type::Struct(n) if n == "Pair__i32"));
    assert_eq!(g.structs.len(), 1);
}

#[test]
fn instances_are_made_behind_pointers() {
    let mut g = Gen::new();
    g.structs.push(pair_struct());
    g.enums.push(option_enum("Opt", vec!["T".to_string()], vec![field("v", Type::GenericType("T".to_string()))]));
    let inst = Type::GenericInst("Pair".to_string(), vec![prim(TokenType::U16)]);
    let r = g.ensure_monomorphized(&Type::Pointer(Box::new(inst)));
    assert!(matches!(&r, Type::Pointer(inner) if matches!(&**inner, Type::Struct(n) if n == "Pair__u16")));
    assert_eq!(g.structs.len(), 2);
    assert_eq!(g.structs[1].name, "Pair__u16");
    let arr = Type::Array(Box::new(Type::GenericInst("Pair".to_string(), vec![prim(TokenType::U16)])), 3);
    let r2 = g.ensure_monomorphized(&arr);
    assert!(matches!(&r2, Type::Array(inner, 3) if matches!(&**inner, Type::Struct(n) if n == "Pair__u16")));
    assert_eq!(g.structs.len(), 2);
    let e = Type::GenericInst("Opt".to_string(), vec![prim(TokenType::I8)]);
    let r3 = g.ensure_monomorphized(&e);
    assert!(matches!(&r3, Type::Enum(n, None) if n == "Opt__i8"));
    assert_eq!(g.enums.len(), 2);
    assert_eq!(g.enums[1].size, 9);
    let plain = g.ensure_monomorphized(&prim(TokenType::U32));
    assert!(matches!(plain, Type::Primitive(TokenType::U32)));
    assert_eq!(g.structs.len(), 2);
    assert_eq!(g.enums.len(), 2);
}

#[test]
fn struct_fields_are_aligned_and_made_concrete() {
    let mut g = Gen::new();
    g.structs.push(pair_struct());
    let def = StructDef {
        name: "S".to_string(),
        fields: vec![
            field("c", prim(TokenType::U8)),
            field("p", Type::Pointer(Box::new(Type::GenericInst("Pair".to_string(), vec![prim(TokenType::I32)])))),
            field("n", prim(TokenType::I32)),
        ],
        generic_type: vec![],
        size: 0,
    };
    g.structs.push(StructData::from_def(&def, 0));
    assert_eq!(g.ensure_struct_sized(&"S".to_string()), 24);
    assert_eq!(g.structs.len(), 3);
    assert_eq!(g.structs[2].name, "Pair__i32");
    let s = &g.structs[1];
    assert_eq!(s.size, 24);
    assert_eq!(s.field(&"c".to_string()).unwrap().offset, 0);
    let p = s.field(&"p".to_string()).unwrap();
    assert_eq!(p.offset, 8);
    assert!(matches!(&p.ty, Type::Pointer(inner) if matches!(&**inner, Type::Struct(n) if n == "Pair__i32")));
    assert_eq!(s.field(&"n".to_string()).unwrap().offset, 16);
    assert_eq!(g.ensure_struct_sized(&"S".to_string()), 24);
    assert_eq!(g.structs.len(), 3);
    assert_eq!(g.type_size(&Type::Struct("S".to_string())), 24);
}

#[test]
fn arguments_go_to_registers_then_the_stack() {
    let mut g = Gen::new();
    g.push_arg(0, &prim(TokenType::I32), "eax");
    g.push_arg(2, &prim(TokenType::I64), "rbx");
    g.push_arg(5, &prim(TokenType::U8), "al");
    assert_eq!(g.func_data, "    mov edi, eax\n    mov rdx, rbx\n    mov r9b, al\n");
    assert_eq!(g.stack_pos, 0);
    g.push_arg(6, &prim(TokenType::I64), "rax");
    assert_eq!(g.stack_pos, 8);
    assert_eq!(g.func_data, "    mov edi, eax\n    mov rdx, rbx\n    mov r9b, al\n    push rax\n");
}

fn decl(name: &str, ty: Type) -> Declaration {
    Declaration { name: name.to_string(), ty, initializer: None }
}

#[test]
fn registers_taken_by_parameters() {
    let mut g = Gen::new();
    g.structs.push(StructData::from_def(&StructDef { name: "Small".to_string(), fields: vec![], generic_type: vec![], size: 0 }, 8));
    g.structs.push(StructData::from_def(&StructDef { name: "Mid".to_string(), fields: vec![], generic_type: vec![], size: 0 }, 12));
    g.structs.push(StructData::from_def(&StructDef { name: "Big".to_string(), fields: vec![], generic_type: vec![], size: 0 }, 24));
    let mut e = option_enum("E", vec![], vec![]);
    e.size = 16;
    g.enums.push(e);
    let args = vec![
        decl("a", prim(TokenType::I32)),
        decl("b", Type::Struct("Small".to_string())),
        decl("c", Type::Struct("Mid".to_string())),
        decl("d", Type::Struct("Big".to_string())),
        decl("e", Type::Enum("E".to_string(), None)),
        decl("f", Type::Pointer(Box::new(prim(TokenType::U8)))),
    ];
    assert_eq!(g.arg_count(false, &args), 7);
    assert_eq!(g.arg_count(true, &args), 8);
    assert_eq!(g.arg_count(true, &vec![]), 1);
}

#[test]
fn size_of_makes_the_type_concrete_first() {
    let mut g = Gen::new();
    g.structs.push(pair_struct());
    let t = Type::GenericInst("Pair".to_string(), vec![prim(TokenType::I64)]);
    assert_eq!(g.gen_size_of(&t), "rax");
    assert_eq!(g.structs.len(), 2);
    assert_eq!(g.func_data, "    mov rax, 16\n");
    g.gen_size_of(&Type::Array(Box::new(prim(TokenType::I16)), 5));
    assert_eq!(g.func_data, "    mov rax, 16\n    mov rax, 10\n");
}

#[test]
fn instances_are_read_by_their_names() {
    let mut g = Gen::new();
    g.structs.push(pair_struct());
    g.enums.push(option_enum("Opt", vec!["T".to_string()], vec![field("v", Type::GenericType("T".to_string()))]));
    g.ensure_monomorphized(&Type::GenericInst("Pair".to_string(), vec![prim(TokenType::U8)]));
    g.ensure_monomorphized(&Type::GenericInst("Opt".to_string(), vec![prim(TokenType::U8)]));
    let s = g.resolve_generic_inst(&Type::Pointer(Box::new(Type::GenericInst("Pair".to_string(), vec![prim(TokenType::U8)]))));
    assert!(matches!(&s, Type::Pointer(inner) if matches!(&**inner, Type::Struct(n) if n == "Pair__u8")));
    let e = g.resolve_generic_inst(&Type::GenericInst("Opt".to_string(), vec![prim(TokenType::U8)]));
    assert!(matches!(&e, Type::Enum(n, None) if n == "Opt__u8"));
    let same = g.resolve_generic_inst(&prim(TokenType::I8));
    assert!(matches!(same, Type::Primitive(TokenType::I8)));
    assert_eq!(g.enum_get_size(&"Opt__u8".to_string()), 9);
}

#[test]
fn parameters_are_received_from_registers_and_the_stack() {
    let mut g = Gen::new();
    g.structs.push(StructData::from_def(&StructDef { name: "T".to_string(), fields: vec![], generic_type: vec![], size: 0 }, 12));
    g.get_arg(1, &prim(TokenType::I32), 8, None, false);
    g.get_arg(6, &Type::Pointer(Box::new(prim(TokenType::I8))), 16, None, false);
    assert_eq!(g.func_data, "    mov [rbp - 8], edi\n    mov [rbp - 16], r9\n");
    g.func_data.clear();
    g.get_arg(7, &prim(TokenType::I64), 24, Some(16), false);
    assert_eq!(g.func_data, "    mov rax, [rbp + 16]\n    mov [rbp - 24], rax\n");
    g.func_data.clear();
    g.get_arg(8, &Type::Struct("T".to_string()), 32, Some(24), true);
    assert_eq!(g.func_data, "    mov rax, [rbp + 24]\n    mov [rbp - 32], rax\n    mov eax, [rbp + 32]\n    mov DWORD [rbp - 24], eax\n");
    g.func_data.clear();
    g.get_arg(9, &Type::Array(Box::new(prim(TokenType::U8)), 3), 40, Some(32), false);
    assert_eq!(
        g.func_data,
        "    mov al, [rbp + 32]\n    mov BYTE [rbp - 40], al\n    mov al, [rbp + 33]\n    mov BYTE [rbp - 39], al\n    mov al, [rbp + 34]\n    mov BYTE [rbp - 38], al\n"
    );
}

#[test]
fn bound_variant_arguments_are_loaded() {
    let mut g = Gen::new();
    let f = StructField { name: "v".to_string(), offset: 8, ty: prim(TokenType::I32) };
    let mut pos: usize = 16;
    g.gen_match_field_arg(&prim(TokenType::I32), &f, &"eax".to_string(), &mut pos);
    assert_eq!(pos, 24);
    assert_eq!(g.func_data, "    mov eax, [rbp - 24]\n");
    g.func_data.clear();
    let s = StructField { name: "s".to_string(), offset: 8, ty: Type::Struct("S".to_string()) };
    let mut pos2: usize = 0;
    g.gen_match_field_arg(&Type::Pointer(Box::new(prim(TokenType::I64))), &s, &"rax".to_string(), &mut pos2);
    assert_eq!(pos2, 16);
    assert_eq!(g.func_data, "    mov rax, [rbp - 8]\n    add rax, 8\n    mov rax, [rax]\n    lea rax, [rbp - 16]\n");
    g.func_data.clear();
    let mut pos3: usize = 0;
    g.gen_match_field_arg(&Type::Enum("E".to_string(), None), &f, &"eax".to_string(), &mut pos3);
    assert_eq!(pos3, 8);
    assert_eq!(g.func_data, "    mov rax, [rbp - 8]\n    add rax, 8\n    mov rax, [rax]\n");
}

fn arm(left: vcompiler::ir::MatchLeftValue) -> vcompiler::ir::MatchField {
    vcompiler::ir::MatchField {
        left,
        right: vcompiler::ir::Stmt { ty: vcompiler::ir::StmtType::Block(vec![]), line: 0, file: String::new() },
    }
}

fn number(n: i64) -> vcompiler::ir::Expr {
    vcompiler::ir::Expr { ty: vcompiler::ir::ExprType::Number(n), file: String::new(), line: 0, col: 0 }
}

#[test]
fn match_arms_jump_on_their_values() {
    let mut g = Gen::new();
    g.enums.push(option_enum("E", vec![], vec![]));
    let mut f = option_enum("F", vec![], vec![]);
    f.variants[1].tag = 7;
    g.enums.push(f);
    let unknown = Type::Unknown;
    g.gen_match_asm_checking(&arm(MatchLeftValue::Expr { expr: number(3) }), 2, &unknown);
    g.gen_match_asm_checking(&arm(MatchLeftValue::Expr { expr: number(-1) }), 2, &unknown);
    g.gen_match_asm_checking(&arm(MatchLeftValue::Enum { base: "_".to_string(), value: String::new(), args: vec![] }), 2, &unknown);
    g.gen_match_asm_checking(&arm(MatchLeftValue::Enum { base: "E".to_string(), value: "Some".to_string(), args: vec![] }), 2, &unknown);
    g.gen_match_asm_checking(
        &arm(MatchLeftValue::Enum { base: "E".to_string(), value: "Some".to_string(), args: vec![] }),
        2,
        &Type::Enum("F".to_string(), None),
    );
    assert_eq!(
        g.func_data,
        "    cmp rax, 3\n    je match_2_3\n    cmp rax, -1\n    je match_2_-1\n    jmp match_2_wildcard\n    cmp rax, 1\n    je match_2_1\n    cmp rax, 7\n    je match_2_7\n"
    );
}

fn stmt(ty: StmtType) -> vcompiler::ir::Stmt {
    vcompiler::ir::Stmt { ty, line: 1, file: "m.vmm".to_string() }
}

fn empty_block() -> Box<vcompiler::ir::Stmt> {
    Box::new(stmt(StmtType::Block(vec![])))
}

#[test]
fn declarations_are_registered_then_laid_out() {
    let pair = StructDef {
        name: "Pair".to_string(),
        fields: vec![field("a", Type::GenericType("T".to_string())), field("b", prim(TokenType::U8))],
        generic_type: vec!["T".to_string()],
        size: 0,
    };
    let s = StructDef {
        name: "S".to_string(),
        fields: vec![
            field("c", prim(TokenType::U8)),
            field("p", Type::Pointer(Box::new(Type::GenericInst("Pair".to_string(), vec![prim(TokenType::I32)])))),
            field("n", prim(TokenType::I32)),
        ],
        generic_type: vec![],
        size: 0,
    };
    let e = option_enum("E", vec![], vec![field("x", prim(TokenType::I32))]);
    let stmts = vec![
        stmt(StmtType::InitStruct(pair)),
        stmt(StmtType::InitStruct(s)),
        stmt(StmtType::InitEnum { name: e.name.clone(), generic_types: vec![], variants: e.variants }),
        stmt(StmtType::InitFunc {
            name: "f".to_string(),
            args: vec![decl("a", prim(TokenType::I64))],
            ret_type: prim(TokenType::I32),
            data: empty_block(),
        }),
        stmt(StmtType::InitFunc { name: "f".to_string(), args: vec![], ret_type: prim(TokenType::Void), data: empty_block() }),
        stmt(StmtType::GenericInitFunc {
            name: "id".to_string(),
            generic_types: vec!["T".to_string()],
            args: vec![decl("v", Type::GenericType("T".to_string()))],
            ret_type: Type::GenericType("T".to_string()),
            data: empty_block(),
        }),
        stmt(StmtType::Return(None)),
    ];
    let mut g = Gen::new();
    g.reg_inits(&stmts);
    assert_eq!(g.structs.len(), 3);
    assert_eq!(g.structs[0].name, "Pair");
    assert_eq!(g.structs[0].size, 0);
    assert_eq!(g.structs[1].name, "S");
    assert_eq!(g.structs[1].size, 24);
    assert_eq!(g.structs[1].field(&"n".to_string()).unwrap().offset, 16);
    assert_eq!(g.structs[2].name, "Pair__i32");
    assert_eq!(g.enums.len(), 1);
    assert_eq!(g.enums[0].size, 12);
    assert_eq!(g.enums[0].variants[1].args[0].offset, 8);
    assert_eq!(g.functions.len(), 2);
    assert_eq!(g.functions[0].0, "f");
    assert_eq!(g.functions[0].1.len(), 2);
    assert_eq!(g.functions[0].1[0].args.len(), 1);
    assert!(g.functions[0].1[0].generic.is_empty());
    assert_eq!(g.functions[1].0, "id");
    assert_eq!(g.functions[1].1[0].generic, vec!["T".to_string()]);
    assert_eq!(g.generic_func.len(), 1);
    assert_eq!(g.generic_func[0].0, "id");
    assert_eq!(g.generic_func[0].1.len(), 1);
}

#[test]
fn a_later_declaration_replaces_one_of_the_same_name() {
    let mut g = Gen::new();
    let first = StructDef { name: "P".to_string(), fields: vec![field("a", prim(TokenType::I64))], generic_type: vec![], size: 0 };
    let second = StructDef { name: "P".to_string(), fields: vec![field("b", prim(TokenType::U8))], generic_type: vec![], size: 0 };
    g.register_stmt(&stmt(StmtType::InitStruct(first)));
    g.register_stmt(&stmt(StmtType::InitStruct(second)));
    assert_eq!(g.structs.len(), 1);
    assert!(g.structs[0].field(&"a".to_string()).is_none());
    assert_eq!(g.structs[0].size, 0);
    g.reg_inits(&vec![]);
    assert_eq!(g.structs[0].size, 1);
}

#[test]
fn globals_reserve_space_and_are_bound() {
    let mut g = Gen::new();
    g.gen_global(Box::new(stmt(StmtType::Declaration(decl("count", prim(TokenType::I32))))));
    g.gen_global(Box::new(stmt(StmtType::Declaration(decl("buf", Type::Array(Box::new(prim(TokenType::U16)), 8))))));
    g.gen_global(Box::new(stmt(StmtType::Declaration(decl("count", prim(TokenType::U8))))));
    assert_eq!(g.data_code, vec!["count dd 0".to_string(), "count db 0".to_string()]);
    assert_eq!(g.bss_code, vec!["buf resw 0".to_string()]);
    assert_eq!(g.global_vars.len(), 2);
    assert_eq!(g.global_vars[0].0, "count");
    assert!(g.global_vars[0].1.global_flag);
    assert!(matches!(g.global_vars[0].1.var_type, Type::Primitive(TokenType::U8)));
    assert_eq!(g.global_vars[1].0, "buf");
    g.gen_expr_var(&"count".to_string(), &prim(TokenType::I64));
    assert_eq!(g.func_data, "    mov al, [rel count]\n");
}

#[test]
fn string_literals_get_fresh_labels() {
    let mut g = Gen::new();
    assert_eq!(g.gen_string(&"hi".to_string()), "rax");
    g.gen_string(&"yo".to_string());
    assert_eq!(g.data_code, vec!["str_1: db \"hi\", 0".to_string(), "str_2: db \"yo\", 0".to_string()]);
    assert_eq!(g.func_data, "    lea rax, [rel str_1]\n    lea rax, [rel str_2]\n");
}

#[test]
fn an_extern_replaces_the_signatures_of_its_name() {
    let mut g = Gen::new();
    let f = stmt(StmtType::InitFunc { name: "f".to_string(), args: vec![], ret_type: prim(TokenType::I32), data: empty_block() });
    g.register_stmt(&f);
    g.register_stmt(&f);
    assert_eq!(g.functions[0].1.len(), 2);
    let ext = Box::new(stmt(StmtType::InitFunc {
        name: "f".to_string(),
        args: vec![decl("x", prim(TokenType::I64))],
        ret_type: prim(TokenType::Void),
        data: empty_block(),
    }));
    g.gen_extern(&ext);
    assert_eq!(g.out, "extern f\n");
    assert_eq!(g.functions.len(), 1);
    assert_eq!(g.functions[0].1.len(), 1);
    assert_eq!(g.functions[0].1[0].args.len(), 1);
    let ext2 = Box::new(stmt(StmtType::InitFunc { name: "puts".to_string(), args: vec![], ret_type: prim(TokenType::I32), data: empty_block() }));
    g.gen_extern(&ext2);
    assert_eq!(g.out, "extern f\nextern puts\n");
    assert_eq!(g.functions.len(), 2);
}

#[test]
fn parameters_are_received_last_first() {
    let mut g = Gen::new();
    g.scopes.push(vec![]);
    g.structs.push(StructData::from_def(&StructDef { name: "S".to_string(), fields: vec![], generic_type: vec![], size: 0 }, 12));
    let args = vec![
        decl("a", prim(TokenType::I32)),
        decl("s", Type::Struct("S".to_string())),
        decl("p", Type::Pointer(Box::new(prim(TokenType::I8)))),
    ];
    g.compile_args(&args, &prim(TokenType::I32));
    assert_eq!(
        g.func_data,
        "    mov [rbp - 8], rcx\n    mov [rbp - 12], rdx\n    mov [rbp - 20], rsi\n    mov [rbp - 24], edi\n"
    );
    assert_eq!(g.stack_pos, 24);
    assert_eq!(g.highest_stack_pos, 24);
    let scope = &g.scopes[0];
    assert_eq!(scope.len(), 3);
    assert_eq!(scope[0].0, "p");
    assert_eq!(scope[0].1.stack_pos, 8);
    assert_eq!(scope[1].0, "s");
    assert_eq!(scope[1].1.stack_pos, 20);
    assert_eq!(scope[2].0, "a");
    assert_eq!(scope[2].1.stack_pos, 24);
    assert!(!scope[2].1.global_flag);
}

#[test]
fn a_struct_result_takes_a_hidden_pointer() {
    let mut g = Gen::new();
    g.scopes.push(vec![]);
    g.structs.push(StructData::from_def(&StructDef { name: "B".to_string(), fields: vec![], generic_type: vec![], size: 0 }, 24));
    g.compile_args(&vec![decl("x", prim(TokenType::I64))], &Type::Struct("B".to_string()));
    assert_eq!(g.func_data, "    mov [rbp - 8], rdi\n    mov [rbp - 16], rsi\n");
    assert_eq!(g.scopes[0][0].1.stack_pos, 16);
}

#[test]
fn beyond_six_arguments_come_from_the_stack() {
    let mut g = Gen::new();
    g.scopes.push(vec![]);
    let names = ["a", "b", "c", "d", "e", "f", "h"];
    let args: Vec<Declaration> = names.iter().map(|n| decl(n, prim(TokenType::I64))).collect();
    g.compile_args(&args, &prim(TokenType::Void));
    let mut expected = String::new();
    for i in 0..7 {
        expected.push_str(&format!("    mov rax, [rbp + {}]\n    mov [rbp - {}], rax\n", 16 + i * 8, 8 + i * 8));
    }
    assert_eq!(g.func_data, expected);
    assert_eq!(g.scopes[0].len(), 7);
}

#[test]
fn generic_names_and_bindings() {
    let mut g = Gen::new();
    let t = g.transform_generic_name(&"Vec".to_string(), &vec![prim(TokenType::I32), Type::Pointer(Box::new(prim(TokenType::U8)))]);
    assert_eq!(t, "Vec__i32_u8__ptr");
    let map = vec![("T".to_string(), prim(TokenType::I64))];
    let a = g.generic_to_ty(&Type::Array(Box::new(Type::GenericType("T".to_string())), 4), &map);
    assert!(matches!(a, Type::Primitive(TokenType::I64)));
    let p = g.generic_to_ty(&Type::Pointer(Box::new(prim(TokenType::U8))), &map);
    assert!(matches!(p, Type::Primitive(TokenType::U8)));
    let mut m2: Vec<(String, Type)> = vec![];
    g.resolve_generic(&prim(TokenType::I32), &Type::Pointer(Box::new(Type::GenericType("T".to_string()))), &mut m2);
    g.resolve_generic(&prim(TokenType::I32), &prim(TokenType::U8), &mut m2);
    assert_eq!(m2.len(), 1);
    assert_eq!(m2[0].0, "T");
    assert!(matches!(m2[0].1, Type::Primitive(TokenType::I32)));
    g.generics.push(("X".to_string(), prim(TokenType::U16)));
    let built = g.build_generic_map(&vec!["T".to_string(), "U".to_string()], &vec![prim(TokenType::I32), Type::GenericType("X".to_string())]);
    assert_eq!(built.len(), 2);
    assert_eq!(built[1].0, "U");
    assert!(matches!(built[1].1, Type::Primitive(TokenType::U16)));
}

#[test]
fn generic_parameters_are_converted() {
    let mut g = Gen::new();
    g.structs.push(StructData::from_def(&StructDef { name: "Pair__i64".to_string(), fields: vec![], generic_type: vec![], size: 0 }, 16));
    g.enums.push(option_enum("Opt__u8", vec![], vec![]));
    let map = vec![("T".to_string(), prim(TokenType::I64))];
    let tt = Type::GenericType("T".to_string());
    let args = vec![
        decl("x", tt.duplicate()),
        decl("p", Type::Pointer(Box::new(Type::GenericType("T".to_string())))),
        decl("q", Type::Pointer(Box::new(prim(TokenType::I32)))),
        decl("v", Type::GenericInst("Pair".to_string(), vec![Type::GenericType("T".to_string())])),
        decl("o", Type::GenericInst("Opt".to_string(), vec![prim(TokenType::U8)])),
        decl("n", prim(TokenType::I32)),
    ];
    let out = g.convert_generic_args(&args, &vec![], &map);
    assert_eq!(out.len(), 6);
    assert!(matches!(out[0].ty, Type::Primitive(TokenType::I64)));
    assert!(matches!(&out[1].ty, Type::Pointer(inner) if matches!(**inner, Type::Primitive(TokenType::I64))));
    assert!(matches!(&out[2].ty, Type::Pointer(inner) if matches!(&**inner, Type::Pointer(x) if matches!(**x, Type::Primitive(TokenType::I32)))));
    assert!(matches!(&out[3].ty, Type::Struct(n) if n == "Pair__i64"));
    assert!(matches!(&out[4].ty, Type::Enum(n, None) if n == "Opt__u8"));
    assert!(matches!(out[5].ty, Type::Primitive(TokenType::I32)));
    assert_eq!(out[3].name, "v");
}
