use vcompiler::codegen::{Gen, StructData};
use vcompiler::ir::{BinOp, EnumData, EnumVariant, StructDef, StructField, Type};
use vcompiler::tokenizer::TokenType;

fn prim(k: TokenType) -> Type {
    Type::Primitive(k)
}

#[test]
fn registers_by_size() {
    let g = Gen::new();
    assert_eq!(g.reg_for_size("rax", &prim(TokenType::I64)).as_deref(), Some("rax"));
    assert_eq!(g.reg_for_size("rax", &prim(TokenType::I32)).as_deref(), Some("eax"));
    assert_eq!(g.reg_for_size("ebx", &prim(TokenType::U16)).as_deref(), Some("bx"));
    assert_eq!(g.reg_for_size("dl", &prim(TokenType::U8)).as_deref(), Some("dl"));
    assert_eq!(g.reg_for_size("rsi", &prim(TokenType::I8)).as_deref(), Some("sil"));
    assert_eq!(g.reg_for_size("rdi", &Type::Pointer(Box::new(prim(TokenType::I8)))).as_deref(), Some("rdi"));
    assert_eq!(g.reg_for_size("r10", &prim(TokenType::I32)).as_deref(), Some("r10d"));
    assert_eq!(g.reg_for_size("r10", &prim(TokenType::U16)).as_deref(), Some("r10w"));
    assert_eq!(g.reg_for_size("r11", &prim(TokenType::I8)).as_deref(), Some("r11b"));
    assert_eq!(g.reg_for_size("xmm0", &prim(TokenType::I32)), None);
    assert_eq!(g.reg_for_size("rax", &prim(TokenType::Void)), None);
    assert_eq!(g.reg_for_size("rax", &Type::Unknown), None);
}

#[test]
fn generic_parameters_are_looked_through() {
    let mut g = Gen::new();
    g.generics.push(("T".to_string(), Type::GenericType("U".to_string())));
    g.generics.push(("U".to_string(), prim(TokenType::U16)));
    assert_eq!(g.reg_for_size("rcx", &Type::GenericType("T".to_string())).as_deref(), Some("cx"));
    assert_eq!(g.get_word(&Type::GenericType("T".to_string())), "WORD");
}

#[test]
fn memory_operand_words() {
    let g = Gen::new();
    assert_eq!(g.get_word(&prim(TokenType::I8)), "BYTE");
    assert_eq!(g.get_word(&prim(TokenType::U32)), "DWORD");
    assert_eq!(g.get_word(&prim(TokenType::I64)), "QWORD");
    assert_eq!(g.get_word(&Type::Struct("S".to_string())), "QWORD");
}

#[test]
fn simple_operators_write_one_line() {
    let mut g = Gen::new();
    g.gen_expr_binop(&BinOp::Add, "rax", "rbx", &prim(TokenType::I64));
    g.gen_expr_binop(&BinOp::Mul, "rax", "rbx", &prim(TokenType::I64));
    g.gen_expr_binop(&BinOp::BitAnd, "eax", "ebx", &prim(TokenType::I32));
    assert_eq!(g.func_data, "    add rax, rbx\n    imul rax, rbx\n    and eax, ebx\n");
    assert_eq!(g.out, "");
}

#[test]
fn shifts_go_to_the_main_output() {
    let mut g = Gen::new();
    g.gen_expr_binop(&BinOp::ShiftLeft, "rax", "rbx", &prim(TokenType::U32));
    g.gen_expr_binop(&BinOp::ShiftRight, "rax", "rbx", &prim(TokenType::I32));
    assert_eq!(g.out, "    mov rcx, rbx\n    shl rax, cl\n    mov rcx, rbx\n    sar rax, cl\n");
    assert_eq!(g.func_data, "");
}

#[test]
fn signed_division() {
    let mut g = Gen::new();
    g.gen_expr_binop(&BinOp::Div, "rax", "rbx", &prim(TokenType::I32));
    assert_eq!(g.func_data, "    mov r10d, rbx\n    push rdx\n    cdq\n    idiv r10d\n");
}

#[test]
fn unsigned_remainder() {
    let mut g = Gen::new();
    g.gen_expr_binop(&BinOp::Mod, "rax", "rbx", &prim(TokenType::U64));
    assert_eq!(
        g.func_data,
        "    mov r10, rbx\n    push rdx\n    xor rdx, rdx\n    div r10\n    mov rax, rdx\n    pop rdx\n"
    );
}

#[test]
fn comparisons_set_al() {
    let mut g = Gen::new();
    g.gen_expr_binop(&BinOp::Lt, "rax", "rbx", &prim(TokenType::U8));
    g.gen_expr_binop(&BinOp::Gte, "al", "bl", &prim(TokenType::I8));
    assert_eq!(
        g.func_data,
        "    cmp rax, rbx\n    setb al\n    movzx rax, al\n    cmp al, bl\n    setge al\n"
    );
}

#[test]
fn logical_or() {
    let mut g = Gen::new();
    g.gen_expr_binop(&BinOp::Or, "rax", "rbx", &prim(TokenType::I32));
    assert_eq!(
        g.func_data,
        "    cmp rax, 0\n    setne al\n    cmp rbx, 0\n    setne bl\n    or al, bl\n    movzx rax, al\n"
    );
}

#[test]
fn sizes_of_types() {
    let mut g = Gen::new();
    assert_eq!(g.type_size(&prim(TokenType::I16)), 2);
    assert_eq!(g.type_size(&Type::Array(Box::new(prim(TokenType::I32)), 10)), 40);
    let def = StructDef { name: "P".to_string(), fields: vec![], generic_type: vec![], size: 0 };
    g.structs.push(StructData::from_def(&def, 24));
    assert_eq!(g.type_size(&Type::Struct("P".to_string())), 24);
    g.enums.push(EnumData {
        name: "E".to_string(),
        generic_type: vec![],
        variants: vec![
            EnumVariant { name: "A".to_string(), tag: 0, args: vec![], size: 0 },
            EnumVariant {
                name: "B".to_string(),
                tag: 1,
                args: vec![
                    StructField { name: "x".to_string(), offset: 0, ty: prim(TokenType::I64) },
                    StructField { name: "y".to_string(), offset: 8, ty: prim(TokenType::U8) },
                ],
                size: 0,
            },
        ],
        size: 0,
    });
    assert_eq!(g.type_size(&Type::Enum("E".to_string(), None)), 17);
    g.generics.push(("T".to_string(), prim(TokenType::U32)));
    assert_eq!(g.type_size(&Type::GenericType("T".to_string())), 4);
    g.gen_expr_binop(&BinOp::Div, "rax", "rbx", &Type::Enum("E".to_string(), None));
    assert_eq!(g.func_data, "    mov r10, rbx\n    push rdx\n    cwd\n    idiv r10\n");
}

#[test]
fn struct_layout_keeps_fields_by_name() {
    let def = StructDef {
        name: "Pair".to_string(),
        fields: vec![
            StructField { name: "a".to_string(), offset: 0, ty: prim(TokenType::I32) },
            StructField { name: "b".to_string(), offset: 4, ty: prim(TokenType::I64) },
        ],
        generic_type: vec!["T".to_string()],
        size: 12,
    };
    let sd = StructData::from_def(&def, 16);
    assert_eq!(sd.name, "Pair");
    assert_eq!(sd.size, 16);
    assert_eq!(sd.generic_type, vec!["T".to_string()]);
    let b = sd.field(&"b".to_string()).unwrap();
    assert_eq!(b.offset, 4);
    assert!(matches!(b.ty, Type::Primitive(TokenType::I64)));
    assert!(sd.field(&"c".to_string()).is_none());
    let keys: Vec<&String> = sd.elements.keys().collect();
    assert_eq!(keys, vec!["a", "b"]);
}

#[test]
fn later_field_of_the_same_name_replaces_the_earlier() {
    let def = StructDef {
        name: "D".to_string(),
        fields: vec![
            StructField { name: "a".to_string(), offset: 0, ty: prim(TokenType::I32) },
            StructField { name: "a".to_string(), offset: 8, ty: prim(TokenType::U8) },
        ],
        generic_type: vec![],
        size: 0,
    };
    let sd = StructData::from_def(&def, 0);
    assert_eq!(sd.elements.len(), 1);
    assert_eq!(sd.field(&"a".to_string()).unwrap().offset, 8);
}

#[test]
fn labels_and_stack_slots() {
    let mut g = Gen::new();
    assert_eq!(g.get_id(), 1);
    assert_eq!(g.get_id(), 2);
    assert_eq!(g.alloc_stack(8), 8);
    assert_eq!(g.alloc_stack(4), 12);
    g.stack_pos = 0;
    assert_eq!(g.alloc_stack(4), 4);
    assert_eq!(g.highest_stack_pos, 12);
}

fn var(pos: usize, ty: Type) -> vcompiler::ir::VarData {
    vcompiler::ir::VarData { stack_pos: pos, var_type: ty, global_flag: false }
}

#[test]
fn variables_are_looked_up_innermost_first() {
    let mut g = Gen::new();
    g.global_vars.push(("n".to_string(), var(100, prim(TokenType::I64))));
    g.scopes.push(vec![("c".to_string(), var(8, prim(TokenType::U8)))]);
    g.scopes.push(vec![("c".to_string(), var(16, prim(TokenType::I32)))]);
    assert_eq!(g.lookup_var("c").stack_pos, 16);
    assert_eq!(g.lookup_var("n").stack_pos, 100);
}

#[test]
fn inline_asm_substitutes_stack_slots() {
    let mut g = Gen::new();
    g.scopes.push(vec![("c".to_string(), var(9, prim(TokenType::U8))), ("d".to_string(), var(24, prim(TokenType::I64)))]);
    g.gen_inline_asm(&vec!["lea rsi, (c)".to_string(), "mov rdx, 1".to_string(), "mov (c), (d)".to_string()]);
    assert_eq!(g.func_data, "    lea rsi, [rbp - 9]\n    mov rdx, 1\n    mov [rbp - 9], [rbp - 24]\n");
}

#[test]
fn inline_asm_looks_up_each_name_on_its_own() {
    let mut g = Gen::new();
    g.scopes.push(vec![("a".to_string(), var(8, prim(TokenType::I64))), ("b".to_string(), var(16, prim(TokenType::I64)))]);
    g.gen_inline_asm(&vec!["mov (a), (b)".to_string()]);
    assert_eq!(g.func_data, "    mov [rbp - 8], [rbp - 16]\n");
}

#[test]
fn typed_loads_widen_by_sign() {
    let mut g = Gen::new();
    g.emit_typed_load("[rbp - 8]", &prim(TokenType::I8));
    g.emit_typed_load("[rbp - 8]", &prim(TokenType::I32));
    g.emit_typed_load("[rbp - 8]", &prim(TokenType::U16));
    g.emit_typed_load("[rbp - 8]", &prim(TokenType::U32));
    g.emit_typed_load("[rbp - 8]", &prim(TokenType::I64));
    assert_eq!(
        g.func_data,
        "    movsx rax, BYTE [rbp - 8]\n    movsxd rax, DWORD [rbp - 8]\n    movzx rax, WORD [rbp - 8]\n    mov eax, DWORD [rbp - 8]\n    mov rax, QWORD [rbp - 8]\n"
    );
}

#[test]
fn hidden_return_copy_in_chunks() {
    let mut g = Gen::new();
    g.copy_chunks_to_hidden_ret(12);
    assert_eq!(
        g.func_data,
        "    mov rdi, [rbp - 8]\n    mov rcx, rax\n    mov rdx, [rcx + 0]\n    mov [rdi + 0], rdx\n    mov rdx, [rcx + 8]\n    mov [rdi + 8], rdx\n"
    );
}

#[test]
fn number_literals_and_stack_moves() {
    let mut g = Gen::new();
    assert_eq!(g.gen_expr_num(&-5, &prim(TokenType::I32)), "rax");
    assert_eq!(g.gen_expr_num(&i64::MIN, &prim(TokenType::I64)), "rax");
    g.push_result();
    g.pop_into("rbx");
    assert_eq!(
        g.func_data,
        "    mov eax, -5\n    mov rax, -9223372036854775808\n    push rax\n    pop rbx\n"
    );
}

#[test]
fn data_directives() {
    let g = Gen::new();
    assert_eq!(g.type_to_data_directive(&prim(TokenType::U8)), "db");
    assert_eq!(g.type_to_data_directive(&prim(TokenType::I16)), "dw");
    assert_eq!(g.type_to_data_directive(&prim(TokenType::I32)), "dd");
    assert_eq!(g.type_to_data_directive(&Type::Array(Box::new(prim(TokenType::I32)), 3)), "dq");
    assert_eq!(g.size_directive(&prim(TokenType::I64)), "resq");
    assert_eq!(g.size_directive(&prim(TokenType::U32)), "resd");
    assert_eq!(g.size_directive(&prim(TokenType::U8)), "resb");
}

#[test]
fn stack_space_for_a_type() {
    let mut g = Gen::new();
    assert_eq!(g.alloc_type(&prim(TokenType::I32)), 4);
    assert_eq!(g.alloc_type(&Type::Pointer(Box::new(prim(TokenType::I8)))), 12);
}

#[test]
fn struct_layout_with_alignment() {
    let mut g = Gen::new();
    let inner = StructDef {
        name: "In".to_string(),
        fields: vec![
            StructField { name: "a".to_string(), offset: 0, ty: prim(TokenType::U8) },
            StructField { name: "b".to_string(), offset: 0, ty: prim(TokenType::I32) },
        ],
        generic_type: vec![],
        size: 0,
    };
    assert_eq!(g.compute_struct_size(&inner.fields), 8);
    g.gen_init_struct(&inner);
    assert_eq!(g.type_size(&Type::Struct("In".to_string())), 8);
    assert_eq!(g.field_alignment(&Type::Struct("In".to_string())), 4);
    let outer = StructDef {
        name: "Out".to_string(),
        fields: vec![
            StructField { name: "c".to_string(), offset: 0, ty: prim(TokenType::U8) },
            StructField { name: "i".to_string(), offset: 0, ty: Type::Struct("In".to_string()) },
            StructField { name: "d".to_string(), offset: 0, ty: prim(TokenType::U16) },
        ],
        generic_type: vec![],
        size: 0,
    };
    assert_eq!(g.compute_struct_size(&outer.fields), 16);
    g.gen_init_struct(&outer);
    assert_eq!(g.structs.len(), 2);
    assert_eq!(g.type_size(&Type::Struct("Out".to_string())), 16);
    let empty = StructDef { name: "In".to_string(), fields: vec![], generic_type: vec![], size: 0 };
    g.gen_init_struct(&empty);
    assert_eq!(g.structs.len(), 2);
    assert_eq!(g.type_size(&Type::Struct("In".to_string())), 0);
    assert_eq!(g.field_alignment(&Type::Struct("In".to_string())), 1);
}

#[test]
fn enum_alignment_is_at_least_eight() {
    let mut g = Gen::new();
    g.enums.push(EnumData {
        name: "E".to_string(),
        generic_type: vec![],
        variants: vec![EnumVariant {
            name: "A".to_string(),
            tag: 0,
            args: vec![StructField { name: "x".to_string(), offset: 0, ty: prim(TokenType::U8) }],
            size: 0,
        }],
        size: 0,
    });
    assert_eq!(g.field_alignment(&Type::Enum("E".to_string(), None)), 8);
    assert_eq!(g.field_alignment(&prim(TokenType::I16)), 2);
}

fn global(ty: Type) -> vcompiler::ir::VarData {
    vcompiler::ir::VarData { stack_pos: 0, var_type: ty, global_flag: true }
}

#[test]
fn variables_are_loaded_by_kind() {
    let mut g = Gen::new();
    g.global_vars.push(("gp".to_string(), global(Type::Pointer(Box::new(prim(TokenType::I8))))));
    g.global_vars.push(("gc".to_string(), global(prim(TokenType::U16))));
    g.global_vars.push(("gs".to_string(), global(Type::Struct("S".to_string()))));
    g.scopes.push(vec![
        ("x".to_string(), var(8, prim(TokenType::I32))),
        ("p".to_string(), var(16, Type::Pointer(Box::new(prim(TokenType::I32))))),
        ("s".to_string(), var(40, Type::Struct("S".to_string()))),
    ]);
    let i64t = prim(TokenType::I64);
    assert_eq!(g.gen_expr_var(&"x".to_string(), &i64t), "rax");
    g.gen_expr_var(&"p".to_string(), &i64t);
    g.gen_expr_var(&"s".to_string(), &i64t);
    g.gen_expr_var(&"gp".to_string(), &i64t);
    g.gen_expr_var(&"gc".to_string(), &i64t);
    g.gen_expr_var(&"gs".to_string(), &i64t);
    assert_eq!(
        g.func_data,
        "    mov eax, DWORD [rbp - 8]\n    mov rax, [rbp - 16]\n    lea rax, [rbp - 40]\n    mov rax, [rel gp]\n    mov ax, [rel gc]\n    lea rax, [rel gs]\n"
    );
}

#[test]
fn narrow_variables_are_sign_extended_where_wider_is_wanted() {
    let mut g = Gen::new();
    g.global_vars.push(("gc".to_string(), global(prim(TokenType::U16))));
    g.scopes.push(vec![("x".to_string(), var(8, prim(TokenType::I32))), ("e".to_string(), var(24, Type::Enum("E".to_string(), None)))]);
    assert_eq!(g.gen_expr_var_addr(&"x".to_string(), &prim(TokenType::I64)), "rax");
    g.gen_expr_var_addr(&"x".to_string(), &prim(TokenType::I16));
    g.gen_expr_var_addr(&"e".to_string(), &prim(TokenType::I64));
    g.gen_expr_var_addr(&"gc".to_string(), &prim(TokenType::I64));
    assert_eq!(
        g.func_data,
        "    movsx rax, DWORD [rbp - 8]\n    mov eax, DWORD [rbp - 8]\n    lea rax, [rbp - 24]\n    mov ax, [rel gc]\n"
    );
    g.func_data.clear();
    g.var_return(&var(32, prim(TokenType::U8)));
    g.var_return_addr(&var(32, prim(TokenType::U8)), &prim(TokenType::U8));
    assert_eq!(g.func_data, "    mov al, BYTE [rbp - 32]\n    mov al, BYTE [rbp - 32]\n");
}

#[test]
fn a_chosen_register_leads_back_to_its_base() {
    let g = Gen::new();
    for base in ["rax", "rbx", "rcx", "rdx", "rsi", "rdi"] {
        for k in [TokenType::I8, TokenType::U16, TokenType::I32, TokenType::U64] {
            let r = g.reg_for_size(base, &prim(k)).unwrap();
            assert_eq!(vcompiler::shared::to_base_reg(&r), base);
            assert_eq!(g.reg_for_size(&r, &prim(k)), Some(r.clone()));
        }
    }
    assert_eq!(g.reg_for_size("rsi", &prim(TokenType::U8)).as_deref(), Some("sil"));
    assert_eq!(g.reg_for_size("rdx", &Type::Pointer(Box::new(prim(TokenType::I8)))).as_deref(), Some("rdx"));
}
