use vcompiler::codegen::{Gen, StructData};
use vcompiler::ir::{Addr, BinOp, Expr, ExprType, LValue, StructDef, StructField, Type, UnaryOp, VarData};
use vcompiler::tokenizer::TokenType;

fn prim(k: TokenType) -> Type {
    Type::Primitive(k)
}

fn expr(ty: ExprType) -> Expr {
    Expr { ty, file: String::new(), line: 0, col: 0 }
}

fn num(n: i64) -> Expr {
    expr(ExprType::Number(n))
}

fn name(n: &str) -> Expr {
    expr(ExprType::Variable(n.to_string()))
}

fn bin(op: BinOp, l: Expr, r: Expr) -> Expr {
    expr(ExprType::Binary { op, left: Box::new(l), right: Box::new(r) })
}

fn local(pos: usize, ty: Type) -> VarData {
    VarData { stack_pos: pos, var_type: ty, global_flag: false }
}

fn with_locals() -> Gen {
    let mut g = Gen::new();
    g.scopes.push(vec![
        ("x".to_string(), local(8, prim(TokenType::I64))),
        ("y".to_string(), local(16, prim(TokenType::I64))),
        ("a".to_string(), local(4, prim(TokenType::I32))),
        ("b".to_string(), local(12, prim(TokenType::I32))),
    ]);
    g
}

#[test]
fn number_is_moved_into_the_sized_register() {
    let mut g = with_locals();
    let r = g.eval_expr(&num(-7), &prim(TokenType::I32));
    assert_eq!(r, "rax");
    assert_eq!(g.func_data, "    mov eax, -7\n");
}

#[test]
fn binary_evaluates_right_then_left() {
    let mut g = with_locals();
    let r = g.eval_expr(&bin(BinOp::Add, name("x"), num(2)), &prim(TokenType::I64));
    assert_eq!(r, "rax");
    assert_eq!(g.func_data, "    mov rax, 2\n    push rax\n    mov rax, QWORD [rbp - 8]\n    pop rbx\n    add rax, rbx\n");
    assert_eq!(g.id, 0);
}

#[test]
fn binary_works_at_the_type_of_its_operands() {
    let mut g = with_locals();
    let r = g.eval_expr(&bin(BinOp::Sub, name("a"), name("b")), &prim(TokenType::I64));
    assert_eq!(r, "eax");
    assert_eq!(g.func_data, "    mov eax, DWORD [rbp - 12]\n    push rax\n    mov eax, DWORD [rbp - 4]\n    pop rbx\n    sub eax, ebx\n");
}

#[test]
fn logical_and_skips_the_right_operand() {
    let mut g = with_locals();
    let r = g.eval_expr(&bin(BinOp::And, name("x"), name("y")), &prim(TokenType::I64));
    assert_eq!(r, "rax");
    assert_eq!(
        g.func_data,
        "and_1:\n    mov rax, QWORD [rbp - 8]\n    cmp rax, 0\n    je and_end_1\n    mov rax, QWORD [rbp - 16]\n    cmp rbx, 0\nand_end_1:\n"
    );
    assert_eq!(g.id, 1);
}

#[test]
fn negation_and_not() {
    let mut g = with_locals();
    g.eval_expr(&expr(ExprType::Unary { op: UnaryOp::Neg, expr: Box::new(name("x")) }), &prim(TokenType::I32));
    assert_eq!(g.func_data, "    mov rax, QWORD [rbp - 8]\n    neg eax\n");
    let mut h = with_locals();
    h.eval_expr(&expr(ExprType::Unary { op: UnaryOp::Not, expr: Box::new(name("y")) }), &prim(TokenType::I64));
    assert_eq!(h.func_data, "    mov rax, QWORD [rbp - 16]\n    cmp rax, 0\n    sete al\n    movzx rax, al\n");
}

#[test]
fn expression_types() {
    let g = with_locals();
    assert!(matches!(g.expr_type(&num(1)), Type::Primitive(TokenType::I64)));
    assert!(matches!(g.expr_type(&bin(BinOp::Add, num(1), name("a"))), Type::Primitive(TokenType::I32)));
    assert!(matches!(g.expr_type(&bin(BinOp::Add, name("a"), name("x"))), Type::Primitive(TokenType::I64)));
    assert!(matches!(
        g.expr_type(&expr(ExprType::Unary { op: UnaryOp::Not, expr: Box::new(name("x")) })),
        Type::Primitive(TokenType::U8)
    ));
}

fn point() -> StructData {
    let def = StructDef {
        name: "P".to_string(),
        fields: vec![
            StructField { name: "a".to_string(), offset: 0, ty: prim(TokenType::I64) },
            StructField { name: "b".to_string(), offset: 8, ty: prim(TokenType::I64) },
        ],
        generic_type: vec![],
        size: 16,
    };
    StructData::from_def(&def, 16)
}

fn with_targets() -> Gen {
    let mut g = Gen::new();
    g.structs.push(point());
    g.scopes.push(vec![
        ("x".to_string(), local(8, prim(TokenType::I64))),
        ("p".to_string(), local(16, Type::Struct("P".to_string()))),
        ("q".to_string(), local(24, Type::Pointer(Box::new(Type::Struct("P".to_string()))))),
        ("n".to_string(), local(32, Type::Pointer(Box::new(prim(TokenType::I64))))),
        ("arr".to_string(), local(40, Type::Array(Box::new(prim(TokenType::I64)), 4))),
    ]);
    g
}

fn var_target(n: &str) -> LValue {
    LValue::Variable(n.to_string())
}

#[test]
fn a_variable_is_its_stack_slot() {
    let mut g = with_targets();
    let (addr, ty) = g.calc_lvalue(&var_target("x"));
    assert!(matches!(addr, Addr::Stack(8)));
    assert!(matches!(ty, Type::Primitive(TokenType::I64)));
    assert_eq!(g.func_data, "");
}

#[test]
fn a_struct_field_moves_the_slot_down() {
    let mut g = with_targets();
    let (addr, ty) = g.calc_lvalue(&LValue::Field { base: Box::new(var_target("p")), name: "b".to_string() });
    assert!(matches!(addr, Addr::Stack(8)));
    assert!(matches!(ty, Type::Primitive(TokenType::I64)));
    assert_eq!(g.func_data, "");
}

#[test]
fn a_field_through_a_pointer_loads_the_pointer() {
    let mut g = with_targets();
    let (addr, ty) = g.calc_lvalue(&LValue::Field { base: Box::new(var_target("q")), name: "b".to_string() });
    assert!(matches!(addr, Addr::Reg(ref r) if r == "rsi"));
    assert!(matches!(ty, Type::Primitive(TokenType::I64)));
    assert_eq!(g.func_data, "    mov rsi, [rbp - 24]\n    add rsi, 8\n");
}

#[test]
fn a_dereference_loads_the_pointer() {
    let mut g = with_targets();
    let (addr, ty) = g.calc_lvalue(&LValue::Deref(Box::new(var_target("n"))));
    assert!(matches!(addr, Addr::Reg(ref r) if r == "rsi"));
    assert!(matches!(ty, Type::Primitive(TokenType::I64)));
    assert_eq!(g.func_data, "    mov rsi, [rbp - 32]\n");
}

#[test]
fn an_array_element_scales_the_index() {
    let mut g = with_targets();
    let (addr, ty) = g.calc_lvalue(&LValue::Index { base: Box::new(var_target("arr")), index: Box::new(num(2)) });
    assert!(matches!(addr, Addr::Reg(ref r) if r == "rcx"));
    assert!(matches!(ty, Type::Array(_, 4)));
    assert_eq!(g.func_data, "    push rax\n    mov rax, 2\n    cmp rax, 4\n    jb bounds_ok_1\n    mov rdi, 1\n    mov rax, 60\n    syscall\nbounds_ok_1:\n    imul rax, 8\n    lea rcx, [rbp - 40]\n    add rcx, rax\n    pop rax\n");
}

fn param(n: &str, ty: Type) -> vcompiler::ir::Declaration {
    vcompiler::ir::Declaration { name: n.to_string(), ty, initializer: None }
}

fn func(args: Vec<vcompiler::ir::Declaration>) -> vcompiler::codegen::FuncData {
    vcompiler::codegen::FuncData { args, generic: vec![], return_type: prim(TokenType::Void) }
}

#[test]
fn scalar_arguments_go_to_registers_last_first() {
    let mut g = with_targets();
    let f = func(vec![param("a", prim(TokenType::I64)), param("b", prim(TokenType::I32))]);
    let space = g.gen_args(&vec![num(5), num(7)], &f, &vec![], &vec![], false);
    assert_eq!(space, 0);
    assert_eq!(g.func_data, "    mov eax, 7\n    mov esi, eax\n    mov rax, 5\n    mov rdi, rax\n");
}

#[test]
fn a_sixteen_byte_struct_takes_two_registers() {
    let mut g = with_targets();
    let f = func(vec![param("p", Type::Struct("P".to_string()))]);
    let space = g.gen_args(&vec![name("p")], &f, &vec![], &vec![], false);
    assert_eq!(space, 0);
    assert_eq!(
        g.func_data,
        "    lea rax, [rbp - 16]\n    mov r10, rax\n    mov rax, [r10 + 8]\n    mov rsi, rax\n    mov rax, [r10]\n    mov rdi, rax\n"
    );
}

#[test]
fn a_large_struct_is_copied_to_the_stack() {
    let mut g = with_targets();
    let def = StructDef { name: "Big".to_string(), fields: vec![], generic_type: vec![], size: 20 };
    g.structs.push(StructData::from_def(&def, 20));
    g.scopes[0].push(("big".to_string(), local(64, Type::Struct("Big".to_string()))));
    let f = func(vec![param("b", Type::Struct("Big".to_string()))]);
    let space = g.gen_args(&vec![name("big")], &f, &vec![], &vec![], false);
    assert_eq!(space, 32);
    assert_eq!(
        g.func_data,
        "    lea rax, [rbp - 64]\n    xor r10, r10\n    sub rsp, 16\n    mov r10d, [rax + 16]\n    mov [rsp], r10\n    push qword [rax + 8]\n    push qword [rax + 0]\n"
    );
}

#[test]
fn assignment_to_a_stack_variable() {
    let mut g = with_targets();
    g.gen_assignment(&var_target("x"), &num(5));
    assert_eq!(g.func_data, "    mov rax, 5\n    mov QWORD [rbp - 8], rax\n");
}

#[test]
fn assignment_to_an_array_element() {
    let mut g = with_targets();
    g.gen_assignment(&LValue::Index { base: Box::new(var_target("arr")), index: Box::new(num(2)) }, &name("x"));
    assert_eq!(
        g.func_data,
        "    mov rax, QWORD [rbp - 8]\n    push rax\n    mov rax, 2\n    cmp rax, 4\n    jb bounds_ok_1\n    mov rdi, 1\n    mov rax, 60\n    syscall\nbounds_ok_1:\n    imul rax, 8\n    lea rcx, [rbp - 40]\n    add rcx, rax\n    pop rax\n    mov QWORD [rcx], rax\n"
    );
}

#[test]
fn assignment_through_a_pointer_to_a_field() {
    let mut g = with_targets();
    g.gen_assignment(&LValue::Field { base: Box::new(var_target("q")), name: "b".to_string() }, &num(3));
    assert_eq!(g.func_data, "    mov rax, 3\n    mov rsi, [rbp - 24]\n    add rsi, 8\n    mov QWORD [rsi], rax\n");
}

#[test]
fn dereference_loads_through_the_pointer() {
    let mut g = with_targets();
    let r = g.eval_expr(&expr(ExprType::Deref(Box::new(name("n")))), &prim(TokenType::I64));
    assert_eq!(r, "rax");
    assert_eq!(g.func_data, "    mov rax, [rbp - 32]\n    mov rax, QWORD [rax]\n");
    let mut h = with_targets();
    h.scopes[0].push(("c".to_string(), local(48, Type::Pointer(Box::new(prim(TokenType::U8))))));
    h.eval_expr(&expr(ExprType::Deref(Box::new(name("c")))), &prim(TokenType::U8));
    assert_eq!(h.func_data, "    mov rax, [rbp - 48]\n    movzx rax, BYTE [rax]\n");
}

#[test]
fn indexing_scales_and_loads() {
    let mut g = with_targets();
    let e = expr(ExprType::Index { base: Box::new(name("arr")), index: Box::new(num(2)) });
    assert!(matches!(g.expr_type(&e), Type::Primitive(TokenType::I64)));
    let r = g.eval_expr(&e, &prim(TokenType::I64));
    assert_eq!(r, "rax");
    assert_eq!(
        g.func_data,
        "    lea rax, [rbp - 40]\n    push rax\n    mov rax, 2\n    cmp rax, 4\n    jb bounds_ok_1\n    mov rdi, 1\n    mov rax, 60\n    syscall\nbounds_ok_1:\n    imul rax, rax, 8\n    pop rbx\n    add rax, rbx\n    mov rax, QWORD [rax]\n"
    );
}

#[test]
fn casts_widen_by_signedness() {
    let mut g = with_locals();
    let r = g.eval_expr(&expr(ExprType::Cast { expr: Box::new(name("a")), ty: prim(TokenType::I64) }), &prim(TokenType::I64));
    assert_eq!(r, "rax");
    assert_eq!(g.func_data, "    mov eax, DWORD [rbp - 4]\n    movsxd rax, eax\n");
    let mut h = with_locals();
    h.scopes[0].push(("u".to_string(), local(20, prim(TokenType::U8))));
    let r2 = h.eval_expr(&expr(ExprType::Cast { expr: Box::new(name("u")), ty: prim(TokenType::I32) }), &prim(TokenType::I32));
    assert_eq!(r2, "eax");
    assert_eq!(h.func_data, "    mov al, BYTE [rbp - 20]\n    movzx eax, al\n");
    let mut k = with_locals();
    let r3 = k.eval_expr(&expr(ExprType::Cast { expr: Box::new(name("x")), ty: prim(TokenType::I16) }), &prim(TokenType::I16));
    assert_eq!(r3, "ax");
    assert_eq!(k.func_data, "    mov rax, QWORD [rbp - 8]\n");
}

#[test]
fn a_file_is_imported_once() {
    let mut seen = vcompiler::imports::ImportSet::new();
    assert!(seen.first_visit(&"/src/a.vmm".to_string()));
    assert!(seen.first_visit(&"/src/b.vmm".to_string()));
    assert!(!seen.first_visit(&"/src/a.vmm".to_string()));
    assert!(seen.contains(&"/src/b.vmm".to_string()));
    assert!(!seen.contains(&"/src/c.vmm".to_string()));
    assert_eq!(seen.seen.len(), 2);
}

#[test]
fn address_of_variables_and_elements() {
    let mut g = with_targets();
    let r = g.eval_expr(&expr(ExprType::Unary { op: UnaryOp::GetAddr, expr: Box::new(name("x")) }), &prim(TokenType::I64));
    assert_eq!(r, "rax");
    assert_eq!(g.func_data, "    lea rax, [rbp - 8]\n");
    let mut h = with_targets();
    let elem = expr(ExprType::Index { base: Box::new(name("arr")), index: Box::new(num(1)) });
    h.eval_expr(&expr(ExprType::Unary { op: UnaryOp::GetAddr, expr: Box::new(elem) }), &prim(TokenType::I64));
    assert_eq!(h.func_data, "    lea rax, [rbp - 40]\n    push rax\n    mov eax, 1\n    imul rax, rax, 8\n    pop rbx\n    add rax, rbx\n");
    let mut k = with_targets();
    let deref = expr(ExprType::Deref(Box::new(name("n"))));
    k.eval_expr(&expr(ExprType::Unary { op: UnaryOp::GetAddr, expr: Box::new(deref) }), &prim(TokenType::I64));
    assert_eq!(k.func_data, "    mov rax, [rbp - 32]\n");
}

#[test]
fn array_indexing_is_range_checked() {
    let mut g = with_targets();
    g.id = 6;
    let e = expr(ExprType::Index { base: Box::new(name("arr")), index: Box::new(name("x")) });
    g.eval_expr(&e, &prim(TokenType::I64));
    assert!(g.func_data.contains("    cmp rax, 4\n    jb bounds_ok_7\n    mov rdi, 1\n    mov rax, 60\n    syscall\nbounds_ok_7:\n"));
    assert_eq!(g.id, 7);
    let mut h = with_targets();
    let p = expr(ExprType::Index { base: Box::new(name("n")), index: Box::new(num(3)) });
    h.eval_expr(&p, &prim(TokenType::I64));
    assert!(!h.func_data.contains("bounds_ok"));
}

#[test]
fn member_reads_from_the_static_slot_or_through_a_pointer() {
    let mut g = with_targets();
    let pb = expr(ExprType::StructMember { base: Box::new(name("p")), name: "b".to_string() });
    assert!(matches!(g.expr_type(&pb), Type::Primitive(TokenType::I64)));
    let r = g.eval_expr(&pb, &prim(TokenType::I64));
    assert_eq!(r, "rax");
    assert_eq!(g.func_data, "    mov rax, QWORD [rbp - 8]\n");
    let mut h = with_targets();
    let qb = expr(ExprType::StructMember { base: Box::new(expr(ExprType::Deref(Box::new(name("q"))))), name: "b".to_string() });
    h.eval_expr(&qb, &prim(TokenType::I64));
    assert_eq!(h.func_data, "    mov rax, [rbp - 24]\n    add rax, 8\n    mov rax, QWORD [rax]\n");
}

#[test]
fn array_literals_are_stored_downwards() {
    let mut g = with_targets();
    g.stack_pos = 16;
    let lit = expr(ExprType::ArrayInit { elements: vec![num(1), num(2)] });
    let r = g.eval_expr(&lit, &Type::Array(Box::new(prim(TokenType::I32)), 2));
    assert_eq!(r, "rax");
    assert_eq!(
        g.func_data,
        "    mov eax, 1\n    mov DWORD [rbp - 16], eax\n    mov eax, 2\n    mov DWORD [rbp - 12], eax\n    lea rax, [rbp - 16]\n"
    );
}

#[test]
fn struct_literals_store_each_field() {
    let mut g = with_targets();
    g.stack_pos = 32;
    let lit = expr(ExprType::StructInit {
        struct_name_ty: "P".to_string(),
        fields: vec![("a".to_string(), num(5)), ("b".to_string(), name("x"))],
    });
    let r = g.eval_expr(&lit, &Type::Struct("P".to_string()));
    assert_eq!(r, "rax");
    assert_eq!(
        g.func_data,
        "    mov rax, 5\n    mov QWORD [rbp - 32], rax\n    mov rax, QWORD [rbp - 8]\n    mov QWORD [rbp - 24], rax\n"
    );
    assert_eq!(g.stack_pos, 32);
}

#[test]
fn types_of_literals() {
    let g = with_targets();
    let s = expr(ExprType::String { str: "hi".to_string() });
    assert!(matches!(g.expr_type(&s), Type::Array(inner, 3) if matches!(*inner, Type::Primitive(TokenType::U8))));
    let z = expr(ExprType::SizeOf { ty: prim(TokenType::I32) });
    assert!(matches!(g.expr_type(&z), Type::Primitive(TokenType::I64)));
    let v = expr(ExprType::GetEnum { base: "E".to_string(), variant: "A".to_string(), value: vec![] });
    assert!(matches!(g.expr_type(&v), Type::Enum(b, Some(a)) if b == "E" && a == "A"));
    let lit = expr(ExprType::StructInit { struct_name_ty: "P".to_string(), fields: vec![] });
    assert!(matches!(g.expr_type(&lit), Type::Struct(n) if n == "P"));
    let arr = expr(ExprType::ArrayInit { elements: vec![name("x")] });
    assert!(matches!(g.expr_type(&arr), Type::Primitive(TokenType::I64)));
}

#[test]
fn string_literals_go_to_the_data_section() {
    let mut g = with_targets();
    let s = expr(ExprType::String { str: "hi".to_string() });
    let r = g.eval_expr(&s, &Type::Pointer(Box::new(prim(TokenType::U8))));
    assert_eq!(r, "rax");
    assert_eq!(g.func_data, "    lea rax, [rel str_1]\n");
    assert_eq!(g.data_code, vec!["str_1: db \"hi\", 0".to_string()]);
    assert_eq!(g.id, 1);
}

#[test]
fn a_string_argument_is_passed_by_address() {
    let mut g = with_targets();
    let f = func(vec![param("s", Type::Pointer(Box::new(prim(TokenType::U8))))]);
    let space = g.gen_args(&vec![expr(ExprType::String { str: "hi".to_string() })], &f, &vec![], &vec![], false);
    assert_eq!(space, 0);
    assert_eq!(g.func_data, "    lea rax, [rel str_1]\n    mov rdi, rax\n");
    assert_eq!(g.data_code, vec!["str_1: db \"hi\", 0".to_string()]);
}

#[test]
fn sizeof_moves_the_size_into_rax() {
    let mut g = with_targets();
    let s = expr(ExprType::SizeOf { ty: Type::Struct("P".to_string()) });
    let r = g.eval_expr(&s, &prim(TokenType::I64));
    assert_eq!(r, "rax");
    assert_eq!(g.func_data, "    mov rax, 16\n");
    let s2 = expr(ExprType::SizeOf { ty: Type::Array(Box::new(prim(TokenType::I32)), 3) });
    g.eval_expr(&s2, &prim(TokenType::I64));
    assert_eq!(g.func_data, "    mov rax, 16\n    mov rax, 12\n");
    assert_eq!(g.id, 0);
}

#[test]
fn a_sizeof_argument_is_passed_in_a_register() {
    let mut g = with_targets();
    let f = func(vec![param("n", prim(TokenType::I64))]);
    let space = g.gen_args(&vec![expr(ExprType::SizeOf { ty: prim(TokenType::I32) })], &f, &vec![], &vec![], false);
    assert_eq!(space, 0);
    assert_eq!(g.func_data, "    mov rax, 4\n    mov rdi, rax\n");
}

#[test]
fn a_call_has_the_return_type_of_the_overload_that_fits() {
    let mut g = with_targets();
    let two = vcompiler::codegen::FuncData {
        args: vec![param("a", prim(TokenType::I64)), param("b", prim(TokenType::I64))],
        generic: vec![],
        return_type: prim(TokenType::U8),
    };
    let one_struct = vcompiler::codegen::FuncData {
        args: vec![param("p", Type::Struct("P".to_string()))],
        generic: vec![],
        return_type: prim(TokenType::U16),
    };
    let one = vcompiler::codegen::FuncData {
        args: vec![param("a", prim(TokenType::I64))],
        generic: vec![],
        return_type: prim(TokenType::I32),
    };
    g.functions.push(("f".to_string(), vec![two, one_struct, one]));
    let call = |args: Vec<Expr>| expr(ExprType::Call { name: "f".to_string(), generics: vec![], args });
    assert!(matches!(g.expr_type(&call(vec![name("x")])), Type::Primitive(TokenType::I32)));
    assert!(matches!(g.expr_type(&call(vec![name("p")])), Type::Primitive(TokenType::U16)));
    assert!(matches!(g.expr_type(&call(vec![name("x"), num(1)])), Type::Primitive(TokenType::U8)));
}
