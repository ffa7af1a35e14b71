use vstd::prelude::*;
use vstd::pervasive::arbitrary;
use crate::ir::{Expr, ExprType, ExprV, ExprKindV, Type, TypeV, type_v, BinOp, UnaryOp, expr_v, exprs_v, named_exprs_v, strs_v};
use crate::codegen::{Gen, with_id, reg_for_size_s, var_lookup_s, gen_scopes, loadable, ins1, ins2, line,
    int_text, binop_defined, binop_text_s, enum_of, global_load_s, var_return_s, resolve_s, ins1_text, ins2_text,
    typed_load_s, word_s, type_size_s};
use crate::analyzer::{entries_v, struct_of};
use crate::codegen::StructData;
use crate::shared::{coerce_numeric_s, coerce_numeric, numeric_rank_s, is_numeric, is_unsigned, is_unsigned_token};
use crate::tokenizer::TokenType;
use crate::text::{decimal, from_lit, push_str, push_decimal};
use crate::codegen::data_names;
use crate::sizing::{enum_names, resolve_inst_s, resolve_inst_defined, leaf_s, with_leaf, mono_leaf_s, mono_defined,
    mono_effect, with_func_data};
use crate::lvalue::{struct_field_s, field_of_s};
use crate::grammar::utf8_len;
use crate::parser::c_string_size;
use crate::args::lemma_exprs_v;
use crate::registry::tables_v;
use crate::shared::{first_index, lemma_first_index, check_types_s, check_types};
use crate::codegen::{FuncDataV, func_data_v};
use crate::ir::{DeclarationV, decls_v, types_v};

verus! {

// ---------------------------------------------------------------------------
// Types of expressions
// ---------------------------------------------------------------------------

/// The type of a name used as an expression: the struct or the enum of that
/// name, else the declared type of the variable; `None` for an unknown name.
pub open spec fn name_type_s(n: Seq<char>, g: Gen) -> Option<TypeV> {
    if struct_of(g.structs@, n) is Some {
        Some(TypeV::Struct(n))
    } else if enum_of(g.layout().enums, n) is Some {
        Some(TypeV::Enum(n, None))
    } else {
        match var_lookup_s(gen_scopes(g), g.global_vars@, n) {
            Some(v) => Some(type_v(v.var_type)),
            None => None,
        }
    }
}

/// The type the generator gives a number, a name, a binary or a unary
/// expression: a binary expression takes the type of its operand that is not
/// a number literal, or the common numeric type of both; `None` where the
/// type cannot be found.
pub open spec fn expr_type_s(e: ExprV, g: Gen) -> Option<TypeV>
    decreases e, 0nat,
{
    match e.kind {
        ExprKindV::Number(_) => Some(TypeV::Primitive(TokenType::I64)),
        ExprKindV::Variable(n) => name_type_s(n, g),
        ExprKindV::Binary { op, left, right } => match (expr_type_s(*left, g), expr_type_s(*right, g)) {
            (Some(a), Some(b)) => if left.kind is Number {
                Some(b)
            } else if right.kind is Number {
                Some(a)
            } else {
                Some(coerce_numeric_s(a, b))
            },
            _ => None,
        },
        ExprKindV::Unary { op, expr } => match op {
            UnaryOp::Neg => expr_type_s(*expr, g),
            UnaryOp::Not => Some(TypeV::Primitive(TokenType::U8)),
            UnaryOp::GetAddr => match expr_type_s(*expr, g) {
                Some(t) => Some(TypeV::Pointer(Box::new(t))),
                None => None,
            },
            UnaryOp::BitNot => None,
        },
        ExprKindV::Deref(inner) => match expr_type_s(*inner, g) {
            Some(TypeV::Pointer(p)) => Some(*p),
            _ => None,
        },
        ExprKindV::Cast { ty, .. } => Some(ty),
        ExprKindV::Call { name, generics, args } => if generics.len() == 0 {
            match overloads_s(name, g) {
                Some(fs) => call_type_s(fs, args, g, 0),
                None => None,
            }
        } else {
            None
        },
        ExprKindV::SizeOf { .. } => Some(TypeV::Primitive(TokenType::I64)),
        ExprKindV::String { str } => if utf8_len(str) + 1 <= usize::MAX {
            Some(TypeV::Array(Box::new(TypeV::Primitive(TokenType::U8)), (utf8_len(str) + 1) as usize))
        } else {
            None
        },
        ExprKindV::StructInit { struct_name_ty, .. } => if struct_of(g.structs@, struct_name_ty) is Some {
            Some(TypeV::Struct(struct_name_ty))
        } else {
            None
        },
        ExprKindV::GetEnum { base, variant, .. } => Some(TypeV::Enum(base, Some(variant))),
        ExprKindV::ArrayInit { elements } => if elements.len() > 0 {
            expr_type_s(elements[0], g)
        } else {
            Some(TypeV::Unknown)
        },
        ExprKindV::StructMember { base, name } => match expr_type_s(*base, g) {
            Some(t0) => if resolve_inst_defined(t0, data_names(g.structs@), enum_names(g.layout().enums)) {
                let bt = resolve_inst_s(t0, data_names(g.structs@), enum_names(g.layout().enums));
                let sn = match bt {
                    TypeV::Struct(n) => Some(n),
                    TypeV::Pointer(inner) => match *inner {
                        TypeV::Struct(n) => Some(n),
                        _ => None,
                    },
                    _ => None,
                };
                match sn {
                    Some(n) => match struct_field_s(g, n, name) {
                        Some(f) => Some(f.ty),
                        None => None,
                    },
                    None => None,
                }
            } else {
                None
            },
            None => None,
        },
        ExprKindV::Index { base, index } => match (expr_type_s(*base, g), expr_type_s(*index, g)) {
            (Some(bt), Some(it)) => if numeric_rank_s(it) is Some {
                match bt {
                    TypeV::Array(el, _) => Some(*el),
                    TypeV::Pointer(el) => Some(*el),
                    _ => Some(bt),
                }
            } else {
                None
            },
            _ => None,
        },
        _ => None,
    }
}

/// The overloads registered for the function `name`, if there is one.
pub open spec fn overloads_s(name: Seq<char>, g: Gen) -> Option<Seq<FuncDataV>> {
    let t = tables_v(g).funcs;
    match first_index(t.map_values(|e: (Seq<char>, Seq<FuncDataV>)| e.0), name) {
        Some(i) => Some(t[i].1),
        None => None,
    }
}

/// Whether the arguments from the `i`-th on fit the parameters `ps`: the
/// type of each, read as a concrete instance (see `resolve_inst_s`), is
/// compatible with the parameter's (see `check_types_s`); the first that
/// does not fit ends the check. `None` where an argument's type is needed
/// and cannot be found.
pub open spec fn args_fit_s(args: Seq<ExprV>, ps: Seq<DeclarationV>, g: Gen, i: int) -> Option<bool>
    decreases args, (if i < args.len() { args.len() - i } else { 0 }) as nat,
{
    if i < 0 || i >= args.len() || i >= ps.len() {
        Some(true)
    } else {
        let sn = data_names(g.structs@);
        let en = enum_names(g.layout().enums);
        match expr_type_s(args[i], g) {
            Some(t) => if resolve_inst_defined(t, sn, en) && resolve_inst_defined(ps[i].ty, sn, en) {
                if check_types_s(resolve_inst_s(t, sn, en), resolve_inst_s(ps[i].ty, sn, en)) {
                    args_fit_s(args, ps, g, i + 1)
                } else {
                    Some(false)
                }
            } else {
                None
            },
            None => None,
        }
    }
}

/// The type of a call of a non-generic function: the return type of the
/// first overload from the `k`-th on with as many parameters as there are
/// arguments and that the arguments fit (see `args_fit_s`); `None` where no
/// overload fits or an argument's type cannot be found.
pub open spec fn call_type_s(fs: Seq<FuncDataV>, args: Seq<ExprV>, g: Gen, k: int) -> Option<TypeV>
    decreases args, (args.len() + 1 + (if k < fs.len() { fs.len() - k } else { 0 })) as nat,
{
    if k < 0 || k >= fs.len() {
        None
    } else if fs[k].args.len() != args.len() {
        call_type_s(fs, args, g, k + 1)
    } else {
        match args_fit_s(args, fs[k].args, g, 0) {
            Some(true) => Some(fs[k].return_type),
            Some(false) => call_type_s(fs, args, g, k + 1),
            None => None,
        }
    }
}

/// The size `sizeof(ty)` stands for: that of `ty` made concrete (see
/// `mono_leaf_s`).
pub open spec fn size_of_s(ty: TypeV, g: Gen) -> int {
    type_size_s(with_leaf(ty, mono_leaf_s(leaf_s(ty), g)), g.layout(), g.size_fuel()).unwrap()
}

/// A `sizeof` the evaluator takes: its type made concrete has a size, and
/// making it concrete lays out no new instance of a generic struct or enum
/// (`mono_effect` then leaves the generator as it was).
pub open spec fn size_of_defined(ty: TypeV, g: Gen) -> bool {
    &&& mono_defined(leaf_s(ty), g)
    &&& mono_effect(leaf_s(ty), g, g)
    &&& type_size_s(with_leaf(ty, mono_leaf_s(leaf_s(ty), g)), g.layout(), g.size_fuel()) is Some
}

/// The load of a value of type `t` from `[rax]` into `rax` (see
/// `typed_load_s`).
pub open spec fn load_rax_s(t: TypeV, g: Gen) -> Seq<char> {
    let map = entries_v(g.generics@);
    typed_load_s("[rax]"@, t, word_s(resolve_s(t, map, map.len()).unwrap()).unwrap(), reg_for_size_s("rax"@, t, map).unwrap())
}

/// A value of type `t` can be loaded: it has a size keyword and a part of
/// `rax`.
pub open spec fn load_rax_defined(t: TypeV, g: Gen) -> bool {
    let map = entries_v(g.generics@);
    &&& resolve_s(t, map, map.len()) matches Some(r) && word_s(r) is Some
    &&& reg_for_size_s("rax"@, t, map) is Some
}

// ---------------------------------------------------------------------------
// Evaluating expressions
// ---------------------------------------------------------------------------

/// The text that loads the variable `n` into `rax`.
pub open spec fn var_text_s(n: Seq<char>, g: Gen) -> Seq<char> {
    let v = var_lookup_s(gen_scopes(g), g.global_vars@, n).unwrap();
    let map = entries_v(g.generics@);
    if v.global_flag {
        global_load_s(n, type_v(v.var_type), map)
    } else {
        var_return_s(v, map)
    }
}

/// The address of the variable `n` loaded into `rax`: its label for a
/// global, its stack slot otherwise.
pub open spec fn var_addr_s(n: Seq<char>, g: Gen) -> Seq<char> {
    let v = var_lookup_s(gen_scopes(g), g.global_vars@, n).unwrap();
    if v.global_flag {
        line("    lea rax, [rel "@ + n + "]"@)
    } else {
        line("    lea rax, [rbp - "@ + decimal(v.stack_pos as nat) + "]"@)
    }
}

/// The instructions after the operand of `-x` (`neg`) or `!x` (compare with
/// zero and set), on the part `sized` of `rax`.
pub open spec fn unary_tail_s(op: UnaryOp, sized: Seq<char>) -> Seq<char> {
    if op is Neg {
        ins1("neg"@, sized)
    } else {
        ins2("cmp"@, sized, "0"@) + line("    sete al"@) + ins2("movzx"@, sized, "al"@)
    }
}

/// The range check of an index held in `ireg` into a base of type `t`:
/// for an array of `n` elements, the index is compared with `n` as an
/// unsigned number and, unless it is below, the program exits with status 1;
/// the check is skipped to a fresh label `bounds_ok_K`. Nothing for other
/// bases. Gives the text and the label counter afterwards.
pub open spec fn bounds_s(t: TypeV, ireg: Seq<char>, id: int) -> (Seq<char>, int) {
    match t {
        TypeV::Array(_, n) => {
            let k = id + 1;
            (ins2("cmp"@, ireg, decimal(n as nat)) + ins1("jb"@, "bounds_ok_"@ + decimal(k as nat))
                + line("    mov rdi, 1"@) + line("    mov rax, 60"@) + line("    syscall"@)
                + line("bounds_ok_"@ + decimal(k as nat) + ":"@), k)
        },
        _ => (Seq::empty(), id),
    }
}

/// A fresh label for the range check is available.
pub open spec fn bounds_defined(t: TypeV, id: int) -> bool {
    t is Array ==> id < usize::MAX
}

/// The widening of a value of type `st` (`ss` bytes, in the part `sr` of
/// `rax`) to `ts` bytes (in the part `tr`): zero extension for an unsigned
/// source, sign extension otherwise (none for arrays and pointers); from 4 to
/// 8 bytes by `mov eax, eax` or `movsxd rax, eax`.
pub open spec fn cast_ext_s(st: TypeV, ss: int, ts: int, sr: Seq<char>, tr: Seq<char>) -> Seq<char> {
    if st matches TypeV::Primitive(k) && is_unsigned_token(k) {
        if ss == 4 && ts == 8 { line("    mov eax, eax"@) } else { ins2("movzx"@, tr, sr) }
    } else if ss == 4 && ts == 8 {
        line("    movsxd rax, eax"@)
    } else if !(st is Array) && !(st is Pointer) {
        ins2("movsx"@, tr, sr)
    } else {
        Seq::empty()
    }
}

/// Evaluating an expression into `rax` where a value of type `t` is wanted:
/// the register that holds the result, the text added to the main output,
/// the text added to the function body and the label counter afterwards.
/// Binary operands are evaluated right first (pushed) and then left, at the
/// type of the whole expression; `&&` evaluates its left operand and skips
/// the right one when it is zero, under fresh `and_N` labels. `*p` evaluates
/// `p` and loads from it; `&x` computes the address of a variable, of an
/// element (as indexing does, without the load) or of `*p` (`p` itself);
/// `a[i]` evaluates `a`, pushes it, evaluates `i`,
/// scales it by the element size, adds the two and loads from there. A cast
/// evaluates its operand at the operand's type and widens it (see
/// `cast_ext_s`) when the target is larger.
pub open spec fn eval_s(e: ExprV, t: TypeV, g: Gen) -> (Seq<char>, Seq<char>, Seq<char>, int, Seq<Seq<char>>)
    decreases e, 1nat,
{
    let map = entries_v(g.generics@);
    match e.kind {
        ExprKindV::Number(n) => ("rax"@, Seq::empty(),
            ins2("mov"@, reg_for_size_s("rax"@, t, map).unwrap(), int_text(n as int)), g.id as int, Seq::empty()),
        ExprKindV::Variable(n) => ("rax"@, Seq::empty(), var_text_s(n, g), g.id as int, Seq::empty()),
        ExprKindV::Unary { .. } => eval_unary_s(e, t, g),
        ExprKindV::Binary { .. } => eval_binary_s(e, g),
        ExprKindV::Deref(_) => eval_deref_s(e, g),
        ExprKindV::Cast { .. } => eval_cast_s(e, g),
        ExprKindV::Index { .. } => eval_index_s(e, g),
        ExprKindV::StructMember { .. } => eval_member_s(e, g),
        ExprKindV::ArrayInit { .. } => eval_array_s(e, t, g),
        ExprKindV::StructInit { .. } => eval_struct_init_s(e, g),
        ExprKindV::SizeOf { ty } => ("rax"@, Seq::empty(), line("    mov rax, "@ + decimal(size_of_s(ty, g) as nat)),
            g.id as int, Seq::empty()),
        ExprKindV::String { str } => ("rax"@, Seq::empty(), line("    lea rax, [rel str_"@ + decimal((g.id + 1) as nat) + "]"@),
            g.id + 1, seq!["str_"@ + decimal((g.id + 1) as nat) + ": db \""@ + str + "\", 0"@]),
        _ => (Seq::empty(), Seq::empty(), Seq::empty(), g.id as int, Seq::empty()),
    }
}

/// `-x`, `!x` and `&x` (see `eval_s`).
#[verifier::opaque]
pub open spec fn eval_unary_s(e: ExprV, t: TypeV, g: Gen) -> (Seq<char>, Seq<char>, Seq<char>, int, Seq<Seq<char>>)
    decreases e, 0nat,
{
    let map = entries_v(g.generics@);
    match e.kind {
        ExprKindV::Unary { op, expr } => if op is GetAddr {
            addr_s(*expr, g)
        } else {
            let (_, o, f, id, d) = eval_s(*expr, t, g);
            ("rax"@, o, f + unary_tail_s(op, reg_for_size_s("rax"@, t, map).unwrap()), id, d)
        },
        _ => (Seq::empty(), Seq::empty(), Seq::empty(), g.id as int, Seq::empty()),
    }
}

/// A binary expression (see `eval_s`).
#[verifier::opaque]
pub open spec fn eval_binary_s(e: ExprV, g: Gen) -> (Seq<char>, Seq<char>, Seq<char>, int, Seq<Seq<char>>)
    decreases e, 0nat,
{
    let map = entries_v(g.generics@);
    match e.kind {
        ExprKindV::Binary { op, left, right } => {
            let ty = expr_type_s(e, g).unwrap();
            let lr = reg_for_size_s("rax"@, ty, map).unwrap();
            let rr = reg_for_size_s("rbx"@, ty, map).unwrap();
            if op is And {
                let k = g.id + 1;
                let (_, o1, f1, id1, d1) = eval_s(*left, ty, with_id(g, k as usize));
                let (_, o2, f2, id2, d2) = eval_s(*right, ty, with_id(g, id1 as usize));
                (lr, o1 + o2, line("and_"@ + decimal(k as nat) + ":"@) + f1 + ins2("cmp"@, lr, "0"@)
                    + ins1("je"@, "and_end_"@ + decimal(k as nat)) + f2 + ins2("cmp"@, rr, "0"@)
                    + line("and_end_"@ + decimal(k as nat) + ":"@), id2, d1 + d2)
            } else {
                let (_, o1, f1, id1, d1) = eval_s(*right, ty, g);
                let (_, o2, f2, id2, d2) = eval_s(*left, ty, with_id(g, id1 as usize));
                let (bo, bf) = binop_text_s(op, lr, rr, ty, g.layout(), g.size_fuel());
                (lr, o1 + o2 + bo, f1 + line("    push rax"@) + f2 + ins1("pop"@, "rbx"@) + bf, id2, d1 + d2)
            }
        },
        _ => (Seq::empty(), Seq::empty(), Seq::empty(), g.id as int, Seq::empty()),
    }
}

/// `*p` (see `eval_s`).
#[verifier::opaque]
pub open spec fn eval_deref_s(e: ExprV, g: Gen) -> (Seq<char>, Seq<char>, Seq<char>, int, Seq<Seq<char>>)
    decreases e, 0nat,
{
    let map = entries_v(g.generics@);
    match e.kind {
        ExprKindV::Deref(inner) => {
            let ty = expr_type_s(e, g).unwrap();
            let (_, o, f, id, d) = eval_s(*inner, ty, g);
            ("rax"@, o, f + load_rax_s(ty, g), id, d)
        },
        _ => (Seq::empty(), Seq::empty(), Seq::empty(), g.id as int, Seq::empty()),
    }
}

/// A cast (see `eval_s`).
#[verifier::opaque]
pub open spec fn eval_cast_s(e: ExprV, g: Gen) -> (Seq<char>, Seq<char>, Seq<char>, int, Seq<Seq<char>>)
    decreases e, 0nat,
{
    let map = entries_v(g.generics@);
    match e.kind {
        ExprKindV::Cast { expr: inner, ty: tt } => {
            let st = expr_type_s(*inner, g).unwrap();
            let (_, o, f, id, d) = eval_s(*inner, st, g);
            let ss = type_size_s(st, g.layout(), g.size_fuel()).unwrap();
            let ts = type_size_s(tt, g.layout(), g.size_fuel()).unwrap();
            let tr = reg_for_size_s("rax"@, tt, map).unwrap();
            let ext = if ss < ts { cast_ext_s(st, ss, ts, reg_for_size_s("rax"@, st, map).unwrap(), tr) } else { Seq::empty() };
            (tr, o, f + ext, id, d)
        },
        _ => (Seq::empty(), Seq::empty(), Seq::empty(), g.id as int, Seq::empty()),
    }
}

/// `a[i]` (see `eval_s`).
#[verifier::opaque]
pub open spec fn eval_index_s(e: ExprV, g: Gen) -> (Seq<char>, Seq<char>, Seq<char>, int, Seq<Seq<char>>)
    decreases e, 0nat,
{
    let map = entries_v(g.generics@);
    match e.kind {
        ExprKindV::Index { base, index } => {
            let ty = expr_type_s(e, g).unwrap();
            let bt = expr_type_s(*base, g).unwrap();
            let (_, o1, f1, id1, d1) = eval_s(*base, bt, g);
            let (r2, o2, f2, id2, d2) = eval_s(*index, TypeV::Primitive(TokenType::I64), with_id(g, id1 as usize));
            let (chk, id3) = bounds_s(bt, r2, id2);
            let size = type_size_s(ty, g.layout(), g.size_fuel()).unwrap();
            ("rax"@, o1 + o2, f1 + line("    push rax"@) + f2 + chk + line("    imul rax, rax, "@ + decimal(size as nat))
                + ins1("pop"@, "rbx"@) + line("    add rax, rbx"@) + load_rax_s(ty, g), id3, d1 + d2)
        },
        _ => (Seq::empty(), Seq::empty(), Seq::empty(), g.id as int, Seq::empty()),
    }
}

/// The expressions that `eval_s` describes, on the inputs on which the
/// generator goes through: numbers with a register part for the wanted type,
/// variables in scope of a loadable type, `-x` and `!x`, `&` of variables,
/// elements and dereferences, dereferences and
/// indexing of values that can be loaded, casts between types of known size
/// with the register parts they use, and binary
/// expressions with a type, register parts for it, and an operator the
/// generator writes for it (the label counter not running over).
pub open spec fn eval_defined(e: ExprV, t: TypeV, g: Gen) -> bool
    decreases e, 1nat,
{
    let map = entries_v(g.generics@);
    match e.kind {
        ExprKindV::Number(_) => reg_for_size_s("rax"@, t, map) is Some && resolve_s(t, map, map.len()) is Some,
        ExprKindV::Variable(n) => var_lookup_s(gen_scopes(g), g.global_vars@, n) matches Some(v)
            && loadable(type_v(v.var_type)),
        ExprKindV::Unary { .. } => unary_defined(e, t, g),
        ExprKindV::Binary { .. } => binary_defined(e, g),
        ExprKindV::Deref(_) => deref_defined(e, g),
        ExprKindV::Cast { .. } => cast_defined(e, g),
        ExprKindV::Index { .. } => index_defined(e, g),
        ExprKindV::StructMember { .. } => member_defined(e, g),
        ExprKindV::ArrayInit { .. } => array_defined(e, t, g),
        ExprKindV::StructInit { .. } => struct_init_defined(e, g),
        ExprKindV::String { .. } => g.id < usize::MAX,
        ExprKindV::SizeOf { ty } => size_of_defined(ty, g),
        _ => false,
    }
}

/// The operands `eval_unary_s` describes.
#[verifier::opaque]
pub open spec fn unary_defined(e: ExprV, t: TypeV, g: Gen) -> bool
    decreases e, 0nat,
{
    let map = entries_v(g.generics@);
    match e.kind {
        ExprKindV::Unary { op, expr } => if op is GetAddr {
            addr_defined(*expr, g)
        } else {
            (op is Neg || op is Not) && eval_defined(*expr, t, g) && reg_for_size_s("rax"@, t, map) is Some
        },
        _ => false,
    }
}

/// The binary expressions `eval_binary_s` describes.
#[verifier::opaque]
pub open spec fn binary_defined(e: ExprV, g: Gen) -> bool
    decreases e, 0nat,
{
    let map = entries_v(g.generics@);
    match e.kind {
        ExprKindV::Binary { op, left, right } => match expr_type_s(e, g) {
            Some(ty) => {
                &&& reg_for_size_s("rax"@, ty, map) is Some
                &&& reg_for_size_s("rbx"@, ty, map) is Some
                &&& if op is And {
                    &&& g.id < usize::MAX
                    &&& eval_defined(*left, ty, with_id(g, (g.id + 1) as usize))
                    &&& eval_defined(*right, ty, with_id(g, eval_s(*left, ty, with_id(g, (g.id + 1) as usize)).3 as usize))
                } else {
                    &&& eval_defined(*right, ty, g)
                    &&& eval_defined(*left, ty, with_id(g, eval_s(*right, ty, g).3 as usize))
                    &&& binop_defined(op, reg_for_size_s("rax"@, ty, map).unwrap(),
                        reg_for_size_s("rbx"@, ty, map).unwrap(), ty, g.layout(), g.size_fuel())
                }
            },
            None => false,
        },
        _ => false,
    }
}

/// The dereferences `eval_deref_s` describes.
#[verifier::opaque]
pub open spec fn deref_defined(e: ExprV, g: Gen) -> bool
    decreases e, 0nat,
{
    let map = entries_v(g.generics@);
    match e.kind {
        ExprKindV::Deref(inner) => match expr_type_s(e, g) {
            Some(ty) => eval_defined(*inner, ty, g) && load_rax_defined(ty, g),
            None => false,
        },
        _ => false,
    }
}

/// The casts `eval_cast_s` describes.
#[verifier::opaque]
pub open spec fn cast_defined(e: ExprV, g: Gen) -> bool
    decreases e, 0nat,
{
    let map = entries_v(g.generics@);
    match e.kind {
        ExprKindV::Cast { expr: inner, ty: tt } => match expr_type_s(*inner, g) {
            Some(st) => {
                &&& eval_defined(*inner, st, g)
                &&& type_size_s(st, g.layout(), g.size_fuel()) matches Some(ss)
                &&& type_size_s(tt, g.layout(), g.size_fuel()) matches Some(ts)
                &&& reg_for_size_s("rax"@, tt, map) is Some
                &&& ss < ts ==> reg_for_size_s("rax"@, st, map) is Some
            },
            None => false,
        },
        _ => false,
    }
}

/// The indexings `eval_index_s` describes.
#[verifier::opaque]
pub open spec fn index_defined(e: ExprV, g: Gen) -> bool
    decreases e, 0nat,
{
    let map = entries_v(g.generics@);
    match e.kind {
        ExprKindV::Index { base, index } => match expr_type_s(e, g) {
            Some(ty) => {
                let bt = expr_type_s(*base, g).unwrap();
                &&& eval_defined(*base, bt, g)
                &&& eval_defined(*index, TypeV::Primitive(TokenType::I64), with_id(g, eval_s(*base, bt, g).3 as usize))
                &&& bounds_defined(bt, eval_s(*index, TypeV::Primitive(TokenType::I64), with_id(g, eval_s(*base, bt, g).3 as usize)).3)
                &&& type_size_s(ty, g.layout(), g.size_fuel()) is Some
                &&& load_rax_defined(ty, g)
            },
            None => false,
        },
        _ => false,
    }
}

/// `&x` (see `eval_s`): the address of a variable, of an element (computed
/// as indexing does, without the load) or of `*p` (`p` evaluated as a
/// pointer).
pub open spec fn addr_s(x: ExprV, g: Gen) -> (Seq<char>, Seq<char>, Seq<char>, int, Seq<Seq<char>>)
    decreases x, 0nat,
{
    match x.kind {
        ExprKindV::Variable(n) => ("rax"@, Seq::empty(), var_addr_s(n, g), g.id as int, Seq::empty()),
        ExprKindV::Index { base, index } => {
            let size = type_size_s(expr_type_s(x, g).unwrap(), g.layout(), g.size_fuel()).unwrap();
            let bt = expr_type_s(*base, g).unwrap();
            let (_, o1, f1, id1, d1) = eval_s(*base, bt, g);
            let (_, o2, f2, id2, d2) = eval_s(*index, TypeV::Primitive(TokenType::I32), with_id(g, id1 as usize));
            ("rax"@, o1 + o2, f1 + line("    push rax"@) + f2 + line("    imul rax, rax, "@ + decimal(size as nat))
                + ins1("pop"@, "rbx"@) + line("    add rax, rbx"@), id2, d1 + d2)
        },
        ExprKindV::Deref(inner) => {
            let (_, o, f, id, d) = eval_s(*inner, TypeV::Pointer(Box::new(expr_type_s(x, g).unwrap())), g);
            ("rax"@, o, f, id, d)
        },
        _ => (Seq::empty(), Seq::empty(), Seq::empty(), g.id as int, Seq::empty()),
    }
}

/// The operands of `&` that `addr_s` describes.
pub open spec fn addr_defined(x: ExprV, g: Gen) -> bool
    decreases x, 0nat,
{
    match x.kind {
        ExprKindV::Variable(n) => var_lookup_s(gen_scopes(g), g.global_vars@, n) is Some,
        ExprKindV::Index { base, index } => {
            &&& expr_type_s(x, g) matches Some(et) && type_size_s(et, g.layout(), g.size_fuel()) is Some
            &&& expr_type_s(*base, g) matches Some(bt)
            &&& eval_defined(*base, bt, g)
            &&& eval_defined(*index, TypeV::Primitive(TokenType::I32), with_id(g, eval_s(*base, bt, g).3 as usize))
        },
        ExprKindV::Deref(inner) => expr_type_s(x, g) matches Some(xt)
            && eval_defined(*inner, TypeV::Pointer(Box::new(xt)), g),
        _ => false,
    }
}

/// The struct that the base of a member read is (instances of generic
/// structs read by their instance name); `None` for any other base.
pub open spec fn member_struct_s(base: ExprV, g: Gen) -> Option<Seq<char>> {
    match expr_type_s(base, g) {
        Some(t0) => if resolve_inst_defined(t0, data_names(g.structs@), enum_names(g.layout().enums)) {
            match resolve_inst_s(t0, data_names(g.structs@), enum_names(g.layout().enums)) {
                TypeV::Struct(n) => Some(n),
                _ => None,
            }
        } else {
            None
        },
        None => None,
    }
}

/// Struct and enum values are handled by address.
pub open spec fn is_aggregate(t: TypeV) -> bool {
    t is Struct || t is Enum
}

/// A load of a value of type `t` from the memory operand `mem` into `rax`
/// (see `typed_load_s`).
pub open spec fn load_at_s(mem: Seq<char>, t: TypeV, g: Gen) -> Seq<char> {
    let map = entries_v(g.generics@);
    typed_load_s(mem, t, word_s(resolve_s(t, map, map.len()).unwrap()).unwrap(), reg_for_size_s("rax"@, t, map).unwrap())
}

/// Where a member read `x.f` finds `x` when `f` is `off` bytes into it: for
/// a variable, at the static slot `off` bytes above the variable's slot
/// (`Some` of the slot); for `*p`, at `p` (evaluated as a pointer to `ty`)
/// plus `off` in `rax` (`None`); for a member of a member, by the outer
/// member's offset added. Gives the slot, the texts added to the main
/// output and to the function body, and the label counter afterwards.
pub open spec fn move_s(x: ExprV, ty: TypeV, off: int, g: Gen) -> (Option<int>, Seq<char>, Seq<char>, int, Seq<Seq<char>>)
    decreases x, 0nat,
{
    match x.kind {
        ExprKindV::Variable(n) => {
            let v = var_lookup_s(gen_scopes(g), g.global_vars@, n).unwrap();
            (Some(v.stack_pos - off), Seq::empty(), Seq::empty(), g.id as int, Seq::<Seq<char>>::empty())
        },
        ExprKindV::Deref(inner) => {
            let (_, o, f, id, d) = eval_s(*inner, TypeV::Pointer(Box::new(ty)), g);
            (None, o, f + (if off != 0 { ins2("add"@, "rax"@, decimal(off as nat)) } else { Seq::empty() }), id, d)
        },
        ExprKindV::StructMember { base, name } => {
            let sn = member_struct_s(*base, g).unwrap();
            let fld = struct_field_s(g, sn, name).unwrap();
            move_s(*base, TypeV::Struct(sn), fld.offset + off, g)
        },
        _ => (None, Seq::empty(), Seq::empty(), g.id as int, Seq::empty()),
    }
}

/// The bases `move_s` describes: variables whose slot is at least `off`,
/// dereferences of pointers `eval_s` describes, and members of structs.
pub open spec fn move_defined(x: ExprV, ty: TypeV, off: int, g: Gen) -> bool
    decreases x, 0nat,
{
    match x.kind {
        ExprKindV::Variable(n) => var_lookup_s(gen_scopes(g), g.global_vars@, n) matches Some(v) && v.stack_pos >= off,
        ExprKindV::Deref(inner) => eval_defined(*inner, TypeV::Pointer(Box::new(ty)), g),
        ExprKindV::StructMember { base, name } => {
            &&& member_struct_s(*base, g) matches Some(sn)
            &&& struct_field_s(g, sn, name) matches Some(fld)
            &&& fld.offset + off <= usize::MAX
            &&& move_defined(*base, TypeV::Struct(sn), fld.offset + off, g)
        },
        _ => false,
    }
}

/// `x.f` of a struct (see `eval_s`): `x` is found (see `move_s`) and the
/// field loaded from its static slot or from `rax` plus the offset; a
/// struct or enum field gives its address instead.
#[verifier::opaque]
pub open spec fn eval_member_s(e: ExprV, g: Gen) -> (Seq<char>, Seq<char>, Seq<char>, int, Seq<Seq<char>>)
    decreases e, 0nat,
{
    match e.kind {
        ExprKindV::StructMember { base, name } => {
            let sn = member_struct_s(*base, g).unwrap();
            let fld = struct_field_s(g, sn, name).unwrap();
            let (p, o, f, id, d) = move_s(*base, TypeV::Struct(sn), fld.offset as int, g);
            let load = match p {
                Some(q) => {
                    let mem = "[rbp - "@ + decimal(q as nat) + "]"@;
                    if is_aggregate(fld.ty) { line("    lea rax, "@ + mem) } else { load_at_s(mem, fld.ty, g) }
                },
                None => if is_aggregate(fld.ty) { Seq::empty() } else { load_at_s("[rax]"@, fld.ty, g) },
            };
            ("rax"@, o, f + load, id, d)
        },
        _ => (Seq::empty(), Seq::empty(), Seq::empty(), g.id as int, Seq::empty()),
    }
}

/// The member reads `eval_member_s` describes.
#[verifier::opaque]
pub open spec fn member_defined(e: ExprV, g: Gen) -> bool
    decreases e, 0nat,
{
    match e.kind {
        ExprKindV::StructMember { base, name } => {
            &&& member_struct_s(*base, g) matches Some(sn)
            &&& struct_field_s(g, sn, name) matches Some(fld)
            &&& move_defined(*base, TypeV::Struct(sn), fld.offset as int, g)
            &&& !is_aggregate(fld.ty) ==> load_rax_defined(fld.ty, g)
        },
        _ => false,
    }
}

/// The store of `rax` (the part of the size of `et`) into `[rbp - pos]`.
pub open spec fn store_s(et: TypeV, pos: int, g: Gen) -> Seq<char> {
    let map = entries_v(g.generics@);
    line("    mov "@ + word_of_type_s(et, g) + " [rbp - "@ + decimal(pos as nat) + "], "@
        + reg_for_size_s("rax"@, et, map).unwrap())
}

/// The size keyword of a memory operand of type `t`.
pub open spec fn word_of_type_s(t: TypeV, g: Gen) -> Seq<char> {
    let map = entries_v(g.generics@);
    word_s(resolve_s(t, map, map.len()).unwrap()).unwrap()
}

/// A value of type `t` can be stored from `rax`.
pub open spec fn store_defined(t: TypeV, g: Gen) -> bool {
    let map = entries_v(g.generics@);
    &&& resolve_s(t, map, map.len()) matches Some(r) && word_s(r) is Some
    &&& reg_for_size_s("rax"@, t, map) is Some
}

/// The elements of an array literal, in order, each evaluated at the
/// element type `et` and stored `size` bytes below the previous one, the
/// first at `[rbp - base]`: the texts added to the main output and to the
/// function body and the label counter afterwards.
pub open spec fn elems_s(es: Seq<ExprV>, et: TypeV, size: int, base: int, g: Gen) -> (Seq<char>, Seq<char>, int, Seq<Seq<char>>)
    decreases es, 0nat,
{
    if es.len() == 0 {
        (Seq::empty(), Seq::empty(), g.id as int, Seq::empty())
    } else {
        let (o1, f1, id1, d1) = elems_s(es.drop_last(), et, size, base, g);
        let i = es.len() - 1;
        let (_, o2, f2, id2, d2) = eval_s(es.last(), et, with_id(g, id1 as usize));
        (o1 + o2, f1 + f2 + store_s(et, base - i * size, g), id2, d1 + d2)
    }
}

/// The element lists `elems_s` describes: each element evaluated by
/// `eval_s`, and its slot not below `rbp`.
pub open spec fn elems_defined(es: Seq<ExprV>, et: TypeV, size: int, base: int, g: Gen) -> bool
    decreases es, 0nat,
{
    if es.len() == 0 {
        true
    } else {
        let (o1, f1, id1, d1) = elems_s(es.drop_last(), et, size, base, g);
        let i = es.len() - 1;
        &&& elems_defined(es.drop_last(), et, size, base, g)
        &&& eval_defined(es.last(), et, with_id(g, id1 as usize))
        &&& i * size <= base
    }
}

/// An array literal where an array of `t` is wanted (see `eval_s`): its
/// elements stored from the current stack depth down (see `elems_s`), and
/// the address of the first loaded into `rax`.
#[verifier::opaque]
pub open spec fn eval_array_s(e: ExprV, t: TypeV, g: Gen) -> (Seq<char>, Seq<char>, Seq<char>, int, Seq<Seq<char>>)
    decreases e, 0nat,
{
    match e.kind {
        ExprKindV::ArrayInit { elements } => {
            let et = match t { TypeV::Array(el, _) => *el, _ => TypeV::Unknown };
            let size = type_size_s(et, g.layout(), g.size_fuel()).unwrap();
            let (o, f, id, d) = elems_s(elements, et, size, g.stack_pos as int, g);
            ("rax"@, o, f + line("    lea rax, [rbp - "@ + decimal(g.stack_pos as nat) + "]"@), id, d)
        },
        _ => (Seq::empty(), Seq::empty(), Seq::empty(), g.id as int, Seq::empty()),
    }
}

/// The array literals `eval_array_s` describes: an array type is wanted,
/// its elements have a size and can be stored.
#[verifier::opaque]
pub open spec fn array_defined(e: ExprV, t: TypeV, g: Gen) -> bool
    decreases e, 0nat,
{
    match e.kind {
        ExprKindV::ArrayInit { elements } => match t {
            TypeV::Array(el, _) => {
                &&& type_size_s(*el, g.layout(), g.size_fuel()) matches Some(size)
                &&& store_defined(*el, g)
                &&& elems_defined(elements, *el, size, g.stack_pos as int, g)
            },
            _ => false,
        },
        _ => false,
    }
}

/// A prefix of a list that `elems_defined` accepts is accepted, and the
/// step to the next element is the one `elems_s` takes.
pub proof fn lemma_elems_prefix(es: Seq<ExprV>, et: TypeV, size: int, base: int, g: Gen, k: int)
    requires
        elems_defined(es, et, size, base, g),
        0 <= k <= es.len(),
    ensures
        elems_defined(es.take(k), et, size, base, g),
    decreases es.len() - k,
{
    if k < es.len() {
        lemma_elems_prefix(es, et, size, base, g, k + 1);
        assert(es.take(k + 1).drop_last() =~= es.take(k));
    } else {
        assert(es.take(k) =~= es);
    }
}

/// The state of a struct literal after its fields `fs`, in order, of the
/// layout `sd` placed from `[rbp - base]` down: the texts added to the main
/// output and to the function body, the offset reached, the stack depth and
/// the label counter. Each field is evaluated at its type (a struct field
/// with the stack depth lowered by the offset reached, so that it is built
/// in place) and, unless it is an array or a struct, stored at its slot.
pub open spec fn fields_s(fs: Seq<(Seq<char>, ExprV)>, sd: StructData, base: int, g: Gen) -> (Seq<char>, Seq<char>, int, int, int, Seq<Seq<char>>)
    decreases fs, 0nat,
{
    if fs.len() == 0 {
        (Seq::empty(), Seq::empty(), 0, base, g.id as int, Seq::empty())
    } else {
        let (o1, f1, off1, sp1, id1, d1) = fields_s(fs.drop_last(), sd, base, g);
        let ft = field_of_s(sd, fs.last().0).unwrap().ty;
        let sp2 = if ft is Struct { sp1 - off1 } else { sp1 };
        let (_, o2, f2, id2, d2) = eval_s(fs.last().1, ft, Gen { stack_pos: sp2 as usize, id: id1 as usize, ..g });
        let size = type_size_s(ft, g.layout(), g.size_fuel()).unwrap();
        let store = if ft is Array || ft is Struct { Seq::empty() } else { store_s(ft, base - off1, g) };
        (o1 + o2, f1 + f2 + store, off1 + size, sp2, id2, d1 + d2)
    }
}

/// The field lists `fields_s` describes: every field named exists, can be
/// stored, has a size and an evaluation, and its slot stays above `rbp`.
pub open spec fn fields_defined(fs: Seq<(Seq<char>, ExprV)>, sd: StructData, base: int, g: Gen) -> bool
    decreases fs, 0nat,
{
    if fs.len() == 0 {
        true
    } else {
        let (o1, f1, off1, sp1, id1, d1) = fields_s(fs.drop_last(), sd, base, g);
        &&& fields_defined(fs.drop_last(), sd, base, g)
        &&& field_of_s(sd, fs.last().0) matches Some(fld)
        &&& store_defined(fld.ty, g)
        &&& type_size_s(fld.ty, g.layout(), g.size_fuel()) matches Some(size)
        &&& off1 + size <= usize::MAX
        &&& off1 <= base
        &&& (fld.ty is Struct ==> off1 <= sp1)
        &&& eval_defined(fs.last().1, fld.ty,
            Gen { stack_pos: (if fld.ty is Struct { sp1 - off1 } else { sp1 }) as usize, id: id1 as usize, ..g })
    }
}

/// A struct literal (see `eval_s`): its fields placed from the current
/// stack depth down (see `fields_s`); `rax` holds what the last field left.
#[verifier::opaque]
pub open spec fn eval_struct_init_s(e: ExprV, g: Gen) -> (Seq<char>, Seq<char>, Seq<char>, int, Seq<Seq<char>>)
    decreases e, 0nat,
{
    match e.kind {
        ExprKindV::StructInit { struct_name_ty, fields } => {
            let sd = struct_of(g.structs@, struct_name_ty).unwrap();
            let (o, f, off, sp, id, d) = fields_s(fields, sd, g.stack_pos as int, g);
            ("rax"@, o, f, id, d)
        },
        _ => (Seq::empty(), Seq::empty(), Seq::empty(), g.id as int, Seq::empty()),
    }
}

/// The struct literals `eval_struct_init_s` describes: of a struct that is
/// not generic, with fields `fields_defined` accepts.
#[verifier::opaque]
pub open spec fn struct_init_defined(e: ExprV, g: Gen) -> bool
    decreases e, 0nat,
{
    match e.kind {
        ExprKindV::StructInit { struct_name_ty, fields } => {
            &&& struct_of(g.structs@, struct_name_ty) matches Some(sd)
            &&& sd.generic_type@.len() == 0
            &&& fields_defined(fields, sd, g.stack_pos as int, g)
        },
        _ => false,
    }
}

/// The values of a list of named expressions, one for one.
pub proof fn lemma_named_exprs_v(es: Seq<(String, Expr)>)
    ensures
        named_exprs_v(es).len() == es.len(),
        forall|i: int| 0 <= i < es.len() ==> #[trigger] named_exprs_v(es)[i] == (es[i].0@, expr_v(es[i].1)),
    decreases es.len(),
{
    if es.len() > 0 {
        lemma_named_exprs_v(es.drop_last());
        assert forall|i: int| 0 <= i < es.len() implies #[trigger] named_exprs_v(es)[i] == (es[i].0@, expr_v(es[i].1)) by {
            if i < es.len() - 1 {
                assert(es.drop_last()[i] == es[i]);
            }
        }
    }
}

/// A prefix of a list that `fields_defined` accepts is accepted.
pub proof fn lemma_fields_prefix(fs: Seq<(Seq<char>, ExprV)>, sd: StructData, base: int, g: Gen, k: int)
    requires
        fields_defined(fs, sd, base, g),
        0 <= k <= fs.len(),
    ensures
        fields_defined(fs.take(k), sd, base, g),
    decreases fs.len() - k,
{
    if k < fs.len() {
        lemma_fields_prefix(fs, sd, base, g, k + 1);
        assert(fs.take(k + 1).drop_last() =~= fs.take(k));
    } else {
        assert(fs.take(k) =~= fs);
    }
}

/// The tables of a generator and its label counter: what evaluation reads,
/// without the text written so far.
pub open spec fn tables_of(g: Gen) -> Gen {
    Gen { out: arbitrary(), func_data: arbitrary(), data_code: arbitrary(), ..g }
}

impl Gen {
    /// The type of a name used as an expression (see `name_type_s`).
    fn name_type(&self, n: &String) -> (r: Type)
        requires
            name_type_s(n@, tables_of(*self)) is Some,
        ensures
            r@ == name_type_s(n@, tables_of(*self)).unwrap(),
    {
        if self.find_struct_data(n).is_some() {
            return Type::Struct(n.clone());
        }
        if self.find_enum(n).is_some() {
            return Type::Enum(n.clone(), None);
        }
        self.lookup_var(n.as_str()).var_type.duplicate()
    }

    /// The type the generator gives an expression (see `expr_type_s`).
    pub fn expr_type(&self, e: &Expr) -> (r: Type)
        requires
            expr_type_s(e@, tables_of(*self)) is Some,
        ensures
            r@ == expr_type_s(e@, tables_of(*self)).unwrap(),
        decreases e,
    {
        match &e.ty {
            ExprType::Number(_) => Type::Primitive(TokenType::I64),
            ExprType::Variable(n) => self.name_type(n),
            ExprType::Binary { op, left, right } => {
                let lt = self.expr_type(left);
                let rt = self.expr_type(right);
                if let ExprType::Number(_) = &left.ty {
                    rt
                } else if let ExprType::Number(_) = &right.ty {
                    lt
                } else {
                    coerce_numeric(&lt, &rt)
                }
            },
            ExprType::Unary { op, expr } => match op {
                UnaryOp::Neg => self.expr_type(expr),
                UnaryOp::Not => Type::Primitive(TokenType::U8),
                UnaryOp::GetAddr => Type::Pointer(Box::new(self.expr_type(expr))),
                UnaryOp::BitNot => Type::Unknown,
            },
            ExprType::Deref(inner) => match self.expr_type(inner) {
                Type::Pointer(p) => *p,
                _ => Type::Unknown,
            },
            ExprType::Cast { ty, .. } => ty.duplicate(),
            ExprType::SizeOf { .. } => Type::Primitive(TokenType::I64),
            ExprType::String { str } => match c_string_size(str) {
                Some(n) => {
                    let byte = Type::Primitive(TokenType::U8);
                    assert(byte@ == TypeV::Primitive(TokenType::U8));
                    Type::Array(Box::new(byte), n)
                },
                None => Type::Unknown,
            },
            ExprType::StructInit { struct_name_ty, .. } => Type::Struct(struct_name_ty.clone()),
            ExprType::GetEnum { base, variant, .. } => Type::Enum(base.clone(), Some(variant.clone())),
            ExprType::ArrayInit { elements } => {
                proof { lemma_exprs_v(elements@); }
                if elements.len() > 0 {
                    assert(e@.kind == ExprKindV::ArrayInit { elements: exprs_v(elements@) });
                    assert(exprs_v(elements@)[0] == elements@[0]@);
                    self.expr_type(&elements[0])
                } else {
                    Type::Unknown
                }
            },
            ExprType::StructMember { base, name } => {
                let t0 = self.expr_type(base);
                let bt = self.resolve_generic_inst(&t0);
                let sn = match &bt {
                    Type::Struct(n) => n.clone(),
                    Type::Pointer(inner) => {
                        let pointee = inner.duplicate();
                        assert(bt@ == TypeV::Pointer(Box::new(pointee@)));
                        match pointee {
                            Type::Struct(n) => n,
                            _ => return Type::Unknown,
                        }
                    },
                    _ => return Type::Unknown,
                };
                match self.struct_field(&sn, name) {
                    Some(f) => f.ty,
                    None => Type::Unknown,
                }
            },
            ExprType::Call { name, generics, args } => {
                if generics.len() > 0 {
                    return Type::Unknown;
                }
                let k = match self.function_index(name) {
                    Some(k) => k,
                    None => return Type::Unknown,
                };
                let ghost g = tables_of(*self);
                let ghost ev = exprs_v(args@);
                let ghost fs = tables_v(g).funcs[k as int].1;
                proof {
                    lemma_exprs_v(args@);
                    assert(tables_v(g) == tables_v(*self));
                    assert(e@.kind == ExprKindV::Call { name: name@, generics: types_v(generics@), args: ev });
                    assert(overloads_s(name@, g) == Some(fs));
                    assert forall|m: int| 0 <= m < args@.len() implies decreases_to!(*e => #[trigger] args@[m]) by {
                        assert(decreases_to!(*e => e.ty));
                        assert(decreases_to!(e.ty => *args));
                        assert(decreases_to!(*args => args@));
                        assert(decreases_to!(args@ => args@[m]));
                    }
                }
                let n = self.functions[k].1.len();
                let mut j: usize = 0;
                while j < n
                    invariant
                        j <= n,
                        n == self.functions@[k as int].1@.len(),
                        k < self.functions@.len(),
                        g == tables_of(*self),
                        fs == tables_v(g).funcs[k as int].1,
                        fs.len() == n,
                        ev == exprs_v(args@),
                        ev.len() == args@.len(),
                        forall|i: int| 0 <= i < args@.len() ==> #[trigger] ev[i] == args@[i]@,
                        call_type_s(fs, ev, g, j as int) == expr_type_s(e@, g),
                        expr_type_s(e@, g) is Some,
                        e@.kind == (ExprKindV::Call { name: name@, generics: types_v(generics@), args: ev }),
                        forall|m: int| 0 <= m < args@.len() ==> decreases_to!(*e => #[trigger] args@[m]),
                    decreases n - j,
                {
                    let f = &self.functions[k].1[j];
                    assert(fs[j as int] == func_data_v(*f));
                    let ghost ps = decls_v(f.args@);
                    if f.args.len() == args.len() {
                        let mut i: usize = 0;
                        let mut fits = true;
                        while i < args.len() && fits
                            invariant
                                i <= args@.len(),
                                ps == decls_v(f.args@),
                                ps.len() == args@.len(),
                                g == tables_of(*self),
                                ev == exprs_v(args@),
                                ev.len() == args@.len(),
                                forall|m: int| 0 <= m < args@.len() ==> #[trigger] ev[m] == args@[m]@,
                                fits ==> args_fit_s(ev, ps, g, i as int) == args_fit_s(ev, ps, g, 0),
                                !fits ==> args_fit_s(ev, ps, g, 0) == Some(false),
                                args_fit_s(ev, ps, g, 0) is Some,
                                e@.kind == (ExprKindV::Call { name: name@, generics: types_v(generics@), args: ev }),
                                forall|m: int| 0 <= m < args@.len() ==> decreases_to!(*e => #[trigger] args@[m]),
                            decreases args@.len() - i,
                        {
                            assert(expr_type_s(ev[i as int], g) is Some);
                            let t = self.expr_type(&args[i]);
                            let pt = &f.args[i].ty;
                            assert(ps[i as int].ty == pt@);
                            let rt = self.resolve_generic_inst(&t);
                            let rp = self.resolve_generic_inst(pt);
                            if !check_types(&rt, &rp) {
                                fits = false;
                            }
                            i = i + 1;
                        }
                        if fits {
                            return f.return_type.duplicate();
                        }
                    }
                    j = j + 1;
                }
                Type::Unknown
            },
            ExprType::Index { base, index } => {
                let bt = self.expr_type(base);
                let it = self.expr_type(index);
                if !is_numeric(&it) {
                    return Type::Unknown;
                }
                match bt {
                    Type::Array(el, _) => *el,
                    Type::Pointer(el) => *el,
                    other => other,
                }
            },
            _ => Type::Unknown,
        }
    }

    /// Evaluates an expression into `rax` where a value of `expected_type`
    /// is wanted; returns the register that holds the result (see `eval_s`).
    #[verifier::rlimit(80)]
    #[verifier::spinoff_prover]
    pub fn eval_expr(&mut self, expr: &Expr, expected_type: &Type) -> (r: String)
        requires
            eval_defined(expr@, expected_type@, tables_of(*old(self))),
        ensures
            ({
                let (reg, o, f, id, d) = eval_s(expr@, expected_type@, tables_of(*old(self)));
                &&& r@ == reg
                &&& final(self).out@ == old(self).out@ + o
                &&& final(self).func_data@ == old(self).func_data@ + f
                &&& final(self).id == id
                &&& strs_v(final(self).data_code@) == strs_v(old(self).data_code@) + d
            }),
            tables_of(*final(self)) == with_id(tables_of(*old(self)), final(self).id),
        decreases expr, 2nat,
    {
        match &expr.ty {
            ExprType::Number(n) => self.gen_expr_num(n, expected_type),
            ExprType::Variable(v) => self.gen_expr_var(v, expected_type),
            ExprType::Unary { .. } => self.gen_expr_unary(expr, expected_type),
            ExprType::Binary { .. } => self.gen_expr_binary(expr),
            ExprType::Deref(_) => self.gen_expr_deref(expr),
            ExprType::Cast { .. } => self.gen_cast(expr),
            ExprType::Index { .. } => self.gen_expr_index(expr),
            ExprType::StructMember { .. } => self.gen_expr_struct_member(expr),
            ExprType::ArrayInit { .. } => self.gen_array_init(expr, expected_type),
            ExprType::StructInit { .. } => self.gen_expr_struct_init(expr),
            ExprType::SizeOf { ty } => {
                let ghost g0 = *self;
                assert(mono_defined(leaf_s(ty@), g0));
                assert forall|g1: Gen| #[trigger] mono_effect(leaf_s(ty@), g0, g1)
                    implies type_size_s(with_leaf(ty@, mono_leaf_s(leaf_s(ty@), g0)), g1.layout(), g1.size_fuel()) is Some by {
                    assert(g1 == g0);
                }
                let r = self.gen_size_of(ty);
                assert(with_func_data(*self, g0.func_data) == g0);
                r
            },
            ExprType::String { str } => {
                let ghost d0 = self.data_code@;
                let r = self.gen_string(str);
                assert(strs_v(self.data_code@) =~= strs_v(d0) + seq![self.data_code@.last()@]) by {
                    assert(self.data_code@.drop_last() == d0);
                    assert forall|i: int| 0 <= i < d0.len() implies #[trigger] self.data_code@[i] == d0[i] by {
                        assert(self.data_code@.drop_last()[i] == self.data_code@[i]);
                    }
                }
                r
            },
            _ => from_lit("rax"),
        }
    }

    /// `-x` and `!x` (see `eval_s`).
    #[verifier::rlimit(100)]
    #[verifier::spinoff_prover]
    fn gen_expr_unary(&mut self, expr: &Expr, expected_type: &Type) -> (r: String)
        requires
            expr.ty is Unary,
            eval_defined(expr@, expected_type@, tables_of(*old(self))),
        ensures
            ({
                let (reg, o, f, id, d) = eval_s(expr@, expected_type@, tables_of(*old(self)));
                &&& r@ == reg
                &&& final(self).out@ == old(self).out@ + o
                &&& final(self).func_data@ == old(self).func_data@ + f
                &&& final(self).id == id
                &&& strs_v(final(self).data_code@) == strs_v(old(self).data_code@) + d
            }),
            tables_of(*final(self)) == with_id(tables_of(*old(self)), final(self).id),
        decreases expr, 1nat,
    {
        proof {
            reveal(eval_unary_s);
            reveal(unary_defined);
        }
        match &expr.ty {
            ExprType::Unary { op, expr: inner } => {
                if let UnaryOp::GetAddr = op {
                    return self.gen_expr_addres_of(inner);
                }
                self.eval_expr(inner, expected_type);
                let sized = match self.reg_for_size("rax", expected_type) {
                    Some(s) => s,
                    None => return from_lit("rax"),
                };
                let ghost before = self.func_data@;
                match op {
                    UnaryOp::Neg => {
                        self.emit_func_data(ins1_text("neg", sized.as_str()));
                    },
                    _ => {
                        self.emit_func_data(ins2_text("cmp", sized.as_str(), "0"));
                        self.emit_func_data(from_lit("    sete al"));
                        self.emit_func_data(ins2_text("movzx", sized.as_str(), "al"));
                    },
                }
                assert(self.func_data@ =~= before + unary_tail_s(*op, sized@));
                from_lit("rax")
            },
            _ => from_lit("rax"),
        }
    }

    /// The address of the variable `name` (see `var_addr_s`).
    fn addr_of_var(&mut self, name: &String)
        requires
            var_lookup_s(gen_scopes(tables_of(*old(self))), old(self).global_vars@, name@) is Some,
        ensures
            final(self).func_data@ == old(self).func_data@ + var_addr_s(name@, tables_of(*old(self))),
            final(self).out == old(self).out,
            final(self).same_tables(*old(self)),
    {
        assert(gen_scopes(tables_of(*self)) == gen_scopes(*self));
        let var = self.lookup_var(name.as_str());
        let mut m = if var.global_flag {
            let mut t = from_lit("    lea rax, [rel ");
            push_str(&mut t, name.as_str());
            t
        } else {
            let mut t = from_lit("    lea rax, [rbp - ");
            push_decimal(&mut t, var.stack_pos as u64);
            t
        };
        push_str(&mut m, "]");
        let ghost f0 = self.func_data@;
        self.emit_func_data(m);
        assert(self.func_data@ =~= f0 + var_addr_s(name@, tables_of(*old(self))));
    }

    /// The address of an element (see `addr_s`).
    #[verifier::rlimit(100)]
    #[verifier::spinoff_prover]
    fn addr_of_index(&mut self, target: &Expr) -> (r: String)
        requires
            target.ty is Index,
            addr_defined(target@, tables_of(*old(self))),
        ensures
            ({
                let (reg, o, f, id, d) = addr_s(target@, tables_of(*old(self)));
                &&& r@ == reg
                &&& final(self).out@ == old(self).out@ + o
                &&& final(self).func_data@ == old(self).func_data@ + f
                &&& final(self).id == id
                &&& strs_v(final(self).data_code@) == strs_v(old(self).data_code@) + d
            }),
            tables_of(*final(self)) == with_id(tables_of(*old(self)), final(self).id),
        decreases target, 3nat,
    {
        let ghost t0 = tables_of(*self);
        let ghost f0 = self.func_data@;
        let ghost o0 = self.out@;
        match &target.ty {
            ExprType::Index { base, index } => {
                let elem_type = self.expr_type(target);
                let elem_size = self.type_size(&elem_type);
                let base_type = self.expr_type(base);
                self.eval_expr(base, &base_type);
                let ghost e1 = eval_s(base@, base_type@, t0);
                self.push_result();
                assert(tables_of(*self) == with_id(t0, self.id));
                let index_ty = Type::Primitive(TokenType::I32);
                self.eval_expr(index, &index_ty);
                let ghost e2 = eval_s(index@, index_ty@, with_id(t0, e1.3 as usize));
                let mut m = from_lit("    imul rax, rax, ");
                push_decimal(&mut m, elem_size as u64);
                self.emit_func_data(m);
                self.pop_into("rbx");
                self.emit_func_data(from_lit("    add rax, rbx"));
                assert(self.out@ =~= o0 + (e1.1 + e2.1));
                assert(self.func_data@ =~= f0 + (e1.2 + line("    push rax"@) + e2.2
                    + line("    imul rax, rax, "@ + decimal(elem_size as nat)) + ins1("pop"@, "rbx"@)
                    + line("    add rax, rbx"@)));
                from_lit("rax")
            },
            _ => from_lit("rax"),
        }
    }

    /// `&x`: the address of a variable, of an element, or of `*p` (see
    /// `addr_s`).
    #[verifier::rlimit(100)]
    #[verifier::spinoff_prover]
    fn gen_expr_addres_of(&mut self, target: &Expr) -> (r: String)
        requires
            addr_defined(target@, tables_of(*old(self))),
        ensures
            ({
                let (reg, o, f, id, d) = addr_s(target@, tables_of(*old(self)));
                &&& r@ == reg
                &&& final(self).out@ == old(self).out@ + o
                &&& final(self).func_data@ == old(self).func_data@ + f
                &&& final(self).id == id
                &&& strs_v(final(self).data_code@) == strs_v(old(self).data_code@) + d
            }),
            tables_of(*final(self)) == with_id(tables_of(*old(self)), final(self).id),
        decreases target, 4nat,
    {
        match &target.ty {
            ExprType::Variable(name) => {
                self.addr_of_var(name);
                from_lit("rax")
            },
            ExprType::Index { .. } => self.addr_of_index(target),
            ExprType::Deref(inner) => {
                let ptr_type = Type::Pointer(Box::new(self.expr_type(target)));
                self.eval_expr(inner, &ptr_type);
                from_lit("rax")
            },
            _ => from_lit("rax"),
        }
    }

    /// The range check of an index held in `index_reg` into a base of type
    /// `base_ty` (see `bounds_s`).
    pub(crate) fn emit_bounds_check(&mut self, base_ty: &Type, index_reg: &str)
        requires
            bounds_defined(base_ty@, old(self).id as int),
        ensures
            ({
                let (chk, id) = bounds_s(base_ty@, index_reg@, old(self).id as int);
                &&& final(self).func_data@ == old(self).func_data@ + chk
                &&& final(self).id == id
            }),
            final(self).out == old(self).out,
            final(self).same_tables(with_id(*old(self), final(self).id)),
    {
        match base_ty {
            Type::Array(_, n) => {
                let ghost f0 = self.func_data@;
                let k = self.get_id();
                let mut lbl = from_lit("bounds_ok_");
                push_decimal(&mut lbl, k as u64);
                let mut num = String::new();
                push_decimal(&mut num, *n as u64);
                self.emit_func_data(ins2_text("cmp", index_reg, num.as_str()));
                self.emit_func_data(ins1_text("jb", lbl.as_str()));
                self.emit_func_data(from_lit("    mov rdi, 1"));
                self.emit_func_data(from_lit("    mov rax, 60"));
                self.emit_func_data(from_lit("    syscall"));
                push_str(&mut lbl, ":");
                self.emit_func_data(lbl);
                assert(self.func_data@ =~= f0 + bounds_s(base_ty@, index_reg@, old(self).id as int).0);
            },
            _ => {
                assert(self.func_data@ =~= self.func_data@ + Seq::<char>::empty());
            },
        }
    }

    /// The struct that the base of a member read is (see `member_struct_s`).
    fn member_struct(&self, base: &Expr) -> (r: String)
        requires
            member_struct_s(base@, tables_of(*self)) is Some,
        ensures
            r@ == member_struct_s(base@, tables_of(*self)).unwrap(),
    {
        let t0 = self.expr_type(base);
        let bt = self.resolve_generic_inst(&t0);
        match bt {
            Type::Struct(n) => n,
            _ => from_lit(""),
        }
    }

    /// Finds the base `x` of a member read `off` bytes into it (see
    /// `move_s`).
    fn handle_struct_move(&mut self, x: &Expr, ty: &Type, off: usize) -> (r: Option<usize>)
        requires
            move_defined(x@, ty@, off as int, tables_of(*old(self))),
        ensures
            ({
                let (p, o, f, id, d) = move_s(x@, ty@, off as int, tables_of(*old(self)));
                &&& match p {
                    Some(q) => r == Some(q as usize) && 0 <= q <= usize::MAX,
                    None => r is None,
                }
                &&& final(self).out@ == old(self).out@ + o
                &&& final(self).func_data@ == old(self).func_data@ + f
                &&& final(self).id == id
                &&& strs_v(final(self).data_code@) == strs_v(old(self).data_code@) + d
            }),
            tables_of(*final(self)) == with_id(tables_of(*old(self)), final(self).id),
        decreases x, 3nat,
    {
        let ghost t0 = tables_of(*self);
        match &x.ty {
            ExprType::Variable(name) => {
                assert(gen_scopes(tables_of(*self)) == gen_scopes(*self));
                let var = self.lookup_var(name.as_str());
                Some(var.stack_pos - off)
            },
            ExprType::Deref(inner) => {
                let ghost f0 = self.func_data@;
                let pty = Type::Pointer(Box::new(ty.duplicate()));
                self.eval_expr(inner, &pty);
                let ghost f1 = self.func_data@;
                if off != 0 {
                    let mut m = String::new();
                    push_decimal(&mut m, off as u64);
                    self.emit_func_data(ins2_text("add", "rax", m.as_str()));
                } else {
                    assert(self.func_data@ =~= f1 + Seq::<char>::empty());
                }
                None
            },
            ExprType::StructMember { base, name } => {
                let sn = self.member_struct(base);
                let fld = match self.struct_field(&sn, name) {
                    Some(f) => f,
                    None => return None,
                };
                let st = Type::Struct(sn);
                self.handle_struct_move(base, &st, fld.offset + off)
            },
            _ => None,
        }
    }

    /// `x.f` of a struct (see `eval_member_s`).
    #[verifier::rlimit(40)]
    fn gen_expr_struct_member(&mut self, expr: &Expr) -> (r: String)
        requires
            expr.ty is StructMember,
            eval_defined(expr@, TypeV::Unknown, tables_of(*old(self))),
        ensures
            ({
                let (reg, o, f, id, d) = eval_s(expr@, TypeV::Unknown, tables_of(*old(self)));
                &&& r@ == reg
                &&& final(self).out@ == old(self).out@ + o
                &&& final(self).func_data@ == old(self).func_data@ + f
                &&& final(self).id == id
                &&& strs_v(final(self).data_code@) == strs_v(old(self).data_code@) + d
            }),
            tables_of(*final(self)) == with_id(tables_of(*old(self)), final(self).id),
        decreases expr, 1nat,
    {
        proof {
            reveal(eval_member_s);
            reveal(member_defined);
        }
        let ghost t0 = tables_of(*self);
        match &expr.ty {
            ExprType::StructMember { base, name } => {
                let sn = self.member_struct(base);
                let fld = match self.struct_field(&sn, name) {
                    Some(f) => f,
                    None => return from_lit("rax"),
                };
                let st = Type::Struct(sn);
                let ghost f0 = self.func_data@;
                let moved = self.handle_struct_move(base, &st, fld.offset);
                let ghost mv = move_s(base@, st@, fld.offset as int, t0);
                let ghost f1 = self.func_data@;
                assert(tables_of(*self) == with_id(t0, self.id));
                let aggregate = match &fld.ty {
                    Type::Struct(_) | Type::Enum(..) => true,
                    _ => false,
                };
                match moved {
                    Some(q) => {
                        let mut mem = from_lit("[rbp - ");
                        push_decimal(&mut mem, q as u64);
                        push_str(&mut mem, "]");
                        if aggregate {
                            let mut t = from_lit("    lea rax, ");
                            push_str(&mut t, mem.as_str());
                            self.emit_func_data(t);
                        } else {
                            self.emit_typed_load(mem.as_str(), &fld.ty);
                        }
                        assert(self.func_data@ =~= f0 + (mv.2 + (if is_aggregate(fld.ty@) { line("    lea rax, "@ + mem@) }
                            else { load_at_s(mem@, fld.ty@, t0) })));
                    },
                    None => {
                        if !aggregate {
                            self.emit_typed_load("[rax]", &fld.ty);
                        } else {
                            assert(self.func_data@ =~= f1 + Seq::<char>::empty());
                        }
                        assert(self.func_data@ =~= f0 + (mv.2 + (if is_aggregate(fld.ty@) { Seq::<char>::empty() }
                            else { load_at_s("[rax]"@, fld.ty@, t0) })));
                    },
                }
                from_lit("rax")
            },
            _ => from_lit("rax"),
        }
    }

    /// An array literal where `expected_type` is wanted (see `eval_array_s`).
    #[verifier::loop_isolation(false)]
    fn gen_array_init(&mut self, expr: &Expr, expected_type: &Type) -> (r: String)
        requires
            expr.ty is ArrayInit,
            eval_defined(expr@, expected_type@, tables_of(*old(self))),
        ensures
            ({
                let (reg, o, f, id, d) = eval_s(expr@, expected_type@, tables_of(*old(self)));
                &&& r@ == reg
                &&& final(self).out@ == old(self).out@ + o
                &&& final(self).func_data@ == old(self).func_data@ + f
                &&& final(self).id == id
                &&& strs_v(final(self).data_code@) == strs_v(old(self).data_code@) + d
            }),
            tables_of(*final(self)) == with_id(tables_of(*old(self)), final(self).id),
        decreases expr, 1nat,
    {
        let elements = match &expr.ty {
            ExprType::ArrayInit { elements } => elements,
            _ => return from_lit("rax"),
        };
        proof {
            reveal(eval_array_s);
            reveal(array_defined);
            lemma_exprs_v(elements@);
        }
        let ghost t0 = tables_of(*self);
        let ghost es = exprs_v(elements@);
        let ghost d0 = self.data_code@;
        assert(expr@.kind == ExprKindV::ArrayInit { elements: es });
        let ghost o0 = self.out@;
        let ghost f0 = self.func_data@;
        let elem_type = match expected_type {
            Type::Array(el, _) => el.duplicate(),
            _ => return from_lit("rax"),
        };
        let elem_size = self.type_size(&elem_type);
        let base_pos = self.stack_pos;
        let mut i: usize = 0;
        while i < elements.len()
            invariant
                i <= elements@.len(),
                es == exprs_v(elements@),
                es.len() == elements@.len(),
                forall|j: int| 0 <= j < es.len() ==> #[trigger] es[j] == elements@[j]@,
                t0 == tables_of(*old(self)),
                base_pos == t0.stack_pos,
                elem_type@ == (match expected_type@ { TypeV::Array(el, _) => *el, _ => TypeV::Unknown }),
                type_size_s(elem_type@, t0.layout(), t0.size_fuel()) == Some(elem_size as int),
                store_defined(elem_type@, t0),
                elems_defined(es, elem_type@, elem_size as int, base_pos as int, t0),
                ({
                    let (o, f, id, d) = elems_s(es.take(i as int), elem_type@, elem_size as int, base_pos as int, t0);
                    &&& self.out@ == o0 + o
                    &&& strs_v(self.data_code@) == strs_v(d0) + d
                    &&& self.func_data@ == f0 + f
                    &&& tables_of(*self) == with_id(t0, id as usize)
                    &&& 0 <= id <= usize::MAX
                }),
            decreases elements.len() - i,
        {
            proof { lemma_elems_prefix(es, elem_type@, elem_size as int, base_pos as int, t0, i as int + 1); }
            let ghost pre = elems_s(es.take(i as int), elem_type@, elem_size as int, base_pos as int, t0);
            assert(es.take(i + 1).drop_last() =~= es.take(i as int));
            assert(es.take(i + 1).last() == es[i as int]);
            proof {
                assert(decreases_to!(*expr => expr.ty));
                assert(decreases_to!(expr.ty => *elements));
                assert(decreases_to!(*elements => elements[i as int]));
            }
            self.eval_expr(&elements[i], &elem_type);
            let ghost ev = eval_s(es[i as int], elem_type@, with_id(t0, pre.2 as usize));
            assert(tables_of(*self) == with_id(t0, self.id));
            let sized_reg = match self.reg_for_size("rax", &elem_type) { Some(r) => r, None => return from_lit("rax") };
            let size_word = self.get_word(&elem_type);
            let offset = base_pos - i * elem_size;
            let mut m = from_lit("    mov ");
            push_str(&mut m, size_word.as_str());
            push_str(&mut m, " [rbp - ");
            push_decimal(&mut m, offset as u64);
            push_str(&mut m, "], ");
            push_str(&mut m, sized_reg.as_str());
            self.emit_func_data(m);
            assert(self.out@ =~= o0 + (pre.0 + ev.1));
            assert(self.func_data@ =~= f0 + (pre.1 + ev.2 + store_s(elem_type@, base_pos - i * elem_size, t0)));
            assert(strs_v(self.data_code@) =~= strs_v(d0) + (pre.3 + ev.4));
            i = i + 1;
        }
        assert(es.take(es.len() as int) =~= es);
        let mut l = from_lit("    lea rax, [rbp - ");
        push_decimal(&mut l, base_pos as u64);
        push_str(&mut l, "]");
        let ghost fl = self.func_data@;
        self.emit_func_data(l);
        assert(self.func_data@ =~= f0 + (elems_s(es, elem_type@, elem_size as int, base_pos as int, t0).1
            + line("    lea rax, [rbp - "@ + decimal(base_pos as nat) + "]"@)));
        from_lit("rax")
    }

    /// A struct literal (see `eval_struct_init_s`).
    #[verifier::loop_isolation(false)]
    #[verifier::rlimit(60)]
    fn gen_expr_struct_init(&mut self, expr: &Expr) -> (r: String)
        requires
            expr.ty is StructInit,
            eval_defined(expr@, TypeV::Unknown, tables_of(*old(self))),
        ensures
            ({
                let (reg, o, f, id, d) = eval_s(expr@, TypeV::Unknown, tables_of(*old(self)));
                &&& r@ == reg
                &&& final(self).out@ == old(self).out@ + o
                &&& final(self).func_data@ == old(self).func_data@ + f
                &&& final(self).id == id
                &&& strs_v(final(self).data_code@) == strs_v(old(self).data_code@) + d
            }),
            tables_of(*final(self)) == with_id(tables_of(*old(self)), final(self).id),
        decreases expr, 1nat,
    {
        proof {
            reveal(eval_struct_init_s);
            reveal(struct_init_defined);
        }
        let (struct_name, fields) = match &expr.ty {
            ExprType::StructInit { struct_name_ty, fields } => (struct_name_ty, fields),
            _ => return from_lit("rax"),
        };
        let ghost t0 = tables_of(*self);
        let ghost fs = named_exprs_v(fields@);
        let ghost d0 = self.data_code@;
        let ghost o0 = self.out@;
        let ghost f0 = self.func_data@;
        assert(expr@.kind == ExprKindV::StructInit { struct_name_ty: struct_name@, fields: fs });
        let k = match self.find_struct_data(struct_name) {
            Some(k) => k,
            None => return from_lit("rax"),
        };
        let ghost sd = self.structs@[k as int];
        if self.structs[k].generic_type.len() > 0 {
            return from_lit("rax");
        }
        proof { lemma_named_exprs_v(fields@); }
        let base_pos = self.stack_pos;
        let mut offset: usize = 0;
        let mut stack_offset: usize = 0;
        let mut i: usize = 0;
        while i < fields.len()
            invariant
                i <= fields@.len(),
                fs == named_exprs_v(fields@),
                fs.len() == fields@.len(),
                forall|j: int| 0 <= j < fs.len() ==> #[trigger] fs[j] == (fields@[j].0@, fields@[j].1@),
                t0 == tables_of(*old(self)),
                base_pos == t0.stack_pos,
                k < self.structs@.len(),
                sd == self.structs@[k as int],
                fields_defined(fs, sd, base_pos as int, t0),
                ({
                    let (o, f, off, sp, id, d) = fields_s(fs.take(i as int), sd, base_pos as int, t0);
                    &&& self.out@ == o0 + o
                    &&& self.func_data@ == f0 + f
                    &&& strs_v(self.data_code@) == strs_v(d0) + d
                    &&& off == offset as int
                    &&& sp == self.stack_pos as int
                    &&& stack_offset + sp == base_pos
                    &&& tables_of(*self) == Gen { stack_pos: sp as usize, id: id as usize, ..t0 }
                    &&& 0 <= id <= usize::MAX
                }),
            decreases fields.len() - i,
        {
            proof {
                lemma_fields_prefix(fs, sd, base_pos as int, t0, i as int + 1);
                assert(fs.take(i + 1).drop_last() =~= fs.take(i as int));
                assert(fs.take(i + 1).last() == fs[i as int]);
                assert(decreases_to!(*expr => expr.ty));
                assert(decreases_to!(expr.ty => *fields));
                assert(decreases_to!(*fields => fields[i as int]));
                assert(decreases_to!(fields[i as int] => fields[i as int].1));
            }
            let ghost pre = fields_s(fs.take(i as int), sd, base_pos as int, t0);
            let field = match self.structs[k].field(&fields[i].0) {
                Some(f) => f,
                None => return from_lit("rax"),
            };
            let is_struct = match &field.ty {
                Type::Struct(_) => true,
                _ => false,
            };
            if is_struct {
                self.stack_pos = self.stack_pos - offset;
                stack_offset = stack_offset + offset;
            }
            let ghost sp2 = self.stack_pos;
            assert(tables_of(*self) == Gen { stack_pos: sp2, id: pre.4 as usize, ..t0 });
            self.eval_expr(&fields[i].1, &field.ty);
            let ghost ev = eval_s(fs[i as int].1, field.ty@, Gen { stack_pos: sp2, id: pre.4 as usize, ..t0 });
            let sized_reg = match self.reg_for_size("rax", &field.ty) { Some(r) => r, None => return from_lit("rax") };
            let size_word = self.get_word(&field.ty);
            let field_pos = base_pos - offset;
            let size = self.type_size(&field.ty);
            let ghost f1 = self.func_data@;
            let stored = match &field.ty {
                Type::Array(..) | Type::Struct(..) => false,
                _ => true,
            };
            if stored {
                let mut m = from_lit("    mov ");
                push_str(&mut m, size_word.as_str());
                push_str(&mut m, " [rbp - ");
                push_decimal(&mut m, field_pos as u64);
                push_str(&mut m, "], ");
                push_str(&mut m, sized_reg.as_str());
                self.emit_func_data(m);
            } else {
                assert(self.func_data@ =~= f1 + Seq::<char>::empty());
            }
            offset = offset + size;
            assert(self.out@ =~= o0 + (pre.0 + ev.1));
            assert(strs_v(self.data_code@) =~= strs_v(d0) + (pre.5 + ev.4));
            assert(self.func_data@ =~= f0 + (pre.1 + ev.2
                + (if field.ty@ is Array || field.ty@ is Struct { Seq::<char>::empty() } else { store_s(field.ty@, base_pos - pre.2, t0) })));
            i = i + 1;
        }
        assert(fs.take(fs.len() as int) =~= fs);
        self.stack_pos = self.stack_pos + stack_offset;
        from_lit("rax")
    }

    /// `*p`: the pointer evaluated and the value loaded from it.
    #[verifier::rlimit(100)]
    #[verifier::spinoff_prover]
    fn gen_expr_deref(&mut self, expr: &Expr) -> (r: String)
        requires
            expr.ty is Deref,
            eval_defined(expr@, TypeV::Unknown, tables_of(*old(self))),
        ensures
            ({
                let (reg, o, f, id, d) = eval_s(expr@, TypeV::Unknown, tables_of(*old(self)));
                &&& r@ == reg
                &&& final(self).out@ == old(self).out@ + o
                &&& final(self).func_data@ == old(self).func_data@ + f
                &&& final(self).id == id
                &&& strs_v(final(self).data_code@) == strs_v(old(self).data_code@) + d
            }),
            tables_of(*final(self)) == with_id(tables_of(*old(self)), final(self).id),
        decreases expr, 1nat,
    {
        proof {
            reveal(eval_deref_s);
            reveal(deref_defined);
        }
        let ghost t0 = tables_of(*self);
        let ghost f0 = self.func_data@;
        match &expr.ty {
            ExprType::Deref(inner) => {
                let ty = self.expr_type(expr);
                self.eval_expr(inner, &ty);
                let ghost e = eval_s(inner@, ty@, t0);
                self.emit_typed_load("[rax]", &ty);
                assert(self.func_data@ =~= f0 + (e.2 + load_rax_s(ty@, t0)));
                from_lit("rax")
            },
            _ => from_lit("rax"),
        }
    }

    /// `a[i]`: the address of the element computed from `a` and the scaled
    /// index, and the value loaded from it.
    #[verifier::rlimit(100)]
    #[verifier::spinoff_prover]
    fn gen_expr_index(&mut self, expr: &Expr) -> (r: String)
        requires
            expr.ty is Index,
            eval_defined(expr@, TypeV::Unknown, tables_of(*old(self))),
        ensures
            ({
                let (reg, o, f, id, d) = eval_s(expr@, TypeV::Unknown, tables_of(*old(self)));
                &&& r@ == reg
                &&& final(self).out@ == old(self).out@ + o
                &&& final(self).func_data@ == old(self).func_data@ + f
                &&& final(self).id == id
                &&& strs_v(final(self).data_code@) == strs_v(old(self).data_code@) + d
            }),
            tables_of(*final(self)) == with_id(tables_of(*old(self)), final(self).id),
        decreases expr, 1nat,
    {
        proof {
            reveal(eval_index_s);
            reveal(index_defined);
        }
        let ghost t0 = tables_of(*self);
        let ghost f0 = self.func_data@;
        let ghost o0 = self.out@;
        match &expr.ty {
            ExprType::Index { base, index } => {
                let ty = self.expr_type(expr);
                let base_ty = self.expr_type(base);
                self.eval_expr(base, &base_ty);
                let ghost e1 = eval_s(base@, base_ty@, t0);
                self.push_result();
                assert(tables_of(*self) == with_id(t0, self.id));
                let index_ty = Type::Primitive(TokenType::I64);
                let index_reg = self.eval_expr(index, &index_ty);
                let ghost e2 = eval_s(index@, index_ty@, with_id(t0, e1.3 as usize));
                self.emit_bounds_check(&base_ty, index_reg.as_str());
                let ghost chk = bounds_s(base_ty@, e2.0, e2.3);
                let size = self.type_size(&ty);
                let mut m = from_lit("    imul rax, rax, ");
                push_decimal(&mut m, size as u64);
                self.emit_func_data(m);
                self.pop_into("rbx");
                self.emit_func_data(from_lit("    add rax, rbx"));
                self.emit_typed_load("[rax]", &ty);
                assert(self.out@ =~= o0 + (e1.1 + e2.1));
                assert(self.func_data@ =~= f0 + (e1.2 + line("    push rax"@) + e2.2 + chk.0
                    + line("    imul rax, rax, "@ + decimal(size as nat)) + ins1("pop"@, "rbx"@)
                    + line("    add rax, rbx"@) + load_rax_s(ty@, t0)));
                from_lit("rax")
            },
            _ => from_lit("rax"),
        }
    }

    /// A cast: the operand at its own type, widened to the target's size
    /// (see `cast_ext_s`); returns the part of `rax` of the target's size.
    #[verifier::rlimit(100)]
    #[verifier::spinoff_prover]
    fn gen_cast(&mut self, expr: &Expr) -> (r: String)
        requires
            expr.ty is Cast,
            eval_defined(expr@, TypeV::Unknown, tables_of(*old(self))),
        ensures
            ({
                let (reg, o, f, id, d) = eval_s(expr@, TypeV::Unknown, tables_of(*old(self)));
                &&& r@ == reg
                &&& final(self).out@ == old(self).out@ + o
                &&& final(self).func_data@ == old(self).func_data@ + f
                &&& final(self).id == id
                &&& strs_v(final(self).data_code@) == strs_v(old(self).data_code@) + d
            }),
            tables_of(*final(self)) == with_id(tables_of(*old(self)), final(self).id),
        decreases expr, 1nat,
    {
        proof {
            reveal(eval_cast_s);
            reveal(cast_defined);
        }
        let ghost t0 = tables_of(*self);
        let ghost f0 = self.func_data@;
        match &expr.ty {
            ExprType::Cast { expr: inner, ty: target_ty } => {
                let src_ty = self.expr_type(inner);
                self.eval_expr(inner, &src_ty);
                let ghost e = eval_s(inner@, src_ty@, t0);
                let src_size = self.type_size(&src_ty);
                let target_size = self.type_size(target_ty);
                let ghost f1 = self.func_data@;
                if src_size < target_size {
                    let src_reg = match self.reg_for_size("rax", &src_ty) { Some(r) => r, None => return from_lit("rax") };
                    let target_reg = match self.reg_for_size("rax", target_ty) { Some(r) => r, None => return from_lit("rax") };
                    if is_unsigned(&src_ty) {
                        if src_size == 4 && target_size == 8 {
                            self.emit_func_data(from_lit("    mov eax, eax"));
                        } else {
                            self.emit_func_data(ins2_text("movzx", target_reg.as_str(), src_reg.as_str()));
                        }
                    } else if src_size == 4 && target_size == 8 {
                        self.emit_func_data(from_lit("    movsxd rax, eax"));
                    } else {
                        let aggregate = match &src_ty {
                            Type::Array(..) | Type::Pointer(_) => true,
                            _ => false,
                        };
                        if !aggregate {
                            self.emit_func_data(ins2_text("movsx", target_reg.as_str(), src_reg.as_str()));
                        }
                    }
                    assert(self.func_data@ =~= f1 + cast_ext_s(src_ty@, src_size as int, target_size as int, src_reg@, target_reg@));
                } else {
                    assert(self.func_data@ =~= f1 + Seq::<char>::empty());
                }
                match self.reg_for_size("rax", target_ty) {
                    Some(r) => r,
                    None => from_lit("rax"),
                }
            },
            _ => from_lit("rax"),
        }
    }

    /// A binary expression, evaluated at its own type (see `eval_s`).
    fn gen_expr_binary(&mut self, expr: &Expr) -> (r: String)
        requires
            expr.ty is Binary,
            eval_defined(expr@, TypeV::Unknown, tables_of(*old(self))),
        ensures
            ({
                let (reg, o, f, id, d) = eval_s(expr@, TypeV::Unknown, tables_of(*old(self)));
                &&& r@ == reg
                &&& final(self).out@ == old(self).out@ + o
                &&& final(self).func_data@ == old(self).func_data@ + f
                &&& final(self).id == id
                &&& strs_v(final(self).data_code@) == strs_v(old(self).data_code@) + d
            }),
            tables_of(*final(self)) == with_id(tables_of(*old(self)), final(self).id),
        decreases expr, 1nat,
    {
        proof {
            reveal(eval_binary_s);
            reveal(binary_defined);
        }
        let ty = self.expr_type(expr);
        let left_reg = match self.reg_for_size("rax", &ty) {
            Some(s) => s,
            None => return from_lit("rax"),
        };
        let right_reg = match self.reg_for_size("rbx", &ty) {
            Some(s) => s,
            None => return from_lit("rax"),
        };
        if let ExprType::Binary { op: BinOp::And, .. } = &expr.ty {
            self.gen_expr_and(expr, &ty, &left_reg, &right_reg)
        } else {
            self.gen_expr_arith(expr, &ty, &left_reg, &right_reg)
        }
    }

    /// `a && b`: `b` is evaluated only when `a` is not zero.
    #[verifier::rlimit(100)]
    #[verifier::spinoff_prover]
    fn gen_expr_and(&mut self, expr: &Expr, ty: &Type, left_reg: &String, right_reg: &String) -> (r: String)
        requires
            expr.ty matches ExprType::Binary { op: BinOp::And, .. },
            eval_defined(expr@, TypeV::Unknown, tables_of(*old(self))),
            ty@ == expr_type_s(expr@, tables_of(*old(self))).unwrap(),
            left_reg@ == reg_for_size_s("rax"@, ty@, entries_v(old(self).generics@)).unwrap(),
            right_reg@ == reg_for_size_s("rbx"@, ty@, entries_v(old(self).generics@)).unwrap(),
        ensures
            ({
                let (reg, o, f, id, d) = eval_s(expr@, TypeV::Unknown, tables_of(*old(self)));
                &&& r@ == reg
                &&& final(self).out@ == old(self).out@ + o
                &&& final(self).func_data@ == old(self).func_data@ + f
                &&& final(self).id == id
                &&& strs_v(final(self).data_code@) == strs_v(old(self).data_code@) + d
            }),
            tables_of(*final(self)) == with_id(tables_of(*old(self)), final(self).id),
        decreases expr, 0nat,
    {
        proof {
            reveal(eval_binary_s);
            reveal(binary_defined);
        }
        let ghost g0 = *self;
        match &expr.ty {
            ExprType::Binary { op, left, right } => {
                let id = self.get_id();
                let mut l1 = from_lit("and_");
                push_decimal(&mut l1, id as u64);
                push_str(&mut l1, ":");
                self.emit_func_data(l1);
                let ghost t0 = tables_of(g0);
                assert(tables_of(*self) == with_id(t0, id));
                self.eval_expr(left, ty);
                let ghost e1 = eval_s(left@, ty@, with_id(t0, id));
                self.emit_func_data(ins2_text("cmp", left_reg.as_str(), "0"));
                let mut end = from_lit("and_end_");
                push_decimal(&mut end, id as u64);
                self.emit_func_data(ins1_text("je", end.as_str()));
                assert(tables_of(*self) == with_id(t0, self.id));
                self.eval_expr(right, ty);
                let ghost e2 = eval_s(right@, ty@, with_id(t0, e1.3 as usize));
                self.emit_func_data(ins2_text("cmp", right_reg.as_str(), "0"));
                push_str(&mut end, ":");
                self.emit_func_data(end);
                assert(self.out@ =~= g0.out@ + (e1.1 + e2.1));
                assert(self.func_data@ =~= g0.func_data@ + (line("and_"@ + decimal(id as nat) + ":"@) + e1.2
                    + ins2("cmp"@, left_reg@, "0"@) + ins1("je"@, "and_end_"@ + decimal(id as nat)) + e2.2
                    + ins2("cmp"@, right_reg@, "0"@) + line("and_end_"@ + decimal(id as nat) + ":"@)));
                left_reg.clone()
            },
            _ => from_lit("rax"),
        }
    }

    /// The other binary operators: the right operand is evaluated and
    /// pushed, the left one evaluated, the right one popped into `rbx`, and
    /// the operator applied (see `binop_text_s`).
    #[verifier::rlimit(100)]
    #[verifier::spinoff_prover]
    fn gen_expr_arith(&mut self, expr: &Expr, ty: &Type, left_reg: &String, right_reg: &String) -> (r: String)
        requires
            expr.ty matches ExprType::Binary { op, .. } && !(op is And),
            eval_defined(expr@, TypeV::Unknown, tables_of(*old(self))),
            ty@ == expr_type_s(expr@, tables_of(*old(self))).unwrap(),
            left_reg@ == reg_for_size_s("rax"@, ty@, entries_v(old(self).generics@)).unwrap(),
            right_reg@ == reg_for_size_s("rbx"@, ty@, entries_v(old(self).generics@)).unwrap(),
        ensures
            ({
                let (reg, o, f, id, d) = eval_s(expr@, TypeV::Unknown, tables_of(*old(self)));
                &&& r@ == reg
                &&& final(self).out@ == old(self).out@ + o
                &&& final(self).func_data@ == old(self).func_data@ + f
                &&& final(self).id == id
                &&& strs_v(final(self).data_code@) == strs_v(old(self).data_code@) + d
            }),
            tables_of(*final(self)) == with_id(tables_of(*old(self)), final(self).id),
        decreases expr, 0nat,
    {
        proof {
            reveal(eval_binary_s);
            reveal(binary_defined);
        }
        let ghost g0 = *self;
        match &expr.ty {
            ExprType::Binary { op, left, right } => {
                let ghost t0 = tables_of(g0);
                self.eval_expr(right, ty);
                let ghost e1 = eval_s(right@, ty@, t0);
                self.push_result();
                assert(tables_of(*self) == with_id(t0, self.id));
                self.eval_expr(left, ty);
                let ghost e2 = eval_s(left@, ty@, with_id(t0, e1.3 as usize));
                self.pop_into("rbx");
                let ghost mid = *self;
                self.gen_expr_binop(op, left_reg.as_str(), right_reg.as_str(), ty);
                let ghost bt = binop_text_s(*op, left_reg@, right_reg@, ty@, t0.layout(), t0.size_fuel());
                assert(mid.layout() == t0.layout());
                assert(self.out@ =~= g0.out@ + (e1.1 + e2.1 + bt.0));
                assert(self.func_data@ =~= g0.func_data@ + (e1.2 + line("    push rax"@) + e2.2 + ins1("pop"@, "rbx"@) + bt.1));
                left_reg.clone()
            },
            _ => from_lit("rax"),
        }
    }
}

} // verus!
