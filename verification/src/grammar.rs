use vstd::prelude::*;
use crate::ir::{TypeV, ExprV, ExprKindV, StructDefV, EnumDataV, BinOp, UnaryOp, StmtV, StmtKindV, DeclarationV, LValueV, StructFieldV, EnumVariantV, MatchLeftValueV};
use crate::shared::{type_name_s, prim_name_s, first_index, lemma_first_index};
use crate::text::parse_int_s;
use crate::tokenizer::{TokenType, TokenV};

verus! {

// ---------------------------------------------------------------------------
// Parser context
// ---------------------------------------------------------------------------

/// What the parser knows while it reads: the names of declared types, the
/// struct and enum declarations, the generic parameters seen so far, and the
/// position recorded in new nodes.
pub struct Ctx {
    pub types: Seq<Seq<char>>,
    pub structs: Seq<StructDefV>,
    pub enums: Seq<EnumDataV>,
    pub generic: Seq<Seq<char>>,
    pub file: Seq<char>,
    pub line: usize,
    pub col: usize,
}

/// The first struct declared under `name`.
pub open spec fn struct_find(ss: Seq<StructDefV>, name: Seq<char>) -> Option<StructDefV>
    decreases ss.len(),
{
    if ss.len() == 0 {
        None
    } else if ss[0].name == name {
        Some(ss[0])
    } else {
        struct_find(ss.drop_first(), name)
    }
}

/// The first enum declared under `name`.
pub open spec fn enum_find(es: Seq<EnumDataV>, name: Seq<char>) -> Option<EnumDataV>
    decreases es.len(),
{
    if es.len() == 0 {
        None
    } else if es[0].name == name {
        Some(es[0])
    } else {
        enum_find(es.drop_first(), name)
    }
}

/// A node built at the context's position.
pub open spec fn mk(kind: ExprKindV, c: Ctx) -> ExprV {
    ExprV { kind, file: c.file, line: c.line, col: c.col }
}

// ---------------------------------------------------------------------------
// Tokens
// ---------------------------------------------------------------------------

/// `expect`: steps over a token of kind `k`, stays put on any other token,
/// and fails at the end of the input.
pub open spec fn expect_s(ts: Seq<TokenV>, p: int, k: TokenType) -> Option<int> {
    if p < 0 || p >= ts.len() {
        None
    } else if ts[p].kind == k {
        Some(p + 1)
    } else {
        Some(p)
    }
}

/// The token at `p` has kind `k`.
pub open spec fn at(ts: Seq<TokenV>, p: int, k: TokenType) -> bool {
    0 <= p < ts.len() && ts[p].kind == k
}

/// A token that starts a type: a primitive keyword or a declared type name.
pub open spec fn is_type_s(t: TokenV, c: Ctx) -> bool {
    match t.kind {
        TokenType::IntType | TokenType::CharType | TokenType::LongType | TokenType::ShortType
        | TokenType::Void => true,
        TokenType::Var => match t.text {
            Some(n) => c.types.contains(n),
            None => false,
        },
        _ => false,
    }
}

// ---------------------------------------------------------------------------
// Types
// ---------------------------------------------------------------------------

/// The number of `*` tokens at `p` and the position after them (at most
/// `u32::MAX` of them).
pub open spec fn ptr_count_s(ts: Seq<TokenV>, p: int) -> Option<(nat, int)>
    decreases ts.len() - p,
{
    if 0 <= p < ts.len() && ts[p].kind == TokenType::Mul {
        match ptr_count_s(ts, p + 1) {
            Some((n, q)) => if n + 1 > u32::MAX { None } else { Some(((n + 1) as nat, q)) },
            None => None,
        }
    } else {
        Some((0nat, p))
    }
}

pub proof fn lemma_ptr_count(ts: Seq<TokenV>, p: int)
    requires
        0 <= p <= ts.len(),
    ensures
        ptr_count_s(ts, p) matches Some((_, q)) ==> p <= q <= ts.len(),
    decreases ts.len() - p,
{
    if 0 <= p < ts.len() && ts[p].kind == TokenType::Mul {
        lemma_ptr_count(ts, p + 1);
    }
}

/// `ty` behind `n` pointers.
pub open spec fn apply_ptr_s(ty: TypeV, n: nat) -> TypeV
    decreases n,
{
    if n == 0 {
        ty
    } else {
        TypeV::Pointer(Box::new(apply_ptr_s(ty, (n - 1) as nat)))
    }
}

/// The base type named by the token at `p`: a primitive kind, or a declared
/// struct, enum or generic parameter (`Unknown` for another declared name).
pub open spec fn get_type_s(ts: Seq<TokenV>, p: int, c: Ctx) -> Option<(TypeV, int)> {
    if p < 0 || p >= ts.len() {
        None
    } else if ts[p].kind == TokenType::Var {
        match ts[p].text {
            None => None,
            Some(n) => if !c.types.contains(n) {
                None
            } else if struct_find(c.structs, n) is Some {
                Some((TypeV::Struct(n), p + 1))
            } else if enum_find(c.enums, n) is Some {
                Some((TypeV::Enum(n, None), p + 1))
            } else if c.generic.contains(n) {
                Some((TypeV::GenericType(n), p + 1))
            } else {
                Some((TypeV::Unknown, p + 1))
            },
        }
    } else {
        Some((TypeV::Primitive(ts[p].kind), p + 1))
    }
}

/// Array suffixes `[N]` or `[]` (size 0) after a type.
pub open spec fn parse_array_s(ty: TypeV, ts: Seq<TokenV>, p: int) -> Option<(TypeV, int)>
    decreases ts.len() - p,
{
    if 0 <= p < ts.len() && ts[p].kind == TokenType::OpenBracket {
        if p + 1 >= ts.len() {
            None
        } else if ts[p + 1].kind != TokenType::CloseBracket {
            match ts[p + 1].text {
                None => None,
                Some(txt) => match parse_int_s(txt, 10, 0, usize::MAX as int) {
                    None => None,
                    Some(n) => match expect_s(ts, p + 2, TokenType::CloseBracket) {
                        None => None,
                        Some(q) => parse_array_s(TypeV::Array(Box::new(ty), n as usize), ts, q),
                    },
                },
            }
        } else {
            parse_array_s(TypeV::Array(Box::new(ty), 0), ts, p + 2)
        }
    } else {
        Some((ty, p))
    }
}

pub proof fn lemma_parse_array(ty: TypeV, ts: Seq<TokenV>, p: int)
    requires
        0 <= p <= ts.len(),
    ensures
        parse_array_s(ty, ts, p) matches Some((_, q)) ==> p <= q <= ts.len(),
    decreases ts.len() - p,
{
    if 0 <= p < ts.len() && ts[p].kind == TokenType::OpenBracket && p + 1 < ts.len() {
        if ts[p + 1].kind != TokenType::CloseBracket {
            if let Some(txt) = ts[p + 1].text {
                if let Some(n) = parse_int_s(txt, 10, 0, usize::MAX as int) {
                    if let Some(q) = expect_s(ts, p + 2, TokenType::CloseBracket) {
                        lemma_parse_array(TypeV::Array(Box::new(ty), n as usize), ts, q);
                    }
                }
            }
        } else {
            lemma_parse_array(TypeV::Array(Box::new(ty), 0), ts, p + 2);
        }
    }
}

/// One type argument: `*`s, a base type, `*`s, array suffixes; the pointers
/// wrap the array.
pub open spec fn type_arg_s(ts: Seq<TokenV>, p: int, c: Ctx) -> Option<(TypeV, int)> {
    match ptr_count_s(ts, p) {
        None => None,
        Some((pre, p1)) => match get_type_s(ts, p1, c) {
            None => None,
            Some((base, p2)) => match ptr_count_s(ts, p2) {
                None => None,
                Some((post, p3)) => match parse_array_s(base, ts, p3) {
                    None => None,
                    Some((arr, p4)) => if pre + post > u32::MAX {
                        None
                    } else {
                        Some((apply_ptr_s(arr, pre + post), p4))
                    },
                },
            },
        },
    }
}

pub proof fn lemma_type_arg(ts: Seq<TokenV>, p: int, c: Ctx)
    requires
        0 <= p <= ts.len(),
    ensures
        type_arg_s(ts, p, c) matches Some((_, q)) ==> p < q <= ts.len(),
{
    lemma_ptr_count(ts, p);
    if let Some((pre, p1)) = ptr_count_s(ts, p) {
        if let Some((base, p2)) = get_type_s(ts, p1, c) {
            lemma_ptr_count(ts, p2);
            if let Some((post, p3)) = ptr_count_s(ts, p2) {
                lemma_parse_array(base, ts, p3);
            }
        }
    }
}

/// Type arguments up to (not including) the closing `>`, each optionally
/// followed by `,`.
pub open spec fn type_args_s(ts: Seq<TokenV>, p: int, c: Ctx) -> Option<(Seq<TypeV>, int)>
    decreases ts.len() - p,
{
    if p < 0 || p >= ts.len() {
        None
    } else if ts[p].kind == TokenType::More {
        Some((Seq::empty(), p))
    } else {
        proof { lemma_type_arg(ts, p, c); }
        match type_arg_s(ts, p, c) {
            None => None,
            Some((t, q)) => if q >= ts.len() {
                None
            } else {
                let q2 = if ts[q].kind == TokenType::Coma { q + 1 } else { q };
                match type_args_s(ts, q2, c) {
                    None => None,
                    Some((rest, r)) => Some((seq![t] + rest, r)),
                }
            },
        }
    }
}

pub proof fn lemma_type_args_end(ts: Seq<TokenV>, p: int, c: Ctx)
    ensures
        type_args_s(ts, p, c) matches Some((_, q)) ==> p <= q < ts.len() && ts[q].kind == TokenType::More,
    decreases ts.len() - p,
{
    if 0 <= p < ts.len() && ts[p].kind != TokenType::More {
        lemma_type_arg(ts, p, c);
        if let Some((t, q)) = type_arg_s(ts, p, c) {
            if q < ts.len() {
                let q2 = if ts[q].kind == TokenType::Coma { q + 1 } else { q };
                lemma_type_args_end(ts, q2, c);
            }
        }
    }
}

/// `<T, ...>` after a base type makes it an instance of a generic type named
/// after the base type; otherwise the base type itself.
pub open spec fn generic_types_s(ty: TypeV, ts: Seq<TokenV>, p: int, c: Ctx) -> Option<(TypeV, int)> {
    if p < 0 || p >= ts.len() {
        None
    } else if ts[p].kind == TokenType::Less {
        match type_args_s(ts, p + 1, c) {
            None => None,
            Some((args, q)) => match expect_s(ts, q, TokenType::More) {
                None => None,
                Some(q2) => Some((TypeV::GenericInst(type_name_s(ty), args), q2)),
            },
        }
    } else {
        Some((ty, p))
    }
}

// ---------------------------------------------------------------------------
// Expressions
// ---------------------------------------------------------------------------

/// The binary operator that a token kind stands for.
pub open spec fn bin_op_s(k: TokenType) -> Option<BinOp> {
    match k {
        TokenType::Add => Some(BinOp::Add),
        TokenType::Sub => Some(BinOp::Sub),
        TokenType::Mul => Some(BinOp::Mul),
        TokenType::Div => Some(BinOp::Div),
        TokenType::AsertEq => Some(BinOp::Eq),
        TokenType::NotEq => Some(BinOp::Neq),
        TokenType::LessThan => Some(BinOp::Lte),
        TokenType::Less => Some(BinOp::Lt),
        TokenType::More => Some(BinOp::Gt),
        TokenType::MoreThan => Some(BinOp::Gte),
        TokenType::And => Some(BinOp::And),
        TokenType::Or => Some(BinOp::Or),
        TokenType::Remainder => Some(BinOp::Mod),
        TokenType::Address => Some(BinOp::BitAnd),
        TokenType::BitOr => Some(BinOp::BitOr),
        TokenType::BitXor => Some(BinOp::BitXor),
        TokenType::LeftShift => Some(BinOp::ShiftLeft),
        TokenType::RightShift => Some(BinOp::ShiftRight),
        _ => None,
    }
}

/// Binding strength of binary operators (higher binds tighter).
pub open spec fn precedence_s(op: BinOp) -> u8 {
    match op {
        BinOp::Mul | BinOp::Div | BinOp::Mod => 10,
        BinOp::Add | BinOp::Sub => 8,
        BinOp::ShiftLeft | BinOp::ShiftRight => 7,
        BinOp::BitAnd => 6,
        BinOp::BitXor => 5,
        BinOp::BitOr => 4,
        BinOp::Lt | BinOp::Lte | BinOp::Gt | BinOp::Gte => 3,
        BinOp::Eq | BinOp::Neq => 3,
        BinOp::And => 2,
        BinOp::Or => 1,
    }
}

/// The binding order of the operators: `or` binds more loosely than `and`,
/// `and` more loosely than every comparison, a comparison more loosely than
/// the bitwise, shift and arithmetic operators, and `* / %` tightest; the
/// comparisons bind alike. So `x > 0 and x < 10` groups as
/// `(x > 0) and (x < 10)`.
pub proof fn lemma_precedence_order(c: BinOp, d: BinOp, a: BinOp)
    requires
        c == BinOp::Lt || c == BinOp::Lte || c == BinOp::Gt || c == BinOp::Gte || c == BinOp::Eq || c == BinOp::Neq,
        d == BinOp::Lt || d == BinOp::Lte || d == BinOp::Gt || d == BinOp::Gte || d == BinOp::Eq || d == BinOp::Neq,
        a == BinOp::Add || a == BinOp::Sub || a == BinOp::Mul || a == BinOp::Div || a == BinOp::Mod
            || a == BinOp::ShiftLeft || a == BinOp::ShiftRight || a == BinOp::BitAnd || a == BinOp::BitOr
            || a == BinOp::BitXor,
    ensures
        precedence_s(BinOp::Or) < precedence_s(BinOp::And),
        precedence_s(BinOp::And) < precedence_s(c),
        precedence_s(c) == precedence_s(d),
        precedence_s(c) < precedence_s(a),
        precedence_s(a) <= precedence_s(BinOp::Mul),
        precedence_s(BinOp::Add) < precedence_s(BinOp::Mul),
{
}

/// The type after `as`: `*`s, a base type, `*`s.
pub open spec fn cast_type_s(ts: Seq<TokenV>, p: int, c: Ctx) -> Option<(TypeV, int)> {
    match ptr_count_s(ts, p) {
        None => None,
        Some((pre, p1)) => match get_type_s(ts, p1, c) {
            None => None,
            Some((base, p2)) => match ptr_count_s(ts, p2) {
                None => None,
                Some((post, p3)) => if pre + post > u32::MAX {
                    None
                } else {
                    Some((apply_ptr_s(base, pre + post), p3))
                },
            },
        },
    }
}

/// The type inside `sizeof( ... )`: `*`s, a base type, type arguments, `*`s,
/// then array suffixes around the pointer.
pub open spec fn sizeof_type_s(ts: Seq<TokenV>, p: int, c: Ctx) -> Option<(TypeV, int)> {
    match ptr_count_s(ts, p) {
        None => None,
        Some((pre, p1)) => match get_type_s(ts, p1, c) {
            None => None,
            Some((base, p2)) => match generic_types_s(base, ts, p2, c) {
                None => None,
                Some((g, p3)) => match ptr_count_s(ts, p3) {
                    None => None,
                    Some((post, p4)) => if pre + post > u32::MAX {
                        None
                    } else {
                        parse_array_s(apply_ptr_s(g, pre + post), ts, p4)
                    },
                },
            },
        },
    }
}

/// An expression (lowest precedence).
pub open spec fn expr_s(ts: Seq<TokenV>, p: int, c: Ctx) -> Option<(ExprV, int)>
    decreases ts.len() - p, 5int,
{
    binary_s(0, ts, p, c)
}

/// A binary expression whose operators bind at least as tightly as `min`.
pub open spec fn binary_s(min: u8, ts: Seq<TokenV>, p: int, c: Ctx) -> Option<(ExprV, int)>
    decreases ts.len() - p, 4int,
{
    match unary_s(ts, p, c) {
        None => None,
        Some((left, p1)) => if p1 <= p || p1 >= ts.len() {
            None
        } else if ts[p1].kind == TokenType::Semi {
            Some((left, p1))
        } else {
            binary_loop_s(left, min, ts, p1, c)
        },
    }
}

/// Folds operators of enough precedence to the left of `left`.
pub open spec fn binary_loop_s(left: ExprV, min: u8, ts: Seq<TokenV>, p: int, c: Ctx) -> Option<(ExprV, int)>
    decreases ts.len() - p, 0int,
{
    if p < 0 || p >= ts.len() {
        None
    } else {
        match bin_op_s(ts[p].kind) {
            None => Some((left, p)),
            Some(op) => if precedence_s(op) < min {
                Some((left, p))
            } else {
                match binary_s((precedence_s(op) + 1) as u8, ts, p + 1, c) {
                    None => None,
                    Some((right, r)) => if r <= p || r > ts.len() {
                        None
                    } else {
                        binary_loop_s(
                            mk(ExprKindV::Binary { op, left: Box::new(left), right: Box::new(right) }, c),
                            min,
                            ts,
                            r,
                            c,
                        )
                    },
                }
            },
        }
    }
}

/// Prefix operators `*`, `&`, `-`, `!`, then a postfix chain.
pub open spec fn unary_s(ts: Seq<TokenV>, p: int, c: Ctx) -> Option<(ExprV, int)>
    decreases ts.len() - p, 3int,
{
    if p < 0 || p >= ts.len() {
        None
    } else {
        match ts[p].kind {
            TokenType::Mul => match unary_s(ts, p + 1, c) {
                None => None,
                Some((e, q)) => Some((mk(ExprKindV::Deref(Box::new(e)), c), q)),
            },
            TokenType::Address => match unary_s(ts, p + 1, c) {
                None => None,
                Some((e, q)) => Some((mk(ExprKindV::Unary { op: UnaryOp::GetAddr, expr: Box::new(e) }, c), q)),
            },
            TokenType::Sub => match unary_s(ts, p + 1, c) {
                None => None,
                Some((e, q)) => Some((mk(ExprKindV::Unary { op: UnaryOp::Neg, expr: Box::new(e) }, c), q)),
            },
            TokenType::Not => match unary_s(ts, p + 1, c) {
                None => None,
                Some((e, q)) => Some((mk(ExprKindV::Unary { op: UnaryOp::Not, expr: Box::new(e) }, c), q)),
            },
            _ => postfix_s(ts, p, c),
        }
    }
}

/// A primary expression followed by postfix operations.
pub open spec fn postfix_s(ts: Seq<TokenV>, p: int, c: Ctx) -> Option<(ExprV, int)>
    decreases ts.len() - p, 2int,
{
    match primary_s(ts, p, c) {
        None => None,
        Some((e, q)) => if q <= p || q > ts.len() { None } else { postfix_loop_s(e, ts, q, c) },
    }
}

/// The name of a variable expression (a call needs one).
pub open spec fn ident_s(e: ExprV) -> Option<Seq<char>> {
    match e.kind {
        ExprKindV::Variable(n) => Some(n),
        _ => None,
    }
}

/// Postfix operations: indexing, casts, member access (`.` and `->`),
/// calls (with or without type arguments) and enum variants (`::`).
pub open spec fn postfix_loop_s(e: ExprV, ts: Seq<TokenV>, p: int, c: Ctx) -> Option<(ExprV, int)>
    decreases ts.len() - p, 0int,
{
    if p < 0 || p >= ts.len() {
        None
    } else {
        match ts[p].kind {
            TokenType::OpenBracket => match expr_s(ts, p + 1, c) {
                None => None,
                Some((idx, q)) => match expect_s(ts, q, TokenType::CloseBracket) {
                    None => None,
                    Some(q2) => if q2 <= p || q2 > ts.len() {
                        None
                    } else {
                        postfix_loop_s(mk(ExprKindV::Index { base: Box::new(e), index: Box::new(idx) }, c), ts, q2, c)
                    },
                },
            },
            TokenType::As => match cast_type_s(ts, p + 1, c) {
                None => None,
                Some((ty, q)) => if q <= p || q > ts.len() {
                    None
                } else {
                    postfix_loop_s(mk(ExprKindV::Cast { expr: Box::new(e), ty }, c), ts, q, c)
                },
            },
            TokenType::Dot => if p + 1 >= ts.len() {
                None
            } else {
                match ts[p + 1].text {
                    None => None,
                    Some(name) => postfix_loop_s(mk(ExprKindV::StructMember { base: Box::new(e), name }, c), ts, p + 2, c),
                }
            },
            TokenType::Access => if p + 1 >= ts.len() {
                None
            } else {
                match ts[p + 1].text {
                    None => None,
                    Some(name) => postfix_loop_s(
                        mk(ExprKindV::StructMember { base: Box::new(mk(ExprKindV::Deref(Box::new(e)), c)), name }, c),
                        ts,
                        p + 2,
                        c,
                    ),
                }
            },
            TokenType::Less => if p + 1 >= ts.len() {
                None
            } else if !is_type_s(ts[p + 1], c) {
                Some((e, p))
            } else {
                match type_args_s(ts, p + 1, c) {
                    None => None,
                    Some((gs, q)) => {
                        // `q` holds the closing `>`
                        let q1 = q + 1;
                        if q < p || q1 >= ts.len() {
                            None
                        } else {
                            let args = if ts[q1].kind != TokenType::CloseParen {
                                call_args_s(ts, q1 + 1, c)
                            } else {
                                Some((Seq::empty(), q1))
                            };
                            match args {
                                None => None,
                                Some((av, r)) => match expect_s(ts, r, TokenType::CloseParen) {
                                    None => None,
                                    Some(r2) => match ident_s(e) {
                                        None => None,
                                        Some(name) => if r2 <= p || r2 > ts.len() {
                                            None
                                        } else {
                                            postfix_loop_s(mk(ExprKindV::Call { name, generics: gs, args: av }, c), ts, r2, c)
                                        },
                                    },
                                },
                            }
                        }
                    },
                }
            },
            TokenType::OpenParen => if p + 1 >= ts.len() {
                None
            } else {
                let args = if ts[p + 1].kind != TokenType::CloseParen {
                    paren_args_s(ts, p + 1, c)
                } else {
                    Some((Seq::empty(), p + 1))
                };
                match args {
                    None => None,
                    Some((av, r)) => match expect_s(ts, r, TokenType::CloseParen) {
                        None => None,
                        Some(r2) => match ident_s(e) {
                            None => None,
                            Some(name) => if r2 <= p || r2 > ts.len() {
                                None
                            } else {
                                postfix_loop_s(mk(ExprKindV::Call { name, generics: Seq::empty(), args: av }, c), ts, r2, c)
                            },
                        },
                    },
                }
            },
            TokenType::Colon => match expect_s(ts, p + 1, TokenType::Colon) {
                None => None,
                Some(q) => if q >= ts.len() {
                    None
                } else {
                    match ts[q].text {
                        None => None,
                        Some(variant) => {
                            let q1 = q + 1;
                            if q1 >= ts.len() {
                                None
                            } else {
                                let fields = if ts[q1].kind == TokenType::OpenParen {
                                    match enum_fields_s(ts, q1 + 1, c) {
                                        None => None,
                                        Some((fs, r)) => match expect_s(ts, r, TokenType::CloseParen) {
                                            None => None,
                                            Some(r2) => Some((fs, r2)),
                                        },
                                    }
                                } else {
                                    Some((Seq::empty(), q1))
                                };
                                match fields {
                                    None => None,
                                    Some((fs, r)) => match ident_s(e) {
                                        None => None,
                                        Some(base) => if r <= p || r > ts.len() {
                                            None
                                        } else {
                                            postfix_loop_s(mk(ExprKindV::GetEnum { base, variant, value: fs }, c), ts, r, c)
                                        },
                                    },
                                }
                            }
                        },
                    }
                },
            },
            _ => Some((e, p)),
        }
    }
}

/// Call arguments after `name<T>(`: expressions, each optionally followed by
/// `,`, up to the closing `)`.
pub open spec fn call_args_s(ts: Seq<TokenV>, p: int, c: Ctx) -> Option<(Seq<ExprV>, int)>
    decreases ts.len() - p, 6int,
{
    if p < 0 || p >= ts.len() {
        None
    } else if ts[p].kind == TokenType::CloseParen {
        Some((Seq::empty(), p))
    } else {
        match expr_s(ts, p, c) {
            None => None,
            Some((a, q)) => if q <= p || q >= ts.len() {
                None
            } else {
                let q2 = if ts[q].kind == TokenType::Coma { q + 1 } else { q };
                match call_args_s(ts, q2, c) {
                    None => None,
                    Some((rest, r)) => Some((seq![a] + rest, r)),
                }
            },
        }
    }
}

/// Call arguments after `name(` when there is at least one: expressions
/// separated by `,` up to the closing `)`.
pub open spec fn paren_args_s(ts: Seq<TokenV>, p: int, c: Ctx) -> Option<(Seq<ExprV>, int)>
    decreases ts.len() - p, 6int,
{
    match expr_s(ts, p, c) {
        None => None,
        Some((a, q)) => if q <= p || q >= ts.len() {
            None
        } else if ts[q].kind == TokenType::CloseParen {
            Some((seq![a], q))
        } else {
            let q2 = if ts[q].kind == TokenType::Coma { q + 1 } else { q };
            match paren_args_s(ts, q2, c) {
                None => None,
                Some((rest, r)) => Some((seq![a] + rest, r)),
            }
        },
    }
}

/// `name: expr` fields of an enum value, each optionally followed by `,`,
/// up to the closing `)`.
pub open spec fn enum_fields_s(ts: Seq<TokenV>, p: int, c: Ctx) -> Option<(Seq<(Seq<char>, ExprV)>, int)>
    decreases ts.len() - p, 6int,
{
    if p < 0 || p >= ts.len() {
        None
    } else if ts[p].kind == TokenType::CloseParen {
        Some((Seq::empty(), p))
    } else {
        match ts[p].text {
            None => None,
            Some(name) => match expect_s(ts, p + 1, TokenType::Colon) {
                None => None,
                Some(q) => match expr_s(ts, q, c) {
                    None => None,
                    Some((e, r)) => if r <= p || r >= ts.len() {
                        None
                    } else {
                        let r2 = if ts[r].kind == TokenType::Coma { r + 1 } else { r };
                        match enum_fields_s(ts, r2, c) {
                            None => None,
                            Some((rest, r3)) => Some((seq![(name, e)] + rest, r3)),
                        }
                    },
                },
            },
        }
    }
}

/// `field: expr` initializers of a struct value up to the closing `}`; a `,`
/// is expected between them.
pub open spec fn struct_fields_s(ts: Seq<TokenV>, p: int, c: Ctx) -> Option<(Seq<(Seq<char>, ExprV)>, int)>
    decreases ts.len() - p, 6int,
{
    if p < 0 || p >= ts.len() {
        None
    } else if ts[p].kind == TokenType::CloseScope {
        Some((Seq::empty(), p))
    } else if ts[p].kind != TokenType::Var {
        None
    } else {
        match ts[p].text {
            None => None,
            Some(name) => match expect_s(ts, p + 1, TokenType::Colon) {
                None => None,
                Some(q) => match expr_s(ts, q, c) {
                    None => None,
                    Some((e, r)) => if r <= p || r >= ts.len() {
                        None
                    } else {
                        let r2 = if ts[r].kind != TokenType::CloseScope {
                            if ts[r].kind == TokenType::Coma { r + 1 } else { r }
                        } else {
                            r
                        };
                        match struct_fields_s(ts, r2, c) {
                            None => None,
                            Some((rest, r3)) => Some((seq![(name, e)] + rest, r3)),
                        }
                    },
                },
            },
        }
    }
}

/// Elements of an array literal, each optionally followed by `,`, up to the
/// closing `}`.
pub open spec fn array_elems_s(ts: Seq<TokenV>, p: int, c: Ctx) -> Option<(Seq<ExprV>, int)>
    decreases ts.len() - p, 6int,
{
    if p < 0 || p >= ts.len() {
        None
    } else if ts[p].kind == TokenType::CloseScope {
        Some((Seq::empty(), p))
    } else {
        match expr_s(ts, p, c) {
            None => None,
            Some((a, q)) => if q <= p || q >= ts.len() {
                None
            } else {
                let q2 = if ts[q].kind == TokenType::Coma { q + 1 } else { q };
                match array_elems_s(ts, q2, c) {
                    None => None,
                    Some((rest, r)) => Some((seq![a] + rest, r)),
                }
            },
        }
    }
}

/// A primary expression: a name (or struct value), a number, a character, a
/// string, `sizeof(T)`, a parenthesised expression, an array literal, or a
/// prefix `*`, `!`, `-` applied to a primary expression.
pub open spec fn primary_s(ts: Seq<TokenV>, p: int, c: Ctx) -> Option<(ExprV, int)>
    decreases ts.len() - p, 1int,
{
    if p < 0 || p >= ts.len() {
        None
    } else {
        let t = ts[p];
        let q = p + 1;
        match t.kind {
            TokenType::Var => match t.text {
                None => None,
                Some(n) => if c.types.contains(n) {
                    if q >= ts.len() {
                        None
                    } else if ts[q].kind == TokenType::OpenScope {
                        match struct_fields_s(ts, q + 1, c) {
                            None => None,
                            Some((fields, r)) => match expect_s(ts, r, TokenType::CloseScope) {
                                None => None,
                                Some(r2) => Some((mk(ExprKindV::StructInit { struct_name_ty: n, fields }, c), r2)),
                            },
                        }
                    } else {
                        Some((mk(ExprKindV::Variable(n), c), q))
                    }
                } else {
                    Some((mk(ExprKindV::Variable(n), c), q))
                },
            },
            TokenType::Num | TokenType::CharValue => match t.text {
                None => None,
                Some(txt) => match parse_int_s(txt, 10, i64::MIN as int, i64::MAX as int) {
                    None => None,
                    Some(v) => Some((mk(ExprKindV::Number(v as i64), c), q)),
                },
            },
            TokenType::HexNum => match t.text {
                None => None,
                Some(txt) => match parse_int_s(txt, 16, i64::MIN as int, i64::MAX as int) {
                    None => None,
                    Some(v) => Some((mk(ExprKindV::Number(v as i64), c), q)),
                },
            },
            TokenType::Mul => match primary_s(ts, q, c) {
                None => None,
                Some((e, r)) => Some((mk(ExprKindV::Deref(Box::new(e)), c), r)),
            },
            TokenType::Not => match primary_s(ts, q, c) {
                None => None,
                Some((e, r)) => Some((mk(ExprKindV::Unary { op: UnaryOp::Not, expr: Box::new(e) }, c), r)),
            },
            TokenType::Sub => match primary_s(ts, q, c) {
                None => None,
                Some((e, r)) => Some((mk(ExprKindV::Unary { op: UnaryOp::Neg, expr: Box::new(e) }, c), r)),
            },
            TokenType::OpenScope => match array_elems_s(ts, q, c) {
                None => None,
                Some((elements, r)) => match expect_s(ts, r, TokenType::CloseScope) {
                    None => None,
                    Some(r2) => Some((mk(ExprKindV::ArrayInit { elements }, c), r2)),
                },
            },
            TokenType::SizeOf => match expect_s(ts, q, TokenType::OpenParen) {
                None => None,
                Some(q1) => match sizeof_type_s(ts, q1, c) {
                    None => None,
                    Some((ty, r)) => match expect_s(ts, r, TokenType::CloseParen) {
                        None => None,
                        Some(r2) => Some((mk(ExprKindV::SizeOf { ty }, c), r2)),
                    },
                },
            },
            TokenType::String => match t.text {
                None => None,
                Some(txt) => Some((mk(ExprKindV::String { str: txt }, c), q)),
            },
            TokenType::OpenParen => match expr_s(ts, q, c) {
                None => None,
                Some((e, r)) => match expect_s(ts, r, TokenType::CloseParen) {
                    None => None,
                    Some(r2) => Some((e, r2)),
                },
            },
            _ => None,
        }
    }
}

// ---------------------------------------------------------------------------
// Declarations and the tables they fill
// ---------------------------------------------------------------------------

/// A statement built at the context's position.
pub open spec fn mk_stmt(kind: StmtKindV, c: Ctx) -> StmtV {
    StmtV { kind, line: c.line, file: c.file }
}

/// Adds a name to a list used as a set.
pub open spec fn set_add(s: Seq<Seq<char>>, n: Seq<char>) -> Seq<Seq<char>> {
    if s.contains(n) { s } else { s.push(n) }
}

/// The names of declared structs, in declaration order.
pub open spec fn struct_names(ss: Seq<StructDefV>) -> Seq<Seq<char>> {
    ss.map_values(|d: StructDefV| d.name)
}

/// Declares a struct: replaces the declaration of the same name, or adds one.
pub open spec fn struct_insert(ss: Seq<StructDefV>, d: StructDefV) -> Seq<StructDefV> {
    match first_index(struct_names(ss), d.name) {
        Some(i) => ss.update(i, d),
        None => ss.push(d),
    }
}

pub open spec fn enum_names(es: Seq<EnumDataV>) -> Seq<Seq<char>> {
    es.map_values(|d: EnumDataV| d.name)
}

/// Declares an enum: replaces the declaration of the same name, or adds one.
pub open spec fn enum_insert(es: Seq<EnumDataV>, d: EnumDataV) -> Seq<EnumDataV> {
    match first_index(enum_names(es), d.name) {
        Some(i) => es.update(i, d),
        None => es.push(d),
    }
}

pub open spec fn variant_names(vs: Seq<EnumVariantV>) -> Seq<Seq<char>> {
    vs.map_values(|v: EnumVariantV| v.name)
}

/// Adds a variant: a later variant of the same name replaces the earlier one.
pub open spec fn variant_insert(vs: Seq<EnumVariantV>, v: EnumVariantV) -> Seq<EnumVariantV> {
    match first_index(variant_names(vs), v.name) {
        Some(i) => vs.update(i, v),
        None => vs.push(v),
    }
}

/// `struct_find` finds the declaration at the first index of the name.
pub proof fn lemma_struct_find_index(ss: Seq<StructDefV>, n: Seq<char>)
    ensures
        struct_find(ss, n) == (match first_index(struct_names(ss), n) {
            Some(i) => Some(ss[i]),
            None => None::<StructDefV>,
        }),
    decreases ss.len(),
{
    if ss.len() > 0 {
        assert(struct_names(ss).drop_first() =~= struct_names(ss.drop_first()));
        assert(struct_names(ss)[0] == ss[0].name);
        lemma_struct_find_index(ss.drop_first(), n);
        if ss[0].name != n {
            if let Some(i) = first_index(struct_names(ss.drop_first()), n) {
                lemma_first_index(struct_names(ss.drop_first()), n);
                assert(ss.drop_first()[i] == ss[i + 1]);
            }
        }
    }
}

pub proof fn lemma_enum_find_index(es: Seq<EnumDataV>, n: Seq<char>)
    ensures
        enum_find(es, n) == (match first_index(enum_names(es), n) {
            Some(i) => Some(es[i]),
            None => None::<EnumDataV>,
        }),
    decreases es.len(),
{
    if es.len() > 0 {
        assert(enum_names(es).drop_first() =~= enum_names(es.drop_first()));
        assert(enum_names(es)[0] == es[0].name);
        lemma_enum_find_index(es.drop_first(), n);
        if es[0].name != n {
            if let Some(i) = first_index(enum_names(es.drop_first()), n) {
                lemma_first_index(enum_names(es.drop_first()), n);
                assert(es.drop_first()[i] == es[i + 1]);
            }
        }
    }
}

/// After a struct is declared, looking its name up gives that declaration
/// (read after write on the struct table).
pub proof fn lemma_struct_find_after_insert(ss: Seq<StructDefV>, d: StructDefV)
    ensures
        struct_find(struct_insert(ss, d), d.name) == Some(d),
{
    let names = struct_names(ss);
    let ss2 = struct_insert(ss, d);
    let names2 = struct_names(ss2);
    lemma_first_index(names, d.name);
    lemma_first_index(names2, d.name);
    lemma_struct_find_index(ss2, d.name);
    match first_index(names, d.name) {
        Some(i) => {
            assert(names2 =~= names.update(i, d.name));
            assert(names2[i] == d.name);
            assert(forall|j: int| 0 <= j < i ==> names2[j] == names[j]);
            assert(first_index(names2, d.name) == Some(i));
        },
        None => {
            assert(names2 =~= names.push(d.name));
            assert(names2[names.len() as int] == d.name);
            assert(forall|j: int| 0 <= j < names.len() ==> names2[j] == names[j]);
            assert(first_index(names2, d.name) == Some(names.len() as int));
        },
    }
}

/// After an enum is declared, looking its name up gives that declaration.
pub proof fn lemma_enum_find_after_insert(es: Seq<EnumDataV>, d: EnumDataV)
    ensures
        enum_find(enum_insert(es, d), d.name) == Some(d),
{
    let names = enum_names(es);
    let es2 = enum_insert(es, d);
    let names2 = enum_names(es2);
    lemma_first_index(names, d.name);
    lemma_first_index(names2, d.name);
    lemma_enum_find_index(es2, d.name);
    match first_index(names, d.name) {
        Some(i) => {
            assert(names2 =~= names.update(i, d.name));
            assert(names2[i] == d.name);
            assert(forall|j: int| 0 <= j < i ==> names2[j] == names[j]);
            assert(first_index(names2, d.name) == Some(i));
        },
        None => {
            assert(names2 =~= names.push(d.name));
            assert(names2[names.len() as int] == d.name);
            assert(forall|j: int| 0 <= j < names.len() ==> names2[j] == names[j]);
            assert(first_index(names2, d.name) == Some(names.len() as int));
        },
    }
}

/// Declaring a struct leaves every other declaration found as before.
pub proof fn lemma_struct_find_other(ss: Seq<StructDefV>, d: StructDefV, n: Seq<char>)
    requires
        n != d.name,
    ensures
        struct_find(struct_insert(ss, d), n) == struct_find(ss, n),
{
    let names = struct_names(ss);
    let ss2 = struct_insert(ss, d);
    let names2 = struct_names(ss2);
    lemma_first_index(names, d.name);
    lemma_first_index(names, n);
    lemma_first_index(names2, n);
    lemma_struct_find_index(ss2, n);
    lemma_struct_find_index(ss, n);
    match first_index(names, d.name) {
        Some(i) => {
            assert(names2 =~= names.update(i, d.name));
            assert(forall|j: int| 0 <= j < names.len() && j != i ==> names2[j] == names[j]);
            assert(first_index(names2, n) == first_index(names, n));
        },
        None => {
            assert(names2 =~= names.push(d.name));
            assert(forall|j: int| 0 <= j < names.len() ==> names2[j] == names[j]);
            assert(first_index(names2, n) == first_index(names, n));
        },
    }
}

/// The number of bytes of a field of the given type; `None` for the types
/// that have no size here (unsized primitives, unknown structs, named types,
/// generic instances) and on overflow.
pub open spec fn size_of_s(t: TypeV, c: Ctx) -> Option<int>
    decreases t,
{
    match t {
        TypeV::Primitive(k) => match k {
            TokenType::I32 | TokenType::U32 => Some(4),
            TokenType::I8 | TokenType::U8 => Some(1),
            TokenType::I16 | TokenType::U16 => Some(2),
            TokenType::I64 | TokenType::U64 => Some(8),
            _ => None,
        },
        TypeV::Pointer(_) => Some(8),
        TypeV::Array(inner, n) => match size_of_s(*inner, c) {
            None => None,
            Some(sz) => if sz * n > usize::MAX { None } else { Some(sz * n) },
        },
        TypeV::Struct(name) => match struct_find(c.structs, name) {
            None => None,
            Some(d) => Some(d.size as int),
        },
        TypeV::Enum(..) => Some(8),
        TypeV::GenericType(_) => Some(0),
        _ => None,
    }
}

/// The type named by a declared name: struct, enum, or else a generic parameter.
pub open spec fn custom_type_s(n: Seq<char>, c: Ctx) -> Option<TypeV> {
    if c.types.contains(n) {
        if struct_find(c.structs, n) is Some {
            Some(TypeV::Struct(n))
        } else if enum_find(c.enums, n) is Some {
            Some(TypeV::Enum(n, None))
        } else {
            Some(TypeV::GenericType(n))
        }
    } else {
        None
    }
}

/// The number of bytes of the UTF-8 encoding of a character sequence.
pub open spec fn utf8_len(s: Seq<char>) -> int
    decreases s.len(),
{
    if s.len() == 0 {
        0
    } else {
        utf8_len(s.drop_last()) + (if (s.last() as u32) < 0x80 { 1int } else if (s.last() as u32) < 0x800 { 2int }
            else if (s.last() as u32) < 0x10000 { 3int } else { 4int })
    }
}

/// A variable declaration `T name` or `T name = expr` (without `;`); array
/// suffixes may stand before the name (`char[] name`), after it
/// (`char name[]`), or both. An unsized char array initialised by a string
/// gets the string's byte length plus one.
#[verifier::opaque]
pub open spec fn declaration_s(ts: Seq<TokenV>, p: int, c: Ctx) -> Option<(DeclarationV, int)> {
    match ptr_count_s(ts, p) {
        None => None,
        Some((pre, p1)) => match get_type_s(ts, p1, c) {
            None => None,
            Some((base, p2)) => match generic_types_s(base, ts, p2, c) {
                None => None,
                Some((g, p3)) => match ptr_count_s(ts, p3) {
                    None => None,
                    Some((post, p3b)) => match parse_array_s(g, ts, p3b) {
                    None => None,
                    Some((g, p4)) => if p4 < 0 || p4 >= ts.len() {
                        None
                    } else {
                        match parse_array_s(g, ts, p4 + 1) {
                            None => None,
                            Some((arr, p5)) => if pre + post > u32::MAX || p5 < 0 || p5 >= ts.len() {
                                None
                            } else {
                                let ty = apply_ptr_s(arr, pre + post);
                                if ts[p5].kind == TokenType::Eq {
                                    match expr_s(ts, p5 + 1, c) {
                                        None => None,
                                        Some((init, p6)) => {
                                            let ty2 = match (ty, init.kind) {
                                                (TypeV::Array(inner, 0), ExprKindV::String { str }) =>
                                                    if *inner == TypeV::Primitive(TokenType::CharType) {
                                                        Some(TypeV::Array(Box::new(TypeV::Primitive(TokenType::CharType)), (utf8_len(str) + 1) as usize))
                                                    } else {
                                                        Some(ty)
                                                    },
                                                _ => Some(ty),
                                            };
                                            let too_long = match (ty, init.kind) {
                                                (TypeV::Array(inner, 0), ExprKindV::String { str }) =>
                                                    *inner == TypeV::Primitive(TokenType::CharType) && utf8_len(str) + 1 > usize::MAX,
                                                _ => false,
                                            };
                                            match (ts[p4].text, ty2) {
                                                (Some(name), Some(t)) => if too_long {
                                                    None
                                                } else {
                                                    Some((DeclarationV { name, ty: t, initializer: Some(init) }, p6))
                                                },
                                                _ => None,
                                            }
                                        },
                                    }
                                } else {
                                    match ts[p4].text {
                                        None => None,
                                        Some(name) => Some((DeclarationV { name, ty, initializer: None }, p5)),
                                    }
                                }
                            },
                        }
                    },
                    },
                },
            },
        },
    }
}

/// Parameter declarations after `(` up to and including `)`.
pub open spec fn params_s(ts: Seq<TokenV>, p: int, c: Ctx) -> Option<(Seq<DeclarationV>, int)>
    decreases ts.len() - p,
{
    if p < 0 || p >= ts.len() {
        None
    } else if ts[p].kind == TokenType::CloseParen {
        Some((Seq::empty(), p + 1))
    } else {
        match declaration_s(ts, p, c) {
            None => None,
            Some((d, q)) => if q <= p || q >= ts.len() {
                None
            } else {
                let q2 = if ts[q].kind == TokenType::Coma { q + 1 } else { q };
                match params_s(ts, q2, c) {
                    None => None,
                    Some((rest, r)) => Some((seq![d] + rest, r)),
                }
            },
        }
    }
}

/// `(T a, U b)`: a parameter list.
pub open spec fn args_s(ts: Seq<TokenV>, p: int, c: Ctx) -> Option<(Seq<DeclarationV>, int)> {
    match expect_s(ts, p, TokenType::OpenParen) {
        None => None,
        Some(q) => params_s(ts, q, c),
    }
}

/// Generic parameter names up to `>`; each is declared as a type and as a
/// generic parameter.
pub open spec fn generic_names_s(ts: Seq<TokenV>, p: int, c: Ctx) -> Option<(Seq<Seq<char>>, int, Ctx)>
    decreases ts.len() - p,
{
    if p < 0 || p >= ts.len() {
        None
    } else if ts[p].kind == TokenType::More {
        Some((Seq::empty(), p, c))
    } else {
        let name = match ts[p].text {
            Some(v) => v,
            None => prim_name_s(ts[p].kind),
        };
        let q = p + 1;
        if q >= ts.len() {
            None
        } else {
            let q2 = if ts[q].kind == TokenType::Coma { q + 1 } else { q };
            let c1 = Ctx { types: set_add(c.types, name), generic: set_add(c.generic, name), ..c };
            match generic_names_s(ts, q2, c1) {
                None => None,
                Some((rest, r, c2)) => Some((seq![name] + rest, r, c2)),
            }
        }
    }
}

/// An optional `<A, B>` list of generic parameters; the `>` is expected in
/// either case.
#[verifier::opaque]
pub open spec fn generic_s(ts: Seq<TokenV>, p: int, c: Ctx) -> Option<(Seq<Seq<char>>, int, Ctx)> {
    if p < 0 || p >= ts.len() {
        None
    } else if ts[p].kind == TokenType::Less {
        match generic_names_s(ts, p + 1, c) {
            None => None,
            Some((names, q, c1)) => match expect_s(ts, q, TokenType::More) {
                None => None,
                Some(q2) => Some((names, q2, c1)),
            },
        }
    } else {
        match expect_s(ts, p, TokenType::More) {
            None => None,
            Some(q) => Some((Seq::empty(), q, c)),
        }
    }
}

/// An optional `-> T` return type (`void` without one).
#[verifier::opaque]
pub open spec fn ret_type_s(ts: Seq<TokenV>, p: int, c: Ctx) -> Option<(TypeV, int)> {
    if p < 0 || p >= ts.len() {
        None
    } else if ts[p].kind == TokenType::Access {
        match ptr_count_s(ts, p + 1) {
            None => None,
            Some((pre, p1)) => match get_type_s(ts, p1, c) {
                None => None,
                Some((base, p2)) => match generic_types_s(base, ts, p2, c) {
                    None => None,
                    Some((g, p3)) => match parse_array_s(g, ts, p3) {
                        None => None,
                        Some((arr, p4)) => match ptr_count_s(ts, p4) {
                            None => None,
                            Some((post, p5)) => if pre + post > u32::MAX {
                                None
                            } else {
                                Some((apply_ptr_s(arr, pre + post), p5))
                            },
                        },
                    },
                },
            },
        }
    } else {
        Some((TypeV::Primitive(TokenType::Void), p))
    }
}

/// `extern fn name<..>(params) -> T`: an external function declaration.
#[verifier::opaque]
pub open spec fn extern_s(ts: Seq<TokenV>, p: int, c: Ctx) -> Option<(StmtV, int, Ctx)> {
    match expect_s(ts, p, TokenType::ExternFn) {
        None => None,
        Some(q) => if q + 1 >= ts.len() {
            None
        } else {
            match ts[q + 1].text {
                None => None,
                Some(name) => match generic_s(ts, q + 2, c) {
                    None => None,
                    Some((_, q1, c1)) => match args_s(ts, q1, c1) {
                        None => None,
                        Some((args, q2)) => match ret_type_s(ts, q2, c1) {
                            None => None,
                            Some((ret_type, q3)) => {
                                let func = mk_stmt(StmtKindV::InitFunc {
                                    name,
                                    args,
                                    ret_type,
                                    data: Box::new(mk_stmt(StmtKindV::Block(Seq::empty()), c1)),
                                }, c1);
                                Some((mk_stmt(StmtKindV::ExternFn(Box::new(func)), c1), q3, c1))
                            },
                        },
                    },
                },
            }
        },
    }
}

/// Fields `T name;` of a struct declaration up to `}`, laid out one after
/// the other from `offset`; returns the fields, the position and the size.
pub open spec fn struct_members_s(ts: Seq<TokenV>, p: int, c: Ctx, offset: int) -> Option<(Seq<StructFieldV>, int, int)>
    decreases ts.len() - p,
{
    if p < 0 || p >= ts.len() {
        None
    } else if ts[p].kind == TokenType::CloseScope {
        Some((Seq::empty(), p, offset))
    } else {
        let bt = ts[p];
        let base = if is_type_s(bt, c) && bt.kind != TokenType::Var {
            Some(TypeV::Primitive(bt.kind))
        } else {
            match bt.text {
                None => None,
                Some(n) => custom_type_s(n, c),
            }
        };
        match base {
            None => None,
            Some(ty) => match ptr_count_s(ts, p + 1) {
                None => None,
                Some((idx, p2)) => if p2 < 0 || p2 >= ts.len() {
                    None
                } else {
                    match ts[p2].text {
                        None => None,
                        Some(fname) => match parse_array_s(ty, ts, p2 + 1) {
                            None => None,
                            Some((arr, p3)) => match expect_s(ts, p3, TokenType::Semi) {
                                None => None,
                                Some(p4) => {
                                    let fty = apply_ptr_s(arr, idx);
                                    match size_of_s(fty, c) {
                                        None => None,
                                        Some(sz) => if offset + sz > usize::MAX || p4 <= p {
                                            None
                                        } else {
                                            match struct_members_s(ts, p4, c, offset + sz) {
                                                None => None,
                                                Some((rest, r, total)) => Some((
                                                    seq![StructFieldV { name: fname, offset: offset as usize, ty: fty }] + rest,
                                                    r,
                                                    total,
                                                )),
                                            }
                                        },
                                    }
                                },
                            },
                        },
                    }
                },
            },
        }
    }
}

/// `struct Name<..> { fields }`: declares the struct and its name as a type.
#[verifier::opaque]
pub open spec fn struct_init_s(ts: Seq<TokenV>, p: int, c: Ctx) -> Option<(StmtV, int, Ctx)> {
    if p < 0 || p + 1 >= ts.len() {
        None
    } else {
        match ts[p + 1].text {
            None => None,
            Some(name) => match generic_s(ts, p + 2, c) {
                None => None,
                Some((gs, q, c1)) => match expect_s(ts, q, TokenType::OpenScope) {
                    None => None,
                    Some(q1) => match struct_members_s(ts, q1, c1, 0) {
                        None => None,
                        Some((fields, q2, size)) => match expect_s(ts, q2, TokenType::CloseScope) {
                            None => None,
                            Some(q3) => {
                                let d = StructDefV { name, fields, generic_type: gs, size: size as usize };
                                let c2 = Ctx { types: set_add(c1.types, name), structs: struct_insert(c1.structs, d), ..c1 };
                                Some((mk_stmt(StmtKindV::InitStruct(d), c2), q3, c2))
                            },
                        },
                    },
                },
            },
        }
    }
}

/// Fields `T *name[N];` of an enum variant up to `}`, laid out from `offset`.
pub open spec fn variant_members_s(ts: Seq<TokenV>, p: int, c: Ctx, offset: int) -> Option<(Seq<StructFieldV>, int, int)>
    decreases ts.len() - p,
{
    if p < 0 || p >= ts.len() {
        None
    } else if ts[p].kind == TokenType::CloseScope {
        Some((Seq::empty(), p, offset))
    } else {
        match get_type_s(ts, p, c) {
            None => None,
            Some((ty, p1)) => match ptr_count_s(ts, p1) {
                None => None,
                Some((idx, p2)) => if p2 < 0 || p2 >= ts.len() {
                    None
                } else {
                    match ts[p2].text {
                        None => None,
                        Some(fname) => match parse_array_s(ty, ts, p2 + 1) {
                            None => None,
                            Some((arr, p3)) => match expect_s(ts, p3, TokenType::Semi) {
                                None => None,
                                Some(p4) => {
                                    let fty = apply_ptr_s(arr, idx);
                                    match size_of_s(fty, c) {
                                        None => None,
                                        Some(sz) => if offset + sz > usize::MAX || p4 <= p {
                                            None
                                        } else {
                                            match variant_members_s(ts, p4, c, offset + sz) {
                                                None => None,
                                                Some((rest, r, total)) => Some((
                                                    seq![StructFieldV { name: fname, offset: offset as usize, ty: fty }] + rest,
                                                    r,
                                                    total,
                                                )),
                                            }
                                        },
                                    }
                                },
                            },
                        },
                    }
                },
            },
        }
    }
}

/// One enum variant `Name` or `Name { fields }` with the given tag.
#[verifier::opaque]
pub open spec fn enum_variant_s(ts: Seq<TokenV>, p: int, c: Ctx, tag: usize) -> Option<(EnumVariantV, int)> {
    if p < 0 || p + 1 >= ts.len() {
        None
    } else {
        match ts[p].text {
            None => None,
            Some(name) => if ts[p + 1].kind == TokenType::Coma {
                Some((EnumVariantV { name, args: Seq::empty(), tag, size: tag }, p + 1))
            } else {
                match expect_s(ts, p + 1, TokenType::OpenScope) {
                    None => None,
                    Some(q) => match variant_members_s(ts, q, c, 0) {
                        None => None,
                        Some((args, q2, offset)) => match expect_s(ts, q2, TokenType::CloseScope) {
                            None => None,
                            Some(q3) => if tag + offset > usize::MAX {
                                None
                            } else {
                                Some((EnumVariantV { name, args, tag, size: (tag + offset) as usize }, q3))
                            },
                        },
                    },
                }
            },
        }
    }
}

/// The variants of an enum up to `}`, each followed by `,`; tags count up
/// from `tag` and the size is the largest variant size (at least `max`).
pub open spec fn enum_variants_s(ts: Seq<TokenV>, p: int, c: Ctx, tag: usize, max: usize, acc: Seq<EnumVariantV>)
    -> Option<(Seq<EnumVariantV>, int, usize)>
    decreases ts.len() - p,
{
    if p < 0 || p >= ts.len() {
        None
    } else if ts[p].kind == TokenType::CloseScope {
        Some((acc, p, max))
    } else {
        match enum_variant_s(ts, p, c, tag) {
            None => None,
            Some((v, q)) => match expect_s(ts, q, TokenType::Coma) {
                None => None,
                Some(q2) => if q2 <= p || tag == usize::MAX {
                    None
                } else {
                    let max2 = if v.size > max { v.size } else { max };
                    enum_variants_s(ts, q2, c, (tag + 1) as usize, max2, variant_insert(acc, v))
                },
            },
        }
    }
}

/// `enum Name<..> { variants }`: declares the enum and its name as a type.
#[verifier::opaque]
pub open spec fn enum_s(ts: Seq<TokenV>, p: int, c: Ctx) -> Option<(StmtV, int, Ctx)> {
    if p < 0 || p + 1 >= ts.len() {
        None
    } else {
        match ts[p + 1].text {
            None => None,
            Some(name) => match generic_s(ts, p + 2, c) {
                None => None,
                Some((gs, q, c1)) => match expect_s(ts, q, TokenType::OpenScope) {
                    None => None,
                    Some(q1) => match enum_variants_s(ts, q1, c1, 0, 8, Seq::empty()) {
                        None => None,
                        Some((variants, q2, size)) => match expect_s(ts, q2, TokenType::CloseScope) {
                            None => None,
                            Some(q3) => {
                                let d = EnumDataV { name, generic_type: gs, variants, size };
                                let c2 = Ctx { types: set_add(c1.types, name), enums: enum_insert(c1.enums, d), ..c1 };
                                Some((mk_stmt(StmtKindV::InitEnum { name, generic_types: gs, variants }, c2), q3, c2))
                            },
                        },
                    },
                },
            },
        }
    }
}

/// The position after the closing `]` of a bracket that opened before `p`.
pub open spec fn skip_brackets_s(ts: Seq<TokenV>, p: int, depth: nat) -> Option<int>
    decreases ts.len() - p,
{
    if depth == 0 {
        Some(p)
    } else if p < 0 || p >= ts.len() {
        None
    } else if ts[p].kind == TokenType::OpenBracket {
        skip_brackets_s(ts, p + 1, depth + 1)
    } else if ts[p].kind == TokenType::CloseBracket {
        skip_brackets_s(ts, p + 1, (depth - 1) as nat)
    } else {
        skip_brackets_s(ts, p + 1, depth)
    }
}

/// After the variable of an assignment target: member accesses and index
/// brackets, then `=`.
pub open spec fn target_suffix_s(ts: Seq<TokenV>, p: int) -> Option<bool>
    decreases ts.len() - p,
{
    if p < 0 || p >= ts.len() {
        None
    } else if ts[p].kind == TokenType::Dot || ts[p].kind == TokenType::Access {
        if p + 1 >= ts.len() {
            None
        } else if ts[p + 1].kind != TokenType::Var {
            Some(false)
        } else {
            target_suffix_s(ts, p + 2)
        }
    } else if ts[p].kind == TokenType::OpenBracket {
        match skip_brackets_s(ts, p + 1, 1) {
            None => None,
            Some(q) => if q <= p || q > ts.len() { None } else { target_suffix_s(ts, q) },
        }
    } else {
        Some(ts[p].kind == TokenType::Eq)
    }
}

/// The position after the `*` tokens at `p`.
pub open spec fn stars_end(ts: Seq<TokenV>, p: int) -> Option<int>
    decreases ts.len() - p,
{
    if p < 0 || p >= ts.len() {
        None
    } else if ts[p].kind == TokenType::Mul {
        stars_end(ts, p + 1)
    } else {
        Some(p)
    }
}

/// Whether the tokens at `p` start an assignment: `*`s, a variable, member
/// accesses or indexing, then `=`.
#[verifier::opaque]
pub open spec fn assignment_start_s(ts: Seq<TokenV>, p: int) -> Option<bool> {
    match stars_end(ts, p) {
        None => None,
        Some(i) => if ts[i].kind != TokenType::Var {
            Some(false)
        } else {
            target_suffix_s(ts, i + 1)
        },
    }
}

/// `lv` under `n` dereferences.
pub open spec fn wrap_deref(lv: LValueV, n: nat) -> LValueV
    decreases n,
{
    if n == 0 {
        lv
    } else {
        LValueV::Deref(Box::new(wrap_deref(lv, (n - 1) as nat)))
    }
}

/// Member accesses and indexing after the variable of an assignment target.
pub open spec fn lvalue_suffix_s(lv: LValueV, ts: Seq<TokenV>, p: int, c: Ctx) -> Option<(LValueV, int)>
    decreases ts.len() - p,
{
    if p < 0 || p >= ts.len() {
        None
    } else if ts[p].kind == TokenType::Dot || ts[p].kind == TokenType::Access {
        if p + 1 >= ts.len() {
            None
        } else {
            match ts[p + 1].text {
                None => None,
                Some(name) => {
                    let base = if ts[p].kind == TokenType::Dot { lv } else { LValueV::Deref(Box::new(lv)) };
                    lvalue_suffix_s(LValueV::Field { base: Box::new(base), name }, ts, p + 2, c)
                },
            }
        }
    } else if ts[p].kind == TokenType::OpenBracket {
        match expr_s(ts, p + 1, c) {
            None => None,
            Some((idx, q)) => match expect_s(ts, q, TokenType::CloseBracket) {
                None => None,
                Some(q2) => if q2 <= p || q2 > ts.len() {
                    None
                } else {
                    lvalue_suffix_s(LValueV::Index { base: Box::new(lv), index: idx }, ts, q2, c)
                },
            },
        }
    } else {
        Some((lv, p))
    }
}

/// `*..*target = expr` (without `;`).
#[verifier::opaque]
pub open spec fn assignment_s(ts: Seq<TokenV>, p: int, c: Ctx) -> Option<(StmtV, int)> {
    match stars_end(ts, p) {
        None => None,
        Some(i) => if i - p > i32::MAX || i + 1 > ts.len() {
            None
        } else {
            match ts[i].text {
                None => None,
                Some(var) => match lvalue_suffix_s(LValueV::Variable(var), ts, i + 1, c) {
                    None => None,
                    Some((lv, q)) => match expect_s(ts, q, TokenType::Eq) {
                        None => None,
                        Some(q2) => match expr_s(ts, q2, c) {
                            None => None,
                            Some((value, q3)) => Some((
                                mk_stmt(StmtKindV::Assignment { target: wrap_deref(lv, (i - p) as nat), value }, c),
                                q3,
                            )),
                        },
                    },
                },
            }
        },
    }
}

/// `asm { "line" ... }`: the texts of the tokens up to `}`.
pub open spec fn asm_lines_s(ts: Seq<TokenV>, p: int) -> Option<(Seq<Seq<char>>, int)>
    decreases ts.len() - p,
{
    if p < 0 || p >= ts.len() {
        None
    } else if ts[p].kind == TokenType::CloseScope {
        Some((Seq::empty(), p + 1))
    } else {
        match ts[p].text {
            None => None,
            Some(line) => match asm_lines_s(ts, p + 1) {
                None => None,
                Some((rest, r)) => Some((seq![line] + rest, r)),
            },
        }
    }
}

/// Names `a, b` of enum variant fields in a match arm, up to `)`.
pub open spec fn pattern_names_s(ts: Seq<TokenV>, p: int) -> Option<(Seq<Seq<char>>, int)>
    decreases ts.len() - p,
{
    if p < 0 || p >= ts.len() {
        None
    } else if ts[p].kind == TokenType::CloseParen {
        Some((Seq::empty(), p))
    } else {
        match ts[p].text {
            None => None,
            Some(n) => if p + 1 >= ts.len() {
                None
            } else {
                let q = if ts[p + 1].kind == TokenType::Coma { p + 2 } else { p + 1 };
                match pattern_names_s(ts, q) {
                    None => None,
                    Some((rest, r)) => Some((seq![n] + rest, r)),
                }
            },
        }
    }
}

/// The left side of a match arm: `_`, `Enum::Variant(a, b)`, or an expression.
#[verifier::opaque]
pub open spec fn match_left_s(ts: Seq<TokenV>, p: int, c: Ctx) -> Option<(MatchLeftValueV, int)> {
    if p < 0 || p >= ts.len() {
        None
    } else {
        match ts[p].text {
            None => None,
            Some(base) => if base == seq!['_'] {
                Some((MatchLeftValueV::Enum { base, value: seq!['_'], args: Seq::empty() }, p + 1))
            } else if p + 1 >= ts.len() {
                None
            } else if ts[p + 1].kind == TokenType::Colon {
                match expect_s(ts, p + 2, TokenType::Colon) {
                    None => None,
                    Some(q) => if q >= ts.len() {
                        None
                    } else {
                        match ts[q].text {
                            None => None,
                            Some(value) => if q + 1 >= ts.len() {
                                None
                            } else if ts[q + 1].kind == TokenType::OpenParen {
                                match pattern_names_s(ts, q + 2) {
                                    None => None,
                                    Some((args, r)) => match expect_s(ts, r, TokenType::CloseParen) {
                                        None => None,
                                        Some(r2) => Some((MatchLeftValueV::Enum { base, value, args }, r2)),
                                    },
                                }
                            } else {
                                Some((MatchLeftValueV::Enum { base, value, args: Seq::empty() }, q + 1))
                            },
                        }
                    },
                }
            } else {
                match expr_s(ts, p, c) {
                    None => None,
                    Some((e, q)) => Some((MatchLeftValueV::Expr { expr: e }, q)),
                }
            },
        }
    }
}

// ---------------------------------------------------------------------------
// Statements
// ---------------------------------------------------------------------------

/// `return;` or `return expr;`.
#[verifier::opaque]
pub open spec fn ret_s(ts: Seq<TokenV>, p: int, c: Ctx) -> Option<(StmtV, int)> {
    let q = p + 1;
    if p < 0 || q >= ts.len() {
        None
    } else if ts[q].kind != TokenType::Semi {
        match expr_s(ts, q, c) {
            None => None,
            Some((e, r)) => match expect_s(ts, r, TokenType::Semi) {
                None => None,
                Some(r2) => Some((mk_stmt(StmtKindV::Return(Some(e)), c), r2)),
            },
        }
    } else {
        Some((mk_stmt(StmtKindV::Return(None), c), q + 1))
    }
}

/// `asm { "..." ... }`.
#[verifier::opaque]
pub open spec fn asm_s(ts: Seq<TokenV>, p: int, c: Ctx) -> Option<(StmtV, int)> {
    if p < 0 || p + 1 >= ts.len() {
        None
    } else {
        match asm_lines_s(ts, p + 2) {
            None => None,
            Some((lines, q)) => Some((mk_stmt(StmtKindV::AsmCode(lines), c), q)),
        }
    }
}

/// `global T name = expr;`.
#[verifier::opaque]
pub open spec fn global_s(ts: Seq<TokenV>, p: int, c: Ctx) -> Option<(StmtV, int)> {
    match declaration_s(ts, p + 1, c) {
        None => None,
        Some((d, q)) => match expect_s(ts, q, TokenType::Semi) {
            None => None,
            Some(q2) => Some((mk_stmt(StmtKindV::GlobalDecl(Box::new(mk_stmt(StmtKindV::Declaration(d), c))), c), q2)),
        },
    }
}

/// An expression followed by `;`.
#[verifier::opaque]
pub open spec fn expr_stmt_s(ts: Seq<TokenV>, p: int, c: Ctx) -> Option<(StmtV, int)> {
    match expr_s(ts, p, c) {
        None => None,
        Some((e, q)) => match expect_s(ts, q, TokenType::Semi) {
            None => None,
            Some(q2) => Some((mk_stmt(StmtKindV::ExprStmt(e), c), q2)),
        },
    }
}

/// One statement; declarations change the context for what follows.
/// Imports are not statements here: they are resolved between top-level
/// statements (see `top_level_s`).
pub open spec fn stmt_s(ts: Seq<TokenV>, p: int, c: Ctx) -> Option<(StmtV, int, Ctx)>
    decreases ts.len() - p, 10int,
{
    if p < 0 || p >= ts.len() {
        None
    } else {
        match ts[p].kind {
            TokenType::If => if_s(ts, p, c),
            TokenType::While => while_s(ts, p, c),
            TokenType::For => for_s(ts, p, c),
            TokenType::OpenScope => block_s(ts, p, c),
            TokenType::Return => match ret_s(ts, p, c) {
                None => None,
                Some((st, q)) => Some((st, q, c)),
            },
            TokenType::Asm => match asm_s(ts, p, c) {
                None => None,
                Some((st, q)) => Some((st, q, c)),
            },
            TokenType::Func => func_s(ts, p, c),
            TokenType::Struct => struct_init_s(ts, p, c),
            TokenType::Global => match global_s(ts, p, c) {
                None => None,
                Some((st, q)) => Some((st, q, c)),
            },
            TokenType::Enum => enum_s(ts, p, c),
            TokenType::Match => match_s(ts, p, c),
            TokenType::ExternFn => extern_s(ts, p, c),
            TokenType::Import => None,
            _ => if is_type_s(ts[p], c) {
                match declaration_s(ts, p, c) {
                    None => None,
                    Some((d, q)) => match expect_s(ts, q, TokenType::Semi) {
                        None => None,
                        Some(q2) => Some((mk_stmt(StmtKindV::Declaration(d), c), q2, c)),
                    },
                }
            } else {
                match assignment_start_s(ts, p) {
                    None => None,
                    Some(true) => match assignment_s(ts, p, c) {
                        None => None,
                        Some((st, q)) => match expect_s(ts, q, TokenType::Semi) {
                            None => None,
                            Some(q2) => Some((st, q2, c)),
                        },
                    },
                    Some(false) => match expr_stmt_s(ts, p, c) {
                        None => None,
                        Some((st, q)) => Some((st, q, c)),
                    },
                }
            },
        }
    }
}

/// `if cond stmt` with an optional `else stmt`.
pub open spec fn if_s(ts: Seq<TokenV>, p: int, c: Ctx) -> Option<(StmtV, int, Ctx)>
    decreases ts.len() - p, 9int,
{
    match expr_s(ts, p + 1, c) {
        None => None,
        Some((cond, q)) => if q <= p || q > ts.len() {
            None
        } else {
            match stmt_s(ts, q, c) {
                None => None,
                Some((ib, q2, c1)) => if q2 <= p || q2 >= ts.len() {
                    None
                } else if ts[q2].kind == TokenType::Else {
                    match stmt_s(ts, q2 + 1, c1) {
                        None => None,
                        Some((eb, q3, c2)) => Some((mk_stmt(StmtKindV::If {
                            condition: cond,
                            if_block: Box::new(ib),
                            else_block: Some(Box::new(eb)),
                        }, c2), q3, c2)),
                    }
                } else {
                    Some((mk_stmt(StmtKindV::If { condition: cond, if_block: Box::new(ib), else_block: None }, c1), q2, c1))
                },
            }
        },
    }
}

/// `while cond stmt`.
pub open spec fn while_s(ts: Seq<TokenV>, p: int, c: Ctx) -> Option<(StmtV, int, Ctx)>
    decreases ts.len() - p, 9int,
{
    match expr_s(ts, p + 1, c) {
        None => None,
        Some((cond, q)) => if q <= p || q > ts.len() {
            None
        } else {
            match stmt_s(ts, q, c) {
                None => None,
                Some((body, q2, c1)) => Some((mk_stmt(StmtKindV::While { condition: cond, body: Box::new(body) }, c1), q2, c1)),
            }
        },
    }
}

/// `for (init; cond; update) stmt`; each part may be empty.
pub open spec fn for_s(ts: Seq<TokenV>, p: int, c: Ctx) -> Option<(StmtV, int, Ctx)>
    decreases ts.len() - p, 9int,
{
    let q = p + 2;
    if p < 0 || q >= ts.len() {
        None
    } else {
        let init = if is_type_s(ts[q], c) {
            match declaration_s(ts, q, c) {
                None => None,
                Some((d, r)) => Some((Some(Box::new(mk_stmt(StmtKindV::Declaration(d), c))), r)),
            }
        } else {
            Some((None, q))
        };
        match init {
            None => None,
            Some((init, r)) => match expect_s(ts, r, TokenType::Semi) {
                None => None,
                Some(r1) => if r1 >= ts.len() {
                    None
                } else {
                    let cond = if ts[r1].kind != TokenType::Semi {
                        match expr_s(ts, r1, c) {
                            None => None,
                            Some((e, r2)) => Some((Some(e), r2)),
                        }
                    } else {
                        Some((None, r1))
                    };
                    match cond {
                        None => None,
                        Some((cond, r2)) => match expect_s(ts, r2, TokenType::Semi) {
                            None => None,
                            Some(r3) => if r3 >= ts.len() {
                                None
                            } else {
                                let update = if ts[r3].kind != TokenType::CloseParen {
                                    match assignment_s(ts, r3, c) {
                                        None => None,
                                        Some((st, r4)) => Some((Some(Box::new(st)), r4)),
                                    }
                                } else {
                                    Some((None, r3))
                                };
                                match update {
                                    None => None,
                                    Some((update, r4)) => if r4 <= p || r4 >= ts.len() {
                                        None
                                    } else {
                                        match stmt_s(ts, r4 + 1, c) {
                                            None => None,
                                            Some((body, r5, c1)) => Some((mk_stmt(StmtKindV::For {
                                                init,
                                                condition: cond,
                                                update,
                                                body: Box::new(body),
                                            }, c1), r5, c1)),
                                        }
                                    },
                                }
                            },
                        },
                    }
                },
            },
        }
    }
}

/// `fn name<..>(params) -> T stmt`: a function, generic when it has
/// generic parameters.
pub open spec fn func_s(ts: Seq<TokenV>, p: int, c: Ctx) -> Option<(StmtV, int, Ctx)>
    decreases ts.len() - p, 9int,
{
    match expect_s(ts, p, TokenType::Func) {
        None => None,
        Some(q) => if q >= ts.len() {
            None
        } else {
            match ts[q].text {
                None => None,
                Some(name) => match generic_s(ts, q + 1, c) {
                    None => None,
                    Some((gs, q1, c1)) => match args_s(ts, q1, c1) {
                        None => None,
                        Some((args, q2)) => match ret_type_s(ts, q2, c1) {
                            None => None,
                            Some((ret_type, q3)) => if q3 <= p || q3 > ts.len() {
                                None
                            } else {
                                match stmt_s(ts, q3, c1) {
                                    None => None,
                                    Some((body, q4, c2)) => {
                                        let kind = if gs.len() > 0 {
                                            StmtKindV::GenericInitFunc { name, generic_types: gs, args, ret_type, data: Box::new(body) }
                                        } else {
                                            StmtKindV::InitFunc { name, args, ret_type, data: Box::new(body) }
                                        };
                                        Some((mk_stmt(kind, c2), q4, c2))
                                    },
                                }
                            },
                        },
                    },
                },
            }
        },
    }
}

/// `{ stmt ... }`.
pub open spec fn block_s(ts: Seq<TokenV>, p: int, c: Ctx) -> Option<(StmtV, int, Ctx)>
    decreases ts.len() - p, 9int,
{
    if p < 0 || p >= ts.len() {
        None
    } else {
        match block_items_s(ts, p + 1, c) {
            None => None,
            Some((items, q, c1)) => if q < 0 || q >= ts.len() {
                None
            } else {
                Some((mk_stmt(StmtKindV::Block(items), c1), q + 1, c1))
            },
        }
    }
}

/// Statements up to `}` (not consumed).
pub open spec fn block_items_s(ts: Seq<TokenV>, p: int, c: Ctx) -> Option<(Seq<StmtV>, int, Ctx)>
    decreases ts.len() - p, 11int,
{
    if p < 0 || p >= ts.len() {
        None
    } else if ts[p].kind == TokenType::CloseScope {
        Some((Seq::empty(), p, c))
    } else {
        match stmt_s(ts, p, c) {
            None => None,
            Some((st, q, c1)) => if q <= p || q > ts.len() {
                None
            } else {
                match block_items_s(ts, q, c1) {
                    None => None,
                    Some((rest, r, c2)) => Some((seq![st] + rest, r, c2)),
                }
            },
        }
    }
}

/// `match expr { left => stmt, ... }`.
pub open spec fn match_s(ts: Seq<TokenV>, p: int, c: Ctx) -> Option<(StmtV, int, Ctx)>
    decreases ts.len() - p, 9int,
{
    match expr_s(ts, p + 1, c) {
        None => None,
        Some((e, q)) => match expect_s(ts, q, TokenType::OpenScope) {
            None => None,
            Some(q1) => if q1 <= p || q1 > ts.len() {
                None
            } else {
                match match_arms_s(ts, q1, c) {
                    None => None,
                    Some((arms, q2, c1)) => match expect_s(ts, q2, TokenType::CloseScope) {
                        None => None,
                        Some(q3) => Some((mk_stmt(StmtKindV::Match { expr: e, variants: arms }, c1), q3, c1)),
                    },
                }
            },
        },
    }
}

/// Match arms `left => stmt,` up to `}` (not consumed).
pub open spec fn match_arms_s(ts: Seq<TokenV>, p: int, c: Ctx) -> Option<(Seq<(MatchLeftValueV, StmtV)>, int, Ctx)>
    decreases ts.len() - p, 11int,
{
    if p < 0 || p >= ts.len() {
        None
    } else if ts[p].kind == TokenType::CloseScope {
        Some((Seq::empty(), p, c))
    } else {
        match match_left_s(ts, p, c) {
            None => None,
            Some((left, q)) => match expect_s(ts, q, TokenType::Eq) {
                None => None,
                Some(q1) => match expect_s(ts, q1, TokenType::More) {
                    None => None,
                    Some(q2) => if q2 <= p || q2 > ts.len() {
                        None
                    } else {
                        match stmt_s(ts, q2, c) {
                            None => None,
                            Some((st, q3, c1)) => match expect_s(ts, q3, TokenType::Coma) {
                                None => None,
                                Some(q4) => if q4 <= p || q4 > ts.len() {
                                    None
                                } else {
                                    match match_arms_s(ts, q4, c1) {
                                        None => None,
                                        Some((rest, r, c2)) => Some((seq![(left, st)] + rest, r, c2)),
                                    }
                                },
                            },
                        }
                    },
                },
            },
        }
    }
}

/// Top-level statements from `p` until the end of the tokens or an `import`
/// (whose file has to be read before parsing goes on).
pub open spec fn top_level_s(ts: Seq<TokenV>, p: int, c: Ctx) -> Option<(Seq<StmtV>, int, Ctx)>
    decreases ts.len() - p,
{
    if p < 0 || p >= ts.len() || ts[p].kind == TokenType::Import {
        Some((Seq::empty(), p, c))
    } else {
        match stmt_s(ts, p, c) {
            None => None,
            Some((st, q, c1)) => if q <= p || q > ts.len() {
                None
            } else {
                match top_level_s(ts, q, c1) {
                    None => None,
                    Some((rest, r, c2)) => Some((seq![st] + rest, r, c2)),
                }
            },
        }
    }
}

/// The type names after adding those of `os`, in order.
pub open spec fn types_union(ts: Seq<Seq<char>>, os: Seq<Seq<char>>) -> Seq<Seq<char>>
    decreases os.len(),
{
    if os.len() == 0 {
        ts
    } else {
        set_add(types_union(ts, os.drop_last()), os.last())
    }
}

/// The struct declarations after declaring those of `os`, in order.
pub open spec fn structs_merge(ss: Seq<StructDefV>, os: Seq<StructDefV>) -> Seq<StructDefV>
    decreases os.len(),
{
    if os.len() == 0 {
        ss
    } else {
        struct_insert(structs_merge(ss, os.drop_last()), os.last())
    }
}

/// The enum declarations after declaring those of `os`, in order.
pub open spec fn enums_merge(es: Seq<EnumDataV>, os: Seq<EnumDataV>) -> Seq<EnumDataV>
    decreases os.len(),
{
    if os.len() == 0 {
        es
    } else {
        enum_insert(enums_merge(es, os.drop_last()), os.last())
    }
}

/// The declarations of `c` after taking over the type names, structs and
/// enums declared by an imported file (its generic parameters stay behind).
pub open spec fn merge_ctx(c: Ctx, imported: Ctx) -> Ctx {
    Ctx {
        types: types_union(c.types, imported.types),
        structs: structs_merge(c.structs, imported.structs),
        enums: enums_merge(c.enums, imported.enums),
        ..c
    }
}


/// A struct declaration makes its name a type and records the struct under
/// it.
pub proof fn lemma_struct_init_declares(ts: Seq<TokenV>, p: int, c: Ctx)
    ensures
        struct_init_s(ts, p, c) matches Some((st, q, c2)) ==> (st.kind matches StmtKindV::InitStruct(d)
            && c2.types.contains(d.name) && struct_find(c2.structs, d.name) == Some(d)),
{
    reveal(struct_init_s);
    if let Some((st, q, c2)) = struct_init_s(ts, p, c) {
        if let StmtKindV::InitStruct(d) = st.kind {
            lemma_struct_find_after_insert(struct_init_generic_ctx(ts, p, c).structs, d);
            if !struct_init_generic_ctx(ts, p, c).types.contains(d.name) {
                assert(set_add(struct_init_generic_ctx(ts, p, c).types, d.name).last() == d.name);
            }
        }
    }
}

/// The declarations in force once the generic parameters of the struct
/// declaration at `p` are read.
pub open spec fn struct_init_generic_ctx(ts: Seq<TokenV>, p: int, c: Ctx) -> Ctx {
    match generic_s(ts, p + 2, c) {
        Some((_, _, c1)) => c1,
        None => c,
    }
}

/// An enum declaration makes its name a type and records the enum under it.
pub proof fn lemma_enum_declares(ts: Seq<TokenV>, p: int, c: Ctx)
    ensures
        enum_s(ts, p, c) matches Some((st, q, c2)) ==> (st.kind matches StmtKindV::InitEnum { name, .. }
            && c2.types.contains(name) && enum_find(c2.enums, name) is Some),
{
    reveal(enum_s);
    if let Some((st, q, c2)) = enum_s(ts, p, c) {
        if let StmtKindV::InitEnum { name, generic_types, variants } = st.kind {
            let c1 = struct_init_generic_ctx(ts, p, c);
            if let Some((vs, q2, size)) = enum_variants_s(ts, expect_s(ts, generic_s(ts, p + 2, c).unwrap().1, TokenType::OpenScope).unwrap(), c1, 0, 8, Seq::empty()) {
                lemma_enum_find_after_insert(c1.enums, EnumDataV { name, generic_type: generic_types, variants: vs, size });
            }
            if !c1.types.contains(name) {
                assert(set_add(c1.types, name).last() == name);
            }
        }
    }
}

/// Taking over the type names of an imported file keeps the names already
/// declared and adds each imported one.
pub proof fn lemma_types_union(ts: Seq<Seq<char>>, os: Seq<Seq<char>>, n: Seq<char>)
    ensures
        types_union(ts, os).contains(n) <==> (ts.contains(n) || os.contains(n)),
    decreases os.len(),
{
    if os.len() > 0 {
        lemma_types_union(ts, os.drop_last(), n);
        let u = types_union(ts, os.drop_last());
        if os.contains(n) && !os.drop_last().contains(n) {
            let j = choose|j: int| 0 <= j < os.len() && os[j] == n;
            if j < os.len() - 1 {
                assert(os.drop_last()[j] == n);
            }
            assert(n == os.last());
            if !u.contains(n) {
                assert(set_add(u, n).last() == n);
            }
        }
        if os.drop_last().contains(n) {
            let j = choose|j: int| 0 <= j < os.drop_last().len() && os.drop_last()[j] == n;
            assert(os[j] == n);
        }
        if set_add(u, os.last()).contains(n) && !u.contains(n) {
            let j = choose|j: int| 0 <= j < set_add(u, os.last()).len() && set_add(u, os.last())[j] == n;
            assert(n == os.last());
            assert(os[os.len() - 1] == n);
        }
        if u.contains(n) {
            let j = choose|j: int| 0 <= j < u.len() && u[j] == n;
            assert(set_add(u, os.last())[j] == n);
        }
    }
}

} // verus!
