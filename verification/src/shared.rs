use vstd::prelude::*;
use vstd::arithmetic::power2::pow2;
use vstd::bits::{low_bits_mask, lemma_usize_low_bits_mask_is_mod};
use vstd::arithmetic::div_mod::{lemma_fundamental_div_mod, lemma_mod_multiples_basic};
use vstd::arithmetic::mul::lemma_mul_is_commutative;
use crate::ir::{Type, TypeV, type_v, types_v, lemma_types_v, LValue, LValueV, strs_v, type_eq, str_eq};
use crate::text::{decimal, push_decimal, push_str, from_lit, chars_of, is_lit, dunder, has_dunder, contains_dunder, starts_with_base};
use crate::tokenizer::{TokenType, token_name_s, token_name};

verus! {

// ---------------------------------------------------------------------------
// Numeric classification
// ---------------------------------------------------------------------------

/// Rank and signedness of a sized integer type: `(rank, is_signed)`.
pub open spec fn numeric_rank_s(t: TypeV) -> Option<(u8, bool)> {
    match t {
        TypeV::Primitive(k) => match k {
            TokenType::I8 => Some((1u8, true)),
            TokenType::I16 => Some((2u8, true)),
            TokenType::I32 => Some((3u8, true)),
            TokenType::I64 => Some((4u8, true)),
            TokenType::U8 => Some((1u8, false)),
            TokenType::U16 => Some((2u8, false)),
            TokenType::U32 => Some((3u8, false)),
            TokenType::U64 => Some((4u8, false)),
            _ => None,
        },
        _ => None,
    }
}

/// The eight sized integer primitives.
pub open spec fn is_int_token(k: TokenType) -> bool {
    ||| k == TokenType::I8
    ||| k == TokenType::I16
    ||| k == TokenType::I32
    ||| k == TokenType::I64
    ||| k == TokenType::U8
    ||| k == TokenType::U16
    ||| k == TokenType::U32
    ||| k == TokenType::U64
}

pub open spec fn is_unsigned_token(k: TokenType) -> bool {
    ||| k == TokenType::U8
    ||| k == TokenType::U16
    ||| k == TokenType::U32
    ||| k == TokenType::U64
}

/// `(rank, is_signed)` of a sized integer type, `None` for any other type.
pub fn numeric_rank(ty: &Type) -> (r: Option<(u8, bool)>)
    ensures
        r == numeric_rank_s(ty@),
{
    match ty {
        Type::Primitive(TokenType::I8) => Some((1, true)),
        Type::Primitive(TokenType::I16) => Some((2, true)),
        Type::Primitive(TokenType::I32) => Some((3, true)),
        Type::Primitive(TokenType::I64) => Some((4, true)),
        Type::Primitive(TokenType::U8) => Some((1, false)),
        Type::Primitive(TokenType::U16) => Some((2, false)),
        Type::Primitive(TokenType::U32) => Some((3, false)),
        Type::Primitive(TokenType::U64) => Some((4, false)),
        _ => None,
    }
}

/// Whether `ty` has a numeric rank.
pub fn is_numeric(ty: &Type) -> (r: bool)
    ensures
        r == (numeric_rank_s(ty@) is Some),
{
    numeric_rank(ty).is_some()
}

/// Whether `ty` is one of the eight sized integer primitives.
pub fn is_number(ty: &Type) -> (r: bool)
    ensures
        r == (ty@ matches TypeV::Primitive(k) && is_int_token(k)),
{
    match ty {
        Type::Primitive(TokenType::I8) | Type::Primitive(TokenType::I16) | Type::Primitive(TokenType::I32)
        | Type::Primitive(TokenType::I64) | Type::Primitive(TokenType::U8) | Type::Primitive(TokenType::U16)
        | Type::Primitive(TokenType::U32) | Type::Primitive(TokenType::U64) => true,
        _ => false,
    }
}

/// Whether `ty` is one of the four unsigned integer primitives.
pub fn is_unsigned(ty: &Type) -> (r: bool)
    ensures
        r == (ty@ matches TypeV::Primitive(k) && is_unsigned_token(k)),
{
    match ty {
        Type::Primitive(TokenType::U8) | Type::Primitive(TokenType::U16) | Type::Primitive(TokenType::U32)
        | Type::Primitive(TokenType::U64) => true,
        _ => false,
    }
}

pub open spec fn same_signedness_s(l: TypeV, r: TypeV) -> bool {
    match (numeric_rank_s(l), numeric_rank_s(r)) {
        (Some((_, ls)), Some((_, rs))) => ls == rs,
        _ => true,
    }
}

/// False only when both types are integers and exactly one of them is signed.
pub fn same_signedness(l: &Type, r: &Type) -> (res: bool)
    ensures
        res == same_signedness_s(l@, r@),
{
    match (numeric_rank(l), numeric_rank(r)) {
        (Some((_, ls)), Some((_, rs))) => ls == rs,
        _ => true,
    }
}

/// The type that an arithmetic operation on `a` and `b` produces: the higher
/// rank wins; on equal rank the unsigned one wins; otherwise `a`. Types that
/// are not integers count as signed of rank 0.
pub open spec fn coerce_numeric_s(a: TypeV, b: TypeV) -> TypeV {
    let (ar, asg) = match numeric_rank_s(a) { Some(x) => x, None => (0u8, true) };
    let (br, bsg) = match numeric_rank_s(b) { Some(x) => x, None => (0u8, true) };
    if ar > br {
        a
    } else if br > ar {
        b
    } else if !asg {
        a
    } else if !bsg {
        b
    } else {
        a
    }
}

pub fn coerce_numeric(a: &Type, b: &Type) -> (r: Type)
    ensures
        r@ == coerce_numeric_s(a@, b@),
{
    let (ar, asg) = match numeric_rank(a) { Some(x) => x, None => (0u8, true) };
    let (br, bsg) = match numeric_rank(b) { Some(x) => x, None => (0u8, true) };
    if ar > br {
        a.duplicate()
    } else if br > ar {
        b.duplicate()
    } else if !asg {
        a.duplicate()
    } else if !bsg {
        b.duplicate()
    } else {
        a.duplicate()
    }
}

// ---------------------------------------------------------------------------
// Alignment
// ---------------------------------------------------------------------------

/// `n` rounded up to the next multiple of `a`.
pub open spec fn round_up(n: int, a: int) -> int {
    ((n + a - 1) / a) * a
}

/// `n` rounded up to a multiple of 16.
pub fn align16(n: usize) -> (r: usize)
    requires
        n + 15 <= usize::MAX,
    ensures
        r == round_up(n as int, 16),
{
    let x = n + 15;
    let r = x & !15;
    assert((x & !15usize) == (x / 16) * 16) by (bit_vector);
    r
}

/// `a` is a power of two `2^k`, for a bit position `k` of `usize`.
pub open spec fn is_power_of_two(a: usize) -> bool {
    exists|k: nat| k < usize::BITS && a as int == pow2(k)
}

/// `(total + a - 1) & !(a - 1)`. For an alignment `a` that is a power of two,
/// this is the least multiple of `a` that is not below `total`.
pub fn aligned_size(total_size: usize, largest_align: usize) -> (r: usize)
    requires
        largest_align >= 1,
        total_size + largest_align - 1 <= usize::MAX,
    ensures
        r == ((total_size + largest_align - 1) as usize & !((largest_align - 1) as usize)),
        is_power_of_two(largest_align) ==> {
            &&& r % largest_align == 0
            &&& total_size <= r < total_size + largest_align
        },
{
    let x = total_size + (largest_align - 1);
    let m = largest_align - 1;
    let r = x & !m;
    proof {
        assert(r + (x & m) == x && (x & m) <= m) by (bit_vector)
            requires
                r == x & !m,
        ;
        if is_power_of_two(largest_align) {
            let k = choose|k: nat| k < usize::BITS && largest_align as int == pow2(k);
            lemma_usize_low_bits_mask_is_mod(x, k);
            assert(low_bits_mask(k) as usize == m);
            let a = largest_align as int;
            lemma_fundamental_div_mod(x as int, a);
            lemma_mul_is_commutative(a, x as int / a);
            lemma_mod_multiples_basic(x as int / a, a);
            assert(r as int == (x as int / a) * a);
        }
    }
    r
}

// ---------------------------------------------------------------------------
// Type names
// ---------------------------------------------------------------------------

/// The name of a primitive type.
pub open spec fn prim_name_s(k: TokenType) -> Seq<char> {
    match k {
        TokenType::I32 => "i32"@,
        TokenType::I64 => "i64"@,
        TokenType::I8 => "i8"@,
        TokenType::I16 => "i16"@,
        TokenType::U32 => "u32"@,
        TokenType::U64 => "u64"@,
        TokenType::U8 => "u8"@,
        TokenType::U16 => "u16"@,
        TokenType::Void => "void"@,
        _ => token_name_s(k),
    }
}

/// The mangled name of a type: pointers get `__ptr`, arrays `__arr__N`,
/// instances of generics `__` followed by their arguments' names joined by `_`.
pub open spec fn type_name_s(t: TypeV) -> Seq<char>
    decreases t,
{
    match t {
        TypeV::Primitive(k) => prim_name_s(k),
        TypeV::Pointer(inner) => type_name_s(*inner) + "__ptr"@,
        TypeV::Array(inner, n) => type_name_s(*inner) + "__arr__"@ + decimal(n as nat),
        TypeV::Struct(n) => n,
        TypeV::Enum(n, _) => n,
        TypeV::Named(n) => n,
        TypeV::GenericType(n) => n,
        TypeV::GenericInst(n, ts) => n + "__"@ + joined_names(ts),
        TypeV::Unknown => "unknown"@,
    }
}

/// The names of a list of types joined by `_`.
pub open spec fn joined_names(ts: Seq<TypeV>) -> Seq<char>
    decreases ts,
{
    if ts.len() == 0 {
        Seq::empty()
    } else if ts.len() == 1 {
        type_name_s(ts[0])
    } else {
        joined_names(ts.drop_last()) + "_"@ + type_name_s(ts.last())
    }
}

fn prim_name(k: TokenType) -> (r: &'static str)
    ensures
        r@ == prim_name_s(k),
{
    match k {
        TokenType::I32 => "i32",
        TokenType::I64 => "i64",
        TokenType::I8 => "i8",
        TokenType::I16 => "i16",
        TokenType::U32 => "u32",
        TokenType::U64 => "u64",
        TokenType::U8 => "u8",
        TokenType::U16 => "u16",
        TokenType::Void => "void",
        _ => token_name(k),
    }
}

/// Appends the names of `ts` joined by `_`.
fn push_joined_names(out: &mut String, ts: &Vec<Type>)
    ensures
        final(out)@ == old(out)@ + joined_names(types_v(ts@)),
    decreases ts@, 0int,
{
    proof { lemma_types_v(ts@); }
    let ghost start = out@;
    let ghost tv = types_v(ts@);
    let mut i: usize = 0;
    while i < ts.len()
        invariant
            i <= ts.len(),
            tv == types_v(ts@),
            tv.len() == ts@.len(),
            forall|j: int| 0 <= j < ts@.len() ==> #[trigger] tv[j] == type_v(ts@[j]),
            out@ == start + joined_names(tv.subrange(0, i as int)),
        decreases ts.len() - i,
    {
        let ghost before = out@;
        if i > 0 {
            push_str(out, "_");
        }
        proof {
            assert(decreases_to!(ts@ => ts@[i as int]));
        }
        let name = mangled_type_name(&ts[i]);
        push_str(out, name.as_str());
        proof {
            let sub = tv.subrange(0, i as int + 1);
            assert(sub.drop_last() =~= tv.subrange(0, i as int));
            assert(sub.last() == tv[i as int]);
            if i == 0 {
                assert(sub.len() == 1);
                assert(out@ =~= start + joined_names(sub));
            } else {
                assert(out@ =~= start + joined_names(sub));
            }
        }
        i = i + 1;
    }
    assert(tv.subrange(0, i as int) =~= tv);
}

/// The mangled name of a type.
pub fn mangled_type_name(ty: &Type) -> (r: String)
    ensures
        r@ == type_name_s(ty@),
    decreases ty, 1int,
{
    match ty {
        Type::Primitive(k) => from_lit(prim_name(*k)),
        Type::Pointer(inner) => {
            let mut s = mangled_type_name(inner);
            push_str(&mut s, "__ptr");
            s
        },
        Type::Array(inner, n) => {
            let mut s = mangled_type_name(inner);
            push_str(&mut s, "__arr__");
            push_decimal(&mut s, *n as u64);
            s
        },
        Type::Struct(n) => n.clone(),
        Type::Enum(n, _) => n.clone(),
        Type::Named(n) => n.clone(),
        Type::GenericType(n) => n.clone(),
        Type::GenericInst(n, ts) => {
            let mut s = n.clone();
            push_str(&mut s, "__");
            push_joined_names(&mut s, ts);
            s
        },
        Type::Unknown => from_lit("unknown"),
    }
}

// ---------------------------------------------------------------------------
// Registers
// ---------------------------------------------------------------------------

/// The 64-bit register that contains the given sub-register; any other name
/// is returned unchanged.
pub open spec fn base_reg_s(r: Seq<char>) -> Seq<char> {
    if r == "eax"@ || r == "ax"@ || r == "al"@ {
        "rax"@
    } else if r == "ebx"@ || r == "bx"@ || r == "bl"@ {
        "rbx"@
    } else if r == "ecx"@ || r == "cx"@ || r == "cl"@ {
        "rcx"@
    } else if r == "edx"@ || r == "dx"@ || r == "dl"@ {
        "rdx"@
    } else if r == "esi"@ || r == "si"@ || r == "sil"@ {
        "rsi"@
    } else if r == "edi"@ || r == "di"@ || r == "dil"@ {
        "rdi"@
    } else {
        r
    }
}

pub fn to_base_reg(reg: &str) -> (r: &str)
    ensures
        r@ == base_reg_s(reg@),
{
    let c = chars_of(reg);
    if is_lit(&c, "eax") || is_lit(&c, "ax") || is_lit(&c, "al") {
        "rax"
    } else if is_lit(&c, "ebx") || is_lit(&c, "bx") || is_lit(&c, "bl") {
        "rbx"
    } else if is_lit(&c, "ecx") || is_lit(&c, "cx") || is_lit(&c, "cl") {
        "rcx"
    } else if is_lit(&c, "edx") || is_lit(&c, "dx") || is_lit(&c, "dl") {
        "rdx"
    } else if is_lit(&c, "esi") || is_lit(&c, "si") || is_lit(&c, "sil") {
        "rsi"
    } else if is_lit(&c, "edi") || is_lit(&c, "di") || is_lit(&c, "dil") {
        "rdi"
    } else {
        reg
    }
}

/// The byte size of an argument of the given type when it is passed in a
/// register; `None` for the types that cannot be passed (unsigned and other
/// primitives, unknown and generic types).
pub open spec fn arg_size_s(t: TypeV) -> Option<int> {
    match t {
        TypeV::Primitive(k) => match k {
            TokenType::I8 => Some(1),
            TokenType::I16 => Some(2),
            TokenType::I32 => Some(4),
            TokenType::I64 => Some(8),
            _ => None,
        },
        TypeV::Unknown | TypeV::GenericType(_) | TypeV::GenericInst(..) => None,
        _ => Some(8),
    }
}

/// The register that holds argument number `pos` (0 to 7) of `size` bytes.
pub open spec fn arg_reg_s(pos: int, size: int) -> Seq<char> {
    if pos == 0 {
        if size == 8 { "rdi"@ } else if size == 4 { "edi"@ } else if size == 2 { "di"@ } else { "dil"@ }
    } else if pos == 1 {
        if size == 8 { "rsi"@ } else if size == 4 { "esi"@ } else if size == 2 { "si"@ } else { "sil"@ }
    } else if pos == 2 {
        if size == 8 { "rdx"@ } else if size == 4 { "edx"@ } else if size == 2 { "dx"@ } else { "dl"@ }
    } else if pos == 3 {
        if size == 8 { "rcx"@ } else if size == 4 { "ecx"@ } else if size == 2 { "cx"@ } else { "cl"@ }
    } else if pos == 4 {
        if size == 8 { "r8"@ } else if size == 4 { "r8d"@ } else if size == 2 { "r8w"@ } else { "r8b"@ }
    } else if pos == 5 {
        if size == 8 { "r9"@ } else if size == 4 { "r9d"@ } else if size == 2 { "r9w"@ } else { "r9b"@ }
    } else if pos == 6 {
        if size == 8 { "r10"@ } else if size == 4 { "r10d"@ } else if size == 2 { "r10w"@ } else { "r10b"@ }
    } else {
        if size == 8 { "r11"@ } else if size == 4 { "r11d"@ } else if size == 2 { "r11w"@ } else { "r11b"@ }
    }
}

/// The register in which argument number `pos` of type `ty` is passed.
pub fn arg_pos(pos: usize, ty: &Type) -> (r: String)
    requires
        pos < 8,
        arg_size_s(ty@) is Some,
    ensures
        r@ == arg_reg_s(pos as int, arg_size_s(ty@).unwrap()),
{
    let size: usize = match ty {
        Type::Primitive(k) => match k {
            TokenType::I8 => 1,
            TokenType::I16 => 2,
            TokenType::I32 => 4,
            _ => 8,
        },
        _ => 8,
    };
    let name: &str = if pos == 0 {
        if size == 8 { "rdi" } else if size == 4 { "edi" } else if size == 2 { "di" } else { "dil" }
    } else if pos == 1 {
        if size == 8 { "rsi" } else if size == 4 { "esi" } else if size == 2 { "si" } else { "sil" }
    } else if pos == 2 {
        if size == 8 { "rdx" } else if size == 4 { "edx" } else if size == 2 { "dx" } else { "dl" }
    } else if pos == 3 {
        if size == 8 { "rcx" } else if size == 4 { "ecx" } else if size == 2 { "cx" } else { "cl" }
    } else if pos == 4 {
        if size == 8 { "r8" } else if size == 4 { "r8d" } else if size == 2 { "r8w" } else { "r8b" }
    } else if pos == 5 {
        if size == 8 { "r9" } else if size == 4 { "r9d" } else if size == 2 { "r9w" } else { "r9b" }
    } else if pos == 6 {
        if size == 8 { "r10" } else if size == 4 { "r10d" } else if size == 2 { "r10w" } else { "r10b" }
    } else {
        if size == 8 { "r11" } else if size == 4 { "r11d" } else if size == 2 { "r11w" } else { "r11b" }
    };
    from_lit(name)
}

/// The name of a struct method as it is emitted: `Struct$method`.
pub fn mangle_method_name(struct_name: &String, method_name: &String) -> (r: String)
    ensures
        r@ == struct_name@ + "$"@ + method_name@,
{
    let mut s = struct_name.clone();
    push_str(&mut s, "$");
    push_str(&mut s, method_name.as_str());
    s
}

// ---------------------------------------------------------------------------
// Generic substitution
// ---------------------------------------------------------------------------

/// The first index at which `name` occurs in `params`.
pub open spec fn first_index(params: Seq<Seq<char>>, name: Seq<char>) -> Option<int>
    decreases params.len(),
{
    if params.len() == 0 {
        None
    } else if params[0] == name {
        Some(0)
    } else {
        match first_index(params.drop_first(), name) {
            Some(i) => Some(i + 1),
            None => None,
        }
    }
}

pub proof fn lemma_first_index(params: Seq<Seq<char>>, name: Seq<char>)
    ensures
        first_index(params, name) matches Some(i) ==> 0 <= i < params.len() && params[i] == name
            && forall|j: int| 0 <= j < i ==> params[j] != name,
        first_index(params, name) is None ==> forall|j: int| 0 <= j < params.len() ==> params[j] != name,
    decreases params.len(),
{
    if params.len() > 0 && params[0] != name {
        lemma_first_index(params.drop_first(), name);
        if let Some(i) = first_index(params, name) {
            assert forall|j: int| 0 <= j < i implies params[j] != name by {
                if j > 0 {
                    assert(params[j] == params.drop_first()[j - 1]);
                }
            }
        } else {
            assert forall|j: int| 0 <= j < params.len() implies params[j] != name by {
                if j > 0 {
                    assert(params[j] == params.drop_first()[j - 1]);
                }
            }
        }
    }
}

/// Replaces each generic parameter named in `params` by the argument at the
/// same position (the first occurrence of the name counts), inside pointers,
/// arrays and generic instances.
pub open spec fn substitute_s(t: TypeV, params: Seq<Seq<char>>, args: Seq<TypeV>) -> TypeV
    decreases t,
{
    match t {
        TypeV::GenericType(n) => match first_index(params, n) {
            Some(p) => args[p],
            None => t,
        },
        TypeV::Pointer(inner) => TypeV::Pointer(Box::new(substitute_s(*inner, params, args))),
        TypeV::Array(inner, n) => TypeV::Array(Box::new(substitute_s(*inner, params, args)), n),
        TypeV::GenericInst(n, ts) => TypeV::GenericInst(n, substitute_all_s(ts, params, args)),
        _ => t,
    }
}

pub open spec fn substitute_all_s(ts: Seq<TypeV>, params: Seq<Seq<char>>, args: Seq<TypeV>) -> Seq<TypeV>
    decreases ts,
{
    if ts.len() == 0 {
        Seq::empty()
    } else {
        substitute_all_s(ts.drop_last(), params, args).push(substitute_s(ts.last(), params, args))
    }
}

/// Every generic parameter that `substitute_s` looks up has an argument.
pub open spec fn substitute_defined(t: TypeV, params: Seq<Seq<char>>, nargs: int) -> bool
    decreases t,
{
    match t {
        TypeV::GenericType(n) => match first_index(params, n) {
            Some(p) => p < nargs,
            None => true,
        },
        TypeV::Pointer(inner) => substitute_defined(*inner, params, nargs),
        TypeV::Array(inner, _) => substitute_defined(*inner, params, nargs),
        TypeV::GenericInst(_, ts) => substitute_all_defined(ts, params, nargs),
        _ => true,
    }
}

pub open spec fn substitute_all_defined(ts: Seq<TypeV>, params: Seq<Seq<char>>, nargs: int) -> bool
    decreases ts,
{
    if ts.len() == 0 {
        true
    } else {
        substitute_all_defined(ts.drop_last(), params, nargs) && substitute_defined(ts.last(), params, nargs)
    }
}

pub proof fn lemma_substitute_all(ts: Seq<TypeV>, params: Seq<Seq<char>>, args: Seq<TypeV>, nargs: int)
    ensures
        substitute_all_s(ts, params, args).len() == ts.len(),
        forall|i: int| 0 <= i < ts.len() ==> #[trigger] substitute_all_s(ts, params, args)[i]
            == substitute_s(ts[i], params, args),
        substitute_all_defined(ts, params, nargs) <==> forall|i: int| 0 <= i < ts.len()
            ==> #[trigger] substitute_defined(ts[i], params, nargs),
    decreases ts.len(),
{
    if ts.len() > 0 {
        lemma_substitute_all(ts.drop_last(), params, args, nargs);
        if substitute_all_defined(ts, params, nargs) {
            assert forall|i: int| 0 <= i < ts.len() implies #[trigger] substitute_defined(ts[i], params, nargs) by {
                if i < ts.len() - 1 {
                    assert(ts[i] == ts.drop_last()[i]);
                }
            }
        }
        if forall|i: int| 0 <= i < ts.len() ==> #[trigger] substitute_defined(ts[i], params, nargs) {
            assert forall|i: int| 0 <= i < ts.drop_last().len() implies #[trigger] substitute_defined(ts.drop_last()[i], params, nargs) by {
                assert(ts[i] == ts.drop_last()[i]);
            }
            assert(substitute_defined(ts[ts.len() - 1], params, nargs));
        }
    }
}

/// Some generic parameter named in `params` occurs in `t`.
pub open spec fn mentions_params_s(t: TypeV, params: Seq<Seq<char>>) -> bool
    decreases t,
{
    match t {
        TypeV::GenericType(n) => params.contains(n),
        TypeV::Pointer(inner) => mentions_params_s(*inner, params),
        TypeV::Array(inner, _) => mentions_params_s(*inner, params),
        TypeV::GenericInst(_, ts) => mentions_params_any_s(ts, params),
        _ => false,
    }
}

pub open spec fn mentions_params_any_s(ts: Seq<TypeV>, params: Seq<Seq<char>>) -> bool
    decreases ts,
{
    if ts.len() == 0 {
        false
    } else {
        mentions_params_any_s(ts.drop_last(), params) || mentions_params_s(ts.last(), params)
    }
}

/// Substitution leaves a type in which none of the parameters occurs
/// unchanged, whatever the arguments (in particular for no parameters).
pub proof fn lemma_substitute_without_params(t: TypeV, params: Seq<Seq<char>>, args: Seq<TypeV>)
    requires
        !mentions_params_s(t, params),
    ensures
        substitute_s(t, params, args) == t,
    decreases t,
{
    match t {
        TypeV::GenericType(n) => {
            lemma_first_index(params, n);
            if let Some(i) = first_index(params, n) {
                assert(params.contains(n));
            }
        },
        TypeV::Pointer(inner) => lemma_substitute_without_params(*inner, params, args),
        TypeV::Array(inner, _) => lemma_substitute_without_params(*inner, params, args),
        TypeV::GenericInst(_, ts) => lemma_substitute_all_without_params(ts, params, args),
        _ => {},
    }
}

/// `lemma_substitute_without_params` for each type of a list.
pub proof fn lemma_substitute_all_without_params(ts: Seq<TypeV>, params: Seq<Seq<char>>, args: Seq<TypeV>)
    requires
        !mentions_params_any_s(ts, params),
    ensures
        substitute_all_s(ts, params, args) == ts,
    decreases ts,
{
    if ts.len() > 0 {
        lemma_substitute_all_without_params(ts.drop_last(), params, args);
        lemma_substitute_without_params(ts.last(), params, args);
        assert(ts.drop_last().push(ts.last()) =~= ts);
    }
}

fn position_of(params: &Vec<String>, name: &String) -> (r: Option<usize>)
    ensures
        match r {
            Some(p) => first_index(strs_v(params@), name@) == Some(p as int),
            None => first_index(strs_v(params@), name@) is None,
        },
{
    let ghost ps = strs_v(params@);
    proof { lemma_first_index(ps, name@); }
    let mut i: usize = 0;
    while i < params.len()
        invariant
            i <= params.len(),
            ps == strs_v(params@),
            ps.len() == params@.len(),
            forall|j: int| 0 <= j < i ==> ps[j] != name@,
            first_index(ps, name@) matches Some(k) ==> 0 <= k < ps.len() && ps[k] == name@
                && forall|j: int| 0 <= j < k ==> ps[j] != name@,
            first_index(ps, name@) is None ==> forall|j: int| 0 <= j < ps.len() ==> ps[j] != name@,
        decreases params.len() - i,
    {
        if params[i].eq(name) {
            assert(ps[i as int] == name@);
            return Some(i);
        }
        i = i + 1;
    }
    None
}

/// Substitutes concrete types for generic parameters (see `substitute_s`).
#[verifier::loop_isolation(false)]
pub fn substitute_type(ty: &Type, params: &Vec<String>, args: &Vec<Type>) -> (r: Type)
    requires
        substitute_defined(ty@, strs_v(params@), args@.len() as int),
    ensures
        r@ == substitute_s(ty@, strs_v(params@), types_v(args@)),
    decreases ty,
{
    match ty {
        Type::GenericType(name) => {
            match position_of(params, name) {
                Some(pos) => {
                    proof { lemma_types_v(args@); }
                    args[pos].duplicate()
                },
                None => ty.duplicate(),
            }
        },
        Type::Pointer(inner) => Type::Pointer(Box::new(substitute_type(inner, params, args))),
        Type::Array(inner, size) => Type::Array(Box::new(substitute_type(inner, params, args)), *size),
        Type::GenericInst(name, inner_args) => {
            let ghost ps = strs_v(params@);
            let ghost avs = types_v(args@);
            let ghost tv = types_v(inner_args@);
            proof {
                lemma_types_v(inner_args@);
                lemma_substitute_all(tv, ps, avs, args@.len() as int);
            }
            let mut out: Vec<Type> = Vec::new();
            let mut i: usize = 0;
            while i < inner_args.len()
                invariant
                    i <= inner_args.len(),
                    ps == strs_v(params@),
                    avs == types_v(args@),
                    tv == types_v(inner_args@),
                    tv.len() == inner_args@.len(),
                    forall|j: int| 0 <= j < inner_args@.len() ==> #[trigger] tv[j] == type_v(inner_args@[j]),
                    forall|j: int| 0 <= j < tv.len() ==> #[trigger] substitute_defined(tv[j], ps, args@.len() as int),
                    out@.len() == i,
                    forall|j: int| 0 <= j < i ==> #[trigger] type_v(out@[j]) == substitute_s(tv[j], ps, avs),
                decreases inner_args.len() - i,
            {
                proof {
                    assert(decreases_to!(*ty => *inner_args));
                    assert(decreases_to!(*inner_args => inner_args[i as int]));
                    assert(decreases_to!(*ty => inner_args[i as int]));
                    assert(substitute_defined(tv[i as int], ps, args@.len() as int));
                }
                let t = substitute_type(&inner_args[i], params, args);
                out.push(t);
                i = i + 1;
            }
            proof {
                lemma_types_v(out@);
                assert(types_v(out@) =~= substitute_all_s(tv, ps, avs));
            }
            Type::GenericInst(name.clone(), out)
        },
        _ => ty.duplicate(),
    }
}

/// The name under which a generic item is instantiated: the base name, then
/// `__` and the argument names joined by `_`; a non-negative overload
/// position is appended as `__N`.
pub open spec fn transform_generic_name_s(name: Seq<char>, generics: Seq<TypeV>, overload_pos: i64) -> Seq<char> {
    if generics.len() == 0 {
        if overload_pos < 0 {
            name
        } else {
            name + "__"@ + decimal(overload_pos as nat)
        }
    } else if overload_pos < 0 {
        name + "__"@ + joined_names(generics)
    } else {
        name + "__"@ + joined_names(generics) + "__"@ + decimal(overload_pos as nat)
    }
}

pub fn transform_generic_name(name: &String, generics: &Vec<Type>, overload_pos: i64) -> (r: String)
    ensures
        r@ == transform_generic_name_s(name@, types_v(generics@), overload_pos),
{
    proof { lemma_types_v(generics@); }
    let mut s = name.clone();
    if generics.len() == 0 {
        if overload_pos >= 0 {
            push_str(&mut s, "__");
            push_decimal(&mut s, overload_pos as u64);
        }
        return s;
    }
    push_str(&mut s, "__");
    push_joined_names(&mut s, generics);
    if overload_pos >= 0 {
        push_str(&mut s, "__");
        push_decimal(&mut s, overload_pos as u64);
    }
    s
}

/// The pairs `(generic_names[i], concrete_types[i])` for every name, in order.
pub fn build_generic_map(generic_names: &Vec<String>, concrete_types: &Vec<Type>) -> (r: Vec<(String, Type)>)
    requires
        generic_names.len() <= concrete_types.len(),
    ensures
        r@.len() == generic_names@.len(),
        forall|i: int| 0 <= i < r@.len() ==> #[trigger] r@[i].0@ == generic_names@[i]@
            && type_v(r@[i].1) == type_v(concrete_types@[i]),
{
    let mut out: Vec<(String, Type)> = Vec::new();
    let mut i: usize = 0;
    while i < generic_names.len()
        invariant
            generic_names.len() <= concrete_types.len(),
            i <= generic_names.len(),
            out@.len() == i,
            forall|j: int| 0 <= j < i ==> #[trigger] out@[j].0@ == generic_names@[j]@
                && type_v(out@[j].1) == type_v(concrete_types@[j]),
        decreases generic_names.len() - i,
    {
        let name = generic_names[i].clone();
        let ty = concrete_types[i].duplicate();
        let ghost before = out@;
        out.push((name, ty));
        assert(out@[i as int].0@ == generic_names@[i as int]@);
        assert(type_v(out@[i as int].1) == type_v(concrete_types@[i as int]));
        assert forall|j: int| 0 <= j < i + 1 implies #[trigger] out@[j].0@ == generic_names@[j]@
            && type_v(out@[j].1) == type_v(concrete_types@[j]) by {
            if j < i {
                assert(out@[j] == before[j]);
            }
        }
        i = i + 1;
    }
    out
}

/// The variable at the root of an assignment target.
pub open spec fn lvalue_root_s(l: LValueV) -> Seq<char>
    decreases l,
{
    match l {
        LValueV::Variable(n) => n,
        LValueV::Field { base, .. } => lvalue_root_s(*base),
        LValueV::Deref(inner) => lvalue_root_s(*inner),
        LValueV::Index { base, .. } => lvalue_root_s(*base),
    }
}

pub fn lvalue_root(lvalue: &LValue) -> (r: String)
    ensures
        r@ == lvalue_root_s(lvalue@),
    decreases lvalue,
{
    match lvalue {
        LValue::Variable(name) => name.clone(),
        LValue::Field { base, .. } => lvalue_root(base),
        LValue::Deref(inner) => lvalue_root(inner),
        LValue::Index { base, .. } => lvalue_root(base),
    }
}

// ---------------------------------------------------------------------------
// Type compatibility
// ---------------------------------------------------------------------------

/// `l` is an instance name `r__...` of the base name `r` (which has no `__`).
pub open spec fn is_instance_of_base(l: Seq<char>, r: Seq<char>) -> bool {
    !has_dunder(r) && (r + dunder()).is_prefix_of(l)
}

/// A pointer and an array (or a pointer to an array) over the same element type.
pub open spec fn ptr_array_compatible(l: TypeV, r: TypeV) -> bool {
    match (l, r) {
        (TypeV::Pointer(p), TypeV::Array(a, _)) => *p == *a,
        (TypeV::Array(a, _), TypeV::Pointer(p)) => *p == *a,
        (TypeV::Pointer(p1), TypeV::Pointer(p2)) => {
            (match *p1 {
                TypeV::Array(e, _) => *e == *p2,
                _ => false,
            }) || (match *p2 {
                TypeV::Array(e, _) => *e == *p1,
                _ => false,
            })
        },
        _ => false,
    }
}

/// Two enums with the same name, or a generic instance and its base enum.
pub open spec fn enums_compatible(l: TypeV, r: TypeV) -> bool {
    match (l, r) {
        (TypeV::Enum(ln, _), TypeV::Enum(rn, _)) => ln == rn || is_instance_of_base(ln, rn)
            || is_instance_of_base(rn, ln),
        _ => false,
    }
}

pub open spec fn void_ptr() -> TypeV {
    TypeV::Pointer(Box::new(TypeV::Primitive(TokenType::Void)))
}

/// `void*` against any pointer.
pub open spec fn void_ptr_compatible(l: TypeV, r: TypeV) -> bool {
    (l == void_ptr() && r is Pointer) || (r == void_ptr() && l is Pointer)
}

/// A named type against a struct, an enum or a named type of the same name.
pub open spec fn named_compatible(l: TypeV, r: TypeV) -> bool {
    match (l, r) {
        (TypeV::Named(a), TypeV::Enum(b, _)) => a == b,
        (TypeV::Enum(a, _), TypeV::Named(b)) => a == b,
        (TypeV::Named(a), TypeV::Struct(b)) => a == b,
        (TypeV::Struct(a), TypeV::Named(b)) => a == b,
        (TypeV::Named(a), TypeV::Named(b)) => a == b,
        _ => false,
    }
}

/// Whether a value of type `r` may stand where type `l` is expected (and
/// vice versa: the relation is symmetric, see `lemma_check_types_symmetric`).
pub open spec fn check_types_s(l: TypeV, r: TypeV) -> bool
    decreases l,
{
    if l == r {
        true
    } else if l is GenericType || r is GenericType {
        true
    } else if ptr_array_compatible(l, r) {
        true
    } else if enums_compatible(l, r) {
        true
    } else if void_ptr_compatible(l, r) {
        true
    } else if named_compatible(l, r) {
        true
    } else {
        match (l, r) {
            (TypeV::Pointer(li), TypeV::Pointer(ri)) => check_types_s(*li, *ri),
            (TypeV::GenericInst(ln, la), TypeV::GenericInst(rn, ra)) => ln == rn && la.len() == ra.len()
                && check_types_all(la, ra),
            _ => false,
        }
    }
}

/// `check_types_s` holds position by position (for lists of equal length).
pub open spec fn check_types_all(ls: Seq<TypeV>, rs: Seq<TypeV>) -> bool
    decreases ls,
{
    if ls.len() == 0 {
        true
    } else {
        check_types_all(ls.drop_last(), rs.drop_last()) && check_types_s(ls.last(), rs.last())
    }
}

pub proof fn lemma_check_types_all(ls: Seq<TypeV>, rs: Seq<TypeV>)
    requires
        ls.len() == rs.len(),
    ensures
        check_types_all(ls, rs) <==> forall|i: int| 0 <= i < ls.len() ==> #[trigger] check_types_s(ls[i], rs[i]),
    decreases ls.len(),
{
    if ls.len() > 0 {
        lemma_check_types_all(ls.drop_last(), rs.drop_last());
        if forall|i: int| 0 <= i < ls.len() ==> #[trigger] check_types_s(ls[i], rs[i]) {
            assert forall|i: int| 0 <= i < ls.drop_last().len() implies #[trigger] check_types_s(ls.drop_last()[i], rs.drop_last()[i]) by {
                assert(ls.drop_last()[i] == ls[i] && rs.drop_last()[i] == rs[i]);
            }
            assert(check_types_s(ls[ls.len() - 1], rs[rs.len() - 1]));
        }
        if check_types_all(ls, rs) {
            assert forall|i: int| 0 <= i < ls.len() implies #[trigger] check_types_s(ls[i], rs[i]) by {
                if i < ls.len() - 1 {
                    assert(ls.drop_last()[i] == ls[i] && rs.drop_last()[i] == rs[i]);
                }
            }
        }
    }
}

/// Type compatibility is symmetric: `r` may stand for `l` exactly when `l`
/// may stand for `r`.
pub proof fn lemma_check_types_symmetric(l: TypeV, r: TypeV)
    ensures
        check_types_s(l, r) == check_types_s(r, l),
    decreases l,
{
    match (l, r) {
        (TypeV::Pointer(li), TypeV::Pointer(ri)) => {
            lemma_check_types_symmetric(*li, *ri);
        },
        (TypeV::GenericInst(ln, la), TypeV::GenericInst(rn, ra)) => {
            if la.len() == ra.len() {
                lemma_check_types_all(la, ra);
                lemma_check_types_all(ra, la);
                assert forall|i: int| 0 <= i < la.len() implies check_types_s(la[i], ra[i]) == check_types_s(ra[i], la[i]) by {
                    assert(decreases_to!(l => la));
                    assert(decreases_to!(la => la[i]));
                    lemma_check_types_symmetric(la[i], ra[i]);
                }
                if check_types_all(la, ra) {
                    assert forall|i: int| 0 <= i < ra.len() implies #[trigger] check_types_s(ra[i], la[i]) by {
                        assert(check_types_s(la[i], ra[i]));
                    }
                }
                if check_types_all(ra, la) {
                    assert forall|i: int| 0 <= i < la.len() implies #[trigger] check_types_s(la[i], ra[i]) by {
                        assert(check_types_s(ra[i], la[i]));
                    }
                }
            }
        },
        _ => {},
    }
}

/// Every type is compatible with itself.
pub proof fn lemma_check_types_reflexive(t: TypeV)
    ensures
        check_types_s(t, t),
{
}

/// A type has a numeric rank exactly when it is one of the eight sized
/// integer primitives: `is_numeric` and `is_number` agree.
pub proof fn lemma_numeric_iff_number(t: TypeV)
    ensures
        (numeric_rank_s(t) is Some) == (t matches TypeV::Primitive(k) && is_int_token(k)),
{
}

/// The type chosen for an arithmetic operation is one of its operands.
pub proof fn lemma_coerce_numeric_operand(a: TypeV, b: TypeV)
    ensures
        coerce_numeric_s(a, b) == a || coerce_numeric_s(a, b) == b,
{
}

/// Two integer types of the same signedness are coerced to the same type in
/// either order.
pub proof fn lemma_coerce_numeric_commutes(a: TypeV, b: TypeV)
    requires
        numeric_rank_s(a) is Some,
        numeric_rank_s(b) is Some,
        same_signedness_s(a, b),
    ensures
        coerce_numeric_s(a, b) == coerce_numeric_s(b, a),
{
}

/// Signedness agreement does not depend on the order of the operands.
pub proof fn lemma_same_signedness_symmetric(a: TypeV, b: TypeV)
    ensures
        same_signedness_s(a, b) == same_signedness_s(b, a),
{
}

fn is_void_ptr(t: &Type) -> (r: bool)
    ensures
        r == (t@ == void_ptr()),
{
    proof { reveal_with_fuel(type_v, 2); }
    match t {
        Type::Pointer(inner) => match &**inner {
            Type::Primitive(TokenType::Void) => true,
            _ => false,
        },
        _ => false,
    }
}

fn is_pointer(t: &Type) -> (r: bool)
    ensures
        r == (t@ is Pointer),
{
    match t {
        Type::Pointer(_) => true,
        _ => false,
    }
}

fn ptr_array_compat(l: &Type, r: &Type) -> (res: bool)
    ensures
        res == ptr_array_compatible(l@, r@),
{
    proof { reveal_with_fuel(type_v, 2); }
    match (l, r) {
        (Type::Pointer(p), Type::Array(a, _)) => type_eq(p, a),
        (Type::Array(a, _), Type::Pointer(p)) => type_eq(p, a),
        (Type::Pointer(p1), Type::Pointer(p2)) => {
            let first = match &**p1 {
                Type::Array(e, _) => type_eq(e, p2),
                _ => false,
            };
            if first {
                return true;
            }
            match &**p2 {
                Type::Array(e, _) => type_eq(e, p1),
                _ => false,
            }
        },
        _ => false,
    }
}

fn instance_of_base(l: &String, r: &String) -> (res: bool)
    ensures
        res == is_instance_of_base(l@, r@),
{
    let lc = chars_of(l.as_str());
    let rc = chars_of(r.as_str());
    !contains_dunder(&rc) && starts_with_base(&lc, &rc)
}

fn enums_compat(l: &Type, r: &Type) -> (res: bool)
    ensures
        res == enums_compatible(l@, r@),
{
    match (l, r) {
        (Type::Enum(ln, _), Type::Enum(rn, _)) => str_eq(ln, rn) || instance_of_base(ln, rn)
            || instance_of_base(rn, ln),
        _ => false,
    }
}

fn named_compat(l: &Type, r: &Type) -> (res: bool)
    ensures
        res == named_compatible(l@, r@),
{
    match (l, r) {
        (Type::Named(a), Type::Enum(b, _)) => str_eq(a, b),
        (Type::Enum(a, _), Type::Named(b)) => str_eq(a, b),
        (Type::Named(a), Type::Struct(b)) => str_eq(a, b),
        (Type::Struct(a), Type::Named(b)) => str_eq(a, b),
        (Type::Named(a), Type::Named(b)) => str_eq(a, b),
        _ => false,
    }
}

/// Whether two types are compatible for assignment, comparison and calls.
#[verifier::loop_isolation(false)]
pub fn check_types(left: &Type, right: &Type) -> (r: bool)
    ensures
        r == check_types_s(left@, right@),
    decreases left,
{
    if type_eq(left, right) {
        return true;
    }
    let lg = match left { Type::GenericType(_) => true, _ => false };
    let rg = match right { Type::GenericType(_) => true, _ => false };
    if lg || rg {
        return true;
    }
    if ptr_array_compat(left, right) {
        return true;
    }
    if enums_compat(left, right) {
        return true;
    }
    if (is_void_ptr(left) && is_pointer(right)) || (is_void_ptr(right) && is_pointer(left)) {
        return true;
    }
    if named_compat(left, right) {
        return true;
    }
    match (left, right) {
        (Type::Pointer(li), Type::Pointer(ri)) => check_types(li, ri),
        (Type::GenericInst(ln, la), Type::GenericInst(rn, ra)) => {
            let ghost lv = types_v(la@);
            let ghost rv = types_v(ra@);
            proof {
                lemma_types_v(la@);
                lemma_types_v(ra@);
            }
            if !str_eq(ln, rn) || la.len() != ra.len() {
                return false;
            }
            proof {
                lemma_check_types_all(lv, rv);
            }
            let mut i: usize = 0;
            let mut all_match = true;
            while i < la.len() && all_match
                invariant
                    i <= la.len(),
                    la.len() == ra.len(),
                    all_match ==> forall|j: int| 0 <= j < i ==> #[trigger] check_types_s(lv[j], rv[j]),
                    !all_match ==> !check_types_all(lv, rv),
                decreases la.len() - i + (if all_match { 1int } else { 0int }),
            {
                proof {
                    assert(decreases_to!(*left => *la));
                    assert(decreases_to!(*la => la[i as int]));
                    assert(decreases_to!(*left => la[i as int]));
                }
                if !check_types(&la[i], &ra[i]) {
                    assert(!check_types_s(lv[i as int], rv[i as int]));
                    all_match = false;
                } else {
                    i = i + 1;
                }
            }
            all_match
        },
        _ => false,
    }
}

} // verus!
