use vstd::prelude::*;
use crate::ir::{Expr, ExprV, Type, TypeV, Declaration, exprs_v, expr_v, strs_v};
use crate::codegen::{Gen, FuncData, with_id, reg_for_size_s, ins1, ins2, line, arg_base_reg_s, arg_count_s,
    decl_types, type_size_s, struct_size_of, enum_of, ins1_text, ins2_text};
use crate::analyzer::entries_v;
use crate::eval::{eval_s, eval_defined, tables_of};
use crate::text::{decimal, from_lit, push_str, push_decimal};

verus! {

// ---------------------------------------------------------------------------
// Passing arguments to a call
// ---------------------------------------------------------------------------

/// Passing a value held in `rval` as argument `pos` (see `push_arg`): the
/// text added to the function body and the generator's tables afterwards
/// (past the sixth argument, the stack grows by the value's size).
pub open spec fn push_arg_s(g: Gen, pos: int, t: TypeV, rval: Seq<char>) -> (Seq<char>, Gen) {
    if pos < 6 {
        (ins2("mov"@, reg_for_size_s(arg_base_reg_s(pos), t, entries_v(g.generics@)).unwrap(), rval), g)
    } else {
        let r = g.stack_pos + type_size_s(t, g.layout(), g.size_fuel()).unwrap();
        let h = if g.highest_stack_pos < r { r } else { g.highest_stack_pos as int };
        (ins1("push"@, rval), Gen { stack_pos: r as usize, highest_stack_pos: h as usize, ..g })
    }
}

/// The arguments `push_arg_s` describes: a register part for the first six,
/// a known size that fits on the stack for the others.
pub open spec fn push_arg_defined(g: Gen, pos: int, t: TypeV) -> bool {
    &&& 0 <= pos
    &&& pos < 6 ==> reg_for_size_s(arg_base_reg_s(pos), t, entries_v(g.generics@)) is Some
    &&& pos >= 6 ==> (type_size_s(t, g.layout(), g.size_fuel()) matches Some(n) && g.stack_pos + n <= usize::MAX)
}

/// `push qword [rax + 8*i]` for `i` from `n - 1` down to 0.
pub open spec fn push_chunks_s(n: nat) -> Seq<char>
    decreases n,
{
    if n == 0 {
        Seq::empty()
    } else {
        ins1("push"@, "qword [rax + "@ + decimal(((n - 1) * 8) as nat) + "]"@) + push_chunks_s((n - 1) as nat)
    }
}

/// The load of the last `rem` bytes of a value at `[rax + off]` into the
/// part of `r10` of that size (nothing for other sizes).
pub open spec fn rem_load_s(rem: int, off: int) -> Seq<char> {
    let mem = "[rax + "@ + decimal(off as nat) + "]"@;
    if rem == 4 {
        ins2("mov"@, "r10d"@, mem)
    } else if rem == 2 {
        ins2("mov"@, "r10w"@, mem)
    } else if rem == 1 {
        ins2("mov"@, "r10b"@, mem)
    } else {
        Seq::empty()
    }
}

/// Passing a struct or enum value of `size` bytes whose address is in
/// `rax`, with `idx` argument registers still unassigned: up to 8 bytes
/// in one register; up to 16 bytes in two, while at least one register is
/// left among the first six; otherwise copied to the stack in 8-byte chunks
/// (the last, shorter chunk first, through `r10`), a struct padded to 16
/// bytes. Gives the text, the tables afterwards, the registers still
/// unassigned and the stack bytes taken.
pub open spec fn aggregate_s(g: Gen, t: TypeV, idx: int, size: int, is_struct: bool) -> (Seq<char>, Gen, int, int) {
    if size <= 8 {
        let (p, g1) = push_arg_s(g, idx - 1, t, "rax"@);
        (line("    mov rax, [rax]"@) + p, g1, idx - 1, 0)
    } else if size <= 16 && idx < 6 && idx >= 1 {
        let (p1, g1) = push_arg_s(g, idx - 1, t, "rax"@);
        let (p2, g2) = push_arg_s(g1, idx - 2, t, "rax"@);
        (line("    mov r10, rax"@) + line("    mov rax, [r10 + 8]"@) + p1 + line("    mov rax, [r10]"@) + p2, g2, idx - 2, 0)
    } else {
        let chunks = (size + 7) / 8;
        let rem = size % 8;
        let full = if rem > 0 { chunks - 1 } else { chunks };
        let head = if rem > 0 {
            line("    xor r10, r10"@) + line("    sub rsp, 16"@) + rem_load_s(rem, (chunks - 1) * 8) + line("    mov [rsp], r10"@)
        } else {
            Seq::empty()
        };
        let pad = is_struct && full % 2 == 1;
        (head + push_chunks_s(full as nat) + (if pad { line("    sub rsp, 8"@) } else { Seq::empty() }), g, idx,
            (if rem > 0 { 16int } else { 0int }) + full * 8 + (if pad { 8int } else { 0int }))
    }
}

/// The aggregates `aggregate_s` describes: the registers they take exist,
/// and an enum copied to the stack ends in a chunk of 1, 2 or 4 bytes.
pub open spec fn aggregate_defined(g: Gen, t: TypeV, idx: int, size: int, is_struct: bool) -> bool {
    &&& 0 <= size && size + 7 <= usize::MAX
    &&& aggregate_s(g, t, idx, size, is_struct).3 <= usize::MAX
    &&& if size <= 8 {
        idx >= 1 && push_arg_defined(g, idx - 1, t)
    } else if size <= 16 && idx < 6 && idx >= 1 {
        &&& idx >= 2
        &&& push_arg_defined(g, idx - 1, t)
        &&& push_arg_defined(push_arg_s(g, idx - 1, t, "rax"@).1, idx - 2, t)
    } else {
        !is_struct ==> (size % 8 == 0 || size % 8 == 1 || size % 8 == 2 || size % 8 == 4)
    }
}

/// Passing the value of one argument of type `t` (evaluated into `rax`),
/// with `idx` argument registers still unassigned: structs and enums by
/// `aggregate_s`, other values from the part of `rax` of their size.
#[verifier::opaque]
pub open spec fn place_s(g: Gen, t: TypeV, idx: int) -> (Seq<char>, Gen, int, int) {
    match t {
        TypeV::Enum(n, _) => aggregate_s(g, t, idx, enum_of(g.layout().enums, n).unwrap().size as int, false),
        TypeV::Struct(n) => aggregate_s(g, t, idx, struct_size_of(g.layout().structs, n).unwrap(), true),
        _ => {
            let (p, g1) = push_arg_s(g, idx - 1, t, reg_for_size_s("rax"@, t, entries_v(g.generics@)).unwrap());
            (p, g1, idx - 1, 0)
        },
    }
}

#[verifier::opaque]
pub open spec fn place_defined(g: Gen, t: TypeV, idx: int) -> bool {
    match t {
        TypeV::Enum(n, _) => enum_of(g.layout().enums, n) matches Some(e)
            && aggregate_defined(g, t, idx, e.size as int, false),
        TypeV::Struct(n) => struct_size_of(g.layout().structs, n) matches Some(sz)
            && aggregate_defined(g, t, idx, sz, true),
        _ => reg_for_size_s("rax"@, t, entries_v(g.generics@)) is Some && idx >= 1 && push_arg_defined(g, idx - 1, t),
    }
}

/// The arguments `args[0..k]` passed last first, each evaluated at the type
/// of its parameter (see `eval_s`) and placed (see `place_s`), starting with
/// `idx` argument registers unassigned: the texts added to the main output
/// and to the function body, the tables afterwards, the registers still
/// unassigned and the stack bytes taken.
pub open spec fn args_s(args: Seq<ExprV>, ts: Seq<TypeV>, k: int, g: Gen, idx: int) -> (Seq<char>, Seq<char>, Gen, int, int, Seq<Seq<char>>)
    decreases k,
{
    if k <= 0 {
        (Seq::empty(), Seq::empty(), g, idx, 0, Seq::empty())
    } else {
        let (_, o1, f1, id1, d1) = eval_s(args[k - 1], ts[k - 1], g);
        let (f2, g2, idx2, sp) = place_s(with_id(g, id1 as usize), ts[k - 1], idx);
        let (o3, f3, g3, idx3, sp3, d3) = args_s(args, ts, k - 1, g2, idx2);
        (o1 + o3, f1 + f2 + f3, g3, idx3, sp + sp3, d1 + d3)
    }
}

/// The argument lists on which `args_s` goes through.
pub open spec fn args_defined(args: Seq<ExprV>, ts: Seq<TypeV>, k: int, g: Gen, idx: int) -> bool
    decreases k,
{
    if k <= 0 {
        true
    } else {
        let id1 = eval_s(args[k - 1], ts[k - 1], g).3;
        let (f2, g2, idx2, sp) = place_s(with_id(g, id1 as usize), ts[k - 1], idx);
        &&& eval_defined(args[k - 1], ts[k - 1], g)
        &&& place_defined(with_id(g, id1 as usize), ts[k - 1], idx)
        &&& args_defined(args, ts, k - 1, g2, idx2)
    }
}

/// Placing one argument takes no negative stack space.
proof fn lemma_place_space(g: Gen, t: TypeV, idx: int)
    requires
        place_defined(g, t, idx),
    ensures
        place_s(g, t, idx).3 >= 0,
{
    reveal(place_s);
    reveal(place_defined);
    match t {
        TypeV::Enum(n, _) => {
            let size = enum_of(g.layout().enums, n).unwrap().size as int;
            assert((size + 7) / 8 >= 0);
            assert(size % 8 > 0 ==> (size + 7) / 8 >= 1);
        },
        TypeV::Struct(n) => {
            let size = struct_size_of(g.layout().structs, n).unwrap();
            lemma_struct_size_nonneg(g.layout().structs, n);
            assert(size % 8 > 0 ==> (size + 7) / 8 >= 1);
        },
        _ => {},
    }
}

/// Recorded struct sizes are not negative.
proof fn lemma_struct_size_nonneg(ss: Seq<crate::codegen::StructData>, n: Seq<char>)
    ensures
        struct_size_of(ss, n) matches Some(sz) ==> sz >= 0,
    decreases ss.len(),
{
    if ss.len() > 0 {
        lemma_struct_size_nonneg(ss.drop_first(), n);
    }
}

/// The stack bytes that passing arguments takes are not negative.
pub proof fn lemma_args_space(args: Seq<ExprV>, ts: Seq<TypeV>, k: int, g: Gen, idx: int)
    requires
        args_defined(args, ts, k, g, idx),
    ensures
        args_s(args, ts, k, g, idx).4 >= 0,
    decreases k,
{
    if k > 0 {
        reveal(place_s);
        let id1 = eval_s(args[k - 1], ts[k - 1], g).3;
        let (f2, g2, idx2, sp) = place_s(with_id(g, id1 as usize), ts[k - 1], idx);
        lemma_args_space(args, ts, k - 1, g2, idx2);
        lemma_place_space(with_id(g, id1 as usize), ts[k - 1], idx);
    }
}

/// The values of a list of expressions, one for one.
pub proof fn lemma_exprs_v(es: Seq<Expr>)
    ensures
        exprs_v(es).len() == es.len(),
        forall|i: int| 0 <= i < es.len() ==> #[trigger] exprs_v(es)[i] == expr_v(es[i]),
    decreases es.len(),
{
    if es.len() > 0 {
        lemma_exprs_v(es.drop_last());
        assert forall|i: int| 0 <= i < es.len() implies #[trigger] exprs_v(es)[i] == expr_v(es[i]) by {
            if i < es.len() - 1 {
                assert(es.drop_last()[i] == es[i]);
            }
        }
    }
}

impl Gen {
    /// Emits `push qword [rax + 8*i]` for `i` from `full - 1` down to 0.
    fn push_chunks(&mut self, full: usize)
        requires
            full * 8 <= usize::MAX,
        ensures
            final(self).func_data@ == old(self).func_data@ + push_chunks_s(full as nat),
            final(self).out == old(self).out,
            final(self).same_tables(*old(self)),
    {
        let mut i = full;
        while i > 0
            invariant
                i <= full,
                full * 8 <= usize::MAX,
                old(self).func_data@ + push_chunks_s(full as nat) == self.func_data@ + push_chunks_s(i as nat),
                self.out == old(self).out,
                self.same_tables(*old(self)),
            decreases i,
        {
            let mut m = from_lit("qword [rax + ");
            push_decimal(&mut m, ((i - 1) * 8) as u64);
            push_str(&mut m, "]");
            let ghost before = self.func_data@;
            self.emit_func_data(ins1_text("push", m.as_str()));
            assert(before + push_chunks_s(i as nat) =~= self.func_data@ + push_chunks_s((i - 1) as nat));
            i = i - 1;
        }
        assert(self.func_data@ + push_chunks_s(0) =~= self.func_data@);
    }

    /// Passes argument `pos` held in `rval` (see `push_arg_s`).
    fn push_arg_step(&mut self, pos: usize, ty: &Type, rval: &str)
        requires
            push_arg_defined(tables_of(*old(self)), pos as int, ty@),
        ensures
            ({
                let (f, g2) = push_arg_s(tables_of(*old(self)), pos as int, ty@, rval@);
                &&& final(self).func_data@ == old(self).func_data@ + f
                &&& tables_of(*final(self)) == g2
            }),
            final(self).out == old(self).out,
            final(self).data_code == old(self).data_code,
    {
        self.push_arg(pos, ty, rval);
    }

    /// A struct or enum argument of `size` bytes (see `aggregate_s`).
    fn place_aggregate(&mut self, ty: &Type, arg_index: usize, size: usize, is_struct: bool) -> (r: (usize, usize))
        requires
            aggregate_defined(tables_of(*old(self)), ty@, arg_index as int, size as int, is_struct),
        ensures
            ({
                let (f, g2, idx2, sp) = aggregate_s(tables_of(*old(self)), ty@, arg_index as int, size as int, is_struct);
                &&& r.0 == idx2
                &&& r.1 == sp
                &&& final(self).func_data@ == old(self).func_data@ + f
                &&& tables_of(*final(self)) == g2
            }),
            final(self).out == old(self).out,
            final(self).data_code == old(self).data_code,
    {
        if size <= 8 {
            let ghost f0 = self.func_data@;
            self.emit_func_data(from_lit("    mov rax, [rax]"));
            self.push_arg_step(arg_index - 1, ty, "rax");
            assert(self.func_data@ =~= f0 + (line("    mov rax, [rax]"@) + push_arg_s(tables_of(*old(self)), arg_index - 1, ty@, "rax"@).0));
            return (arg_index - 1, 0);
        }
        if size <= 16 && arg_index < 6 && arg_index >= 1 {
            return self.place_pair(ty, arg_index, size, is_struct);
        }
        self.place_chunks(ty, arg_index, size, is_struct)
    }

    /// A struct or enum argument of 9 to 16 bytes in two registers.
    fn place_pair(&mut self, ty: &Type, arg_index: usize, size: usize, is_struct: bool) -> (r: (usize, usize))
        requires
            aggregate_defined(tables_of(*old(self)), ty@, arg_index as int, size as int, is_struct),
            8 < size <= 16,
            1 <= arg_index < 6,
        ensures
            ({
                let (f, g2, idx2, sp) = aggregate_s(tables_of(*old(self)), ty@, arg_index as int, size as int, is_struct);
                &&& r.0 == idx2
                &&& r.1 == sp
                &&& final(self).func_data@ == old(self).func_data@ + f
                &&& tables_of(*final(self)) == g2
            }),
            final(self).out == old(self).out,
            final(self).data_code == old(self).data_code,
    {
        let ghost f0 = self.func_data@;
        let ghost (p1, g1) = push_arg_s(tables_of(*old(self)), arg_index - 1, ty@, "rax"@);
        self.emit_func_data(from_lit("    mov r10, rax"));
        self.emit_func_data(from_lit("    mov rax, [r10 + 8]"));
        self.push_arg_step(arg_index - 1, ty, "rax");
        self.emit_func_data(from_lit("    mov rax, [r10]"));
        self.push_arg_step(arg_index - 2, ty, "rax");
        let ghost (p2, g2) = push_arg_s(g1, arg_index - 2, ty@, "rax"@);
        assert(self.func_data@ =~= f0 + (line("    mov r10, rax"@) + line("    mov rax, [r10 + 8]"@) + p1
            + line("    mov rax, [r10]"@) + p2));
        (arg_index - 2, 0)
    }

    /// A struct or enum argument copied to the stack in 8-byte chunks.
    #[verifier::rlimit(40)]
    fn place_chunks(&mut self, ty: &Type, arg_index: usize, size: usize, is_struct: bool) -> (r: (usize, usize))
        requires
            aggregate_defined(tables_of(*old(self)), ty@, arg_index as int, size as int, is_struct),
            !(size <= 8),
            !(size <= 16 && arg_index < 6 && arg_index >= 1),
        ensures
            ({
                let (f, g2, idx2, sp) = aggregate_s(tables_of(*old(self)), ty@, arg_index as int, size as int, is_struct);
                &&& r.0 == idx2
                &&& r.1 == sp
                &&& final(self).func_data@ == old(self).func_data@ + f
                &&& tables_of(*final(self)) == g2
            }),
            final(self).out == old(self).out,
            final(self).data_code == old(self).data_code,
    {
        let ghost f0 = self.func_data@;
        let chunks = (size + 7) / 8;
        let remainder = size % 8;
        let full = if remainder > 0 { chunks - 1 } else { chunks };
        let ghost rem = size as int % 8;
        let ghost ch = (size as int + 7) / 8;
        assert(full * 8 <= size) by (nonlinear_arith)
            requires
                chunks == (size + 7) / 8,
                remainder == size % 8,
                remainder > 0 ==> full == chunks - 1,
                remainder == 0 ==> full == chunks,
        ;
        let ghost head = if rem > 0 {
            line("    xor r10, r10"@) + line("    sub rsp, 16"@) + rem_load_s(rem, (ch - 1) * 8) + line("    mov [rsp], r10"@)
        } else {
            Seq::<char>::empty()
        };
        let mut space_taken: usize = 0;
        if remainder > 0 {
            self.emit_func_data(from_lit("    xor r10, r10"));
            self.emit_func_data(from_lit("    sub rsp, 16"));
            space_taken = 16;
            let mut m = from_lit("[rax + ");
            push_decimal(&mut m, ((chunks - 1) * 8) as u64);
            push_str(&mut m, "]");
            if remainder == 4 {
                self.emit_func_data(ins2_text("mov", "r10d", m.as_str()));
            } else if remainder == 2 {
                self.emit_func_data(ins2_text("mov", "r10w", m.as_str()));
            } else if remainder == 1 {
                self.emit_func_data(ins2_text("mov", "r10b", m.as_str()));
            }
            self.emit_func_data(from_lit("    mov [rsp], r10"));
        }
        assert(self.func_data@ =~= f0 + head);
        self.push_chunks(full);
        let pad = is_struct && full % 2 == 1;
        if pad {
            self.emit_func_data(from_lit("    sub rsp, 8"));
            space_taken = space_taken + 8;
        }
        space_taken = space_taken + full * 8;
        assert(self.func_data@ =~= f0 + (head + push_chunks_s(full as nat)
            + (if pad { line("    sub rsp, 8"@) } else { Seq::<char>::empty() })));
        (arg_index, space_taken)
    }

    /// One argument of type `ty`, evaluated into `rax` (see `place_s`).
    fn place_arg(&mut self, ty: &Type, arg_index: usize) -> (r: (usize, usize))
        requires
            place_defined(tables_of(*old(self)), ty@, arg_index as int),
        ensures
            ({
                let (f, g2, idx2, sp) = place_s(tables_of(*old(self)), ty@, arg_index as int);
                &&& r.0 == idx2
                &&& r.1 == sp
                &&& final(self).func_data@ == old(self).func_data@ + f
                &&& tables_of(*final(self)) == g2
            }),
            final(self).out == old(self).out,
            final(self).data_code == old(self).data_code,
    {
        proof {
            reveal(place_s);
            reveal(place_defined);
        }
        match ty {
            Type::Enum(name, _) => {
                let k = match self.find_enum(name) {
                    Some(k) => k,
                    None => return (arg_index, 0),
                };
                let size = self.enums[k].size;
                self.place_aggregate(ty, arg_index, size, false)
            },
            Type::Struct(name) => {
                let size = match self.struct_size(name) {
                    Some(n) => n,
                    None => return (arg_index, 0),
                };
                self.place_aggregate(ty, arg_index, size, true)
            },
            _ => {
                let rval = match self.reg_for_size("rax", ty) {
                    Some(r) => r,
                    None => return (arg_index, 0),
                };
                self.push_arg_step(arg_index - 1, ty, rval.as_str());
                (arg_index - 1, 0)
            },
        }
    }

    /// One argument evaluated at the type of its parameter and passed (see
    /// `eval_s` and `place_s`).
    fn pass_arg(&mut self, arg: &Expr, ty: &Type, arg_index: usize) -> (r: (usize, usize))
        requires
            eval_defined(arg@, ty@, tables_of(*old(self))),
            place_defined(with_id(tables_of(*old(self)), eval_s(arg@, ty@, tables_of(*old(self))).3 as usize), ty@, arg_index as int),
        ensures
            ({
                let e = eval_s(arg@, ty@, tables_of(*old(self)));
                let (f, g2, idx2, sp) = place_s(with_id(tables_of(*old(self)), e.3 as usize), ty@, arg_index as int);
                &&& r.0 == idx2
                &&& r.1 == sp
                &&& final(self).out@ == old(self).out@ + e.1
                &&& final(self).func_data@ == old(self).func_data@ + (e.2 + f)
                &&& strs_v(final(self).data_code@) == strs_v(old(self).data_code@) + e.4
                &&& tables_of(*final(self)) == g2
            }),
    {
        let ghost g = tables_of(*self);
        let ghost f0 = self.func_data@;
        self.eval_expr(arg, ty);
        let ghost e = eval_s(arg@, ty@, g);
        assert(tables_of(*self) == with_id(g, e.3 as usize));
        let r = self.place_arg(ty, arg_index);
        assert(self.func_data@ =~= f0 + (e.2 + place_s(with_id(g, e.3 as usize), ty@, arg_index as int).0));
        r
    }

    /// Evaluates the arguments of a call, last first, each at the type of
    /// its parameter, and passes them in registers or on the stack (see
    /// `args_s`); returns the stack bytes taken.
    #[verifier::rlimit(100)]
    #[verifier::spinoff_prover]
    pub fn gen_args(&mut self, args: &Vec<Expr>, func_data: &FuncData, generics: &Vec<Type>, new_args: &Vec<Declaration>, is_rvo: bool) -> (r: usize)
        requires
            args@.len() <= func_data.args@.len(),
            func_data.args@.len() < usize::MAX / 2,
            arg_count_s(decl_types(func_data.args@), old(self).layout()) is Some,
            ({
                let idx = arg_count_s(decl_types(func_data.args@), old(self).layout()).unwrap() + (if is_rvo { 1int } else { 0int });
                &&& args_defined(exprs_v(args@), decl_types(func_data.args@), args@.len() as int, tables_of(*old(self)), idx)
                &&& args_s(exprs_v(args@), decl_types(func_data.args@), args@.len() as int, tables_of(*old(self)), idx).4 <= usize::MAX
            }),
        ensures
            ({
                let idx = arg_count_s(decl_types(func_data.args@), old(self).layout()).unwrap() + (if is_rvo { 1int } else { 0int });
                let (o, f, g2, idx2, sp, d) = args_s(exprs_v(args@), decl_types(func_data.args@), args@.len() as int, tables_of(*old(self)), idx);
                &&& r == sp
                &&& final(self).out@ == old(self).out@ + o
                &&& final(self).func_data@ == old(self).func_data@ + f
                &&& strs_v(final(self).data_code@) == strs_v(old(self).data_code@) + d
                &&& tables_of(*final(self)) == g2
            }),
    {
        let ghost es = exprs_v(args@);
        let ghost ts = decl_types(func_data.args@);
        let ghost n = args@.len() as int;
        let ghost o0 = self.out@;
        let ghost f0 = self.func_data@;
        let ghost d0 = self.data_code@;
        let mut arg_index = self.arg_count(is_rvo, &func_data.args);
        let ghost total = args_s(es, ts, n, tables_of(*self), arg_index as int);
        let mut space_taken: usize = 0;
        let mut k = args.len();
        proof { lemma_exprs_v(args@); }
        assert(o0 + total.0 =~= self.out@ + total.0);
        assert(f0 + total.1 =~= self.func_data@ + total.1);
        assert(strs_v(d0) + total.5 =~= strs_v(self.data_code@) + total.5);
        while k > 0
            invariant
                k <= args@.len() <= func_data.args@.len(),
                es == exprs_v(args@),
                ts == decl_types(func_data.args@),
                ts.len() == func_data.args@.len(),
                es.len() == args@.len(),
                args_defined(es, ts, k as int, tables_of(*self), arg_index as int),
                ({
                    let rest = args_s(es, ts, k as int, tables_of(*self), arg_index as int);
                    &&& o0 + total.0 == self.out@ + rest.0
                    &&& f0 + total.1 == self.func_data@ + rest.1
                    &&& total.2 == rest.2
                    &&& total.4 == space_taken + rest.4
                    &&& strs_v(d0) + total.5 == strs_v(self.data_code@) + rest.5
                }),
                total.4 <= usize::MAX,
                forall|j: int| 0 <= j < es.len() ==> #[trigger] es[j] == expr_v(args@[j]),
            decreases k,
        {
            let i = k - 1;
            let ghost g = tables_of(*self);
            let ghost out1 = self.out@;
            let ghost fd1 = self.func_data@;
            let ghost dc1 = strs_v(self.data_code@);
            let arg_type = func_data.args[i].ty.duplicate();
            assert(ts[i as int] == arg_type@);
            assert(es[i as int] == args@[i as int]@);
            let ghost e = eval_s(es[i as int], ts[i as int], g);
            let ghost pl = place_s(with_id(g, e.3 as usize), ts[i as int], arg_index as int);
            let (new_index, sp) = self.pass_arg(&args[i], &arg_type, arg_index);
            proof {
                lemma_args_space(es, ts, i as int, pl.1, pl.2);
            }
            let ghost rest = args_s(es, ts, i as int, tables_of(*self), new_index as int);
            assert(self.out@ + rest.0 =~= out1 + (e.1 + rest.0));
            assert(self.func_data@ + rest.1 =~= fd1 + (e.2 + pl.0 + rest.1));
            assert(strs_v(self.data_code@) + rest.5 =~= dc1 + (e.4 + rest.5));
            space_taken = space_taken + sp;
            arg_index = new_index;
            k = i;
        }
        space_taken
    }
}

} // verus!
