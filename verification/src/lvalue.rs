use vstd::prelude::*;
use crate::ir::{Addr, LValue, LValueV, Type, TypeV, StructFieldV, ExprV, type_v, field_v, strs_v};
use crate::codegen::{Gen, StructData, with_id, var_lookup_s, gen_scopes, ins2, line, int_text, field_map_entries,
    entry_keys, type_size_s, ins2_text, int_string, resolve_s, word_s, reg_for_size_s};
use crate::analyzer::entries_v;
use crate::analyzer::struct_of;
use crate::shared::first_index;
use crate::eval::{eval_s, eval_defined, tables_of, expr_type_s, bounds_s, bounds_defined};
use crate::text::{decimal, from_lit, push_str, push_decimal};

verus! {

/// Where an assignment target lives: at an offset below `rbp`, or at the
/// address held in (or named by) a register or a global's label.
pub enum AddrV {
    Stack(isize),
    Reg(Seq<char>),
}

pub open spec fn addr_v(a: Addr) -> AddrV {
    match a {
        Addr::Stack(p) => AddrV::Stack(p),
        Addr::Reg(r) => AddrV::Reg(r@),
    }
}

/// The memory operand at an address: `[rbp - N]` or `[reg]`.
pub open spec fn mem_s(a: AddrV) -> Seq<char> {
    match a {
        AddrV::Stack(p) => "[rbp - "@ + int_text(p as int) + "]"@,
        AddrV::Reg(r) => "["@ + r + "]"@,
    }
}

/// The field named `name` of a struct layout.
pub open spec fn field_of_s(sd: StructData, name: Seq<char>) -> Option<StructFieldV> {
    match first_index(entry_keys(field_map_entries(sd.elements)), name) {
        Some(i) => Some(field_map_entries(sd.elements)[i].1),
        None => None,
    }
}

/// The field `name` of the struct named `sn`.
pub open spec fn struct_field_s(g: Gen, sn: Seq<char>, name: Seq<char>) -> Option<StructFieldV> {
    match struct_of(g.structs@, sn) {
        Some(sd) => field_of_s(sd, name),
        None => None,
    }
}

/// The element type of an array or of what a pointer points to.
pub open spec fn element_type_s(t: TypeV) -> Option<TypeV> {
    match t {
        TypeV::Array(inner, _) => Some(*inner),
        TypeV::Pointer(inner) => Some(*inner),
        _ => None,
    }
}

/// The base address of an indexing loaded into `rcx`: the pointer held at
/// the address, or the address itself.
pub open spec fn index_base_s(a: AddrV, is_ptr: bool) -> Seq<char> {
    match a {
        AddrV::Reg(r) => if is_ptr { ins2("mov"@, "rcx"@, "QWORD ["@ + r + "]"@) } else { ins2("mov"@, "rcx"@, r) },
        AddrV::Stack(_) => if is_ptr { ins2("mov"@, "rcx"@, mem_s(a)) } else { ins2("lea"@, "rcx"@, mem_s(a)) },
    }
}

/// What a line that sets `rcx` from the memory operand of the stack slot
/// `a` leaves in `rcx`: `mov` reads the 8 bytes `stored` there, `lea` gives
/// the slot's own `address`; `None` for any other line.
pub open spec fn rcx_after(text: Seq<char>, a: AddrV, stored: int, address: int) -> Option<int> {
    if text == ins2("mov"@, "rcx"@, mem_s(a)) {
        Some(stored)
    } else if text == ins2("lea"@, "rcx"@, mem_s(a)) {
        Some(address)
    } else {
        None
    }
}

/// What a line that sets `rcx` from the global at label `r` leaves in
/// `rcx`: `mov rcx, QWORD [r]` reads the 8 bytes `stored` there, `mov rcx, r`
/// gives the label's `address`; `None` for any other line.
pub open spec fn rcx_after_global(text: Seq<char>, r: Seq<char>, stored: int, address: int) -> Option<int> {
    if text == ins2("mov"@, "rcx"@, "QWORD ["@ + r + "]"@) {
        Some(stored)
    } else if text == ins2("mov"@, "rcx"@, r) {
        Some(address)
    } else {
        None
    }
}

/// The base of an indexing in a global: through a pointer, `rcx` gets the
/// pointer held there; for an array, the address of the array.
pub proof fn lemma_index_base_of_a_global(r: Seq<char>, stored: int, address: int)
    ensures
        rcx_after_global(index_base_s(AddrV::Reg(r), true), r, stored, address) == Some(stored),
        rcx_after_global(index_base_s(AddrV::Reg(r), false), r, stored, address) == Some(address),
{
    reveal_strlit("QWORD [");
    reveal_strlit("]");
    let q = "QWORD ["@ + r + "]"@;
    assert(ins2("mov"@, "rcx"@, r) != ins2("mov"@, "rcx"@, q)) by {
        assert(q.len() == r.len() + 8);
        assert(ins2("mov"@, "rcx"@, r).len() < ins2("mov"@, "rcx"@, q).len());
    }
}

/// The base of an indexing in a stack slot: through a pointer, `rcx` gets
/// the pointer held in the slot (the value stored there); for an array,
/// `rcx` gets the address of the slot, where the array itself lies.
pub proof fn lemma_index_base_of_a_stack_slot(p: isize, stored: int, address: int)
    ensures
        rcx_after(index_base_s(AddrV::Stack(p), true), AddrV::Stack(p), stored, address) == Some(stored),
        rcx_after(index_base_s(AddrV::Stack(p), false), AddrV::Stack(p), stored, address) == Some(address),
{
    reveal_strlit("mov");
    reveal_strlit("lea");
    reveal_strlit("    ");
    let m = mem_s(AddrV::Stack(p));
    assert(ins2("lea"@, "rcx"@, m) != ins2("mov"@, "rcx"@, m)) by {
        let a = "    "@ + "lea"@ + " "@ + "rcx"@ + ", "@ + m;
        let b = "    "@ + "mov"@ + " "@ + "rcx"@ + ", "@ + m;
        assert(("    "@ + "lea"@)[4] == 'l');
        assert(("    "@ + "mov"@)[4] == 'm');
        assert(a[4] == ("    "@ + "lea"@)[4]);
        assert(b[4] == ("    "@ + "mov"@)[4]);
        assert(line(a)[4] == a[4]);
        assert(line(b)[4] == b[4]);
    }
}

/// Assigning to `p[i]` where `p` is a local pointer: the element address is
/// built from the pointer held in `p`'s slot: the text contains a line that
/// leaves in `rcx` the value stored in the slot (not the slot's address),
/// whatever the index expression.
pub proof fn lemma_pointer_index_target_loads_the_pointer(n: Seq<char>, index: ExprV, g: Gen, stored: int, address: int)
    requires
        var_lookup_s(gen_scopes(g), g.global_vars@, n) matches Some(v) && !v.global_flag
            && type_v(v.var_type) is Pointer,
    ensures
        ({
            let v = var_lookup_s(gen_scopes(g), g.global_vars@, n).unwrap();
            let f = lvalue_s(LValueV::Index { base: Box::new(LValueV::Variable(n)), index }, g).2;
            exists|x: Seq<char>, ln: Seq<char>, y: Seq<char>|
                #![trigger rcx_after(ln, AddrV::Stack(v.stack_pos as isize), stored, address), x + ln + y]
                f == x + ln + y && rcx_after(ln, AddrV::Stack(v.stack_pos as isize), stored, address) == Some(stored)
        }),
{
    let v = var_lookup_s(gen_scopes(g), g.global_vars@, n).unwrap();
    let a = AddrV::Stack(v.stack_pos as isize);
    let t = type_v(v.var_type);
    let g1 = with_id(g, g.id);
    let (ireg, io, itext, id2, d) = eval_s(index, t, g1);
    let (chk, id3) = bounds_s(t, ireg, id2);
    let size = type_size_s(element_type_s(t).unwrap(), g1.layout(), g1.size_fuel()).unwrap();
    let x = line("    push rax"@) + itext + chk + ins2("imul"@, ireg, decimal(size as nat));
    let ln = index_base_s(a, true);
    let y = ins2("add"@, "rcx"@, ireg) + line("    pop rax"@);
    lemma_index_base_of_a_stack_slot(v.stack_pos as isize, stored, address);
    assert(g1 == g);
    let base = lvalue_s(LValueV::Variable(n), g);
    assert(base.0 == a && base.1 == t && base.2 == Seq::<char>::empty() && base.4 == g.id as int);
    let st = index_step_s(a, t, index, g);
    assert(t is Pointer);
    reveal(index_step_s);
    assert(st.2 == line("    push rax"@) + itext + chk + ins2("imul"@, ireg, decimal(size as nat))
        + index_base_s(a, true) + ins2("add"@, "rcx"@, ireg) + line("    pop rax"@));
    assert(st.2 =~= x + ln + y);
    let f = lvalue_s(LValueV::Index { base: Box::new(LValueV::Variable(n)), index }, g).2;
    assert(f =~= base.2 + st.2);
    assert(f =~= x + ln + y);
    assert(rcx_after(ln, a, stored, address) == Some(stored));
}

/// A field `name` reached from a base at `a` of type `t`: the address, the
/// field's type and the text added to the function body. Through a pointer to
/// a struct, the pointer is loaded into `rsi` and the field's offset added;
/// in a struct on the stack, the slot moves down by the offset; at an address
/// in a register, the register moves up by it.
#[verifier::opaque]
pub open spec fn field_step_s(a: AddrV, t: TypeV, name: Seq<char>, g: Gen) -> (AddrV, TypeV, Seq<char>) {
    match t {
        TypeV::Pointer(inner) => {
            let sn = match *inner { TypeV::Struct(sn) => sn, _ => Seq::empty() };
            let fld = struct_field_s(g, sn, name).unwrap();
            (AddrV::Reg("rsi"@), fld.ty, ins2("mov"@, "rsi"@, mem_s(a)) + ins2("add"@, "rsi"@, decimal(fld.offset as nat)))
        },
        _ => {
            let sn = match t { TypeV::Struct(sn) => sn, _ => Seq::empty() };
            let fld = struct_field_s(g, sn, name).unwrap();
            match a {
                AddrV::Stack(p) => (AddrV::Stack((p - fld.offset) as isize), fld.ty, Seq::empty()),
                AddrV::Reg(r) => (AddrV::Reg(r), fld.ty, ins2("add"@, r, decimal(fld.offset as nat))),
            }
        },
    }
}

/// The fields `field_step_s` reaches: of a struct that exists, directly or
/// through a pointer, without the stack offset running below `isize::MIN`.
#[verifier::opaque]
pub open spec fn field_step_defined(a: AddrV, t: TypeV, name: Seq<char>, g: Gen) -> bool {
    match t {
        TypeV::Pointer(inner) => *inner matches TypeV::Struct(sn) && struct_field_s(g, sn, name) is Some,
        TypeV::Struct(sn) => struct_field_s(g, sn, name) matches Some(fld)
            && (a matches AddrV::Stack(p) ==> fld.offset <= isize::MAX && isize::MIN <= p - fld.offset),
        _ => false,
    }
}

/// The element `index` of a base at `a` of type `t` (an array or a pointer):
/// `rax` is pushed, the index evaluated (see `eval_s`) and scaled by the
/// element size, the base address loaded into `rcx` (see `index_base_s`),
/// the index added and `rax` popped. Gives the address `rcx`, the type `t`
/// itself, the texts added to the function body and to the main output, and
/// the label counter afterwards.
#[verifier::opaque]
pub open spec fn index_step_s(a: AddrV, t: TypeV, index: ExprV, g: Gen) -> (AddrV, TypeV, Seq<char>, Seq<char>, int, Seq<Seq<char>>) {
    let (ireg, io, itext, id2, d) = eval_s(index, t, g);
    let (chk, id3) = bounds_s(t, ireg, id2);
    let size = type_size_s(element_type_s(t).unwrap(), g.layout(), g.size_fuel()).unwrap();
    (AddrV::Reg("rcx"@), t, line("    push rax"@) + itext + chk + ins2("imul"@, ireg, decimal(size as nat))
        + index_base_s(a, t is Pointer) + ins2("add"@, "rcx"@, ireg) + line("    pop rax"@), io, id3, d)
}

/// The indexings `index_step_s` describes: into an array or through a
/// pointer to an element of known size, with an index that `eval_s`
/// describes.
#[verifier::opaque]
pub open spec fn index_step_defined(t: TypeV, index: ExprV, g: Gen) -> bool {
    &&& element_type_s(t) matches Some(et) && type_size_s(et, g.layout(), g.size_fuel()) is Some
    &&& eval_defined(index, t, g)
    &&& bounds_defined(t, eval_s(index, t, g).3)
}

/// The address of an assignment target and its type, with the text added to
/// the function body, the text added to the main output and the label
/// counter afterwards: a variable lives in its stack slot (or at its label
/// for a global); `s.f` and `p->f` go by `field_step_s`, `*p` loads the
/// pointer into `rsi`, and `a[i]` goes by `index_step_s`.
pub open spec fn lvalue_s(l: LValueV, g: Gen) -> (AddrV, TypeV, Seq<char>, Seq<char>, int, Seq<Seq<char>>)
    decreases l,
{
    match l {
        LValueV::Variable(n) => {
            let v = var_lookup_s(gen_scopes(g), g.global_vars@, n).unwrap();
            if !v.global_flag {
                (AddrV::Stack(v.stack_pos as isize), type_v(v.var_type), Seq::empty(), Seq::empty(), g.id as int, Seq::empty())
            } else {
                (AddrV::Reg(n), type_v(v.var_type), Seq::empty(), Seq::empty(), g.id as int, Seq::empty())
            }
        },
        LValueV::Field { base, name } => {
            let (a, t, f, o, id, d) = lvalue_s(*base, g);
            let (a2, t2, f2) = field_step_s(a, t, name, with_id(g, id as usize));
            (a2, t2, f + f2, o, id, d)
        },
        LValueV::Deref(inner) => {
            let (a, t, f, o, id, d) = lvalue_s(*inner, g);
            let pointee = match t { TypeV::Pointer(p) => *p, _ => TypeV::Unknown };
            (AddrV::Reg("rsi"@), pointee, f + ins2("mov"@, "rsi"@, mem_s(a)), o, id, d)
        },
        LValueV::Index { base, index } => {
            let (a, t, f, o, id, d) = lvalue_s(*base, g);
            let (a2, t2, f2, o2, id2, d2) = index_step_s(a, t, index, with_id(g, id as usize));
            (a2, t2, f + f2, o + o2, id2, d + d2)
        },
    }
}

/// The assignment targets on which the generator goes through: variables in
/// scope, fields of structs that exist (through a pointer to a struct, or
/// of a struct), dereferences of pointers, and indexing into arrays or
/// through pointers with an index that `eval_s` describes and an element of
/// known size.
pub open spec fn lvalue_defined(l: LValueV, g: Gen) -> bool
    decreases l,
{
    match l {
        LValueV::Variable(n) => var_lookup_s(gen_scopes(g), g.global_vars@, n) is Some,
        LValueV::Field { base, name } => {
            &&& lvalue_defined(*base, g)
            &&& field_step_defined(lvalue_s(*base, g).0, lvalue_s(*base, g).1, name, with_id(g, lvalue_s(*base, g).4 as usize))
        },
        LValueV::Deref(inner) => lvalue_defined(*inner, g) && lvalue_s(*inner, g).1 is Pointer,
        LValueV::Index { base, index } => {
            &&& lvalue_defined(*base, g)
            &&& index_step_defined(lvalue_s(*base, g).1, index, with_id(g, lvalue_s(*base, g).4 as usize))
        },
    }
}

/// The size keyword of a memory operand of type `t` (see `word_s`), after
/// following the generic bindings.
pub open spec fn word_of_s(t: TypeV, g: Gen) -> Option<Seq<char>> {
    match resolve_s(t, entries_v(g.generics@), g.generics@.len() as nat) {
        Some(r) => word_s(r),
        None => None,
    }
}

/// An assignment `target = value`: the value is evaluated at its own type
/// (see `eval_s`), the target's address computed (see `lvalue_s`), and the
/// value stored: into a stack slot from the part of `rax` of the target's
/// size, or at an address in a register from the part of the value's
/// register of the value's size. Gives the texts added to the main output and
/// to the function body, and the label counter afterwards.
pub open spec fn assign_s(target: LValueV, value: ExprV, g: Gen) -> (Seq<char>, Seq<char>, int, Seq<Seq<char>>) {
    let vt = expr_type_s(value, g).unwrap();
    let (vreg, o1, f1, id1, d1) = eval_s(value, vt, g);
    let (a, lt, f2, o2, id2, d2) = lvalue_s(target, with_id(g, id1 as usize));
    let map = entries_v(g.generics@);
    let store = match a {
        AddrV::Stack(p) => line("    mov "@ + word_of_s(lt, g).unwrap() + " [rbp - "@ + int_text(p as int) + "], "@
            + reg_for_size_s("rax"@, lt, map).unwrap()),
        AddrV::Reg(r) => line("    mov "@ + word_of_s(vt, g).unwrap() + " ["@ + r + "], "@
            + reg_for_size_s(vreg, vt, map).unwrap()),
    };
    (o1 + o2, f1 + f2 + store, id2, d1 + d2)
}

/// The assignments `assign_s` describes: the value has a type, an operand
/// size and an evaluation, the target an address, and the register parts
/// and size keywords of the store exist.
pub open spec fn assign_defined(target: LValueV, value: ExprV, g: Gen) -> bool {
    match expr_type_s(value, g) {
        Some(vt) => {
            let (vreg, o1, f1, id1, d1) = eval_s(value, vt, g);
            let (a, lt, f2, o2, id2, d2) = lvalue_s(target, with_id(g, id1 as usize));
            let map = entries_v(g.generics@);
            &&& eval_defined(value, vt, g)
            &&& lvalue_defined(target, with_id(g, id1 as usize))
            &&& word_of_s(vt, g) is Some
            &&& match a {
                AddrV::Stack(_) => reg_for_size_s("rax"@, lt, map) is Some && word_of_s(lt, g) is Some,
                AddrV::Reg(_) => reg_for_size_s(vreg, vt, map) is Some,
            }
        },
        None => false,
    }
}

impl Gen {
    /// The memory operand at an address (see `mem_s`).
    fn mem_operand(a: &Addr) -> (r: String)
        ensures
            r@ == mem_s(addr_v(*a)),
    {
        match a {
            Addr::Stack(p) => {
                let mut s = from_lit("[rbp - ");
                let t = int_string(*p as i64);
                push_str(&mut s, t.as_str());
                push_str(&mut s, "]");
                s
            },
            Addr::Reg(r) => {
                let mut s = from_lit("[");
                push_str(&mut s, r.as_str());
                push_str(&mut s, "]");
                s
            },
        }
    }

    /// The field `name` of the struct named `sn` (see `struct_field_s`).
    pub(crate) fn struct_field(&self, sn: &String, name: &String) -> (r: Option<crate::ir::StructField>)
        ensures
            match struct_field_s(*self, sn@, name@) {
                Some(f) => r is Some && field_v(r.unwrap()) == f,
                None => r is None,
            },
    {
        match self.find_struct_data(sn) {
            Some(k) => self.structs[k].field(name),
            None => None,
        }
    }

    /// Loads the base address of an indexing into `rcx` (see `index_base_s`).
    fn emit_index_base(&mut self, addr: &Addr, is_ptr: bool)
        ensures
            final(self).func_data@ == old(self).func_data@ + index_base_s(addr_v(*addr), is_ptr),
            final(self).out == old(self).out,
            final(self).same_tables(*old(self)),
    {
        match addr {
            Addr::Reg(reg) => {
                if is_ptr {
                    let mut m = from_lit("QWORD [");
                    push_str(&mut m, reg.as_str());
                    push_str(&mut m, "]");
                    self.emit_func_data(ins2_text("mov", "rcx", m.as_str()));
                } else {
                    self.emit_func_data(ins2_text("mov", "rcx", reg.as_str()));
                }
            },
            Addr::Stack(_) => {
                if is_ptr {
                    self.emit_func_data(ins2_text("mov", "rcx", Gen::mem_operand(addr).as_str()));
                } else {
                    self.emit_func_data(ins2_text("lea", "rcx", Gen::mem_operand(addr).as_str()));
                }
            },
        }
    }

    /// The field `name` of a base at `addr` of type `ty` (see `field_step_s`).
    fn field_step(&mut self, addr: Addr, ty: Type, name: &String) -> (r: (Addr, Type))
        requires
            field_step_defined(addr_v(addr), ty@, name@, tables_of(*old(self))),
        ensures
            ({
                let (a, t, f) = field_step_s(addr_v(addr), ty@, name@, tables_of(*old(self)));
                &&& addr_v(r.0) == a
                &&& r.1@ == t
                &&& final(self).func_data@ == old(self).func_data@ + f
            }),
            final(self).out == old(self).out,
            final(self).same_tables(*old(self)),
    {
        proof {
            reveal(field_step_s);
            reveal(field_step_defined);
        }
        match ty {
            Type::Pointer(inner) => {
                let pointee: Type = *inner;
                assert(ty@ == TypeV::Pointer(Box::new(pointee@)));
                let sn = match pointee {
                    Type::Struct(sn) => sn,
                    _ => return (addr, Type::Unknown),
                };
                let ghost before = self.func_data@;
                self.emit_func_data(ins2_text("mov", "rsi", Gen::mem_operand(&addr).as_str()));
                let field = match self.struct_field(&sn, name) {
                    Some(f) => f,
                    None => return (addr, Type::Unknown),
                };
                let mut off = String::new();
                push_decimal(&mut off, field.offset as u64);
                self.emit_func_data(ins2_text("add", "rsi", off.as_str()));
                assert(self.func_data@ =~= before + (ins2("mov"@, "rsi"@, mem_s(addr_v(addr)))
                    + ins2("add"@, "rsi"@, decimal(field.offset as nat))));
                (Addr::Reg(from_lit("rsi")), field.ty)
            },
            Type::Struct(sn) => {
                let field = match self.struct_field(&sn, name) {
                    Some(f) => f,
                    None => return (addr, Type::Unknown),
                };
                match addr {
                    Addr::Stack(pos) => {
                        assert(self.func_data@ =~= self.func_data@ + Seq::<char>::empty());
                        let off = field.offset as isize;
                        (Addr::Stack(pos - off), field.ty)
                    },
                    Addr::Reg(reg) => {
                        let mut off = String::new();
                        push_decimal(&mut off, field.offset as u64);
                        self.emit_func_data(ins2_text("add", reg.as_str(), off.as_str()));
                        (Addr::Reg(reg), field.ty)
                    },
                }
            },
            _ => (addr, Type::Unknown),
        }
    }

    /// The element `index` of a base at `addr` of type `ty` (see
    /// `index_step_s`).
    #[verifier::rlimit(100)]
    #[verifier::spinoff_prover]
    fn index_step(&mut self, addr: Addr, ty: Type, index: &crate::ir::Expr) -> (r: (Addr, Type))
        requires
            index_step_defined(ty@, index@, tables_of(*old(self))),
        ensures
            ({
                let (a, t, f, o, id, d) = index_step_s(addr_v(addr), ty@, index@, tables_of(*old(self)));
                &&& addr_v(r.0) == a
                &&& r.1@ == t
                &&& final(self).func_data@ == old(self).func_data@ + f
                &&& final(self).out@ == old(self).out@ + o
                &&& final(self).id == id
                &&& strs_v(final(self).data_code@) == strs_v(old(self).data_code@) + d
            }),
            tables_of(*final(self)) == with_id(tables_of(*old(self)), final(self).id),
    {
        proof {
            reveal(index_step_s);
            reveal(index_step_defined);
        }
        let ghost t0 = tables_of(*self);
        let inner_ty = match &ty {
            Type::Array(t, _) => t.duplicate(),
            Type::Pointer(t) => t.duplicate(),
            _ => return (addr, ty),
        };
        let ghost f0 = self.func_data@;
        let ghost o0 = self.out@;
        self.emit_func_data(from_lit("    push rax"));
        assert(tables_of(*self) == t0);
        let index_reg = self.eval_expr(index, &ty);
        let ghost e = eval_s(index@, ty@, t0);
        self.emit_bounds_check(&ty, index_reg.as_str());
        let ghost chk = bounds_s(ty@, e.0, e.3);
        let size = self.type_size(&inner_ty);
        let mut sz = String::new();
        push_decimal(&mut sz, size as u64);
        self.emit_func_data(ins2_text("imul", index_reg.as_str(), sz.as_str()));
        let is_ptr = match &ty {
            Type::Pointer(_) => true,
            _ => false,
        };
        self.emit_index_base(&addr, is_ptr);
        self.emit_func_data(ins2_text("add", "rcx", index_reg.as_str()));
        self.emit_func_data(from_lit("    pop rax"));
        assert(self.out@ =~= o0 + e.1);
        assert(self.func_data@ =~= f0 + (line("    push rax"@) + e.2 + chk.0 + ins2("imul"@, index_reg@, decimal(size as nat))
            + index_base_s(addr_v(addr), ty@ is Pointer) + ins2("add"@, "rcx"@, index_reg@) + line("    pop rax"@)));
        (Addr::Reg(from_lit("rcx")), ty)
    }

    /// The address and type of an assignment target (see `lvalue_s`).
    pub fn calc_lvalue(&mut self, target: &LValue) -> (r: (Addr, Type))
        requires
            lvalue_defined(target@, tables_of(*old(self))),
        ensures
            ({
                let (a, t, f, o, id, d) = lvalue_s(target@, tables_of(*old(self)));
                &&& addr_v(r.0) == a
                &&& r.1@ == t
                &&& final(self).func_data@ == old(self).func_data@ + f
                &&& final(self).out@ == old(self).out@ + o
                &&& final(self).id == id
                &&& strs_v(final(self).data_code@) == strs_v(old(self).data_code@) + d
            }),
            tables_of(*final(self)) == with_id(tables_of(*old(self)), final(self).id),
        decreases target, 1nat,
    {
        match target {
            LValue::Variable(name) => {
                let var = self.lookup_var(name.as_str());
                if !var.global_flag {
                    (Addr::Stack(var.stack_pos as isize), var.var_type.duplicate())
                } else {
                    (Addr::Reg(name.clone()), var.var_type.duplicate())
                }
            },
            LValue::Field { .. } => self.calc_field(target),
            LValue::Deref(_) => self.calc_deref(target),
            LValue::Index { .. } => self.calc_index(target),
        }
    }

    /// `s.f` and `p->f` (see `lvalue_s`).
    #[verifier::spinoff_prover]
    fn calc_field(&mut self, target: &LValue) -> (r: (Addr, Type))
        requires
            lvalue_defined(target@, tables_of(*old(self))),
            target is Field,
        ensures
            ({
                let (a, t, f, o, id, d) = lvalue_s(target@, tables_of(*old(self)));
                &&& addr_v(r.0) == a
                &&& r.1@ == t
                &&& final(self).func_data@ == old(self).func_data@ + f
                &&& final(self).out@ == old(self).out@ + o
                &&& final(self).id == id
                &&& strs_v(final(self).data_code@) == strs_v(old(self).data_code@) + d
            }),
            tables_of(*final(self)) == with_id(tables_of(*old(self)), final(self).id),
        decreases target, 0nat,
    {
        let ghost t0 = tables_of(*self);
        let ghost f0 = self.func_data@;
        match target {
            LValue::Field { base, name } => {
                let (addr, ty) = self.calc_lvalue(base);
                let ghost b = lvalue_s(base@, t0);
                assert(tables_of(*self) == with_id(t0, b.4 as usize));
                let r = self.field_step(addr, ty, name);
                assert(self.func_data@ =~= f0 + (b.2 + field_step_s(b.0, b.1, name@, with_id(t0, b.4 as usize)).2));
                r
            },
            _ => (Addr::Stack(0), Type::Unknown),
        }
    }

    /// `*p` (see `lvalue_s`).
    fn calc_deref(&mut self, target: &LValue) -> (r: (Addr, Type))
        requires
            lvalue_defined(target@, tables_of(*old(self))),
            target is Deref,
        ensures
            ({
                let (a, t, f, o, id, d) = lvalue_s(target@, tables_of(*old(self)));
                &&& addr_v(r.0) == a
                &&& r.1@ == t
                &&& final(self).func_data@ == old(self).func_data@ + f
                &&& final(self).out@ == old(self).out@ + o
                &&& final(self).id == id
                &&& strs_v(final(self).data_code@) == strs_v(old(self).data_code@) + d
            }),
            tables_of(*final(self)) == with_id(tables_of(*old(self)), final(self).id),
        decreases target, 0nat,
    {
        let ghost g0 = *self;
        let ghost t0 = tables_of(g0);
        match target {
            LValue::Deref(inner) => {
                let (addr, ty) = self.calc_lvalue(inner);
                match ty {
                    Type::Pointer(inner_ty) => {
                        self.emit_func_data(ins2_text("mov", "rsi", Gen::mem_operand(&addr).as_str()));
                        (Addr::Reg(from_lit("rsi")), *inner_ty)
                    },
                    _ => (addr, Type::Unknown),
                }
            },
            _ => (Addr::Stack(0), Type::Unknown),
        }
    }

    /// `a[i]` (see `lvalue_s`).
    #[verifier::spinoff_prover]
    fn calc_index(&mut self, target: &LValue) -> (r: (Addr, Type))
        requires
            lvalue_defined(target@, tables_of(*old(self))),
            target is Index,
        ensures
            ({
                let (a, t, f, o, id, d) = lvalue_s(target@, tables_of(*old(self)));
                &&& addr_v(r.0) == a
                &&& r.1@ == t
                &&& final(self).func_data@ == old(self).func_data@ + f
                &&& final(self).out@ == old(self).out@ + o
                &&& final(self).id == id
                &&& strs_v(final(self).data_code@) == strs_v(old(self).data_code@) + d
            }),
            tables_of(*final(self)) == with_id(tables_of(*old(self)), final(self).id),
        decreases target, 0nat,
    {
        let ghost t0 = tables_of(*self);
        let ghost f0 = self.func_data@;
        let ghost o0 = self.out@;
        match target {
            LValue::Index { base, index } => {
                let (addr, ty) = self.calc_lvalue(base);
                let ghost b = lvalue_s(base@, t0);
                assert(tables_of(*self) == with_id(t0, b.4 as usize));
                let r = self.index_step(addr, ty, index);
                let ghost st = index_step_s(b.0, b.1, index@, with_id(t0, b.4 as usize));
                assert(self.func_data@ =~= f0 + (b.2 + st.2));
                assert(self.out@ =~= o0 + (b.3 + st.3));
                r
            },
            _ => (Addr::Stack(0), Type::Unknown),
        }
    }


    /// `target = value` (see `assign_s`).
    #[verifier::spinoff_prover]
    pub fn gen_assignment(&mut self, target: &LValue, value: &crate::ir::Expr)
        requires
            assign_defined(target@, value@, tables_of(*old(self))),
        ensures
            ({
                let (o, f, id, d) = assign_s(target@, value@, tables_of(*old(self)));
                &&& final(self).out@ == old(self).out@ + o
                &&& final(self).func_data@ == old(self).func_data@ + f
                &&& final(self).id == id
                &&& strs_v(final(self).data_code@) == strs_v(old(self).data_code@) + d
            }),
            tables_of(*final(self)) == with_id(tables_of(*old(self)), final(self).id),
    {
        let ghost t0 = tables_of(*self);
        let ghost o0 = self.out@;
        let ghost f0 = self.func_data@;
        let value_ty = self.expr_type(value);
        let val_reg = self.eval_expr(value, &value_ty);
        let ghost e = eval_s(value@, value_ty@, t0);
        assert(tables_of(*self) == with_id(t0, e.3 as usize));
        let (addr, lval) = self.calc_lvalue(target);
        let ghost l = lvalue_s(target@, with_id(t0, e.3 as usize));
        let size_word = self.get_word(&value_ty);
        let mut text = from_lit("    mov ");
        match addr {
            Addr::Stack(pos) => {
                let sized_reg = match self.reg_for_size("rax", &lval) {
                    Some(r) => r,
                    None => return,
                };
                let sized_word = self.get_word(&lval);
                push_str(&mut text, sized_word.as_str());
                push_str(&mut text, " [rbp - ");
                let p = int_string(pos as i64);
                push_str(&mut text, p.as_str());
                push_str(&mut text, "], ");
                push_str(&mut text, sized_reg.as_str());
            },
            Addr::Reg(reg) => {
                let sized_reg = match self.reg_for_size(val_reg.as_str(), &value_ty) {
                    Some(r) => r,
                    None => return,
                };
                push_str(&mut text, size_word.as_str());
                push_str(&mut text, " [");
                push_str(&mut text, reg.as_str());
                push_str(&mut text, "], ");
                push_str(&mut text, sized_reg.as_str());
            },
        }
        self.emit_func_data(text);
        assert(self.out@ =~= o0 + (e.1 + l.3));
        assert(self.func_data@ =~= f0 + (e.2 + l.2 + line(text@)));
    }
}

} // verus!
