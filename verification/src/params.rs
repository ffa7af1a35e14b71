use vstd::prelude::*;
use crate::analyzer::entries_v;
use crate::codegen::{Gen, type_size_s, struct_size_of, enum_of, get_arg_s, get_arg_fits, arg_base_reg_s, reg_for_size_s, arg_count_s, decl_types, line, var_names};
use crate::ir::{Type, TypeV, Declaration, VarData};
use crate::shared::{first_index, lemma_first_index};
use crate::sizing::{leaf_s, with_leaf, mono_leaf_s, mono_defined, mono_effect};
use crate::text::from_lit;


verus! {

// ---------------------------------------------------------------------------
// Receiving a function's parameters
// ---------------------------------------------------------------------------

/// A value of type `t` is passed whole in memory: a struct or an enum.
pub open spec fn is_aggregate(t: TypeV) -> bool {
    t is Struct || t is Enum
}

/// The size recorded for the struct or enum that `t` names.
pub open spec fn stored_size(t: TypeV, g: Gen) -> Option<int> {
    match t {
        TypeV::Enum(n, _) => match enum_of(g.layout().enums, n) {
            Some(e) => Some(e.size as int),
            None => None,
        },
        TypeV::Struct(n) => struct_size_of(g.structs@, n),
        _ => None,
    }
}

/// The type a parameter declared with type `t` is received as in `g`: made
/// concrete (see `mono_leaf_s`).
pub open spec fn param_type(t: TypeV, g: Gen) -> TypeV {
    with_leaf(t, mono_leaf_s(leaf_s(t), g))
}

/// What receiving parameter number `p` of type `t` into the slot at depth
/// `local` needs (see `get_arg`): the stack offset and slots in range for
/// one beyond the sixth, an argument register of its size else.
pub open spec fn get_arg_ok(p: int, t: TypeV, local: int, sp: Option<int>, g: Gen) -> bool {
    &&& 0 <= p <= usize::MAX
    &&& 0 <= local <= usize::MAX
    &&& p > 6 ==> (type_size_s(t, g.layout(), g.size_fuel()) matches Some(size) && sp matches Some(s)
        && 0 <= s && s + size + 8 <= usize::MAX && get_arg_fits(size, local))
    &&& p <= 6 ==> p >= 1 && reg_for_size_s(arg_base_reg_s(p - 1), t, entries_v(g.generics@)) is Some
}

/// The lines that receive a parameter of concrete type `t` into its slot at
/// depth `pos`, with the argument index and stack argument offset after
/// it: a struct or enum of up to 8 bytes takes one argument, one of up to
/// 16 two registers while fewer than six are left, a larger one is copied
/// from the stack; any other value takes one argument, from the stack
/// beyond the sixth.
pub open spec fn param_text_s(t: TypeV, g: Gen, ai: int, sap: int, pos: int) -> (Seq<char>, int, int) {
    let l = g.layout();
    let f = g.size_fuel();
    let sz = type_size_s(t, l, f).unwrap();
    if is_aggregate(t) {
        let size = stored_size(t, g).unwrap();
        if size <= 8 {
            (get_arg_s(ai, t, pos, sap, l, f), ai - 1, sap)
        } else if size <= 16 && ai < 6 {
            (get_arg_s(ai, t, pos - 8, 0, l, f) + get_arg_s(ai - 1, t, pos, 0, l, f), ai - 2, sap)
        } else {
            (get_arg_s(ai, t, pos, sap, l, f), ai, sap + sz)
        }
    } else if ai > 6 {
        (get_arg_s(ai, t, pos, sap, l, f), ai, sap + sz)
    } else {
        (get_arg_s(ai, t, pos, sap, l, f), ai - 1, sap)
    }
}

/// What receiving a parameter of concrete type `t` needs in `g` (after its
/// type was made concrete): a size, stack room, an innermost scope, and
/// what each `get_arg` call and index step needs.
pub open spec fn param_ok_after(t: TypeV, g: Gen, ai: int, sap: int) -> bool {
    let l = g.layout();
    let f = g.size_fuel();
    &&& type_size_s(t, l, f) is Some
    &&& g.stack_pos + type_size_s(t, l, f).unwrap() <= usize::MAX
    &&& g.scopes@.len() > 0
    &&& 0 <= ai <= usize::MAX
    &&& 0 <= sap <= usize::MAX
    &&& ({
        let sz = type_size_s(t, l, f).unwrap();
        let pos = g.stack_pos + sz;
        if is_aggregate(t) {
            &&& stored_size(t, g) is Some
            &&& ({
                let size = stored_size(t, g).unwrap();
                if size <= 8 {
                    get_arg_ok(ai, t, pos, Some(sap), g) && ai >= 1
                } else if size <= 16 && ai < 6 {
                    &&& pos >= 8
                    &&& ai >= 2
                    &&& get_arg_ok(ai, t, pos - 8, None, g)
                    &&& get_arg_ok(ai - 1, t, pos, None, g)
                } else {
                    get_arg_ok(ai, t, pos, Some(sap), g) && sap + sz <= usize::MAX
                }
            })
        } else {
            &&& get_arg_ok(ai, t, pos, Some(sap), g)
            &&& ai > 6 ==> sap + sz <= usize::MAX
            &&& ai <= 6 ==> ai >= 1
        }
    })
}

/// `new` is the scope `old` with `name` bound to a local at depth `pos` of
/// type `t`: an entry of that name keeps its place, else one is added at
/// the end.
pub open spec fn local_put(new: Seq<(String, VarData)>, old: Seq<(String, VarData)>, name: Seq<char>, pos: int, t: TypeV) -> bool {
    let i = match first_index(var_names(old), name) {
        Some(i) => i,
        None => old.len() as int,
    };
    &&& new.len() == (if i < old.len() { old.len() } else { old.len() + 1 })
    &&& forall|j: int| 0 <= j < old.len() && j != i ==> new[j] == old[j]
    &&& new[i].0@ == name
    &&& !new[i].1.global_flag
    &&& new[i].1.stack_pos == pos
    &&& new[i].1.var_type@ == t
}

/// `g2`, `ai2`, `sap2` are what receiving parameter `d` leaves of `gm` (in
/// which its type `t` was made concrete).
pub open spec fn param_after(d: Declaration, t: TypeV, gm: Gen, ai: int, sap: int, g2: Gen, ai2: int, sap2: int) -> bool {
    let sz = type_size_s(t, gm.layout(), gm.size_fuel()).unwrap();
    let pos = gm.stack_pos + sz;
    let r = param_text_s(t, gm, ai, sap, pos);
    &&& g2.func_data@ == gm.func_data@ + r.0
    &&& ai2 == r.1
    &&& sap2 == r.2
    &&& g2.stack_pos == pos
    &&& g2.highest_stack_pos == (if gm.highest_stack_pos < pos { pos } else { gm.highest_stack_pos as int })
    &&& g2.scopes@.len() == gm.scopes@.len()
    &&& forall|j: int| 0 <= j < gm.scopes@.len() - 1 ==> #[trigger] g2.scopes@[j] == gm.scopes@[j]
    &&& local_put(g2.scopes@.last()@, gm.scopes@.last()@, d.name@, pos, d.ty@)
    &&& g2.global_vars == gm.global_vars
    &&& g2.structs == gm.structs
    &&& g2.enums == gm.enums
    &&& g2.generics == gm.generics
    &&& g2.out == gm.out
    &&& g2.id == gm.id
    &&& g2.functions == gm.functions
    &&& g2.generic_func == gm.generic_func
    &&& g2.data_code == gm.data_code
    &&& g2.bss_code == gm.bss_code
}

/// `g2`, `ai2`, `sap2` are what receiving parameter `d` leaves of `g` with
/// argument index `ai` and stack argument offset `sap`.
pub open spec fn param_step(d: Declaration, g: Gen, ai: int, sap: int, g2: Gen, ai2: int, sap2: int) -> bool {
    exists|gm: Gen| #[trigger] mono_effect(leaf_s(d.ty@), g, gm)
        && param_after(d, param_type(d.ty@, g), gm, ai, sap, g2, ai2, sap2)
}

/// What receiving parameter `d` needs in `g`.
pub open spec fn param_ok(d: Declaration, g: Gen, ai: int, sap: int) -> bool {
    &&& mono_defined(leaf_s(d.ty@), g)
    &&& forall|gm: Gen| #[trigger] mono_effect(leaf_s(d.ty@), g, gm) ==> param_ok_after(param_type(d.ty@, g), gm, ai, sap)
}

/// Receiving the parameters `ds` in turn, from `g` on, is defined at every
/// step.
pub open spec fn params_ok(ds: Seq<Declaration>, g: Gen, ai: int, sap: int) -> bool
    decreases ds.len(),
{
    if ds.len() == 0 {
        true
    } else {
        &&& param_ok(ds[0], g, ai, sap)
        &&& forall|g2: Gen, ai2: int, sap2: int| #[trigger] param_step(ds[0], g, ai, sap, g2, ai2, sap2)
            ==> params_ok(ds.drop_first(), g2, ai2, sap2)
    }
}

/// `gs`, `ais`, `saps` are the states of receiving the parameters `ds` in
/// turn.
pub open spec fn params_chain(ds: Seq<Declaration>, gs: Seq<Gen>, ais: Seq<int>, saps: Seq<int>) -> bool {
    &&& gs.len() == ds.len() + 1
    &&& ais.len() == ds.len() + 1
    &&& saps.len() == ds.len() + 1
    &&& forall|j: int| 0 <= j < ds.len() ==> #[trigger] param_step(ds[j], gs[j], ais[j], saps[j], gs[j + 1], ais[j + 1], saps[j + 1])
}

/// The declarations in reverse order.
pub open spec fn rev_s(ds: Seq<Declaration>) -> Seq<Declaration> {
    Seq::new(ds.len(), |j: int| ds[ds.len() - 1 - j])
}

/// The hidden return pointer of a struct or enum result received from
/// `rdi` into a new slot at depth 8; nothing else changes.
pub open spec fn rvo_head(rvo: bool, g: Gen, g2: Gen) -> bool {
    if rvo {
        &&& g2.stack_pos == g.stack_pos + 8
        &&& g2.highest_stack_pos == (if g.highest_stack_pos < g.stack_pos + 8 { g.stack_pos + 8 } else { g.highest_stack_pos as int })
        &&& g2.func_data@ == g.func_data@ + line("    mov [rbp - 8], rdi"@)
        &&& g2.scopes == g.scopes
        &&& g2.global_vars == g.global_vars
        &&& g2.structs == g.structs
        &&& g2.enums == g.enums
        &&& g2.generics == g.generics
        &&& g2.out == g.out
        &&& g2.id == g.id
        &&& g2.functions == g.functions
        &&& g2.generic_func == g.generic_func
        &&& g2.data_code == g.data_code
        &&& g2.bss_code == g.bss_code
    } else {
        g2 == g
    }
}

/// The argument index that receiving starts from: the argument registers
/// of all parameters, and one for a hidden return pointer.
pub open spec fn first_arg_index(args: Seq<Declaration>, rvo: bool, g: Gen) -> int {
    arg_count_s(decl_types(args), g.layout()).unwrap() + (if rvo { 1int } else { 0int })
}

/// What `compile_args` needs: the return type can be made concrete, then
/// the parameters counted, the hidden return pointer received, and each
/// parameter received, last first.
pub open spec fn compile_args_ok(args: Seq<Declaration>, ret: TypeV, g: Gen) -> bool {
    &&& mono_defined(leaf_s(ret), g)
    &&& args.len() < usize::MAX / 2
    &&& forall|g1: Gen| #[trigger] mono_effect(leaf_s(ret), g, g1) ==> {
        let rvo = is_aggregate(param_type(ret, g));
        &&& arg_count_s(decl_types(args), g1.layout()) is Some
        &&& (rvo ==> g1.stack_pos + 8 <= usize::MAX)
        &&& forall|g2: Gen| #[trigger] rvo_head(rvo, g1, g2)
            ==> params_ok(rev_s(args), g2, first_arg_index(args, rvo, g1), 16)
    }
}

/// `g3` is what `compile_args` leaves of `g`.
pub open spec fn compile_args_run(args: Seq<Declaration>, ret: TypeV, g: Gen, g3: Gen) -> bool {
    exists|g1: Gen, g2: Gen, gs: Seq<Gen>, ais: Seq<int>, saps: Seq<int>|
        #[trigger] mono_effect(leaf_s(ret), g, g1)
        && #[trigger] rvo_head(is_aggregate(param_type(ret, g)), g1, g2)
        && #[trigger] params_chain(rev_s(args), gs, ais, saps)
        && gs[0] == g2
        && ais[0] == first_arg_index(args, is_aggregate(param_type(ret, g)), g1)
        && saps[0] == 16
        && gs[args.len() as int] == g3
}

impl Gen {
    /// Binds `name` to a local at depth `pos` of type `ty` in the innermost
    /// scope (see `local_put`).
    fn bind_local(&mut self, name: &String, pos: usize, ty: &Type)
        requires
            old(self).scopes@.len() > 0,
        ensures
            final(self).scopes@.len() == old(self).scopes@.len(),
            forall|j: int| 0 <= j < old(self).scopes@.len() - 1 ==> #[trigger] final(self).scopes@[j] == old(self).scopes@[j],
            local_put(final(self).scopes@.last()@, old(self).scopes@.last()@, name@, pos as int, ty@),
            final(self).global_vars == old(self).global_vars,
            final(self).structs == old(self).structs,
            final(self).enums == old(self).enums,
            final(self).generics == old(self).generics,
            final(self).out == old(self).out,
            final(self).func_data == old(self).func_data,
            final(self).stack_pos == old(self).stack_pos,
            final(self).highest_stack_pos == old(self).highest_stack_pos,
            final(self).id == old(self).id,
            final(self).functions == old(self).functions,
            final(self).generic_func == old(self).generic_func,
            final(self).data_code == old(self).data_code,
            final(self).bss_code == old(self).bss_code,
    {
        let ghost before = self.scopes@;
        let mut last = match self.scopes.pop() {
            Some(l) => l,
            None => Vec::new(),
        };
        let ghost old_last = last@;
        let vd = VarData { global_flag: false, stack_pos: pos, var_type: ty.duplicate() };
        proof { lemma_first_index(var_names(old_last), name@); }
        match Gen::find_var(&last, name.as_str()) {
            Some(k) => {
                last.set(k, (name.clone(), vd));
            },
            None => {
                last.push((name.clone(), vd));
            },
        }
        self.scopes.push(last);
        assert(self.scopes@.drop_last() =~= before.drop_last());
    }

    /// Receives parameter `d` with argument index `ai` and stack argument
    /// offset `sap`: its type made concrete, stack space reserved, the
    /// receiving lines written (see `param_text_s`) and its name bound.
    /// Returns the argument index and stack argument offset after it.
    fn receive_param(&mut self, d: &Declaration, ai: usize, sap: usize) -> (r: (usize, usize))
        requires
            param_ok(*d, *old(self), ai as int, sap as int),
        ensures
            param_step(*d, *old(self), ai as int, sap as int, *final(self), r.0 as int, r.1 as int),
    {
        let ghost g = *self;
        let arg_ty = self.ensure_monomorphized(&d.ty);
        let ghost gm = *self;
        let ghost t = param_type(d.ty@, g);
        assert(arg_ty@ == t);
        assert(param_ok_after(t, gm, ai as int, sap as int));
        let pos = self.alloc_type(&arg_ty);
        let ghost ga = *self;
        assert(ga.layout() == gm.layout());
        let ghost ai0 = ai;
        let ghost sap0 = sap;
        let mut ai = ai;
        let mut sap = sap;
        let aggregate = match &arg_ty {
            Type::Enum(..) | Type::Struct(..) => true,
            _ => false,
        };
        if aggregate {
            let size: usize = match &arg_ty {
                Type::Enum(name, _) => match self.find_enum(name) {
                    Some(k) => self.enums[k].size,
                    None => 0,
                },
                Type::Struct(name) => match self.struct_size(name) {
                    Some(sz) => sz,
                    None => 0,
                },
                _ => 0,
            };
            assert(stored_size(t, gm) == Some(size as int));
            if size <= 8 {
                self.get_arg(ai, &arg_ty, pos, Some(sap), false);
                ai = ai - 1;
            } else if size <= 16 && ai < 6 {
                self.get_arg(ai, &arg_ty, pos - 8, None, false);
                ai = ai - 1;
                self.get_arg(ai, &arg_ty, pos, None, false);
                ai = ai - 1;
            } else {
                self.get_arg(ai, &arg_ty, pos, Some(sap), false);
                let sz = self.type_size(&arg_ty);
                sap = sap + sz;
            }
        } else {
            self.get_arg(ai, &arg_ty, pos, Some(sap), false);
            if ai > 6 {
                let sz = self.type_size(&arg_ty);
                sap = sap + sz;
            } else {
                ai = ai - 1;
            }
        }
        let ghost gb = *self;
        self.bind_local(&d.name, pos, &d.ty);
        proof {
            let sz = type_size_s(t, gm.layout(), gm.size_fuel()).unwrap();
            let r = param_text_s(t, gm, ai0 as int, sap0 as int, pos as int);
            assert(pos as int == gm.stack_pos + sz);
            assert(self.func_data@ == gm.func_data@ + r.0);
            assert(ai as int == r.1);
            assert(sap as int == r.2);
            assert(self.stack_pos == pos);
            assert(self.scopes@.len() == gm.scopes@.len());
            assert(local_put(self.scopes@.last()@, gm.scopes@.last()@, d.name@, pos as int, d.ty@));
        }
        assert(param_after(*d, t, gm, ai0 as int, sap0 as int, *self, ai as int, sap as int));
        (ai, sap)
    }

    /// Receives a function's parameters at its start: the return type made
    /// concrete; for a struct or enum result the hidden return pointer moved
    /// from `rdi` to a new slot; then each parameter, last first, from its
    /// argument register or the caller's stack into a new slot, its name
    /// bound in the innermost scope (see `receive_param`).
    pub fn compile_args(&mut self, args: &Vec<Declaration>, ret_type: &Type)
        requires
            compile_args_ok(args@, ret_type@, *old(self)),
        ensures
            compile_args_run(args@, ret_type@, *old(self), *final(self)),
    {
        let ghost g0 = *self;
        let rt = self.ensure_monomorphized(ret_type);
        let ghost g1 = *self;
        let is_rvo = match &rt {
            Type::Enum(..) | Type::Struct(..) => true,
            _ => false,
        };
        assert(is_rvo == is_aggregate(param_type(ret_type@, g0)));
        let mut arg_index = self.arg_count(is_rvo, args);
        if is_rvo {
            self.alloc_stack(8);
            self.emit_func_data(from_lit("    mov [rbp - 8], rdi"));
        }
        let ghost g2 = *self;
        assert(rvo_head(is_rvo, g1, g2));
        let ghost ds = rev_s(args@);
        let mut stack_arg_pos: usize = 16;
        let ghost mut gs: Seq<Gen> = seq![*self];
        let ghost mut ais: Seq<int> = seq![arg_index as int];
        let ghost mut saps: Seq<int> = seq![16int];
        assert(ds.subrange(0, ds.len() as int) =~= ds);
        let mut j: usize = 0;
        while j < args.len()
            invariant
                j <= args@.len(),
                ds == rev_s(args@),
                ds.len() == args@.len(),
                params_chain(ds.take(j as int), gs, ais, saps),
                gs[0] == g2,
                ais[0] == first_arg_index(args@, is_rvo, g1),
                saps[0] == 16,
                gs[j as int] == *self,
                ais[j as int] == arg_index as int,
                saps[j as int] == stack_arg_pos as int,
                params_ok(ds.subrange(j as int, ds.len() as int), *self, arg_index as int, stack_arg_pos as int),
            decreases args.len() - j,
        {
            let ghost rest = ds.subrange(j as int, ds.len() as int);
            let d = &args[args.len() - 1 - j];
            assert(rest[0] == *d);
            assert(rest.drop_first() =~= ds.subrange(j + 1, ds.len() as int));
            let ghost gi = *self;
            let ghost aii = arg_index as int;
            let ghost sapi = stack_arg_pos as int;
            let (a2, s2) = self.receive_param(d, arg_index, stack_arg_pos);
            proof {
                let gs2 = gs.push(*self);
                let ais2 = ais.push(a2 as int);
                let saps2 = saps.push(s2 as int);
                assert forall|m: int| 0 <= m < ds.take(j + 1).len() implies
                    #[trigger] param_step(ds.take(j + 1)[m], gs2[m], ais2[m], saps2[m], gs2[m + 1], ais2[m + 1], saps2[m + 1]) by {
                    if m < j {
                        assert(ds.take(j + 1)[m] == ds.take(j as int)[m]);
                        assert(param_step(ds.take(j as int)[m], gs[m], ais[m], saps[m], gs[m + 1], ais[m + 1], saps[m + 1]));
                    } else {
                        assert(ds.take(j + 1)[m] == *d);
                    }
                }
                assert(params_chain(ds.take(j + 1), gs2, ais2, saps2));
                gs = gs2;
                ais = ais2;
                saps = saps2;
            }
            arg_index = a2;
            stack_arg_pos = s2;
            j = j + 1;
        }
        assert(ds.take(j as int) =~= ds);
        assert(mono_effect(leaf_s(ret_type@), g0, g1));
    }
}

} // verus!
