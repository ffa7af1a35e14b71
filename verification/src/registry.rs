use vstd::prelude::*;
use crate::codegen::{Gen, StructData, FuncData, FuncDataV, func_data_v, field_map_entries, entries_from, data_names, enum_of, lemma_struct_of_index};
use crate::ir::{Stmt, StmtType, StmtV, StmtKindV, stmt_v, EnumData, EnumDataV, enum_data_v, StructFieldV, strs_v, copy_strings, decls_v, copy_variants, stmts_v, lemma_stmts_v_push};
use crate::ir_copy::copy_decls;
use crate::text::{from_lit, push_str};
use crate::shared::{first_index, lemma_first_index};
use crate::sizing::{enum_names, struct_sizable, struct_sized, enum_sizable, enum_sized, lemma_enum_of_index};
use crate::analyzer::struct_of;

verus! {

// ---------------------------------------------------------------------------
// The declaration tables by value
// ---------------------------------------------------------------------------

/// The value of a struct layout: its name, generic parameters, fields by
/// name in order, and size.
pub struct StructDataV {
    pub name: Seq<char>,
    pub generic_type: Seq<Seq<char>>,
    pub entries: Seq<(Seq<char>, StructFieldV)>,
    pub size: usize,
}

pub open spec fn struct_data_v(sd: StructData) -> StructDataV {
    StructDataV {
        name: sd.name@,
        generic_type: strs_v(sd.generic_type@),
        entries: field_map_entries(sd.elements),
        size: sd.size,
    }
}

/// The declaration tables of a generator by value: the overloads of each
/// function name, the generic functions' declarations by name, the struct
/// layouts and the enums.
pub struct TablesV {
    pub funcs: Seq<(Seq<char>, Seq<FuncDataV>)>,
    pub gfuncs: Seq<(Seq<char>, Seq<StmtV>)>,
    pub structs: Seq<StructDataV>,
    pub enums: Seq<EnumDataV>,
}

pub open spec fn tables_v(g: Gen) -> TablesV {
    TablesV {
        funcs: Seq::new(g.functions@.len(), |i: int| (g.functions@[i].0@,
            Seq::new(g.functions@[i].1@.len(), |j: int| func_data_v(g.functions@[i].1@[j])))),
        gfuncs: Seq::new(g.generic_func@.len(), |i: int| (g.generic_func@[i].0@,
            Seq::new(g.generic_func@[i].1@.len(), |j: int| stmt_v(g.generic_func@[i].1@[j])))),
        structs: Seq::new(g.structs@.len(), |i: int| struct_data_v(g.structs@[i])),
        enums: g.layout().enums,
    }
}

/// A table keyed by name after adding `x` under `name`: appended to the
/// entry of that name, or a new entry at the end.
pub open spec fn table_add<T>(t: Seq<(Seq<char>, Seq<T>)>, name: Seq<char>, x: T) -> Seq<(Seq<char>, Seq<T>)> {
    match first_index(t.map_values(|e: (Seq<char>, Seq<T>)| e.0), name) {
        Some(i) => t.update(i, (name, t[i].1.push(x))),
        None => t.push((name, seq![x])),
    }
}

/// A table keyed by name with the entry `name` set to `xs`: in its place,
/// or added at the end.
pub open spec fn table_put<T>(t: Seq<(Seq<char>, Seq<T>)>, name: Seq<char>, xs: Seq<T>) -> Seq<(Seq<char>, Seq<T>)> {
    match first_index(t.map_values(|e: (Seq<char>, Seq<T>)| e.0), name) {
        Some(i) => t.update(i, (name, xs)),
        None => t.push((name, xs)),
    }
}

/// The struct layouts after recording `sd`: one of the same name is
/// replaced in its place, else `sd` is added at the end.
pub open spec fn struct_put(ss: Seq<StructDataV>, sd: StructDataV) -> Seq<StructDataV> {
    match first_index(ss.map_values(|d: StructDataV| d.name), sd.name) {
        Some(i) => ss.update(i, sd),
        None => ss.push(sd),
    }
}

/// The enums after recording `e`: one of the same name is replaced in its
/// place, else `e` is added at the end.
pub open spec fn enum_put(es: Seq<EnumDataV>, e: EnumDataV) -> Seq<EnumDataV> {
    match first_index(enum_names(es), e.name) {
        Some(i) => es.update(i, e),
        None => es.push(e),
    }
}

/// The tables after registering one top-level statement: a function's
/// signature under its name (and a generic function's declaration), a
/// struct's fields with no size yet, an enum's variants with no size yet;
/// any other statement registers nothing.
pub open spec fn register_s(t: TablesV, s: StmtV) -> TablesV {
    match s.kind {
        StmtKindV::InitFunc { name, args, ret_type, .. } => TablesV {
            funcs: table_add(t.funcs, name, FuncDataV { args, generic: Seq::empty(), return_type: ret_type }),
            ..t
        },
        StmtKindV::GenericInitFunc { name, generic_types, args, ret_type, .. } => TablesV {
            funcs: table_add(t.funcs, name, FuncDataV { args, generic: generic_types, return_type: ret_type }),
            gfuncs: table_add(t.gfuncs, name, s),
            ..t
        },
        StmtKindV::InitStruct(d) => TablesV {
            structs: struct_put(t.structs, StructDataV {
                name: d.name,
                generic_type: d.generic_type,
                entries: entries_from(d.fields),
                size: 0,
            }),
            ..t
        },
        StmtKindV::InitEnum { name, generic_types, variants } => TablesV {
            enums: enum_put(t.enums, EnumDataV { name, generic_type: generic_types, variants, size: 0 }),
            ..t
        },
        _ => t,
    }
}

/// The tables after registering each statement in turn.
pub open spec fn register_all_s(t: TablesV, ss: Seq<StmtV>) -> TablesV
    decreases ss.len(),
{
    if ss.len() == 0 {
        t
    } else {
        register_s(register_all_s(t, ss.drop_last()), ss.last())
    }
}

/// Everything but the declaration tables is as before.
pub open spec fn same_but_tables(g: Gen, old: Gen) -> bool {
    &&& g.scopes == old.scopes
    &&& g.global_vars == old.global_vars
    &&& g.generics == old.generics
    &&& g.out == old.out
    &&& g.func_data == old.func_data
    &&& g.stack_pos == old.stack_pos
    &&& g.highest_stack_pos == old.highest_stack_pos
    &&& g.id == old.id
    &&& g.data_code == old.data_code
    &&& g.bss_code == old.bss_code
}

// ---------------------------------------------------------------------------
// Laying out every registered struct and enum
// ---------------------------------------------------------------------------

/// The struct named `n` in `g` is a generic template (not laid out itself).
pub open spec fn struct_is_template(n: Seq<char>, g: Gen) -> bool {
    struct_of(g.structs@, n) matches Some(sd) && sd.generic_type@.len() > 0
}

/// The enum named `n` in `g` is a generic template (not laid out itself).
pub open spec fn enum_is_template(n: Seq<char>, g: Gen) -> bool {
    enum_of(g.layout().enums, n) matches Some(e) && e.generic_type.len() > 0
}

/// One step of laying out the structs: a template is skipped, any other
/// name is laid out by `ensure_struct_sized`.
pub open spec fn struct_step(n: Seq<char>, g: Gen, g2: Gen) -> bool {
    if struct_is_template(n, g) {
        g2 == g
    } else {
        exists|r: usize| #[trigger] struct_sized(n, r, g, g2)
    }
}

/// One step of laying out the enums: a template is skipped, any other name
/// is laid out by `ensure_enum_sized`.
pub open spec fn enum_step(n: Seq<char>, g: Gen, g2: Gen) -> bool {
    if enum_is_template(n, g) {
        g2 == g
    } else {
        exists|r: usize| #[trigger] enum_sized(n, r, g, g2)
    }
}

/// Laying out the structs named `ns` in turn, from `g` on, is defined at
/// every step.
pub open spec fn structs_sizable(ns: Seq<Seq<char>>, g: Gen) -> bool
    decreases ns.len(),
{
    if ns.len() == 0 {
        true
    } else if struct_is_template(ns[0], g) {
        structs_sizable(ns.drop_first(), g)
    } else {
        &&& struct_sizable(ns[0], g)
        &&& forall|g1: Gen| #[trigger] struct_step(ns[0], g, g1) ==> structs_sizable(ns.drop_first(), g1)
    }
}

/// Laying out the enums named `ns` in turn, from `g` on, is defined at
/// every step.
pub open spec fn enums_sizable(ns: Seq<Seq<char>>, g: Gen) -> bool
    decreases ns.len(),
{
    if ns.len() == 0 {
        true
    } else if enum_is_template(ns[0], g) {
        enums_sizable(ns.drop_first(), g)
    } else {
        &&& enum_sizable(ns[0], g)
        &&& forall|g1: Gen| #[trigger] enum_step(ns[0], g, g1) ==> enums_sizable(ns.drop_first(), g1)
    }
}

/// `gs` are the states of laying out the structs named `ns` in turn, from
/// `g` to `g2`.
pub open spec fn structs_chain(ns: Seq<Seq<char>>, gs: Seq<Gen>, g: Gen, g2: Gen) -> bool {
    &&& gs.len() == ns.len() + 1
    &&& gs[0] == g
    &&& gs[ns.len() as int] == g2
    &&& forall|j: int| 0 <= j < ns.len() ==> #[trigger] struct_step(ns[j], gs[j], gs[j + 1])
}

/// `gs` are the states of laying out the enums named `ns` in turn, from `g`
/// to `g2`.
pub open spec fn enums_chain(ns: Seq<Seq<char>>, gs: Seq<Gen>, g: Gen, g2: Gen) -> bool {
    &&& gs.len() == ns.len() + 1
    &&& gs[0] == g
    &&& gs[ns.len() as int] == g2
    &&& forall|j: int| 0 <= j < ns.len() ==> #[trigger] enum_step(ns[j], gs[j], gs[j + 1])
}

/// `g2` is what laying out the structs named `ns` in turn leaves of `g`.
pub open spec fn structs_run(ns: Seq<Seq<char>>, g: Gen, g2: Gen) -> bool {
    exists|gs: Seq<Gen>| #[trigger] structs_chain(ns, gs, g, g2)
}

/// `g2` is what laying out the enums named `ns` in turn leaves of `g`.
pub open spec fn enums_run(ns: Seq<Seq<char>>, g: Gen, g2: Gen) -> bool {
    exists|gs: Seq<Gen>| #[trigger] enums_chain(ns, gs, g, g2)
}

/// `g1` is `g` with the statements `ss` registered in turn.
pub open spec fn registered(ss: Seq<Stmt>, g: Gen, g1: Gen) -> bool {
    &&& tables_v(g1) == register_all_s(tables_v(g), stmts_v(ss))
    &&& same_but_tables(g1, g)
}

/// Laying out everything registered in `g1` is defined: every struct in
/// turn, then every enum there is after that.
pub open spec fn layouts_defined(g1: Gen) -> bool {
    &&& structs_sizable(data_names(g1.structs@), g1)
    &&& forall|g2: Gen| #[trigger] structs_run(data_names(g1.structs@), g1, g2)
        ==> enums_sizable(enum_names(g2.layout().enums), g2)
}

impl Gen {
    /// The index of the entry named `name` in the functions table.
    pub(crate) fn function_index(&self, name: &String) -> (r: Option<usize>)
        ensures
            match first_index(tables_v(*self).funcs.map_values(|e: (Seq<char>, Seq<FuncDataV>)| e.0), name@) {
                Some(i) => r matches Some(k) && k as int == i && k < self.functions@.len(),
                None => r is None,
            },
    {
        let ghost names = tables_v(*self).funcs.map_values(|e: (Seq<char>, Seq<FuncDataV>)| e.0);
        proof { lemma_first_index(names, name@); }
        let mut i: usize = 0;
        while i < self.functions.len()
            invariant
                i <= self.functions@.len(),
                names == tables_v(*self).funcs.map_values(|e: (Seq<char>, Seq<FuncDataV>)| e.0),
                names.len() == self.functions@.len(),
                forall|j: int| 0 <= j < i ==> names[j] != name@,
                first_index(names, name@) matches Some(k) ==> 0 <= k < names.len() && names[k] == name@
                    && forall|j: int| 0 <= j < k ==> names[j] != name@,
                first_index(names, name@) is None ==> forall|j: int| 0 <= j < names.len() ==> names[j] != name@,
            decreases self.functions.len() - i,
        {
            assert(names[i as int] == self.functions@[i as int].0@);
            if self.functions[i].0.eq(name) {
                assert(first_index(names, name@) == Some(i as int));
                return Some(i);
            }
            i = i + 1;
        }
        None
    }

    /// The index of the entry named `name` in the generic functions table.
    fn generic_func_index(&self, name: &String) -> (r: Option<usize>)
        ensures
            match first_index(tables_v(*self).gfuncs.map_values(|e: (Seq<char>, Seq<StmtV>)| e.0), name@) {
                Some(i) => r matches Some(k) && k as int == i && k < self.generic_func@.len(),
                None => r is None,
            },
    {
        let ghost names = tables_v(*self).gfuncs.map_values(|e: (Seq<char>, Seq<StmtV>)| e.0);
        proof { lemma_first_index(names, name@); }
        let mut i: usize = 0;
        while i < self.generic_func.len()
            invariant
                i <= self.generic_func@.len(),
                names == tables_v(*self).gfuncs.map_values(|e: (Seq<char>, Seq<StmtV>)| e.0),
                names.len() == self.generic_func@.len(),
                forall|j: int| 0 <= j < i ==> names[j] != name@,
                first_index(names, name@) matches Some(k) ==> 0 <= k < names.len() && names[k] == name@
                    && forall|j: int| 0 <= j < k ==> names[j] != name@,
                first_index(names, name@) is None ==> forall|j: int| 0 <= j < names.len() ==> names[j] != name@,
            decreases self.generic_func.len() - i,
        {
            assert(names[i as int] == self.generic_func@[i as int].0@);
            if self.generic_func[i].0.eq(name) {
                assert(first_index(names, name@) == Some(i as int));
                return Some(i);
            }
            i = i + 1;
        }
        None
    }

    /// Adds a signature under `name` in the functions table.
    fn add_function(&mut self, name: &String, fd: FuncData)
        ensures
            tables_v(*final(self)) == (TablesV {
                funcs: table_add(tables_v(*old(self)).funcs, name@, func_data_v(fd)),
                ..tables_v(*old(self))
            }),
            same_but_tables(*final(self), *old(self)),
            final(self).structs == old(self).structs,
            final(self).enums == old(self).enums,
    {
        let ghost before = tables_v(*self);
        match self.function_index(name) {
            Some(k) => {
                let ghost old_f = self.functions@;
                let (n, mut v) = self.functions.remove(k);
                let ghost vv = v@;
                v.push(fd);
                self.functions.insert(k, (n, v));
                proof {
                    assert(self.functions@ =~= old_f.update(k as int, self.functions@[k as int]));
                    let names = before.funcs.map_values(|e: (Seq<char>, Seq<FuncDataV>)| e.0);
                    lemma_first_index(names, name@);
                    assert(names[k as int] == before.funcs[k as int].0);
                    assert(before.funcs[k as int].0 == name@);
                    assert(self.functions@[k as int].1@ =~= vv.push(fd));
                    assert(tables_v(*self).funcs =~= before.funcs.update(k as int, (name@, before.funcs[k as int].1.push(func_data_v(fd))))) by {
                        assert forall|i: int| 0 <= i < before.funcs.len() implies #[trigger] tables_v(*self).funcs[i]
                            == before.funcs.update(k as int, (name@, before.funcs[k as int].1.push(func_data_v(fd))))[i] by {
                            if i == k {
                                assert(tables_v(*self).funcs[i].1 =~= before.funcs[k as int].1.push(func_data_v(fd)));
                            }
                        }
                    }
                }
            },
            None => {
                let mut v: Vec<FuncData> = Vec::new();
                v.push(fd);
                self.functions.push((name.clone(), v));
                proof {
                    assert(tables_v(*self).funcs[before.funcs.len() as int].1 =~= seq![func_data_v(fd)]);
                    assert(tables_v(*self).funcs =~= before.funcs.push((name@, seq![func_data_v(fd)])));
                }
            },
        }
        assert(tables_v(*self).gfuncs =~= before.gfuncs);
        assert(tables_v(*self).structs =~= before.structs);
    }

    /// Adds a generic function's declaration under `name`.
    fn add_generic_func(&mut self, name: &String, s: Stmt)
        ensures
            tables_v(*final(self)) == (TablesV {
                gfuncs: table_add(tables_v(*old(self)).gfuncs, name@, stmt_v(s)),
                ..tables_v(*old(self))
            }),
            same_but_tables(*final(self), *old(self)),
            final(self).structs == old(self).structs,
            final(self).enums == old(self).enums,
    {
        let ghost before = tables_v(*self);
        match self.generic_func_index(name) {
            Some(k) => {
                let ghost old_f = self.generic_func@;
                let (n, mut v) = self.generic_func.remove(k);
                let ghost vv = v@;
                v.push(s);
                self.generic_func.insert(k, (n, v));
                proof {
                    assert(self.generic_func@ =~= old_f.update(k as int, self.generic_func@[k as int]));
                    let names = before.gfuncs.map_values(|e: (Seq<char>, Seq<StmtV>)| e.0);
                    lemma_first_index(names, name@);
                    assert(names[k as int] == before.gfuncs[k as int].0);
                    assert(before.gfuncs[k as int].0 == name@);
                    assert(tables_v(*self).gfuncs =~= before.gfuncs.update(k as int, (name@, before.gfuncs[k as int].1.push(stmt_v(s))))) by {
                        assert forall|i: int| 0 <= i < before.gfuncs.len() implies #[trigger] tables_v(*self).gfuncs[i]
                            == before.gfuncs.update(k as int, (name@, before.gfuncs[k as int].1.push(stmt_v(s))))[i] by {
                            if i == k {
                                assert(tables_v(*self).gfuncs[i].1 =~= before.gfuncs[k as int].1.push(stmt_v(s)));
                            }
                        }
                    }
                }
            },
            None => {
                let mut v: Vec<Stmt> = Vec::new();
                v.push(s);
                self.generic_func.push((name.clone(), v));
                proof {
                    assert(tables_v(*self).gfuncs[before.gfuncs.len() as int].1 =~= seq![stmt_v(s)]);
                    assert(tables_v(*self).gfuncs =~= before.gfuncs.push((name@, seq![stmt_v(s)])));
                }
            },
        }
        assert(tables_v(*self).funcs =~= before.funcs);
        assert(tables_v(*self).structs =~= before.structs);
    }

    /// The names of the struct layouts, in order.
    fn struct_names(&self) -> (r: Vec<String>)
        ensures
            strs_v(r@) == data_names(self.structs@),
    {
        let mut out: Vec<String> = Vec::new();
        let mut i: usize = 0;
        while i < self.structs.len()
            invariant
                i <= self.structs@.len(),
                out@.len() == i,
                forall|j: int| 0 <= j < i ==> #[trigger] out@[j]@ == self.structs@[j].name@,
            decreases self.structs.len() - i,
        {
            out.push(self.structs[i].name.clone());
            i = i + 1;
        }
        assert(strs_v(out@) =~= data_names(self.structs@));
        out
    }

    /// The names of the enums, in order.
    fn enum_name_list(&self) -> (r: Vec<String>)
        ensures
            strs_v(r@) == enum_names(self.layout().enums),
    {
        let mut out: Vec<String> = Vec::new();
        let mut i: usize = 0;
        while i < self.enums.len()
            invariant
                i <= self.enums@.len(),
                out@.len() == i,
                forall|j: int| 0 <= j < i ==> #[trigger] out@[j]@ == self.enums@[j].name@,
            decreases self.enums.len() - i,
        {
            out.push(self.enums[i].name.clone());
            i = i + 1;
        }
        assert(strs_v(out@) =~= enum_names(self.layout().enums));
        out
    }

    /// Registers the declarations of a program's top-level statements (see
    /// `register_s`), then lays out every struct that is not a generic
    /// template (see `ensure_struct_sized`), in the order of the struct
    /// layouts, and then every enum that is not one (see
    /// `ensure_enum_sized`).
    pub fn reg_inits(&mut self, stmt: &Vec<Stmt>)
        requires
            forall|g1: Gen| #[trigger] registered(stmt@, *old(self), g1) ==> layouts_defined(g1),
        ensures
            exists|g1: Gen, g2: Gen| #[trigger] registered(stmt@, *old(self), g1)
                && #[trigger] structs_run(data_names(g1.structs@), g1, g2)
                && enums_run(enum_names(g2.layout().enums), g2, *final(self)),
    {
        let ghost g0 = *self;
        let mut i: usize = 0;
        assert(stmt@.take(0) =~= Seq::<Stmt>::empty());
        while i < stmt.len()
            invariant
                i <= stmt@.len(),
                registered(stmt@.take(i as int), g0, *self),
            decreases stmt.len() - i,
        {
            proof {
                assert(stmt@.take(i + 1).drop_last() =~= stmt@.take(i as int));
                lemma_stmts_v_push(stmt@.take(i as int), stmt@[i as int]);
                assert(stmt@.take(i as int).push(stmt@[i as int]) =~= stmt@.take(i + 1));
            }
            let ghost before = *self;
            self.register_stmt(&stmt[i]);
            proof {
                let sv = stmts_v(stmt@.take(i + 1));
                assert(sv == stmts_v(stmt@.take(i as int)).push(stmt_v(stmt@[i as int])));
                assert(sv.drop_last() =~= stmts_v(stmt@.take(i as int)));
                assert(sv.last() == stmt_v(stmt@[i as int]));
                assert(register_all_s(tables_v(g0), sv) == register_s(register_all_s(tables_v(g0), sv.drop_last()), sv.last()));
            }
            i = i + 1;
        }
        assert(stmt@.take(i as int) =~= stmt@);
        let ghost g1 = *self;
        assert(registered(stmt@, g0, g1));
        assert(layouts_defined(g1));

        let names = self.struct_names();
        let ghost ns = strs_v(names@);
        let ghost mut chain: Seq<Gen> = seq![*self];
        assert(ns.subrange(0, ns.len() as int) =~= ns);
        let mut j: usize = 0;
        while j < names.len()
            invariant
                j <= names@.len(),
                ns == strs_v(names@),
                ns == data_names(g1.structs@),
                ns.len() == names@.len(),
                structs_chain(ns.take(j as int), chain, g1, *self),
                structs_sizable(ns.subrange(j as int, ns.len() as int), *self),
            decreases names.len() - j,
        {
            let ghost gi = *self;
            let ghost rest = ns.subrange(j as int, ns.len() as int);
            assert(rest[0] == names@[j as int]@);
            assert(rest.drop_first() =~= ns.subrange(j + 1, ns.len() as int));
            let n = &names[j];
            proof { lemma_struct_of_index(self.structs@, n@); }
            let template = match self.find_struct_data(n) {
                Some(k) => self.structs[k].generic_type.len() > 0,
                None => false,
            };
            if !template {
                let r = self.ensure_struct_sized(n);
                assert(struct_sized(n@, r, gi, *self));
            }
            proof {
                assert(struct_step(rest[0], gi, *self));
                let chain2 = chain.push(*self);
                assert forall|m: int| 0 <= m < ns.take(j + 1).len() implies
                    #[trigger] struct_step(ns.take(j + 1)[m], chain2[m], chain2[m + 1]) by {
                    if m < j {
                        assert(ns.take(j + 1)[m] == ns.take(j as int)[m]);
                        assert(struct_step(ns.take(j as int)[m], chain[m], chain[m + 1]));
                    } else {
                        assert(ns.take(j + 1)[m] == rest[0]);
                    }
                }
                chain = chain2;
            }
            j = j + 1;
        }
        assert(ns.take(j as int) =~= ns);
        let ghost g2 = *self;
        assert(structs_chain(ns, chain, g1, g2));
        assert(structs_run(data_names(g1.structs@), g1, g2));
        assert(enums_sizable(enum_names(g2.layout().enums), g2));

        let enames = self.enum_name_list();
        let ghost es = strs_v(enames@);
        let ghost mut echain: Seq<Gen> = seq![*self];
        assert(es.subrange(0, es.len() as int) =~= es);
        let mut k: usize = 0;
        while k < enames.len()
            invariant
                k <= enames@.len(),
                es == strs_v(enames@),
                es == enum_names(g2.layout().enums),
                es.len() == enames@.len(),
                enums_chain(es.take(k as int), echain, g2, *self),
                enums_sizable(es.subrange(k as int, es.len() as int), *self),
            decreases enames.len() - k,
        {
            let ghost gi = *self;
            let ghost rest = es.subrange(k as int, es.len() as int);
            assert(rest[0] == enames@[k as int]@);
            assert(rest.drop_first() =~= es.subrange(k + 1, es.len() as int));
            let n = &enames[k];
            proof {
                lemma_enum_of_index(self.layout().enums, n@);
                lemma_first_index(enum_names(self.layout().enums), n@);
            }
            let template = match self.enum_index(n) {
                Some(x) => self.enums[x].generic_type.len() > 0,
                None => false,
            };
            if !template {
                let r = self.ensure_enum_sized(n);
                assert(enum_sized(n@, r, gi, *self));
            }
            proof {
                assert(enum_step(rest[0], gi, *self));
                let chain2 = echain.push(*self);
                assert forall|m: int| 0 <= m < es.take(k + 1).len() implies
                    #[trigger] enum_step(es.take(k + 1)[m], chain2[m], chain2[m + 1]) by {
                    if m < k {
                        assert(es.take(k + 1)[m] == es.take(k as int)[m]);
                        assert(enum_step(es.take(k as int)[m], echain[m], echain[m + 1]));
                    } else {
                        assert(es.take(k + 1)[m] == rest[0]);
                    }
                }
                echain = chain2;
            }
            k = k + 1;
        }
        assert(es.take(k as int) =~= es);
        assert(enums_chain(es, echain, g2, *self));
        assert(enums_run(enum_names(g2.layout().enums), g2, *self));
        assert(registered(stmt@, g0, g1) && structs_run(data_names(g1.structs@), g1, g2)
            && enums_run(enum_names(g2.layout().enums), g2, *self));
    }

    /// Declares an external function: `extern` and its name written to the
    /// output, and its signature made the only one under its name.
    pub fn gen_extern(&mut self, function: &Box<Stmt>)
        requires
            function.ty is InitFunc,
        ensures
            ({
                let (name, args, ret_type) = match function.ty {
                    StmtType::InitFunc { name, args, ret_type, .. } => (name, args, ret_type),
                    _ => arbitrary(),
                };
                &&& tables_v(*final(self)) == (TablesV {
                    funcs: table_put(tables_v(*old(self)).funcs, name@,
                        seq![FuncDataV { args: decls_v(args@), generic: Seq::empty(), return_type: ret_type@ }]),
                    ..tables_v(*old(self))
                })
                &&& final(self).out@ == old(self).out@ + crate::codegen::line("extern "@ + name@)
            }),
            final(self).func_data == old(self).func_data,
            final(self).scopes == old(self).scopes,
            final(self).global_vars == old(self).global_vars,
            final(self).generics == old(self).generics,
            final(self).data_code == old(self).data_code,
            final(self).bss_code == old(self).bss_code,
    {
        match &function.ty {
            StmtType::InitFunc { name, args, ret_type, data: _ } => {
                let fd = FuncData { args: copy_decls(args), generic: Vec::new(), return_type: ret_type.duplicate() };
                let ghost fdv = func_data_v(fd);
                assert(fdv.generic =~= Seq::<Seq<char>>::empty());
                let mut text = from_lit("extern ");
                push_str(&mut text, name.as_str());
                self.emit(text);
                let ghost before = tables_v(*self);
                let mut v: Vec<FuncData> = Vec::new();
                v.push(fd);
                match self.function_index(name) {
                    Some(k) => {
                        self.functions.set(k, (name.clone(), v));
                        proof {
                            assert(tables_v(*self).funcs[k as int].1 =~= seq![fdv]);
                            assert(tables_v(*self).funcs =~= before.funcs.update(k as int, (name@, seq![fdv])));
                        }
                    },
                    None => {
                        self.functions.push((name.clone(), v));
                        proof {
                            assert(tables_v(*self).funcs[before.funcs.len() as int].1 =~= seq![fdv]);
                            assert(tables_v(*self).funcs =~= before.funcs.push((name@, seq![fdv])));
                        }
                    },
                }
                assert(tables_v(*self).gfuncs =~= before.gfuncs);
                assert(tables_v(*self).structs =~= before.structs);
            },
            _ => {},
        }
    }

    /// Registers one top-level statement (see `register_s`).
    pub fn register_stmt(&mut self, s: &Stmt)
        ensures
            tables_v(*final(self)) == register_s(tables_v(*old(self)), stmt_v(*s)),
            same_but_tables(*final(self), *old(self)),
    {
        let ghost before = tables_v(*self);
        match &s.ty {
            StmtType::InitFunc { name, args, ret_type, data: _ } => {
                let fd = FuncData { args: copy_decls(args), generic: Vec::new(), return_type: ret_type.duplicate() };
                assert(func_data_v(fd).generic =~= Seq::<Seq<char>>::empty());
                self.add_function(name, fd);
            },
            StmtType::GenericInitFunc { name, generic_types, args, ret_type, data: _ } => {
                let fd = FuncData { args: copy_decls(args), generic: copy_strings(generic_types), return_type: ret_type.duplicate() };
                self.add_function(name, fd);
                self.add_generic_func(name, s.duplicate());
            },
            StmtType::InitStruct(def) => {
                let sd = StructData::from_def(def, 0);
                let ghost sdv = struct_data_v(sd);
                let ghost names = before.structs.map_values(|d: StructDataV| d.name);
                proof { lemma_first_index(names, def.name@); }
                assert(names =~= data_names(self.structs@));
                match self.find_struct_data(&def.name) {
                    Some(k) => {
                        self.structs.set(k, sd);
                        assert(tables_v(*self).structs =~= before.structs.update(k as int, sdv));
                    },
                    None => {
                        self.structs.push(sd);
                        assert(tables_v(*self).structs =~= before.structs.push(sdv));
                    },
                }
                assert(tables_v(*self).funcs =~= before.funcs);
                assert(tables_v(*self).gfuncs =~= before.gfuncs);
            },
            StmtType::InitEnum { name, generic_types, variants } => {
                let e = EnumData { name: name.clone(), generic_type: copy_strings(generic_types), variants: copy_variants(variants), size: 0 };
                let ghost ev = enum_data_v(e);
                match self.enum_index(name) {
                    Some(k) => {
                        self.enums.set(k, e);
                        assert(tables_v(*self).enums =~= before.enums.update(k as int, ev));
                    },
                    None => {
                        self.enums.push(e);
                        assert(tables_v(*self).enums =~= before.enums.push(ev));
                    },
                }
                assert(tables_v(*self).funcs =~= before.funcs);
                assert(tables_v(*self).gfuncs =~= before.gfuncs);
                assert(tables_v(*self).structs =~= before.structs);
            },
            _ => {},
        }
    }
}

} // verus!
