use vstd::prelude::*;
use crate::grammar::{Ctx, size_of_s};
use crate::shared::numeric_rank_s;
use crate::analyzer::{struct_of, last_entry};
use crate::text::{from_lit, push_decimal, decimal};
use crate::codegen::{Gen, Layout, StructData, lemma_struct_of_index, struct_size_of, variant_arg_types,
    variants_size_s, fields_size_s, align_s, max_align_s, variants_align_s, layout_s, align_up, type_size_s, enum_of, struct_size_s, field_map_entries, entries_from,
    data_names, field_types, field_map_len, field_map_get_index, field_map_new, field_map_insert,
    lemma_layout_prefix, line};
use crate::ir::{
    Type, TypeV, type_v, StructField, StructFieldV, field_v, fields_v, EnumVariant, EnumVariantV, variant_v,
    variants_v, EnumData, EnumDataV, enum_data_v, strs_v, types_v, lemma_types_v, copy_strings, copy_types, StructDef,
};
use crate::shared::{joined_names, mangled_type_name, first_index, lemma_first_index, substitute_s, substitute_defined, substitute_type,
    transform_generic_name, transform_generic_name_s};

verus! {

/// The bytes that the tag of an enum value takes before its arguments.
pub const TAG_SIZE: usize = 8;

// ---------------------------------------------------------------------------
// Enum layouts
// ---------------------------------------------------------------------------

/// Arguments laid out one after another from `start`, each at the end of
/// the ones before it: the placed arguments and the end offset; `None`
/// where a size is undefined or the end passes `usize::MAX`.
pub open spec fn place_args_s(args: Seq<StructFieldV>, start: int, l: Layout, fuel: nat) -> Option<(Seq<StructFieldV>, int)>
    decreases args.len(),
{
    if args.len() == 0 {
        Some((Seq::empty(), start))
    } else {
        match place_args_s(args.drop_last(), start, l, fuel) {
            Some((placed, end)) => match type_size_s(args.last().ty, l, fuel) {
                Some(sz) => if end + sz > usize::MAX {
                    None
                } else {
                    Some((placed.push(StructFieldV { name: args.last().name, offset: end as usize, ty: args.last().ty }), end + sz))
                },
                None => None,
            },
            None => None,
        }
    }
}

/// A variant with its arguments placed after the tag; its size is where
/// the last argument ends.
pub open spec fn sized_variant_s(v: EnumVariantV, l: Layout, fuel: nat) -> Option<EnumVariantV> {
    match place_args_s(v.args, TAG_SIZE as int, l, fuel) {
        Some((args, end)) => Some(EnumVariantV { name: v.name, tag: v.tag, args, size: end as usize }),
        None => None,
    }
}

/// Every variant sized.
pub open spec fn sized_variants_s(vs: Seq<EnumVariantV>, l: Layout, fuel: nat) -> Option<Seq<EnumVariantV>>
    decreases vs.len(),
{
    if vs.len() == 0 {
        Some(Seq::empty())
    } else {
        match (sized_variants_s(vs.drop_last(), l, fuel), sized_variant_s(vs.last(), l, fuel)) {
            (Some(a), Some(b)) => Some(a.push(b)),
            _ => None,
        }
    }
}

/// The largest size of the variants, and at least the tag's.
pub open spec fn max_variant_size(vs: Seq<EnumVariantV>) -> int
    decreases vs.len(),
{
    if vs.len() == 0 {
        TAG_SIZE as int
    } else {
        let m = max_variant_size(vs.drop_last());
        if vs.last().size > m { vs.last().size as int } else { m }
    }
}

/// An enum with every variant sized; its size is that of the largest.
pub open spec fn sized_enum_s(e: EnumDataV, l: Layout, fuel: nat) -> Option<EnumDataV> {
    match sized_variants_s(e.variants, l, fuel) {
        Some(vs) => Some(EnumDataV { name: e.name, generic_type: e.generic_type, variants: vs, size: max_variant_size(vs) as usize }),
        None => None,
    }
}

/// Fields with the generic parameters `params` of their types replaced by
/// `args`.
pub open spec fn subst_fields_s(fs: Seq<StructFieldV>, params: Seq<Seq<char>>, args: Seq<TypeV>) -> Seq<StructFieldV> {
    Seq::new(fs.len(), |j: int| StructFieldV { name: fs[j].name, offset: fs[j].offset, ty: substitute_s(fs[j].ty, params, args) })
}

/// Every field type can be substituted with `nargs` arguments.
pub open spec fn subst_fields_defined(fs: Seq<StructFieldV>, params: Seq<Seq<char>>, nargs: int) -> bool {
    forall|j: int| 0 <= j < fs.len() ==> #[trigger] substitute_defined(fs[j].ty, params, nargs)
}

/// A variant of a generic enum with the generic parameters `params` of its
/// argument types replaced by `args`.
pub open spec fn subst_variant_s(v: EnumVariantV, params: Seq<Seq<char>>, args: Seq<TypeV>) -> EnumVariantV {
    EnumVariantV { name: v.name, tag: v.tag, args: subst_fields_s(v.args, params, args), size: v.size }
}

/// The name of the instance of generic enum `def` for `args`.
pub open spec fn enum_instance_name(def: EnumDataV, args: Seq<TypeV>) -> Seq<char> {
    transform_generic_name_s(def.name, args, -1i64)
}

/// The instance of generic enum `def` for `args`, before its layout: named
/// after the arguments, with no generic parameters left.
pub open spec fn subst_enum_s(def: EnumDataV, args: Seq<TypeV>) -> EnumDataV {
    EnumDataV {
        name: enum_instance_name(def, args),
        generic_type: Seq::empty(),
        variants: Seq::new(def.variants.len(), |i: int| subst_variant_s(def.variants[i], def.generic_type, args)),
        size: 0,
    }
}

/// Every argument type of `def` can be substituted with `nargs` arguments.
pub open spec fn subst_enum_defined(def: EnumDataV, nargs: int) -> bool {
    forall|i: int| 0 <= i < def.variants.len() ==> #[trigger] subst_fields_defined(def.variants[i].args, def.generic_type, nargs)
}

/// The names of a list of enums.
pub open spec fn enum_names(es: Seq<EnumDataV>) -> Seq<Seq<char>> {
    es.map_values(|e: EnumDataV| e.name)
}

/// The first enum of a name is the one at the first index of that name.
pub proof fn lemma_enum_of_index(es: Seq<EnumDataV>, n: Seq<char>)
    ensures
        enum_of(es, n) == (match first_index(enum_names(es), n) {
            Some(i) => Some(es[i]),
            None => None::<EnumDataV>,
        }),
    decreases es.len(),
{
    if es.len() > 0 {
        assert(enum_names(es).drop_first() =~= enum_names(es.drop_first()));
        assert(enum_names(es)[0] == es[0].name);
        lemma_enum_of_index(es.drop_first(), n);
        if es[0].name != n {
            if let Some(i) = first_index(enum_names(es.drop_first()), n) {
                lemma_first_index(enum_names(es.drop_first()), n);
                assert(es.drop_first()[i] == es[i + 1]);
            }
        }
    }
}

proof fn lemma_place_prefix(args: Seq<StructFieldV>, start: int, l: Layout, fuel: nat, k: int)
    requires
        0 <= k <= args.len(),
        place_args_s(args, start, l, fuel) is Some,
    ensures
        place_args_s(args.take(k), start, l, fuel) is Some,
    decreases args.len(),
{
    if k == args.len() {
        assert(args.take(k) =~= args);
    } else {
        assert(args.drop_last().take(k) =~= args.take(k));
        lemma_place_prefix(args.drop_last(), start, l, fuel, k);
    }
}

proof fn lemma_sized_variants_prefix(vs: Seq<EnumVariantV>, l: Layout, fuel: nat, k: int)
    requires
        0 <= k <= vs.len(),
        sized_variants_s(vs, l, fuel) is Some,
    ensures
        sized_variants_s(vs.take(k), l, fuel) is Some,
        k < vs.len() ==> sized_variant_s(vs[k], l, fuel) is Some,
    decreases vs.len(),
{
    if k == vs.len() {
        assert(vs.take(k) =~= vs);
    } else {
        assert(vs.drop_last().take(k) =~= vs.take(k));
        if k < vs.len() - 1 {
            assert(vs.drop_last()[k] == vs[k]);
        }
        lemma_sized_variants_prefix(vs.drop_last(), l, fuel, k);
    }
}

/// The view of the first `i` fields.
proof fn lemma_fields_push(fs: Seq<StructField>, f: StructField)
    ensures
        fields_v(fs.push(f)) == fields_v(fs).push(field_v(f)),
{
    assert(fields_v(fs.push(f)) =~= fields_v(fs).push(field_v(f)));
}

proof fn lemma_variants_push(vs: Seq<EnumVariant>, v: EnumVariant)
    ensures
        variants_v(vs.push(v)) == variants_v(vs).push(variant_v(v)),
{
    assert(variants_v(vs.push(v)) =~= variants_v(vs).push(variant_v(v)));
}

// ---------------------------------------------------------------------------
// Instances of generic structs
// ---------------------------------------------------------------------------

/// The fields of a struct layout, in its order.
pub open spec fn struct_fields_s(sd: StructData) -> Seq<StructFieldV> {
    field_map_entries(sd.elements).map_values(|e: (Seq<char>, StructFieldV)| e.1)
}

/// The types of a list of fields.
pub open spec fn types_of(fs: Seq<StructFieldV>) -> Seq<TypeV> {
    fs.map_values(|f: StructFieldV| f.ty)
}

/// The name of the instance of the generic struct `name` for `args`: the
/// name, `__`, and the argument names joined by `_`.
pub open spec fn struct_instance_name(name: Seq<char>, args: Seq<TypeV>) -> Seq<char> {
    name + "__"@ + joined_names(args)
}

/// The fields of an instance of a generic struct with fields `fs` and
/// parameters `params` for `args`: the types substituted, laid out one
/// after another from offset 0.
pub open spec fn instance_fields_s(fs: Seq<StructFieldV>, params: Seq<Seq<char>>, args: Seq<TypeV>, l: Layout, fuel: nat) -> Option<Seq<StructFieldV>> {
    match place_args_s(subst_fields_s(fs, params, args), 0, l, fuel) {
        Some((placed, _)) => Some(placed),
        None => None,
    }
}

/// `sd` is the layout named `name` with the fields `fs` (by name, in order),
/// no generic parameters, and the size of a struct with those field types.
pub open spec fn is_layout_of(sd: StructData, name: Seq<char>, fs: Seq<StructFieldV>, l: Layout, fuel: nat) -> bool {
    &&& sd.name@ == name
    &&& sd.generic_type@.len() == 0
    &&& field_map_entries(sd.elements) == entries_from(fs)
    &&& struct_size_s(types_of(fs), l, fuel) == Some(sd.size as int)
}

/// What instantiating a generic struct needs when the instance is not
/// there yet: every field type substitutes, and the instance has a size.
pub open spec fn instance_defined(fs: Seq<StructFieldV>, params: Seq<Seq<char>>, args: Seq<TypeV>, nargs: int, l: Layout, sfuel: nat, afuel: nat) -> bool {
    &&& subst_fields_defined(fs, params, nargs)
    &&& instance_fields_s(fs, params, args, l, sfuel) matches Some(placed)
        && struct_size_s(types_of(placed), l, afuel) is Some
}

// ---------------------------------------------------------------------------
// Making generic instances concrete
// ---------------------------------------------------------------------------

/// The innermost type under pointers and arrays.
pub open spec fn leaf_s(t: TypeV) -> TypeV
    decreases t,
{
    match t {
        TypeV::Pointer(inner) => leaf_s(*inner),
        TypeV::Array(inner, _) => leaf_s(*inner),
        _ => t,
    }
}

/// `t` with its innermost type (under pointers and arrays) replaced by `x`.
pub open spec fn with_leaf(t: TypeV, x: TypeV) -> TypeV
    decreases t,
{
    match t {
        TypeV::Pointer(inner) => TypeV::Pointer(Box::new(with_leaf(*inner, x))),
        TypeV::Array(inner, n) => TypeV::Array(Box::new(with_leaf(*inner, x)), n),
        _ => x,
    }
}

/// The concrete type that stands for `t` given the struct names `sn` and
/// enum names `en`: an instance of a generic struct or enum becomes the
/// struct or enum of its instance name (a struct or enum of that name
/// first, then a generic struct of the base name, then a generic enum); any
/// other type stays.
pub open spec fn mono_leaf_names(t: TypeV, sn: Seq<Seq<char>>, en: Seq<Seq<char>>) -> TypeV {
    match t {
        TypeV::GenericInst(n, a) => {
            let m = struct_instance_name(n, a);
            if sn.contains(m) {
                TypeV::Struct(m)
            } else if en.contains(m) {
                TypeV::Enum(m, None)
            } else if sn.contains(n) {
                TypeV::Struct(m)
            } else {
                TypeV::Enum(transform_generic_name_s(n, a, -1i64), None)
            }
        },
        _ => t,
    }
}

/// The concrete type that stands for `t` in generator `g`.
pub open spec fn mono_leaf_s(t: TypeV, g: Gen) -> TypeV {
    mono_leaf_names(t, data_names(g.structs@), enum_names(g.layout().enums))
}

/// The struct and enum names after making `t` concrete: the name of an
/// instance that is added joins them.
pub open spec fn names_step(t: TypeV, sn: Seq<Seq<char>>, en: Seq<Seq<char>>) -> (Seq<Seq<char>>, Seq<Seq<char>>) {
    match t {
        TypeV::GenericInst(n, a) => {
            let m = struct_instance_name(n, a);
            let m2 = transform_generic_name_s(n, a, -1i64);
            if sn.contains(m) || en.contains(m) {
                (sn, en)
            } else if sn.contains(n) {
                (sn.push(m), en)
            } else if en.contains(n) && !en.contains(m2) {
                (sn, en.push(m2))
            } else {
                (sn, en)
            }
        },
        _ => (sn, en),
    }
}

/// The concrete types that stand for `ts`, made concrete one after another
/// from the names `sn` and `en`.
pub open spec fn mono_types_s(ts: Seq<TypeV>, sn: Seq<Seq<char>>, en: Seq<Seq<char>>) -> Seq<TypeV>
    decreases ts.len(),
{
    if ts.len() == 0 {
        Seq::empty()
    } else {
        let ns = names_step(leaf_s(ts[0]), sn, en);
        seq![with_leaf(ts[0], mono_leaf_names(leaf_s(ts[0]), sn, en))] + mono_types_s(ts.drop_first(), ns.0, ns.1)
    }
}

/// What making `t` concrete in `g` needs: a struct or enum of the instance
/// name, or else a generic struct or enum of the base name whose instance
/// can be laid out.
pub open spec fn mono_defined(t: TypeV, g: Gen) -> bool {
    let sn = data_names(g.structs@);
    let en = enum_names(g.layout().enums);
    match t {
        TypeV::GenericInst(n, a) => {
            let m = struct_instance_name(n, a);
            if sn.contains(m) || en.contains(m) {
                true
            } else if sn.contains(n) {
                let def = struct_of(g.structs@, n).unwrap();
                instance_defined(struct_fields_s(def), strs_v(def.generic_type@), a, a.len() as int,
                    g.layout(), g.size_fuel(), g.align_fuel())
            } else if en.contains(n) {
                let def = enum_of(g.layout().enums, n).unwrap();
                !en.contains(enum_instance_name(def, a)) ==> subst_enum_defined(def, a.len() as int)
                    && sized_enum_s(subst_enum_s(def, a), g.layout(), g.size_fuel()) is Some
            } else {
                false
            }
        },
        _ => true,
    }
}

/// The tables after making `t` concrete: unchanged, or with the instance
/// of a generic struct or enum added at the end.
pub open spec fn mono_effect(t: TypeV, old: Gen, new: Gen) -> bool {
    let sn = data_names(old.structs@);
    let en = enum_names(old.layout().enums);
    match t {
        TypeV::GenericInst(n, a) => {
            let m = struct_instance_name(n, a);
            if sn.contains(m) || en.contains(m) {
                new == old
            } else if sn.contains(n) {
                let def = struct_of(old.structs@, n).unwrap();
                &&& new.structs@.len() == old.structs@.len() + 1
                &&& new.structs@.drop_last() == old.structs@
                &&& is_layout_of(new.structs@.last(), m,
                    instance_fields_s(struct_fields_s(def), strs_v(def.generic_type@), a, old.layout(), old.size_fuel()).unwrap(),
                    old.layout(), old.align_fuel())
                &&& new.same_but_structs(old)
            } else {
                let def = enum_of(old.layout().enums, n).unwrap();
                if en.contains(enum_instance_name(def, a)) {
                    new == old
                } else {
                    &&& new.enums@.len() == old.enums@.len() + 1
                    &&& new.layout().enums == old.layout().enums.push(
                        sized_enum_s(subst_enum_s(def, a), old.layout(), old.size_fuel()).unwrap())
                    &&& new.same_but_enums(old)
                }
            }
        },
        _ => new == old,
    }
}

// ---------------------------------------------------------------------------
// Sizes do not change as layouts are added
// ---------------------------------------------------------------------------

/// `l2` has the struct and enum layouts of `l` first (and maybe more after
/// them) and the same generic bindings.
pub open spec fn layout_extends(l2: Layout, l: Layout) -> bool {
    &&& l.structs.len() <= l2.structs.len()
    &&& l2.structs.subrange(0, l.structs.len() as int) == l.structs
    &&& l.enums.len() <= l2.enums.len()
    &&& l2.enums.subrange(0, l.enums.len() as int) == l.enums
    &&& l2.generics == l.generics
}

proof fn lemma_struct_size_of_prefix(ss: Seq<StructData>, ss2: Seq<StructData>, n: Seq<char>)
    requires
        ss.len() <= ss2.len(),
        ss2.subrange(0, ss.len() as int) == ss,
        struct_size_of(ss, n) is Some,
    ensures
        struct_size_of(ss2, n) == struct_size_of(ss, n),
    decreases ss.len(),
{
    assert(ss2[0] == ss[0]);
    if ss[0].name@ != n {
        assert(ss2.drop_first().subrange(0, ss.drop_first().len() as int) =~= ss.drop_first());
        lemma_struct_size_of_prefix(ss.drop_first(), ss2.drop_first(), n);
    }
}

proof fn lemma_struct_of_prefix(ss: Seq<StructData>, ss2: Seq<StructData>, n: Seq<char>)
    requires
        ss.len() <= ss2.len(),
        ss2.subrange(0, ss.len() as int) == ss,
        struct_of(ss, n) is Some,
    ensures
        struct_of(ss2, n) == struct_of(ss, n),
    decreases ss.len(),
{
    assert(ss2[0] == ss[0]);
    if ss[0].name@ != n {
        assert(ss2.drop_first().subrange(0, ss.drop_first().len() as int) =~= ss.drop_first());
        lemma_struct_of_prefix(ss.drop_first(), ss2.drop_first(), n);
    }
}

proof fn lemma_enum_of_prefix(es: Seq<EnumDataV>, es2: Seq<EnumDataV>, n: Seq<char>)
    requires
        es.len() <= es2.len(),
        es2.subrange(0, es.len() as int) == es,
        enum_of(es, n) is Some,
    ensures
        enum_of(es2, n) == enum_of(es, n),
    decreases es.len(),
{
    assert(es2[0] == es[0]);
    if es[0].name != n {
        assert(es2.drop_first().subrange(0, es.drop_first().len() as int) =~= es.drop_first());
        lemma_enum_of_prefix(es.drop_first(), es2.drop_first(), n);
    }
}

/// A size that is defined stays the same with more layouts and more steps.
pub proof fn lemma_size_grows(t: TypeV, l: Layout, l2: Layout, f: nat, f2: nat)
    requires
        layout_extends(l2, l),
        f <= f2,
        type_size_s(t, l, f) is Some,
    ensures
        type_size_s(t, l2, f2) == type_size_s(t, l, f),
    decreases f, t,
{
    match t {
        TypeV::Array(inner, _) => {
            lemma_size_grows(*inner, l, l2, f, f2);
        },
        TypeV::Struct(name) => {
            lemma_struct_size_of_prefix(l.structs, l2.structs, name);
        },
        TypeV::Enum(name, _) => {
            lemma_enum_of_prefix(l.enums, l2.enums, name);
            let e = enum_of(l.enums, name).unwrap();
            lemma_variants_size_grows(variant_arg_types(e), l, l2, (f - 1) as nat, (f2 - 1) as nat);
        },
        TypeV::GenericType(name) => {
            let x = last_entry(l.generics, name).unwrap();
            lemma_size_grows(x, l, l2, (f - 1) as nat, (f2 - 1) as nat);
        },
        _ => {},
    }
}

proof fn lemma_variants_size_grows(vs: Seq<Seq<TypeV>>, l: Layout, l2: Layout, f: nat, f2: nat)
    requires
        layout_extends(l2, l),
        f <= f2,
        variants_size_s(vs, l, f) is Some,
    ensures
        variants_size_s(vs, l2, f2) == variants_size_s(vs, l, f),
    decreases f, vs,
{
    if vs.len() > 0 {
        lemma_variants_size_grows(vs.drop_last(), l, l2, f, f2);
        lemma_fields_size_grows(vs.last(), l, l2, f, f2);
    }
}

proof fn lemma_fields_size_grows(ts: Seq<TypeV>, l: Layout, l2: Layout, f: nat, f2: nat)
    requires
        layout_extends(l2, l),
        f <= f2,
        fields_size_s(ts, l, f) is Some,
    ensures
        fields_size_s(ts, l2, f2) == fields_size_s(ts, l, f),
    decreases f, ts,
{
    if ts.len() > 0 {
        lemma_fields_size_grows(ts.drop_last(), l, l2, f, f2);
        lemma_size_grows(ts.last(), l, l2, f, f2);
    }
}

/// An alignment that is defined stays the same with more layouts and more
/// steps.
pub proof fn lemma_align_grows(t: TypeV, l: Layout, l2: Layout, f: nat, f2: nat)
    requires
        layout_extends(l2, l),
        f <= f2,
        align_s(t, l, f) is Some,
    ensures
        align_s(t, l2, f2) == align_s(t, l, f),
    decreases f, t,
{
    match t {
        TypeV::Struct(name) => {
            lemma_struct_of_prefix(l.structs, l2.structs, name);
            let sd = struct_of(l.structs, name).unwrap();
            lemma_max_align_grows(
                field_map_entries(sd.elements).map_values(|e: (Seq<char>, StructFieldV)| e.1.ty),
                None, l, l2, (f - 1) as nat, (f2 - 1) as nat);
        },
        TypeV::Enum(name, _) => {
            lemma_enum_of_prefix(l.enums, l2.enums, name);
            let e = enum_of(l.enums, name).unwrap();
            lemma_variants_align_grows(variant_arg_types(e), None, l, l2, (f - 1) as nat, (f2 - 1) as nat);
        },
        _ => {
            lemma_size_grows(t, l, l2, f, f2);
        },
    }
}

proof fn lemma_max_align_grows(ts: Seq<TypeV>, acc: Option<int>, l: Layout, l2: Layout, f: nat, f2: nat)
    requires
        layout_extends(l2, l),
        f <= f2,
        max_align_s(ts, acc, l, f) is Some,
    ensures
        max_align_s(ts, acc, l2, f2) == max_align_s(ts, acc, l, f),
    decreases f, ts,
{
    if ts.len() > 0 {
        lemma_align_grows(ts[0], l, l2, f, f2);
        let b = align_s(ts[0], l, f).unwrap();
        let acc2 = Some(match acc {
            Some(a) => if b > a { b } else { a },
            None => b,
        });
        lemma_max_align_grows(ts.drop_first(), acc2, l, l2, f, f2);
    }
}

proof fn lemma_variants_align_grows(vs: Seq<Seq<TypeV>>, acc: Option<int>, l: Layout, l2: Layout, f: nat, f2: nat)
    requires
        layout_extends(l2, l),
        f <= f2,
        variants_align_s(vs, acc, l, f) is Some,
    ensures
        variants_align_s(vs, acc, l2, f2) == variants_align_s(vs, acc, l, f),
    decreases f, vs,
{
    if vs.len() > 0 {
        lemma_max_align_grows(vs[0], acc, l, l2, f, f2);
        let a2 = max_align_s(vs[0], acc, l, f).unwrap();
        lemma_variants_align_grows(vs.drop_first(), a2, l, l2, f, f2);
    }
}

/// A field layout that is defined stays the same with more layouts and
/// more steps.
pub proof fn lemma_layout_grows(ts: Seq<TypeV>, l: Layout, l2: Layout, f: nat, f2: nat)
    requires
        layout_extends(l2, l),
        f <= f2,
        layout_s(ts, l, f) is Some,
    ensures
        layout_s(ts, l2, f2) == layout_s(ts, l, f),
    decreases ts.len(),
{
    if ts.len() > 0 {
        lemma_layout_grows(ts.drop_last(), l, l2, f, f2);
        lemma_align_grows(ts.last(), l, l2, f, f2);
        lemma_size_grows(ts.last(), l, l2, f, f2);
    }
}

/// Making each of `ts` concrete in turn, from `g` on, is defined at every
/// step.
pub open spec fn mono_all_defined(ts: Seq<TypeV>, g: Gen) -> bool
    decreases ts.len(),
{
    if ts.len() == 0 {
        true
    } else {
        &&& mono_defined(leaf_s(ts[0]), g)
        &&& forall|g1: Gen| #[trigger] mono_effect(leaf_s(ts[0]), g, g1) ==> mono_all_defined(ts.drop_first(), g1)
    }
}

/// `gs` are the states of making each of `ts` concrete in turn, from `g`
/// to `g2`.
pub open spec fn mono_chain(ts: Seq<TypeV>, gs: Seq<Gen>, g: Gen, g2: Gen) -> bool {
    &&& gs.len() == ts.len() + 1
    &&& gs[0] == g
    &&& gs[ts.len() as int] == g2
    &&& forall|j: int| 0 <= j < ts.len() ==> #[trigger] mono_effect(leaf_s(ts[j]), gs[j], gs[j + 1])
}

/// `g2` is what making each of `ts` concrete in turn leaves of `g`.
pub open spec fn mono_run(ts: Seq<TypeV>, g: Gen, g2: Gen) -> bool {
    exists|gs: Seq<Gen>| #[trigger] mono_chain(ts, gs, g, g2)
}

/// The fields `raw` laid out in order as a struct's fields are (each at the
/// end of the ones before, rounded up to its alignment), with the types
/// `tys` in place of theirs.
pub open spec fn laid_out_s(raw: Seq<StructFieldV>, tys: Seq<TypeV>, l: Layout, f: nat) -> Seq<StructFieldV> {
    Seq::new(raw.len(), |i: int| StructFieldV {
        name: raw[i].name,
        offset: align_up(layout_s(types_of(raw).take(i), l, f).unwrap().0, align_s(raw[i].ty, l, f).unwrap()) as usize,
        ty: tys[i],
    })
}

/// The enum found under a name has that name.
proof fn lemma_enum_of_name(es: Seq<EnumDataV>, n: Seq<char>)
    requires
        enum_of(es, n) is Some,
    ensures
        enum_of(es, n).unwrap().name == n,
        enum_names(es).contains(n),
{
    lemma_enum_of_index(es, n);
    lemma_first_index(enum_names(es), n);
    let i = first_index(enum_names(es), n).unwrap();
    assert(enum_names(es)[i] == n);
}

/// Making a type concrete adds its instance's name as `names_step` says,
/// and only adds layouts.
proof fn lemma_mono_effect_names(t: TypeV, g: Gen, g2: Gen)
    requires
        mono_defined(t, g),
        mono_effect(t, g, g2),
    ensures
        (data_names(g2.structs@), enum_names(g2.layout().enums))
            == names_step(t, data_names(g.structs@), enum_names(g.layout().enums)),
        layout_extends(g2.layout(), g.layout()),
        g.size_fuel() <= g2.size_fuel(),
        g.align_fuel() <= g2.align_fuel(),
        g2.scopes == g.scopes && g2.global_vars == g.global_vars && g2.generics == g.generics
            && g2.out == g.out && g2.func_data == g.func_data && g2.stack_pos == g.stack_pos
            && g2.highest_stack_pos == g.highest_stack_pos && g2.id == g.id,
{
    let sn = data_names(g.structs@);
    let en = enum_names(g.layout().enums);
    match t {
        TypeV::GenericInst(n, a) => {
            let m = struct_instance_name(n, a);
            if sn.contains(m) || en.contains(m) {
                assert(g2.structs@.subrange(0, g.structs@.len() as int) =~= g.structs@);
                assert(g2.layout().enums.subrange(0, g.enums@.len() as int) =~= g.layout().enums);
            } else if sn.contains(n) {
                assert(g2.structs@ =~= g.structs@.push(g2.structs@.last()));
                assert(data_names(g2.structs@) =~= sn.push(m));
                assert(g2.structs@.subrange(0, g.structs@.len() as int) =~= g.structs@);
                assert(g2.layout().enums =~= g.layout().enums);
                assert(g2.layout().enums.subrange(0, g.enums@.len() as int) =~= g.layout().enums);
            } else {
                lemma_enum_of_index(g.layout().enums, n);
                lemma_first_index(en, n);
                lemma_enum_of_name(g.layout().enums, n);
                let def = enum_of(g.layout().enums, n).unwrap();
                if en.contains(enum_instance_name(def, a)) {
                    assert(g2.structs@.subrange(0, g.structs@.len() as int) =~= g.structs@);
                    assert(g2.layout().enums.subrange(0, g.enums@.len() as int) =~= g.layout().enums);
                } else {
                    let se = sized_enum_s(subst_enum_s(def, a), g.layout(), g.size_fuel()).unwrap();
                    assert(enum_names(g2.layout().enums) =~= en.push(se.name));
                    assert(g2.structs@.subrange(0, g.structs@.len() as int) =~= g.structs@);
                    assert(g2.layout().enums.subrange(0, g.enums@.len() as int) =~= g.layout().enums);
                }
            }
        },
        _ => {
            assert(g2.structs@.subrange(0, g.structs@.len() as int) =~= g.structs@);
            assert(g2.layout().enums.subrange(0, g.enums@.len() as int) =~= g.layout().enums);
        },
    }
}

proof fn lemma_extends_trans(l1: Layout, l2: Layout, l3: Layout)
    requires
        layout_extends(l2, l1),
        layout_extends(l3, l2),
    ensures
        layout_extends(l3, l1),
{
    assert(l3.structs.subrange(0, l1.structs.len() as int) =~= l2.structs.subrange(0, l1.structs.len() as int));
    assert(l3.enums.subrange(0, l1.enums.len() as int) =~= l2.enums.subrange(0, l1.enums.len() as int));
}

/// Making a type concrete keeps its size where that is defined: an
/// instance of a generic can then only stand behind a pointer.
pub proof fn lemma_mono_size(t: TypeV, x: TypeV, l: Layout, l2: Layout, f: nat, f2: nat)
    requires
        layout_extends(l2, l),
        f <= f2,
        type_size_s(t, l, f) is Some,
        !(leaf_s(t) is GenericInst) ==> x == leaf_s(t),
    ensures
        type_size_s(with_leaf(t, x), l2, f2) == type_size_s(t, l, f),
    decreases t,
{
    match t {
        TypeV::Pointer(_) => {},
        TypeV::Array(inner, _) => {
            lemma_mono_size(*inner, x, l, l2, f, f2);
        },
        _ => {
            lemma_size_grows(t, l, l2, f, f2);
        },
    }
}

/// Making a type concrete keeps its alignment where that is defined.
pub proof fn lemma_mono_align(t: TypeV, x: TypeV, l: Layout, l2: Layout, f: nat, f2: nat)
    requires
        layout_extends(l2, l),
        f <= f2,
        align_s(t, l, f) is Some,
        !(leaf_s(t) is GenericInst) ==> x == leaf_s(t),
    ensures
        align_s(with_leaf(t, x), l2, f2) == align_s(t, l, f),
{
    match t {
        TypeV::Pointer(_) => {},
        TypeV::Array(inner, _) => {
            lemma_mono_size(t, x, l, l2, f, f2);
        },
        _ => {
            lemma_align_grows(t, l, l2, f, f2);
        },
    }
}

/// An instance of a generic struct or enum (also behind pointers) read as
/// the struct or enum of its instance name, which must be there; any other
/// type stays.
pub open spec fn resolve_inst_s(t: TypeV, sn: Seq<Seq<char>>, en: Seq<Seq<char>>) -> TypeV
    decreases t,
{
    match t {
        TypeV::GenericInst(n, a) => {
            let m = struct_instance_name(n, a);
            if sn.contains(m) { TypeV::Struct(m) } else { TypeV::Enum(m, None) }
        },
        TypeV::Pointer(inner) => TypeV::Pointer(Box::new(resolve_inst_s(*inner, sn, en))),
        _ => t,
    }
}

/// Every instance that `resolve_inst_s` reads is there.
pub open spec fn resolve_inst_defined(t: TypeV, sn: Seq<Seq<char>>, en: Seq<Seq<char>>) -> bool
    decreases t,
{
    match t {
        TypeV::GenericInst(n, a) => sn.contains(struct_instance_name(n, a)) || en.contains(struct_instance_name(n, a)),
        TypeV::Pointer(inner) => resolve_inst_defined(*inner, sn, en),
        _ => true,
    }
}

/// `g` with the function body text `fd`.
pub open spec fn with_func_data(g: Gen, fd: String) -> Gen {
    Gen { func_data: fd, ..g }
}

/// What `ensure_enum_sized` needs for `name` in `g`: a non-generic enum of
/// that name that has a size or can be laid out.
pub open spec fn enum_sizable(name: Seq<char>, g: Gen) -> bool {
    enum_of(g.layout().enums, name) matches Some(e) && e.generic_type.len() == 0
        && (e.size > 0 || sized_enum_s(e, g.layout(), g.size_fuel()) is Some)
}

/// `g2` and `r` are what `ensure_enum_sized` gives for `name` in `g`: an enum
/// with a size is left as it is and its size returned; else it is replaced
/// in its place by its laid-out form, whose size is returned.
pub open spec fn enum_sized(name: Seq<char>, r: usize, g: Gen, g2: Gen) -> bool {
    let e = enum_of(g.layout().enums, name).unwrap();
    let k = first_index(enum_names(g.layout().enums), name).unwrap();
    if e.size > 0 {
        r == e.size && g2 == g
    } else {
        let se = sized_enum_s(e, g.layout(), g.size_fuel()).unwrap();
        &&& r == se.size
        &&& g2.enums@.len() == g.enums@.len()
        &&& g2.layout().enums == g.layout().enums.update(k, se)
        &&& g2.same_but_enums(g)
    }
}

/// What `ensure_struct_sized` needs for `name` in `g`: a non-generic struct
/// of that name that has a size, or whose fields can be laid out and their
/// types made concrete.
pub open spec fn struct_sizable(name: Seq<char>, g: Gen) -> bool {
    struct_of(g.structs@, name) matches Some(sd) && sd.generic_type@.len() == 0
        && (sd.size > 0 || (
            struct_size_s(types_of(struct_fields_s(sd)), g.layout(), g.align_fuel()) is Some
            && mono_all_defined(types_of(struct_fields_s(sd)), g)))
}

/// `g2` and `r` are what `ensure_struct_sized` gives for `name` in `g`: a
/// struct with a size is left as it is and its size returned; else its
/// field types are made concrete one after another (instances added as
/// `mono_run` says), and its layout is replaced in its place by the laid-out
/// fields and the size, which is returned.
pub open spec fn struct_sized(name: Seq<char>, r: usize, g: Gen, g2: Gen) -> bool {
    let sd = struct_of(g.structs@, name).unwrap();
    let k = first_index(data_names(g.structs@), name).unwrap();
    let raw = struct_fields_s(sd);
    let l = g.layout();
    let af = g.align_fuel();
    if sd.size > 0 {
        r == sd.size && g2 == g
    } else {
        let tys = mono_types_s(types_of(raw), data_names(g.structs@), enum_names(l.enums));
        &&& r == struct_size_s(types_of(raw), l, af).unwrap()
        &&& exists|mid: Gen| #[trigger] mono_run(types_of(raw), g, mid)
            && g2.structs@ == mid.structs@.update(k, g2.structs@[k])
            && g2.same_but_structs(mid)
        &&& g2.structs@[k].name@ == name
        &&& g2.structs@[k].generic_type@.len() == 0
        &&& g2.structs@[k].size == r
        &&& field_map_entries(g2.structs@[k].elements) == entries_from(laid_out_s(raw, tys, l, af))
    }
}

proof fn lemma_max_variant_size(vs: Seq<EnumVariantV>)
    ensures
        TAG_SIZE <= max_variant_size(vs) <= usize::MAX,
    decreases vs.len(),
{
    if vs.len() > 0 {
        lemma_max_variant_size(vs.drop_last());
    }
}

/// Laying out an enum a second time changes nothing and gives the same
/// size.
pub proof fn lemma_enum_sized_twice(n: Seq<char>, r: usize, r2: usize, g: Gen, g2: Gen, g3: Gen)
    requires
        enum_sizable(n, g),
        enum_sized(n, r, g, g2),
        enum_sized(n, r2, g2, g3),
    ensures
        g3 == g2,
        r2 == r,
{
    let es = g.layout().enums;
    let e = enum_of(es, n).unwrap();
    lemma_enum_of_index(es, n);
    lemma_first_index(enum_names(es), n);
    if e.size == 0 {
        let k = first_index(enum_names(es), n).unwrap();
        let se = sized_enum_s(e, g.layout(), g.size_fuel()).unwrap();
        lemma_max_variant_size(sized_variants_s(e.variants, g.layout(), g.size_fuel()).unwrap());
        assert(se.name == n);
        assert(enum_names(g2.layout().enums) =~= enum_names(es));
        lemma_enum_of_index(g2.layout().enums, n);
        assert(enum_of(g2.layout().enums, n) == Some(se));
        assert(se.size > 0);
    }
}

proof fn lemma_mono_effect_prefix(t: TypeV, g: Gen, g2: Gen)
    requires
        mono_effect(t, g, g2),
    ensures
        g.structs@.len() <= g2.structs@.len(),
        g2.structs@.subrange(0, g.structs@.len() as int) == g.structs@,
{
    assert(g2.structs@.subrange(0, g.structs@.len() as int) =~= g.structs@);
}

proof fn lemma_mono_chain_prefix(ts: Seq<TypeV>, gs: Seq<Gen>, g: Gen, g2: Gen, j: int)
    requires
        mono_chain(ts, gs, g, g2),
        0 <= j <= ts.len(),
    ensures
        g.structs@.len() <= gs[j].structs@.len(),
        gs[j].structs@.subrange(0, g.structs@.len() as int) == g.structs@,
    decreases j,
{
    if j == 0 {
        assert(g.structs@.subrange(0, g.structs@.len() as int) =~= g.structs@);
    } else {
        lemma_mono_chain_prefix(ts, gs, g, g2, j - 1);
        let i = j - 1;
        assert(mono_effect(leaf_s(ts[i]), gs[i], gs[i + 1]));
        lemma_mono_effect_prefix(leaf_s(ts[i]), gs[i], gs[i + 1]);
        assert(gs[j].structs@.subrange(0, g.structs@.len() as int)
            =~= gs[j].structs@.subrange(0, gs[j - 1].structs@.len() as int).subrange(0, g.structs@.len() as int));
    }
}

/// Laying out a struct a second time, once it has a size that is not zero,
/// changes nothing and gives the same size.
pub proof fn lemma_struct_sized_twice(n: Seq<char>, r: usize, r2: usize, g: Gen, g2: Gen, g3: Gen)
    requires
        struct_sizable(n, g),
        struct_sized(n, r, g, g2),
        r > 0,
        struct_sized(n, r2, g2, g3),
    ensures
        g3 == g2,
        r2 == r,
{
    let sd = struct_of(g.structs@, n).unwrap();
    let names = data_names(g.structs@);
    lemma_struct_of_index(g.structs@, n);
    lemma_first_index(names, n);
    if sd.size == 0 {
        let k = first_index(names, n).unwrap();
        let raw = struct_fields_s(sd);
        let mid = choose|mid: Gen| #[trigger] mono_run(types_of(raw), g, mid)
            && g2.structs@ == mid.structs@.update(k, g2.structs@[k])
            && g2.same_but_structs(mid);
        let gs = choose|gs: Seq<Gen>| #[trigger] mono_chain(types_of(raw), gs, g, mid);
        lemma_mono_chain_prefix(types_of(raw), gs, g, mid, types_of(raw).len() as int);
        let names2 = data_names(g2.structs@);
        assert forall|j: int| 0 <= j < k implies names2[j] != n by {
            assert(g2.structs@[j] == mid.structs@[j]);
            assert(mid.structs@[j] == mid.structs@.subrange(0, g.structs@.len() as int)[j]);
            assert(mid.structs@[j] == g.structs@[j]);
            assert(names[j] != n);
            assert(names2[j] == g2.structs@[j].name@);
        }
        assert(names2[k] == n);
        lemma_first_index(names2, n);
        assert(first_index(names2, n) == Some(k));
        lemma_struct_of_index(g2.structs@, n);
    }
}

impl Gen {
    /// Everything but the enums is as before.
    pub open spec fn same_but_enums(&self, old: Gen) -> bool {
        &&& self.scopes == old.scopes
        &&& self.global_vars == old.global_vars
        &&& self.structs == old.structs
        &&& self.generics == old.generics
        &&& self.out == old.out
        &&& self.func_data == old.func_data
        &&& self.stack_pos == old.stack_pos
        &&& self.highest_stack_pos == old.highest_stack_pos
        &&& self.id == old.id
        &&& self.functions == old.functions
        &&& self.generic_func == old.generic_func
        &&& self.data_code == old.data_code
        &&& self.bss_code == old.bss_code
    }

    /// The fields `fs` laid out one after another from `start` (see
    /// `place_args_s`), and the end offset.
    fn place_fields(&self, fs: &Vec<StructField>, start: usize) -> (r: (Vec<StructField>, usize))
        requires
            place_args_s(fields_v(fs@), start as int, self.layout(), self.size_fuel()) is Some,
        ensures
            place_args_s(fields_v(fs@), start as int, self.layout(), self.size_fuel())
                == Some((fields_v(r.0@), r.1 as int)),
    {
        let ghost l = self.layout();
        let ghost f = self.size_fuel();
        let ghost av = fields_v(fs@);
        let mut args: Vec<StructField> = Vec::new();
        let mut offset: usize = start;
        let mut i: usize = 0;
        proof {
            assert(av.take(0) =~= Seq::<StructFieldV>::empty());
            assert(fields_v(args@) =~= Seq::<StructFieldV>::empty());
        }
        while i < fs.len()
            invariant
                i <= fs@.len(),
                av == fields_v(fs@),
                av.len() == fs@.len(),
                l == self.layout(),
                f == self.size_fuel(),
                place_args_s(av, start as int, l, f) is Some,
                place_args_s(av.take(i as int), start as int, l, f) == Some((fields_v(args@), offset as int)),
            decreases fs.len() - i,
        {
            proof {
                lemma_place_prefix(av, start as int, l, f, i + 1);
                assert(av.take(i + 1).drop_last() =~= av.take(i as int));
                assert(av.take(i + 1).last() == field_v(fs@[i as int]));
            }
            let a = &fs[i];
            let sz = self.type_size(&a.ty);
            let placed = StructField { name: a.name.clone(), offset, ty: a.ty.duplicate() };
            proof { lemma_fields_push(args@, placed); }
            args.push(placed);
            offset = offset + sz;
            i = i + 1;
        }
        assert(av.take(i as int) =~= av);
        (args, offset)
    }

    /// The variant `v` with its arguments placed after the tag, each at the
    /// end of the ones before it (see `sized_variant_s`).
    fn size_variant(&self, v: &EnumVariant) -> (r: EnumVariant)
        requires
            sized_variant_s(variant_v(*v), self.layout(), self.size_fuel()) is Some,
        ensures
            variant_v(r) == sized_variant_s(variant_v(*v), self.layout(), self.size_fuel()).unwrap(),
    {
        let (args, end) = self.place_fields(&v.args, TAG_SIZE);
        EnumVariant { name: v.name.clone(), tag: v.tag, args, size: end }
    }

    /// The enum `e` with every variant sized and its size that of the
    /// largest (see `sized_enum_s`).
    fn size_enum_data(&self, e: &EnumData) -> (r: EnumData)
        requires
            sized_enum_s(enum_data_v(*e), self.layout(), self.size_fuel()) is Some,
        ensures
            enum_data_v(r) == sized_enum_s(enum_data_v(*e), self.layout(), self.size_fuel()).unwrap(),
    {
        let ghost l = self.layout();
        let ghost f = self.size_fuel();
        let ghost vs = variants_v(e.variants@);
        let mut out: Vec<EnumVariant> = Vec::new();
        let mut max_size: usize = TAG_SIZE;
        let mut i: usize = 0;
        proof {
            assert(vs.take(0) =~= Seq::<EnumVariantV>::empty());
            assert(variants_v(out@) =~= Seq::<EnumVariantV>::empty());
        }
        while i < e.variants.len()
            invariant
                i <= e.variants@.len(),
                vs == variants_v(e.variants@),
                vs.len() == e.variants@.len(),
                l == self.layout(),
                f == self.size_fuel(),
                sized_variants_s(vs, l, f) is Some,
                sized_variants_s(vs.take(i as int), l, f) == Some(variants_v(out@)),
                max_variant_size(variants_v(out@)) == max_size as int,
            decreases e.variants.len() - i,
        {
            proof {
                lemma_sized_variants_prefix(vs, l, f, i as int);
                lemma_sized_variants_prefix(vs, l, f, i + 1);
                assert(vs.take(i + 1).drop_last() =~= vs.take(i as int));
                assert(vs.take(i + 1).last() == vs[i as int]);
            }
            let sv = self.size_variant(&e.variants[i]);
            let sz = sv.size;
            let ghost old_out = out@;
            proof { lemma_variants_push(out@, sv); }
            out.push(sv);
            proof {
                assert(variants_v(out@).drop_last() =~= variants_v(old_out));
                assert(variants_v(out@).last().size == sz);
            }
            if sz > max_size {
                max_size = sz;
            }
            i = i + 1;
        }
        assert(vs.take(i as int) =~= vs);
        EnumData { name: e.name.clone(), generic_type: copy_strings(&e.generic_type), variants: out, size: max_size }
    }

    /// Fields with their types substituted (see `subst_fields_s`).
    fn subst_fields(fs: &Vec<StructField>, params: &Vec<String>, args: &Vec<Type>) -> (r: Vec<StructField>)
        requires
            subst_fields_defined(fields_v(fs@), strs_v(params@), args@.len() as int),
        ensures
            fields_v(r@) == subst_fields_s(fields_v(fs@), strs_v(params@), types_v(args@)),
    {
        let ghost fv = fields_v(fs@);
        let mut out: Vec<StructField> = Vec::new();
        let mut j: usize = 0;
        while j < fs.len()
            invariant
                j <= fs@.len(),
                out@.len() == j,
                fv == fields_v(fs@),
                subst_fields_defined(fv, strs_v(params@), args@.len() as int),
                forall|m: int| 0 <= m < j ==> #[trigger] field_v(out@[m])
                    == subst_fields_s(fv, strs_v(params@), types_v(args@))[m],
            decreases fs.len() - j,
        {
            let a = &fs[j];
            assert(substitute_defined(fv[j as int].ty, strs_v(params@), args@.len() as int));
            let t = substitute_type(&a.ty, params, args);
            out.push(StructField { name: a.name.clone(), offset: a.offset, ty: t });
            j = j + 1;
        }
        assert(fields_v(out@) =~= subst_fields_s(fv, strs_v(params@), types_v(args@)));
        out
    }

    /// Instantiates the generic enum `def` for `type_args` once: an enum
    /// named after the arguments, with the argument types substituted and
    /// laid out as `ensure_enum_sized` does, is added unless one of that
    /// name exists. Returns the enum type of that name.
    pub fn monomorphize_enum(&mut self, def: &EnumData, type_args: &Vec<Type>) -> (r: Type)
        requires
            !enum_names(old(self).layout().enums).contains(enum_instance_name(enum_data_v(*def), types_v(type_args@)))
                ==> subst_enum_defined(enum_data_v(*def), type_args@.len() as int)
                && sized_enum_s(subst_enum_s(enum_data_v(*def), types_v(type_args@)), old(self).layout(), old(self).size_fuel()) is Some,
        ensures
            r@ == TypeV::Enum(enum_instance_name(enum_data_v(*def), types_v(type_args@)), None),
            enum_names(old(self).layout().enums).contains(enum_instance_name(enum_data_v(*def), types_v(type_args@)))
                ==> *final(self) == *old(self),
            !enum_names(old(self).layout().enums).contains(enum_instance_name(enum_data_v(*def), types_v(type_args@))) ==> {
                &&& final(self).enums@.len() == old(self).enums@.len() + 1
                &&& final(self).layout().enums == old(self).layout().enums.push(
                    sized_enum_s(subst_enum_s(enum_data_v(*def), types_v(type_args@)), old(self).layout(), old(self).size_fuel()).unwrap())
                &&& final(self).same_but_enums(*old(self))
            },
    {
        let ghost dv = enum_data_v(*def);
        let ghost av = types_v(type_args@);
        let ghost names = enum_names(self.layout().enums);
        let mangled = transform_generic_name(&def.name, type_args, -1);
        proof { lemma_first_index(names, mangled@); }
        if self.enum_index(&mangled).is_some() {
            return Type::Enum(mangled, None);
        }
        assert(!names.contains(mangled@));
        let mut vs: Vec<EnumVariant> = Vec::new();
        let mut i: usize = 0;
        while i < def.variants.len()
            invariant
                i <= def.variants@.len(),
                vs@.len() == i,
                dv == enum_data_v(*def),
                av == types_v(type_args@),
                subst_enum_defined(dv, type_args@.len() as int),
                forall|m: int| 0 <= m < i ==> #[trigger] variant_v(vs@[m])
                    == subst_variant_s(dv.variants[m], dv.generic_type, av),
            decreases def.variants.len() - i,
        {
            assert(dv.variants[i as int] == variant_v(def.variants@[i as int]));
            assert(subst_fields_defined(dv.variants[i as int].args, dv.generic_type, type_args@.len() as int));
            let v = &def.variants[i];
            let args = Gen::subst_fields(&v.args, &def.generic_type, type_args);
            let sv = EnumVariant { name: v.name.clone(), tag: v.tag, args, size: v.size };
            vs.push(sv);
            i = i + 1;
        }
        let inst = EnumData { name: mangled.clone(), generic_type: Vec::new(), variants: vs, size: 0 };
        assert(enum_data_v(inst).variants =~= subst_enum_s(dv, av).variants);
        assert(enum_data_v(inst).generic_type =~= Seq::<Seq<char>>::empty());
        assert(enum_data_v(inst) == subst_enum_s(dv, av));
        let sized = self.size_enum_data(&inst);
        let ghost before = self.layout().enums;
        self.enums.push(sized);
        assert(self.layout().enums =~= before.push(enum_data_v(sized)));
        Type::Enum(mangled, None)
    }

    /// Everything but the structs is as before.
    pub open spec fn same_but_structs(&self, old: Gen) -> bool {
        &&& self.scopes == old.scopes
        &&& self.global_vars == old.global_vars
        &&& self.enums == old.enums
        &&& self.generics == old.generics
        &&& self.out == old.out
        &&& self.func_data == old.func_data
        &&& self.stack_pos == old.stack_pos
        &&& self.highest_stack_pos == old.highest_stack_pos
        &&& self.id == old.id
        &&& self.functions == old.functions
        &&& self.generic_func == old.generic_func
        &&& self.data_code == old.data_code
        &&& self.bss_code == old.bss_code
    }

    /// The fields of a struct layout, in its order.
    pub fn struct_fields(sd: &StructData) -> (r: Vec<StructField>)
        ensures
            fields_v(r@) == struct_fields_s(*sd),
    {
        let ghost es = field_map_entries(sd.elements);
        let n = field_map_len(&sd.elements);
        let mut out: Vec<StructField> = Vec::new();
        let mut i: usize = 0;
        while i < n
            invariant
                i <= n,
                n == es.len(),
                es == field_map_entries(sd.elements),
                out@.len() == i,
                forall|j: int| 0 <= j < i ==> #[trigger] field_v(out@[j]) == es[j].1,
            decreases n - i,
        {
            match field_map_get_index(&sd.elements, i) {
                Some((_, f)) => {
                    out.push(StructField { name: f.name.clone(), offset: f.offset, ty: f.ty.duplicate() });
                },
                None => {
                    assert(false);
                },
            }
            i = i + 1;
        }
        assert(fields_v(out@) =~= struct_fields_s(*sd));
        out
    }

    /// The instance of the generic struct `name` (parameters `params`,
    /// fields `fields`) for `type_args`, added unless a layout of its name
    /// exists (see `monomorphize_struct`).
    fn instantiate_struct(&mut self, name: &String, params: &Vec<String>, fields: &Vec<StructField>, type_args: &Vec<Type>) -> (r: Type)
        requires
            !data_names(old(self).structs@).contains(struct_instance_name(name@, types_v(type_args@)))
                ==> instance_defined(fields_v(fields@), strs_v(params@), types_v(type_args@), type_args@.len() as int,
                    old(self).layout(), old(self).size_fuel(), old(self).align_fuel()),
        ensures
            r@ == TypeV::Struct(struct_instance_name(name@, types_v(type_args@))),
            data_names(old(self).structs@).contains(struct_instance_name(name@, types_v(type_args@)))
                ==> *final(self) == *old(self),
            !data_names(old(self).structs@).contains(struct_instance_name(name@, types_v(type_args@))) ==> {
                &&& final(self).structs@.len() == old(self).structs@.len() + 1
                &&& final(self).structs@.drop_last() == old(self).structs@
                &&& is_layout_of(final(self).structs@.last(), struct_instance_name(name@, types_v(type_args@)),
                    instance_fields_s(fields_v(fields@), strs_v(params@), types_v(type_args@), old(self).layout(), old(self).size_fuel()).unwrap(),
                    old(self).layout(), old(self).align_fuel())
                &&& final(self).same_but_structs(*old(self))
            },
    {
        let ghost names = data_names(self.structs@);
        let inst_ty = Type::GenericInst(name.clone(), copy_types(type_args));
        let mangled = mangled_type_name(&inst_ty);
        assert(mangled@ == struct_instance_name(name@, types_v(type_args@)));
        proof { lemma_first_index(names, mangled@); }
        if self.find_struct_data(&mangled).is_some() {
            return Type::Struct(mangled);
        }
        assert(!names.contains(mangled@));
        let subst = Gen::subst_fields(fields, params, type_args);
        let (placed, _) = self.place_fields(&subst, 0);
        assert(field_types(placed@) =~= types_of(fields_v(placed@)));
        let size = self.compute_struct_size(&placed);
        let def = StructDef { name: mangled.clone(), fields: placed, generic_type: Vec::new(), size };
        let sd = StructData::from_def(&def, size);
        assert(sd.generic_type@.len() == strs_v(sd.generic_type@).len());
        let ghost before = self.structs@;
        self.structs.push(sd);
        assert(self.structs@.drop_last() =~= before);
        Type::Struct(mangled)
    }

    /// Instantiates the generic struct `def` for `type_args` once: a layout
    /// named after the arguments is added unless one of that name exists,
    /// with the field types substituted, the fields laid out one after
    /// another from offset 0, and the size that `compute_struct_size` gives
    /// them. Returns the struct type of that name.
    pub fn monomorphize_struct(&mut self, def: &StructData, type_args: &Vec<Type>) -> (r: Type)
        requires
            !data_names(old(self).structs@).contains(struct_instance_name(def.name@, types_v(type_args@)))
                ==> instance_defined(struct_fields_s(*def), strs_v(def.generic_type@), types_v(type_args@), type_args@.len() as int,
                    old(self).layout(), old(self).size_fuel(), old(self).align_fuel()),
        ensures
            r@ == TypeV::Struct(struct_instance_name(def.name@, types_v(type_args@))),
            data_names(old(self).structs@).contains(struct_instance_name(def.name@, types_v(type_args@)))
                ==> *final(self) == *old(self),
            !data_names(old(self).structs@).contains(struct_instance_name(def.name@, types_v(type_args@))) ==> {
                &&& final(self).structs@.len() == old(self).structs@.len() + 1
                &&& final(self).structs@.drop_last() == old(self).structs@
                &&& is_layout_of(final(self).structs@.last(), struct_instance_name(def.name@, types_v(type_args@)),
                    instance_fields_s(struct_fields_s(*def), strs_v(def.generic_type@), types_v(type_args@), old(self).layout(), old(self).size_fuel()).unwrap(),
                    old(self).layout(), old(self).align_fuel())
                &&& final(self).same_but_structs(*old(self))
            },
    {
        let fields = Gen::struct_fields(def);
        self.instantiate_struct(&def.name, &def.generic_type, &fields, type_args)
    }

    /// Makes a type concrete: an instance of a generic struct or enum
    /// (innermost, under pointers and arrays) becomes the struct or enum of
    /// its instance name, which is instantiated first when it is not there
    /// yet; any other type is returned as it is.
    pub fn ensure_monomorphized(&mut self, ty: &Type) -> (r: Type)
        requires
            mono_defined(leaf_s(ty@), *old(self)),
        ensures
            r@ == with_leaf(ty@, mono_leaf_s(leaf_s(ty@), *old(self))),
            mono_effect(leaf_s(ty@), *old(self), *final(self)),
        decreases ty,
    {
        match ty {
            Type::GenericInst(name, type_args) => {
                let ghost a = types_v(type_args@);
                let ghost sn = data_names(self.structs@);
                let ghost en = enum_names(self.layout().enums);
                proof { lemma_types_v(type_args@); }
                assert(ty@ == TypeV::GenericInst(name@, a));
                assert(leaf_s(ty@) == ty@);
                assert(mono_defined(TypeV::GenericInst(name@, a), *self));
                let mangled = mangled_type_name(ty);
                assert(mangled@ == struct_instance_name(name@, a));
                proof {
                    lemma_first_index(sn, mangled@);
                    lemma_first_index(en, mangled@);
                    lemma_first_index(sn, name@);
                    lemma_first_index(en, name@);
                    lemma_struct_of_index(self.structs@, name@);
                    lemma_enum_of_index(self.layout().enums, name@);
                }
                if self.find_struct_data(&mangled).is_some() {
                    return Type::Struct(mangled);
                }
                if self.enum_index(&mangled).is_some() {
                    return Type::Enum(mangled, None);
                }
                assert(!sn.contains(mangled@));
                assert(!en.contains(mangled@));
                match self.find_struct_data(name) {
                    Some(k) => {
                        let dname = self.structs[k].name.clone();
                        let params = copy_strings(&self.structs[k].generic_type);
                        let fields = Gen::struct_fields(&self.structs[k]);
                        assert(dname@ == name@);
                        assert(sn[k as int] == name@);
                        assert(sn.contains(name@));
                        assert(self.structs@[k as int] == struct_of(self.structs@, name@).unwrap());
                        assert(instance_defined(fields_v(fields@), strs_v(params@), a, a.len() as int,
                            self.layout(), self.size_fuel(), self.align_fuel()));
                        return self.instantiate_struct(&dname, &params, &fields, type_args);
                    },
                    None => {},
                }
                match self.find_enum(name) {
                    Some(k) => {
                        assert(!sn.contains(name@));
                        let ghost fi = first_index(en, name@);
                        assert(fi is Some);
                        assert(en[fi.unwrap()] == name@);
                        assert(en.contains(name@));
                        let def = self.enums[k].duplicate();
                        assert(enum_data_v(def) == enum_of(self.layout().enums, name@).unwrap());
                        self.monomorphize_enum(&def, type_args)
                    },
                    None => {
                        assert(false);
                        Type::Unknown
                    },
                }
            },
            Type::Pointer(inner) => Type::Pointer(Box::new(self.ensure_monomorphized(inner))),
            Type::Array(inner, n) => Type::Array(Box::new(self.ensure_monomorphized(inner)), *n),
            _ => ty.duplicate(),
        }
    }

    /// Lays out the struct named `name` once: each field's type made
    /// concrete (see `ensure_monomorphized`), the fields placed in order,
    /// each at the end of the ones before rounded up to its alignment, and
    /// the struct's size the one `compute_struct_size` gives its fields. A
    /// struct that already has a size is left as it is. Returns the size.
    #[verifier::rlimit(50)]
    pub fn ensure_struct_sized(&mut self, name: &String) -> (r: usize)
        requires
            struct_sizable(name@, *old(self)),
        ensures
            struct_sized(name@, r, *old(self), *final(self)),
    {
        proof {
            lemma_struct_of_index(self.structs@, name@);
            lemma_first_index(data_names(self.structs@), name@);
        }
        let k = match self.find_struct_data(name) {
            Some(k) => k,
            None => return 0,
        };
        if self.structs[k].size > 0 {
            return self.structs[k].size;
        }
        let ghost g0 = *self;
        let ghost l = self.layout();
        let ghost af = self.align_fuel();
        let ghost sn0 = data_names(self.structs@);
        let ghost en0 = enum_names(self.layout().enums);
        let raw = Gen::struct_fields(&self.structs[k]);
        let ghost rv = fields_v(raw@);
        let ghost ts = types_of(rv);
        let ghost tys = mono_types_s(ts, sn0, en0);
        assert(field_types(raw@) =~= ts);
        let size = self.compute_struct_size(&raw);
        proof {
            assert(ts.take(ts.len() as int) =~= ts);
            lemma_layout_prefix(ts, l, af, ts.len() as int);
            assert(ts.subrange(0, ts.len() as int) =~= ts);
            assert(self.structs@.subrange(0, self.structs@.len() as int) =~= self.structs@);
            assert(self.layout().enums.subrange(0, self.enums@.len() as int) =~= self.layout().enums);
            assert(ts.take(0) =~= Seq::<TypeV>::empty());
        }
        let ghost mut done: Seq<TypeV> = Seq::empty();
        let ghost mut chain: Seq<Gen> = seq![*self];
        assert(mono_chain(ts.take(0), chain, g0, *self));
        let mut computed: Vec<StructField> = Vec::new();
        let mut offset: usize = 0;
        let mut i: usize = 0;
        while i < raw.len()
            invariant
                i <= raw@.len(),
                rv == fields_v(raw@),
                ts == types_of(rv),
                ts.len() == raw@.len(),
                l == g0.layout(),
                af == g0.align_fuel(),
                k < g0.structs@.len(),
                tys == mono_types_s(ts, sn0, en0),
                sn0 == data_names(g0.structs@),
                en0 == enum_names(g0.layout().enums),
                forall|m: int| 0 <= m <= ts.len() ==> #[trigger] layout_s(ts.take(m), l, af) is Some,
                layout_s(ts.take(i as int), l, af) matches Some((o, _)) && o == offset as int,
                mono_chain(ts.take(i as int), chain, g0, *self),
                mono_all_defined(ts.subrange(i as int, ts.len() as int), *self),
                layout_extends(self.layout(), l),
                af <= self.align_fuel(),
                self.structs@[k as int] == g0.structs@[k as int],
                done.len() == i,
                tys == done + mono_types_s(ts.subrange(i as int, ts.len() as int), data_names(self.structs@),
                    enum_names(self.layout().enums)),
                computed@.len() == i,
                forall|j: int| 0 <= j < i ==> #[trigger] field_v(computed@[j]) == (StructFieldV {
                    name: rv[j].name,
                    offset: align_up(layout_s(ts.take(j), l, af).unwrap().0, align_s(rv[j].ty, l, af).unwrap()) as usize,
                    ty: done[j],
                }),
            decreases raw.len() - i,
        {
            let ghost gi = *self;
            let ghost rest = ts.subrange(i as int, ts.len() as int);
            proof {
                assert(rest[0] == ts[i as int]);
                assert(ts[i as int] == type_v(raw@[i as int].ty));
                assert(ts.take(i + 1).drop_last() =~= ts.take(i as int));
                assert(ts.take(i + 1).last() == ts[i as int]);
                assert(layout_s(ts.take(i + 1), l, af) is Some);
            }
            let f = &raw[i];
            let ty = self.ensure_monomorphized(&f.ty);
            proof {
                lemma_mono_effect_names(leaf_s(ts[i as int]), gi, *self);
                lemma_extends_trans(l, gi.layout(), self.layout());
                assert(rest.drop_first() =~= ts.subrange(i + 1, ts.len() as int));
                assert(mono_all_defined(ts.subrange(i + 1, ts.len() as int), *self));
                let chain2 = chain.push(*self);
                assert forall|j: int| 0 <= j < ts.take(i + 1).len() implies
                    #[trigger] mono_effect(leaf_s(ts.take(i + 1)[j]), chain2[j], chain2[j + 1]) by {
                    if j < i {
                        assert(ts.take(i + 1)[j] == ts.take(i as int)[j]);
                        assert(mono_effect(leaf_s(ts.take(i as int)[j]), chain[j], chain[j + 1]));
                    } else {
                        assert(ts.take(i + 1)[j] == ts[i as int]);
                    }
                }
                assert(mono_chain(ts.take(i + 1), chain2, g0, *self));
                chain = chain2;
                assert(self.structs@[k as int] == gi.structs@[k as int]);
                lemma_mono_align(ts[i as int], mono_leaf_s(leaf_s(ts[i as int]), gi), l, self.layout(), af, self.align_fuel());
                lemma_mono_size(ts[i as int], mono_leaf_s(leaf_s(ts[i as int]), gi), l, self.layout(), af, self.align_fuel());
            }
            let fuel = self.align_fuel_bound();
            let align = match self.field_alignment_fuel(&ty, fuel) {
                Some(a) => a,
                None => 1,
            };
            let fsize = match self.type_size_fuel(&ty, fuel) {
                Some(n) => n,
                None => 0,
            };
            let x = offset + align - 1;
            offset = x & !(align - 1);
            let placed = StructField { name: f.name.clone(), offset, ty };
            proof {
                let head = with_leaf(ts[i as int], mono_leaf_s(leaf_s(ts[i as int]), gi));
                let ns = names_step(leaf_s(rest[0]), data_names(gi.structs@), enum_names(gi.layout().enums));
                assert(mono_types_s(rest, data_names(gi.structs@), enum_names(gi.layout().enums))
                    == seq![head] + mono_types_s(rest.drop_first(), ns.0, ns.1));
                assert(done.push(head) + mono_types_s(ts.subrange(i + 1, ts.len() as int), data_names(self.structs@),
                    enum_names(self.layout().enums)) =~= done + (seq![head] + mono_types_s(rest.drop_first(), ns.0, ns.1)));
                done = done.push(head);
            }
            computed.push(placed);
            offset = offset + fsize;
            i = i + 1;
        }
        proof {
            assert(ts.take(i as int) =~= ts);
            assert(ts.subrange(i as int, ts.len() as int) =~= Seq::<TypeV>::empty());
            assert(done =~= tys);
            assert(fields_v(computed@) =~= laid_out_s(rv, tys, l, af));
        }
        let mut elements = field_map_new();
        let ghost cv = fields_v(computed@);
        let mut j: usize = 0;
        assert(cv.take(0) =~= Seq::<StructFieldV>::empty());
        while j < computed.len()
            invariant
                j <= computed@.len(),
                cv == fields_v(computed@),
                field_map_entries(elements) == entries_from(cv.take(j as int)),
            decreases computed.len() - j,
        {
            let c = &computed[j];
            let copy = StructField { name: c.name.clone(), offset: c.offset, ty: c.ty.duplicate() };
            assert(cv.take(j + 1).drop_last() =~= cv.take(j as int));
            assert(field_v(copy) == cv[j as int]);
            field_map_insert(&mut elements, c.name.clone(), copy);
            j = j + 1;
        }
        assert(cv.take(j as int) =~= cv);
        let ghost mid = *self;
        let new_sd = StructData {
            elements,
            name: self.structs[k].name.clone(),
            generic_type: copy_strings(&self.structs[k].generic_type),
            size,
        };
        self.structs.set(k, new_sd);
        proof {
            assert(self.structs@ =~= mid.structs@.update(k as int, self.structs@[k as int]));
            assert(mono_chain(ts, chain, g0, mid));
            assert(mono_run(ts, g0, mid));
            assert(data_names(g0.structs@)[k as int] == name@);
            assert(new_sd.generic_type@.len() == strs_v(new_sd.generic_type@).len());
        }
        size
    }

    /// Reads an instance of a generic struct or enum (also behind pointers)
    /// as the struct or enum of its instance name (see `resolve_inst_s`).
    pub fn resolve_generic_inst(&self, ty: &Type) -> (r: Type)
        requires
            resolve_inst_defined(ty@, data_names(self.structs@), enum_names(self.layout().enums)),
        ensures
            r@ == resolve_inst_s(ty@, data_names(self.structs@), enum_names(self.layout().enums)),
        decreases ty,
    {
        match ty {
            Type::GenericInst(name, type_args) => {
                let mangled = mangled_type_name(ty);
                proof {
                    lemma_types_v(type_args@);
                    lemma_first_index(data_names(self.structs@), mangled@);
                }
                assert(mangled@ == struct_instance_name(name@, types_v(type_args@)));
                if self.find_struct_data(&mangled).is_some() {
                    Type::Struct(mangled)
                } else {
                    Type::Enum(mangled, None)
                }
            },
            Type::Pointer(inner) => Type::Pointer(Box::new(self.resolve_generic_inst(inner))),
            _ => ty.duplicate(),
        }
    }

    /// The size of the enum named `base`: its largest variant's arguments
    /// and the tag.
    pub fn enum_get_size(&self, base: &String) -> (r: usize)
        requires
            type_size_s(TypeV::Enum(base@, None), self.layout(), self.size_fuel()) is Some,
        ensures
            type_size_s(TypeV::Enum(base@, None), self.layout(), self.size_fuel()) == Some(r as int),
    {
        let t = Type::Enum(base.clone(), None);
        assert(t@ == TypeV::Enum(base@, None));
        self.type_size(&t)
    }

    /// `sizeof`: the size of the type (made concrete first, see
    /// `ensure_monomorphized`) moved into `rax`. Returns `rax`.
    pub fn gen_size_of(&mut self, stmt: &Type) -> (r: String)
        requires
            mono_defined(leaf_s(stmt@), *old(self)),
            forall|g1: Gen| #[trigger] mono_effect(leaf_s(stmt@), *old(self), g1)
                ==> type_size_s(with_leaf(stmt@, mono_leaf_s(leaf_s(stmt@), *old(self))), g1.layout(), g1.size_fuel()) is Some,
        ensures
            r@ == "rax"@,
            mono_effect(leaf_s(stmt@), *old(self), with_func_data(*final(self), old(self).func_data)),
            final(self).func_data@ == old(self).func_data@ + line("    mov rax, "@ + decimal(type_size_s(
                with_leaf(stmt@, mono_leaf_s(leaf_s(stmt@), *old(self))), final(self).layout(), final(self).size_fuel()).unwrap() as nat)),
    {
        let ty = self.ensure_monomorphized(stmt);
        let ghost mid = *self;
        let size = self.type_size(&ty);
        let mut text = from_lit("    mov rax, ");
        push_decimal(&mut text, size as u64);
        self.emit_func_data(text);
        assert(with_func_data(*self, mid.func_data) == mid);
        from_lit("rax")
    }

    /// The index of the first enum named `name`.
    pub(crate) fn enum_index(&self, name: &String) -> (r: Option<usize>)
        ensures
            match first_index(enum_names(self.layout().enums), name@) {
                Some(i) => r matches Some(k) && k as int == i && k < self.enums@.len(),
                None => r is None,
            },
    {
        let ghost names = enum_names(self.layout().enums);
        proof { lemma_first_index(names, name@); }
        let mut i: usize = 0;
        while i < self.enums.len()
            invariant
                i <= self.enums@.len(),
                names == enum_names(self.layout().enums),
                names.len() == self.enums@.len(),
                forall|j: int| 0 <= j < i ==> names[j] != name@,
                first_index(names, name@) matches Some(k) ==> 0 <= k < names.len() && names[k] == name@
                    && forall|j: int| 0 <= j < k ==> names[j] != name@,
                first_index(names, name@) is None ==> forall|j: int| 0 <= j < names.len() ==> names[j] != name@,
            decreases self.enums.len() - i,
        {
            assert(names[i as int] == self.enums@[i as int].name@);
            if self.enums[i].name.eq(name) {
                assert(first_index(names, name@) == Some(i as int));
                return Some(i);
            }
            i = i + 1;
        }
        None
    }

    /// Lays out the enum named `name` once: each variant's arguments after
    /// the tag, one after another, and the enum's size that of its largest
    /// variant. An enum that already has a size is left as it is. Returns
    /// the size.
    pub fn ensure_enum_sized(&mut self, name: &String) -> (r: usize)
        requires
            enum_sizable(name@, *old(self)),
        ensures
            enum_sized(name@, r, *old(self), *final(self)),
    {
        proof { lemma_enum_of_index(self.layout().enums, name@); }
        let k = match self.enum_index(name) {
            Some(k) => k,
            None => return 0,
        };
        if self.enums[k].size > 0 {
            return self.enums[k].size;
        }
        let sized = self.size_enum_data(&self.enums[k]);
        let size = sized.size;
        let ghost before = self.layout().enums;
        self.enums.set(k, sized);
        assert(self.layout().enums =~= before.update(k as int, enum_data_v(sized)));
        size
    }
}


/// Integer primitives, pointers, and arrays of such types.
pub open spec fn plain_type(t: TypeV) -> bool
    decreases t,
{
    match t {
        TypeV::Primitive(k) => numeric_rank_s(t) is Some,
        TypeV::Pointer(_) => true,
        TypeV::Array(inner, _) => plain_type(*inner),
        _ => false,
    }
}

/// A struct field of an integer, a pointer, or an array of these takes in
/// the struct layout the parser computes exactly the bytes the code
/// generator gives its type, whatever the layouts and steps; an integer of
/// rank 1, 2, 3, 4 (8, 16, 32, 64 bits) takes 1, 2, 4, 8 bytes, so an `i32`
/// or `u32` field takes 4.
pub proof fn lemma_field_size_is_machine_size(t: TypeV, c: Ctx, l: Layout, fuel: nat)
    requires
        plain_type(t),
    ensures
        size_of_s(t, c) == type_size_s(t, l, fuel),
        t is Primitive ==> size_of_s(t, c) == Some(match numeric_rank_s(t).unwrap().0 {
            1u8 => 1int,
            2u8 => 2int,
            3u8 => 4int,
            _ => 8int,
        }),
    decreases t,
{
    match t {
        TypeV::Array(inner, _) => lemma_field_size_is_machine_size(*inner, c, l, fuel),
        _ => {},
    }
}

} // verus!
