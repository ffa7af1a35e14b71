use vstd::prelude::*;
use crate::analyzer::{entries_v, last_entry, find_last_entry};
use crate::codegen::{Gen, data_names};
use crate::ir::{Type, TypeV, types_v, lemma_types_v, copy_types, Declaration, DeclarationV, decl_v, opt_expr_v};

use crate::shared::{mangled_type_name, lemma_first_index};
use crate::sizing::{struct_instance_name, enum_names, resolve_inst_s, resolve_inst_defined};

verus! {

// ---------------------------------------------------------------------------
// Generic arguments in the code generator
// ---------------------------------------------------------------------------

/// The type a generic parameter is bound to, looked through arrays and
/// pointers (which are dropped); any other type stays.
pub open spec fn gen_generic_to_ty_s(t: TypeV, map: Seq<(Seq<char>, TypeV)>) -> TypeV
    decreases t,
{
    match t {
        TypeV::GenericType(n) => last_entry(map, n).unwrap(),
        TypeV::Array(inner, _) => gen_generic_to_ty_s(*inner, map),
        TypeV::Pointer(inner) => gen_generic_to_ty_s(*inner, map),
        _ => t,
    }
}

/// Every generic parameter that `gen_generic_to_ty_s` looks up is bound.
pub open spec fn gen_generic_to_ty_defined(t: TypeV, map: Seq<(Seq<char>, TypeV)>) -> bool
    decreases t,
{
    match t {
        TypeV::GenericType(n) => last_entry(map, n) is Some,
        TypeV::Array(inner, _) => gen_generic_to_ty_defined(*inner, map),
        TypeV::Pointer(inner) => gen_generic_to_ty_defined(*inner, map),
        _ => true,
    }
}

/// The generic parameter a field type is (looked through arrays and
/// pointers), if any.
pub open spec fn bound_param_s(t: TypeV) -> Option<Seq<char>>
    decreases t,
{
    match t {
        TypeV::GenericType(p) => Some(p),
        TypeV::Array(inner, _) => bound_param_s(*inner),
        TypeV::Pointer(inner) => bound_param_s(*inner),
        _ => None,
    }
}

/// An argument of a generic instance with its generic parameter replaced by
/// its binding (when it has one), any other argument read as instances are
/// (see `resolve_inst_s`).
pub open spec fn resolve_arg_s(t: TypeV, map: Seq<(Seq<char>, TypeV)>, sn: Seq<Seq<char>>, en: Seq<Seq<char>>) -> TypeV {
    match t {
        TypeV::GenericType(g) => match last_entry(map, g) {
            Some(x) => x,
            None => t,
        },
        _ => resolve_inst_s(t, sn, en),
    }
}

/// The type of a parameter of a generic function once its generic
/// parameters are bound by `map`: an instance of a generic becomes the
/// struct or enum of its instance name, a generic parameter its binding,
/// through pointers and arrays; any other type gives the declared type
/// `orig` of the parameter (inside the pointers and arrays it was reached
/// through).
pub open spec fn convert_ty_s(t: TypeV, orig: TypeV, map: Seq<(Seq<char>, TypeV)>, sn: Seq<Seq<char>>, en: Seq<Seq<char>>) -> TypeV
    decreases t,
{
    match t {
        TypeV::GenericInst(name, inner) => {
            let m = struct_instance_name(name, Seq::new(inner.len(), |i: int| resolve_arg_s(inner[i], map, sn, en)));
            if sn.contains(m) { TypeV::Struct(m) } else { TypeV::Enum(m, None) }
        },
        TypeV::GenericType(n) => last_entry(map, n).unwrap(),
        TypeV::Pointer(inner) => TypeV::Pointer(Box::new(convert_ty_s(*inner, orig, map, sn, en))),
        TypeV::Array(inner, n) => TypeV::Array(Box::new(convert_ty_s(*inner, orig, map, sn, en)), n),
        _ => orig,
    }
}

/// What `convert_ty_s` needs: every instance it reads is there, every
/// generic parameter it replaces is bound.
pub open spec fn convert_defined(t: TypeV, map: Seq<(Seq<char>, TypeV)>, sn: Seq<Seq<char>>, en: Seq<Seq<char>>) -> bool
    decreases t,
{
    match t {
        TypeV::GenericInst(name, inner) => {
            &&& forall|i: int| 0 <= i < inner.len() ==> !(inner[i] is GenericType)
                ==> #[trigger] resolve_inst_defined(inner[i], sn, en)
            &&& ({
                let m = struct_instance_name(name, Seq::new(inner.len(), |i: int| resolve_arg_s(inner[i], map, sn, en)));
                sn.contains(m) || en.contains(m)
            })
        },
        TypeV::GenericType(n) => last_entry(map, n) is Some,
        TypeV::Pointer(inner) => convert_defined(*inner, map, sn, en),
        TypeV::Array(inner, _) => convert_defined(*inner, map, sn, en),
        _ => true,
    }
}

impl Gen {
    /// The name of an instance of `name` for `generics`: the name, `__`,
    /// and the argument names joined by `_`.
    pub fn transform_generic_name(&self, name: &String, generics: &Vec<Type>) -> (r: String)
        ensures
            r@ == struct_instance_name(name@, types_v(generics@)),
    {
        let inst = Type::GenericInst(name.clone(), copy_types(generics));
        mangled_type_name(&inst)
    }

    /// The type a generic parameter is bound to in `type_map`, looked
    /// through arrays and pointers (see `gen_generic_to_ty_s`).
    pub fn generic_to_ty(&self, ty: &Type, type_map: &Vec<(String, Type)>) -> (r: Type)
        requires
            gen_generic_to_ty_defined(ty@, entries_v(type_map@)),
        ensures
            r@ == gen_generic_to_ty_s(ty@, entries_v(type_map@)),
        decreases ty,
    {
        match ty {
            Type::GenericType(name) => match find_last_entry(type_map, name) {
                Some(t) => t,
                None => Type::Unknown,
            },
            Type::Array(inner, _) => self.generic_to_ty(inner, type_map),
            Type::Pointer(inner) => self.generic_to_ty(inner, type_map),
            _ => ty.duplicate(),
        }
    }

    /// Binds the generic parameter that `field_ty` is (through arrays and
    /// pointers) to `expr_ty` in `type_map`; a later binding of a name
    /// stands over an earlier one.
    pub fn resolve_generic(&self, expr_ty: &Type, field_ty: &Type, type_map: &mut Vec<(String, Type)>)
        ensures
            entries_v(final(type_map)@) == match bound_param_s(field_ty@) {
                Some(p) => entries_v(old(type_map)@).push((p, expr_ty@)),
                None => entries_v(old(type_map)@),
            },
        decreases field_ty,
    {
        match field_ty {
            Type::GenericType(param_name) => {
                let ghost before = type_map@;
                type_map.push((param_name.clone(), expr_ty.duplicate()));
                assert(entries_v(type_map@) =~= entries_v(before).push((param_name@, expr_ty@)));
            },
            Type::Array(inner, _) => self.resolve_generic(expr_ty, inner, type_map),
            Type::Pointer(inner) => self.resolve_generic(expr_ty, inner, type_map),
            _ => {},
        }
    }

    /// The generic parameters `generic_names` bound to `concrete_types` in
    /// order, each looked up in the generator's bindings (see
    /// `generic_to_ty`).
    pub fn build_generic_map(&self, generic_names: &Vec<String>, concrete_types: &Vec<Type>) -> (r: Vec<(String, Type)>)
        requires
            generic_names@.len() <= concrete_types@.len(),
            forall|i: int| 0 <= i < generic_names@.len()
                ==> #[trigger] gen_generic_to_ty_defined(concrete_types@[i]@, entries_v(self.generics@)),
        ensures
            r@.len() == generic_names@.len(),
            forall|i: int| 0 <= i < r@.len() ==> #[trigger] r@[i].0@ == generic_names@[i]@
                && r@[i].1@ == gen_generic_to_ty_s(concrete_types@[i]@, entries_v(self.generics@)),
    {
        let mut out: Vec<(String, Type)> = Vec::new();
        let mut i: usize = 0;
        while i < generic_names.len()
            invariant
                i <= generic_names@.len(),
                generic_names@.len() <= concrete_types@.len(),
                forall|k: int| 0 <= k < generic_names@.len()
                    ==> #[trigger] gen_generic_to_ty_defined(concrete_types@[k]@, entries_v(self.generics@)),
                out@.len() == i,
                forall|k: int| 0 <= k < i ==> #[trigger] out@[k].0@ == generic_names@[k]@
                    && out@[k].1@ == gen_generic_to_ty_s(concrete_types@[k]@, entries_v(self.generics@)),
            decreases generic_names.len() - i,
        {
            let t = self.generic_to_ty(&concrete_types[i], &self.generics);
            out.push((generic_names[i].clone(), t));
            i = i + 1;
        }
        out
    }

    /// An argument of a generic instance with its generic parameter
    /// replaced (see `resolve_arg_s`).
    fn resolve_arg(&self, t: &Type, generic_map: &Vec<(String, Type)>) -> (r: Type)
        requires
            !(t@ is GenericType) ==> resolve_inst_defined(t@, data_names(self.structs@), enum_names(self.layout().enums)),
        ensures
            r@ == resolve_arg_s(t@, entries_v(generic_map@), data_names(self.structs@), enum_names(self.layout().enums)),
    {
        match t {
            Type::GenericType(g) => match find_last_entry(generic_map, g) {
                Some(x) => x,
                None => t.duplicate(),
            },
            _ => self.resolve_generic_inst(t),
        }
    }

    /// A parameter of a generic function with its type converted for the
    /// generic parameters bound in `generic_map` (see `convert_ty_s`; the
    /// declared type `arg.ty` is what a type with nothing to convert gives).
    pub fn convert_generic_arg(&self, arg: &Declaration, arg_ty: &Type, generics: &Vec<Type>, index: usize,
        generic_map: &Vec<(String, Type)>) -> (r: Declaration)
        requires
            convert_defined(arg_ty@, entries_v(generic_map@), data_names(self.structs@), enum_names(self.layout().enums)),
        ensures
            decl_v(r) == (DeclarationV {
                name: arg.name@,
                ty: convert_ty_s(arg_ty@, arg.ty@, entries_v(generic_map@), data_names(self.structs@),
                    enum_names(self.layout().enums)),
                initializer: opt_expr_v(arg.initializer),
            }),
        decreases arg_ty,
    {
        let ghost sn = data_names(self.structs@);
        let ghost en = enum_names(self.layout().enums);
        let ghost map = entries_v(generic_map@);
        match arg_ty {
            Type::GenericInst(name, inner_types) => {
                proof { lemma_types_v(inner_types@); }
                let mut resolved: Vec<Type> = Vec::new();
                let mut i: usize = 0;
                while i < inner_types.len()
                    invariant
                        i <= inner_types@.len(),
                        resolved@.len() == i,
                        sn == data_names(self.structs@),
                        en == enum_names(self.layout().enums),
                        map == entries_v(generic_map@),
                        types_v(inner_types@).len() == inner_types@.len(),
                        forall|k: int| 0 <= k < inner_types@.len() ==> #[trigger] types_v(inner_types@)[k] == inner_types@[k]@,
                        forall|k: int| 0 <= k < inner_types@.len() ==> !(types_v(inner_types@)[k] is GenericType)
                            ==> #[trigger] resolve_inst_defined(types_v(inner_types@)[k], sn, en),
                        forall|k: int| 0 <= k < i ==> #[trigger] resolved@[k]@
                            == resolve_arg_s(inner_types@[k]@, map, sn, en),
                    decreases inner_types.len() - i,
                {
                    assert(types_v(inner_types@)[i as int] == inner_types@[i as int]@);
                    let t = self.resolve_arg(&inner_types[i], generic_map);
                    resolved.push(t);
                    i = i + 1;
                }
                let ghost inner_v = types_v(inner_types@);
                proof {
                    lemma_types_v(resolved@);
                    assert forall|k: int| 0 <= k < inner_v.len() implies #[trigger] types_v(resolved@)[k]
                        == resolve_arg_s(inner_v[k], map, sn, en) by {
                        assert(inner_v[k] == inner_types@[k]@);
                        assert(types_v(resolved@)[k] == resolved@[k]@);
                    }
                }
                assert(types_v(resolved@) =~= Seq::new(inner_v.len(), |k: int| resolve_arg_s(inner_v[k], map, sn, en)));
                let normal_name = self.transform_generic_name(name, &resolved);
                proof {
                    lemma_first_index(sn, normal_name@);
                }
                let ty = if self.find_struct_data(&normal_name).is_some() {
                    Type::Struct(normal_name)
                } else {
                    Type::Enum(normal_name, None)
                };
                let initializer = match &arg.initializer {
                    Some(e) => Some(e.duplicate()),
                    None => None,
                };
                Declaration { name: arg.name.clone(), ty, initializer }
            },
            Type::GenericType(name) => {
                let ty = match find_last_entry(generic_map, name) {
                    Some(t) => t,
                    None => Type::Unknown,
                };
                let initializer = match &arg.initializer {
                    Some(e) => Some(e.duplicate()),
                    None => None,
                };
                Declaration { name: arg.name.clone(), ty, initializer }
            },
            Type::Pointer(inner) => {
                let mut decl = self.convert_generic_arg(arg, inner, generics, index, generic_map);
                decl.ty = Type::Pointer(Box::new(decl.ty));
                decl
            },
            Type::Array(inner, size) => {
                let mut decl = self.convert_generic_arg(arg, inner, generics, index, generic_map);
                decl.ty = Type::Array(Box::new(decl.ty), *size);
                decl
            },
            _ => arg.duplicate(),
        }
    }

    /// Each parameter of a generic function converted (see
    /// `convert_generic_arg`, with its declared type as the type converted).
    pub fn convert_generic_args(&self, args: &Vec<Declaration>, generics: &Vec<Type>, generic_map: &Vec<(String, Type)>)
        -> (r: Vec<Declaration>)
        requires
            forall|i: int| 0 <= i < args@.len() ==> #[trigger] convert_defined(args@[i].ty@, entries_v(generic_map@),
                data_names(self.structs@), enum_names(self.layout().enums)),
        ensures
            r@.len() == args@.len(),
            forall|i: int| 0 <= i < args@.len() ==> #[trigger] decl_v(r@[i]) == (DeclarationV {
                name: args@[i].name@,
                ty: convert_ty_s(args@[i].ty@, args@[i].ty@, entries_v(generic_map@), data_names(self.structs@),
                    enum_names(self.layout().enums)),
                initializer: opt_expr_v(args@[i].initializer),
            }),
    {
        let mut out: Vec<Declaration> = Vec::new();
        let mut i: usize = 0;
        while i < args.len()
            invariant
                i <= args@.len(),
                out@.len() == i,
                forall|k: int| 0 <= k < args@.len() ==> #[trigger] convert_defined(args@[k].ty@, entries_v(generic_map@),
                    data_names(self.structs@), enum_names(self.layout().enums)),
                forall|k: int| 0 <= k < i ==> #[trigger] decl_v(out@[k]) == (DeclarationV {
                    name: args@[k].name@,
                    ty: convert_ty_s(args@[k].ty@, args@[k].ty@, entries_v(generic_map@), data_names(self.structs@),
                        enum_names(self.layout().enums)),
                    initializer: opt_expr_v(args@[k].initializer),
                }),
            decreases args.len() - i,
        {
            let d = self.convert_generic_arg(&args[i], &args[i].ty, generics, i, generic_map);
            out.push(d);
            i = i + 1;
        }
        out
    }
}

} // verus!
