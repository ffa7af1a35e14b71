use vstd::prelude::*;
use crate::analyzer::{entries_v, last_entry, find_last_entry, struct_of};
use crate::ir::{VarData, Type, TypeV, type_v, BinOp, EnumData, EnumDataV, enum_data_v, StructField, StructFieldV, field_v, fields_v, StructDef, strs_v, copy_strings, Declaration, DeclarationV, decls_v, Stmt, StmtType, EnumVariantV, MatchField, MatchLeftValue, MatchLeftValueV, match_left_v, ExprType, ExprKindV, str_eq};
use crate::shared::{base_reg_s, to_base_reg, is_unsigned, is_unsigned_token, first_index, lemma_first_index};
use crate::text::{chars_of, is_lit, from_lit, push_str, push_char, push_decimal, decimal};

use crate::tokenizer::TokenType;

verus! {

// ---------------------------------------------------------------------------
// Generic parameters
// ---------------------------------------------------------------------------

/// Follows generic parameters through `map` (at most `fuel` steps): the
/// first type reached that is not a generic parameter; `None` when a
/// parameter has no entry or the steps run out.
pub open spec fn resolve_s(t: TypeV, map: Seq<(Seq<char>, TypeV)>, fuel: nat) -> Option<TypeV>
    decreases fuel,
{
    match t {
        TypeV::GenericType(n) => if fuel == 0 {
            None
        } else {
            match last_entry(map, n) {
                Some(x) => resolve_s(x, map, (fuel - 1) as nat),
                None => None,
            }
        },
        _ => Some(t),
    }
}

// ---------------------------------------------------------------------------
// Registers and operand sizes
// ---------------------------------------------------------------------------

/// The byte size of a value held in a register, for a type that is not a
/// generic parameter.
pub open spec fn reg_size_s(t: TypeV) -> Option<int> {
    match t {
        TypeV::Primitive(k) => match k {
            TokenType::I8 | TokenType::U8 => Some(1),
            TokenType::I16 | TokenType::U16 => Some(2),
            TokenType::I32 | TokenType::U32 => Some(4),
            TokenType::I64 | TokenType::U64 => Some(8),
            _ => None,
        },
        TypeV::Unknown | TypeV::GenericInst(..) | TypeV::GenericType(_) => None,
        _ => Some(8),
    }
}

/// The part of a 64-bit register that holds `size` bytes.
pub open spec fn reg_part_s(base: Seq<char>, size: int) -> Option<Seq<char>> {
    let named = |q: Seq<char>, d: Seq<char>, w: Seq<char>, b: Seq<char>|
        if size == 8 { Some(q) } else if size == 4 { Some(d) } else if size == 2 { Some(w) } else if size == 1 { Some(b) } else { None };
    if base == "rax"@ {
        named("rax"@, "eax"@, "ax"@, "al"@)
    } else if base == "rbx"@ {
        named("rbx"@, "ebx"@, "bx"@, "bl"@)
    } else if base == "rcx"@ {
        named("rcx"@, "ecx"@, "cx"@, "cl"@)
    } else if base == "rdx"@ {
        named("rdx"@, "edx"@, "dx"@, "dl"@)
    } else if base == "rsi"@ {
        named("rsi"@, "esi"@, "si"@, "sil"@)
    } else if base == "rdi"@ {
        named("rdi"@, "edi"@, "di"@, "dil"@)
    } else if size == 8 {
        Some(base)
    } else if base.len() > 0 && base[0] == 'r' {
        if size == 4 { Some(base + "d"@) } else if size == 2 { Some(base + "w"@) } else if size == 1 { Some(base + "b"@) } else { None }
    } else {
        None
    }
}

/// The register that holds a value of type `t` in (a part of) `base`.
pub open spec fn reg_for_size_s(base: Seq<char>, t: TypeV, map: Seq<(Seq<char>, TypeV)>) -> Option<Seq<char>> {
    match resolve_s(t, map, map.len()) {
        Some(r) => match reg_size_s(r) {
            Some(sz) => reg_part_s(base_reg_s(base), sz),
            None => None,
        },
        None => None,
    }
}

/// One of the six registers that have named parts of every size.
pub open spec fn is_named_reg(r: Seq<char>) -> bool {
    r == "rax"@ || r == "rbx"@ || r == "rcx"@ || r == "rdx"@ || r == "rsi"@ || r == "rdi"@
}

/// A part of one of the six named registers leads back to that register.
proof fn lemma_reg_part_base(base: Seq<char>, size: int)
    requires
        is_named_reg(base),
        reg_part_s(base, size) is Some,
    ensures
        base_reg_s(base) == base,
        base_reg_s(reg_part_s(base, size).unwrap()) == base,
{
    reveal_strlit("rax");
    assert("rax"@[0] == 'r' && "rax"@[1] == 'a' && "rax"@[2] == 'x');
    reveal_strlit("eax");
    assert("eax"@[0] == 'e' && "eax"@[1] == 'a' && "eax"@[2] == 'x');
    reveal_strlit("ax");
    assert("ax"@[0] == 'a' && "ax"@[1] == 'x');
    reveal_strlit("al");
    assert("al"@[0] == 'a' && "al"@[1] == 'l');
    reveal_strlit("rbx");
    assert("rbx"@[0] == 'r' && "rbx"@[1] == 'b' && "rbx"@[2] == 'x');
    reveal_strlit("ebx");
    assert("ebx"@[0] == 'e' && "ebx"@[1] == 'b' && "ebx"@[2] == 'x');
    reveal_strlit("bx");
    assert("bx"@[0] == 'b' && "bx"@[1] == 'x');
    reveal_strlit("bl");
    assert("bl"@[0] == 'b' && "bl"@[1] == 'l');
    reveal_strlit("rcx");
    assert("rcx"@[0] == 'r' && "rcx"@[1] == 'c' && "rcx"@[2] == 'x');
    reveal_strlit("ecx");
    assert("ecx"@[0] == 'e' && "ecx"@[1] == 'c' && "ecx"@[2] == 'x');
    reveal_strlit("cx");
    assert("cx"@[0] == 'c' && "cx"@[1] == 'x');
    reveal_strlit("cl");
    assert("cl"@[0] == 'c' && "cl"@[1] == 'l');
    reveal_strlit("rdx");
    assert("rdx"@[0] == 'r' && "rdx"@[1] == 'd' && "rdx"@[2] == 'x');
    reveal_strlit("edx");
    assert("edx"@[0] == 'e' && "edx"@[1] == 'd' && "edx"@[2] == 'x');
    reveal_strlit("dx");
    assert("dx"@[0] == 'd' && "dx"@[1] == 'x');
    reveal_strlit("dl");
    assert("dl"@[0] == 'd' && "dl"@[1] == 'l');
    reveal_strlit("rsi");
    assert("rsi"@[0] == 'r' && "rsi"@[1] == 's' && "rsi"@[2] == 'i');
    reveal_strlit("esi");
    assert("esi"@[0] == 'e' && "esi"@[1] == 's' && "esi"@[2] == 'i');
    reveal_strlit("si");
    assert("si"@[0] == 's' && "si"@[1] == 'i');
    reveal_strlit("sil");
    assert("sil"@[0] == 's' && "sil"@[1] == 'i' && "sil"@[2] == 'l');
    reveal_strlit("rdi");
    assert("rdi"@[0] == 'r' && "rdi"@[1] == 'd' && "rdi"@[2] == 'i');
    reveal_strlit("edi");
    assert("edi"@[0] == 'e' && "edi"@[1] == 'd' && "edi"@[2] == 'i');
    reveal_strlit("di");
    assert("di"@[0] == 'd' && "di"@[1] == 'i');
    reveal_strlit("dil");
    assert("dil"@[0] == 'd' && "dil"@[1] == 'i' && "dil"@[2] == 'l');
    if base == "rax"@ {
        assert(base_reg_s("eax"@) == base && base_reg_s("ax"@) == base && base_reg_s("al"@) == base);
    } else if base == "rbx"@ {
        assert(base_reg_s("ebx"@) == base && base_reg_s("bx"@) == base && base_reg_s("bl"@) == base);
    } else if base == "rcx"@ {
        assert(base_reg_s("ecx"@) == base && base_reg_s("cx"@) == base && base_reg_s("cl"@) == base);
    } else if base == "rdx"@ {
        assert(base_reg_s("edx"@) == base && base_reg_s("dx"@) == base && base_reg_s("dl"@) == base);
    } else if base == "rsi"@ {
        assert(base_reg_s("esi"@) == base && base_reg_s("si"@) == base && base_reg_s("sil"@) == base);
    } else {
        assert(base_reg_s("edi"@) == base && base_reg_s("di"@) == base && base_reg_s("dil"@) == base);
    }
}

/// The register chosen for a type inside one of the six named registers
/// leads back to that register, and choosing again from it gives it back.
pub proof fn lemma_reg_for_size_round_trip(base: Seq<char>, t: TypeV, map: Seq<(Seq<char>, TypeV)>)
    requires
        is_named_reg(base),
        reg_for_size_s(base, t, map) is Some,
    ensures
        base_reg_s(reg_for_size_s(base, t, map).unwrap()) == base,
        reg_for_size_s(reg_for_size_s(base, t, map).unwrap(), t, map) == reg_for_size_s(base, t, map),
{
    let sz = reg_size_s(resolve_s(t, map, map.len()).unwrap()).unwrap();
    lemma_reg_part_base(base, sz);
}

/// The size keyword of a memory operand of type `t` (not a generic
/// parameter); `None` for the types that have none.
pub open spec fn word_s(t: TypeV) -> Option<Seq<char>> {
    match t {
        TypeV::Primitive(k) => match k {
            TokenType::I8 | TokenType::U8 => Some("BYTE"@),
            TokenType::I16 | TokenType::U16 => Some("WORD"@),
            TokenType::I32 | TokenType::U32 => Some("DWORD"@),
            TokenType::I64 | TokenType::U64 => Some("QWORD"@),
            _ => None,
        },
        TypeV::Unknown | TypeV::GenericInst(..) | TypeV::GenericType(_) => None,
        _ => Some("QWORD"@),
    }
}

// ---------------------------------------------------------------------------
// Sizes of types
// ---------------------------------------------------------------------------

/// `indexmap::IndexMap`: a hash map that keeps its entries in insertion
/// order. Opaque to the proofs; what this library reads of it goes through
/// the functions below.
#[verifier::external_type_specification]
#[verifier::external_body]
#[verifier::reject_recursive_types(K)]
#[verifier::reject_recursive_types(V)]
#[verifier::reject_recursive_types(S)]
pub struct ExIndexMap<K, V, S>(indexmap::IndexMap<K, V, S>);

/// A struct whose layout is known: its fields by name, in declaration order.
pub struct StructData {
    pub elements: indexmap::IndexMap<String, StructField>,
    pub name: String,
    pub generic_type: Vec<String>,
    pub size: usize,
}

/// The entries of a field map, in its order.
pub uninterp spec fn field_map_entries(m: indexmap::IndexMap<String, StructField>) -> Seq<(Seq<char>, StructFieldV)>;

/// The keys of a list of entries.
pub open spec fn entry_keys(es: Seq<(Seq<char>, StructFieldV)>) -> Seq<Seq<char>> {
    es.map_values(|e: (Seq<char>, StructFieldV)| e.0)
}

/// The entries after inserting `v` under `k`: the entry with key `k` keeps
/// its place and takes the new value; a new key goes last.
pub open spec fn entries_insert(es: Seq<(Seq<char>, StructFieldV)>, k: Seq<char>, v: StructFieldV) -> Seq<(Seq<char>, StructFieldV)> {
    match first_index(entry_keys(es), k) {
        Some(i) => es.update(i, (k, v)),
        None => es.push((k, v)),
    }
}

/// The entries of a map filled with the given fields in order, each under
/// its name.
pub open spec fn entries_from(fs: Seq<StructFieldV>) -> Seq<(Seq<char>, StructFieldV)>
    decreases fs.len(),
{
    if fs.len() == 0 {
        Seq::empty()
    } else {
        entries_insert(entries_from(fs.drop_last()), fs.last().name, fs.last())
    }
}

/// Reading a key right after inserting it gives the inserted value (read
/// after write on a field map).
pub proof fn lemma_entries_insert_finds(es: Seq<(Seq<char>, StructFieldV)>, k: Seq<char>, v: StructFieldV)
    ensures
        first_index(entry_keys(entries_insert(es, k, v)), k) matches Some(i) && entries_insert(es, k, v)[i].1 == v,
{
    let keys = entry_keys(es);
    let es2 = entries_insert(es, k, v);
    let keys2 = entry_keys(es2);
    lemma_first_index(keys, k);
    lemma_first_index(keys2, k);
    match first_index(keys, k) {
        Some(i) => {
            assert(keys2 =~= keys.update(i, k));
            assert(keys2[i] == k);
            assert(forall|j: int| 0 <= j < i ==> keys2[j] == keys[j]);
            assert(first_index(keys2, k) == Some(i));
        },
        None => {
            assert(keys2 =~= keys.push(k));
            assert(keys2[keys.len() as int] == k);
            assert(forall|j: int| 0 <= j < keys.len() ==> keys2[j] == keys[j]);
            assert(first_index(keys2, k) == Some(keys.len() as int));
        },
    }
}

/// Inserting keeps the number of entries or adds one: an existing key keeps
/// its place.
pub proof fn lemma_entries_insert_len(es: Seq<(Seq<char>, StructFieldV)>, k: Seq<char>, v: StructFieldV)
    ensures
        entries_insert(es, k, v).len() == es.len() + (if entry_keys(es).contains(k) { 0int } else { 1int }),
{
    lemma_first_index(entry_keys(es), k);
    if entry_keys(es).contains(k) {
        let j = choose|j: int| 0 <= j < entry_keys(es).len() && entry_keys(es)[j] == k;
        assert(first_index(entry_keys(es), k) is Some);
    }
}

/// An empty field map.
///
/// Trusted: calls `IndexMap::new`, which creates a map with no entries.
#[verifier::external_body]
pub(crate) fn field_map_new() -> (r: indexmap::IndexMap<String, StructField>)
    ensures
        field_map_entries(r) == Seq::<(Seq<char>, StructFieldV)>::empty(),
{
    indexmap::IndexMap::new()
}

/// Inserts a field under a key.
///
/// Trusted: calls `IndexMap::insert`, which (as its documentation says)
/// updates the value of an existing key in place and appends a new key last.
#[verifier::external_body]
pub(crate) fn field_map_insert(m: &mut indexmap::IndexMap<String, StructField>, k: String, v: StructField)
    ensures
        field_map_entries(*final(m)) == entries_insert(field_map_entries(*old(m)), k@, field_v(v)),
{
    m.insert(k, v);
}

/// The field stored under a key.
///
/// Trusted: calls `IndexMap::get`, which returns the value of the entry with
/// that key, or `None` when there is none.
#[verifier::external_body]
pub(crate) fn field_map_get<'a>(m: &'a indexmap::IndexMap<String, StructField>, k: &String) -> (r: Option<&'a StructField>)
    ensures
        match first_index(entry_keys(field_map_entries(*m)), k@) {
            Some(i) => r matches Some(v) && field_v(*v) == field_map_entries(*m)[i].1,
            None => r is None,
        },
{
    m.get(k)
}

/// The number of entries of a field map.
///
/// Trusted: calls `IndexMap::len`, which returns the number of key-value
/// pairs in the map.
#[verifier::external_body]
pub(crate) fn field_map_len(m: &indexmap::IndexMap<String, StructField>) -> (r: usize)
    ensures
        r == field_map_entries(*m).len(),
{
    m.len()
}

/// The entry at a position of a field map.
///
/// Trusted: calls `IndexMap::get_index`, which returns the key and value of
/// the entry at that position in the map's order, or `None` past the end.
#[verifier::external_body]
pub(crate) fn field_map_get_index<'a>(m: &'a indexmap::IndexMap<String, StructField>, i: usize) -> (r: Option<(&'a String, &'a StructField)>)
    ensures
        match r {
            Some((k, v)) => i < field_map_entries(*m).len() && k@ == field_map_entries(*m)[i as int].0
                && field_v(*v) == field_map_entries(*m)[i as int].1,
            None => i >= field_map_entries(*m).len(),
        },
{
    m.get_index(i)
}

impl StructData {
    /// The layout of a declared struct: its fields by name, in order, and
    /// the given size.
    pub fn from_def(def: &StructDef, size: usize) -> (r: StructData)
        ensures
            field_map_entries(r.elements) == entries_from(fields_v(def.fields@)),
            r.name@ == def.name@,
            strs_v(r.generic_type@) == strs_v(def.generic_type@),
            r.size == size,
    {
        let mut elements = field_map_new();
        let ghost fs = fields_v(def.fields@);
        let mut i: usize = 0;
        assert(fs.take(0) =~= Seq::<StructFieldV>::empty());
        while i < def.fields.len()
            invariant
                i <= def.fields@.len(),
                fs == fields_v(def.fields@),
                field_map_entries(elements) == entries_from(fs.take(i as int)),
            decreases def.fields.len() - i,
        {
            let f = &def.fields[i];
            let copy = StructField { name: f.name.clone(), offset: f.offset, ty: f.ty.duplicate() };
            assert(fs.take(i + 1).drop_last() =~= fs.take(i as int));
            assert(field_v(copy) == fs[i as int]);
            field_map_insert(&mut elements, f.name.clone(), copy);
            i = i + 1;
        }
        assert(fs.take(i as int) =~= fs);
        StructData { elements, name: def.name.clone(), generic_type: copy_strings(&def.generic_type), size }
    }

    /// The field named `name`.
    pub fn field(&self, name: &String) -> (r: Option<StructField>)
        ensures
            match first_index(entry_keys(field_map_entries(self.elements)), name@) {
                Some(i) => r is Some && field_v(r.unwrap()) == field_map_entries(self.elements)[i].1,
                None => r is None,
            },
    {
        match field_map_get(&self.elements, name) {
            Some(f) => Some(StructField { name: f.name.clone(), offset: f.offset, ty: f.ty.duplicate() }),
            None => None,
        }
    }
}

/// The size recorded for the first struct named `name`.
pub open spec fn struct_size_of(ss: Seq<StructData>, name: Seq<char>) -> Option<int>
    decreases ss.len(),
{
    if ss.len() == 0 {
        None
    } else if ss[0].name@ == name {
        Some(ss[0].size as int)
    } else {
        struct_size_of(ss.drop_first(), name)
    }
}

/// The first enum named `name`.
pub open spec fn enum_of(es: Seq<EnumDataV>, name: Seq<char>) -> Option<EnumDataV>
    decreases es.len(),
{
    if es.len() == 0 {
        None
    } else if es[0].name == name {
        Some(es[0])
    } else {
        enum_of(es.drop_first(), name)
    }
}

/// The field types of each variant.
pub open spec fn variant_arg_types(e: EnumDataV) -> Seq<Seq<TypeV>> {
    Seq::new(e.variants.len(), |i: int| Seq::new(e.variants[i].args.len(), |j: int| e.variants[i].args[j].ty))
}

/// What the size of a type depends on: the structs, enums and generic
/// bindings known to the code generator.
pub struct Layout {
    pub structs: Seq<StructData>,
    pub enums: Seq<EnumDataV>,
    pub generics: Seq<(Seq<char>, TypeV)>,
}

/// The size in bytes of a value of type `t`; enums and generic parameters
/// are looked through at most `fuel` times. `None` where the size is not
/// defined (unsized primitives, unknown names, unresolved types) and on
/// overflow.
pub open spec fn type_size_s(t: TypeV, l: Layout, fuel: nat) -> Option<int>
    decreases fuel, t,
{
    match t {
        TypeV::Primitive(k) => match k {
            TokenType::I8 | TokenType::U8 => Some(1),
            TokenType::I16 | TokenType::U16 => Some(2),
            TokenType::I32 | TokenType::U32 => Some(4),
            TokenType::I64 | TokenType::U64 => Some(8),
            _ => None,
        },
        TypeV::Pointer(_) => Some(8),
        TypeV::Array(inner, n) => match type_size_s(*inner, l, fuel) {
            Some(s) => if s * n > usize::MAX { None } else { Some(s * n) },
            None => None,
        },
        TypeV::Struct(name) => struct_size_of(l.structs, name),
        TypeV::Enum(name, _) => if fuel == 0 {
            None
        } else {
            match enum_of(l.enums, name) {
                Some(e) => match variants_size_s(variant_arg_types(e), l, (fuel - 1) as nat) {
                    Some(s) => if s + 8 > usize::MAX { None } else { Some(s + 8) },
                    None => None,
                },
                None => None,
            }
        },
        TypeV::GenericType(name) => if fuel == 0 {
            None
        } else {
            match last_entry(l.generics, name) {
                Some(x) => type_size_s(x, l, (fuel - 1) as nat),
                None => None,
            }
        },
        _ => None,
    }
}

/// The largest total size of the fields of a variant.
pub open spec fn variants_size_s(vs: Seq<Seq<TypeV>>, l: Layout, fuel: nat) -> Option<int>
    decreases fuel, vs,
{
    if vs.len() == 0 {
        Some(0)
    } else {
        match (variants_size_s(vs.drop_last(), l, fuel), fields_size_s(vs.last(), l, fuel)) {
            (Some(a), Some(b)) => Some(if b > a { b } else { a }),
            _ => None,
        }
    }
}

/// The total size of a list of fields.
pub open spec fn fields_size_s(ts: Seq<TypeV>, l: Layout, fuel: nat) -> Option<int>
    decreases fuel, ts,
{
    if ts.len() == 0 {
        Some(0)
    } else {
        match (fields_size_s(ts.drop_last(), l, fuel), type_size_s(ts.last(), l, fuel)) {
            (Some(a), Some(b)) => if a + b > usize::MAX { None } else { Some(a + b) },
            _ => None,
        }
    }
}

proof fn lemma_fields_none(ts: Seq<TypeV>, l: Layout, fuel: nat, j: int)
    requires
        0 <= j <= ts.len(),
        fields_size_s(ts.take(j), l, fuel) is None,
    ensures
        fields_size_s(ts, l, fuel) is None,
    decreases ts.len() - j,
{
    if j < ts.len() {
        assert(ts.take(j + 1).drop_last() =~= ts.take(j));
        lemma_fields_none(ts, l, fuel, j + 1);
    } else {
        assert(ts.take(j) =~= ts);
    }
}

proof fn lemma_variants_none(vs: Seq<Seq<TypeV>>, l: Layout, fuel: nat, i: int)
    requires
        0 <= i <= vs.len(),
        variants_size_s(vs.take(i), l, fuel) is None,
    ensures
        variants_size_s(vs, l, fuel) is None,
    decreases vs.len() - i,
{
    if i < vs.len() {
        assert(vs.take(i + 1).drop_last() =~= vs.take(i));
        lemma_variants_none(vs, l, fuel, i + 1);
    } else {
        assert(vs.take(i) =~= vs);
    }
}

/// The alignment of a value of type `t`: the largest alignment of a
/// struct's fields (1 without fields), the largest alignment of an enum's
/// variant fields but at least 8, the size for any other type. Structs and
/// enums are looked through at most `fuel` times.
pub open spec fn align_s(t: TypeV, l: Layout, fuel: nat) -> Option<int>
    decreases fuel, t,
{
    match t {
        TypeV::Struct(name) => if fuel == 0 {
            None
        } else {
            match struct_of(l.structs, name) {
                Some(sd) => match max_align_s(
                    field_map_entries(sd.elements).map_values(|e: (Seq<char>, StructFieldV)| e.1.ty),
                    None,
                    l,
                    (fuel - 1) as nat,
                ) {
                    Some(Some(a)) => Some(a),
                    Some(None) => Some(1),
                    None => None,
                },
                None => None,
            }
        },
        TypeV::Enum(name, _) => if fuel == 0 {
            None
        } else {
            match enum_of(l.enums, name) {
                Some(e) => match variants_align_s(variant_arg_types(e), None, l, (fuel - 1) as nat) {
                    Some(Some(a)) => Some(if a > 8 { a } else { 8 }),
                    Some(None) => Some(8),
                    None => None,
                },
                None => None,
            }
        },
        _ => type_size_s(t, l, fuel),
    }
}

/// The largest alignment of `acc` (if any) and of the types of `ts`;
/// `Some(None)` when there is none at all.
pub open spec fn max_align_s(ts: Seq<TypeV>, acc: Option<int>, l: Layout, fuel: nat) -> Option<Option<int>>
    decreases fuel, ts,
{
    if ts.len() == 0 {
        Some(acc)
    } else {
        match align_s(ts[0], l, fuel) {
            Some(b) => max_align_s(ts.drop_first(), Some(match acc {
                Some(a) => if b > a { b } else { a },
                None => b,
            }), l, fuel),
            None => None,
        }
    }
}

/// `max_align_s` over the fields of each variant in turn.
pub open spec fn variants_align_s(vs: Seq<Seq<TypeV>>, acc: Option<int>, l: Layout, fuel: nat) -> Option<Option<int>>
    decreases fuel, vs,
{
    if vs.len() == 0 {
        Some(acc)
    } else {
        match max_align_s(vs[0], acc, l, fuel) {
            Some(a2) => variants_align_s(vs.drop_first(), a2, l, fuel),
            None => None,
        }
    }
}

/// `x` rounded up with the mask of `align`: `(x + align - 1) & !(align - 1)`.
pub open spec fn align_up(x: int, align: int) -> int {
    (((x + align - 1) as usize) & !((align - 1) as usize)) as int
}

/// The layout of a list of fields laid out in order, each at the next
/// offset rounded up to its alignment: `(end offset, largest alignment)`;
/// `None` where an alignment or size is undefined or zero, or on overflow.
pub open spec fn layout_s(ts: Seq<TypeV>, l: Layout, fuel: nat) -> Option<(int, int)>
    decreases ts.len(),
{
    if ts.len() == 0 {
        Some((0, 1))
    } else {
        match layout_s(ts.drop_last(), l, fuel) {
            None => None,
            Some((offset, max_align)) => match (align_s(ts.last(), l, fuel), type_size_s(ts.last(), l, fuel)) {
                (Some(a), Some(sz)) => if a < 1 || offset + a > usize::MAX || align_up(offset, a) + sz > usize::MAX {
                    None
                } else {
                    Some((align_up(offset, a) + sz, if a > max_align { a } else { max_align }))
                },
                _ => None,
            },
        }
    }
}

/// The size of a struct with fields of the given types: the end of the
/// layout rounded up to the largest alignment.
pub open spec fn struct_size_s(ts: Seq<TypeV>, l: Layout, fuel: nat) -> Option<int> {
    match layout_s(ts, l, fuel) {
        Some((offset, max_align)) => if offset + max_align > usize::MAX {
            None
        } else {
            Some(align_up(offset, max_align))
        },
        None => None,
    }
}

/// The struct layouts after recording `sd`: one of the same name is
/// replaced, else `sd` is added at the end.
pub open spec fn struct_data_insert(ss: Seq<StructData>, sd: StructData) -> Seq<StructData> {
    match first_index(data_names(ss), sd.name@) {
        Some(i) => ss.update(i, sd),
        None => ss.push(sd),
    }
}

/// The names of struct layouts.
pub open spec fn data_names(ss: Seq<StructData>) -> Seq<Seq<char>> {
    ss.map_values(|d: StructData| d.name@)
}

pub proof fn lemma_struct_of_index(ss: Seq<StructData>, n: Seq<char>)
    ensures
        struct_of(ss, n) == (match first_index(data_names(ss), n) {
            Some(i) => Some(ss[i]),
            None => None::<StructData>,
        }),
    decreases ss.len(),
{
    if ss.len() > 0 {
        assert(data_names(ss).drop_first() =~= data_names(ss.drop_first()));
        assert(data_names(ss)[0] == ss[0].name@);
        lemma_struct_of_index(ss.drop_first(), n);
        if ss[0].name@ != n {
            if let Some(i) = first_index(data_names(ss.drop_first()), n) {
                lemma_first_index(data_names(ss.drop_first()), n);
                assert(ss.drop_first()[i] == ss[i + 1]);
            }
        }
    }
}

/// After a layout is recorded it is found under its name, and every other
/// name finds what it found before (read after write on the struct layouts).
pub proof fn lemma_struct_data_insert(ss: Seq<StructData>, sd: StructData, n: Seq<char>)
    ensures
        struct_of(struct_data_insert(ss, sd), n) == (if n == sd.name@ { Some(sd) } else { struct_of(ss, n) }),
{
    let names = data_names(ss);
    let ss2 = struct_data_insert(ss, sd);
    let names2 = data_names(ss2);
    lemma_first_index(names, sd.name@);
    lemma_first_index(names, n);
    lemma_first_index(names2, n);
    lemma_struct_of_index(ss2, n);
    lemma_struct_of_index(ss, n);
    match first_index(names, sd.name@) {
        Some(i) => {
            assert(names2 =~= names.update(i, sd.name@));
            assert(forall|j: int| 0 <= j < names.len() && j != i ==> names2[j] == names[j]);
            if n == sd.name@ {
                assert(names2[i] == n);
                assert(first_index(names2, n) == Some(i));
            } else {
                assert(first_index(names2, n) == first_index(names, n));
            }
        },
        None => {
            assert(names2 =~= names.push(sd.name@));
            assert(forall|j: int| 0 <= j < names.len() ==> names2[j] == names[j]);
            if n == sd.name@ {
                assert(names2[names.len() as int] == n);
                assert(first_index(names2, n) == Some(names.len() as int));
            } else {
                assert(first_index(names2, n) == first_index(names, n));
            }
        },
    }
}

// ---------------------------------------------------------------------------
// Assembly text
// ---------------------------------------------------------------------------

/// One line of assembly text.
pub open spec fn line(s: Seq<char>) -> Seq<char> {
    s + "\n"@
}

/// `    op a, b`.
pub open spec fn ins2(op: Seq<char>, a: Seq<char>, b: Seq<char>) -> Seq<char> {
    line("    "@ + op + " "@ + a + ", "@ + b)
}

/// `    op a`.
pub open spec fn ins1(op: Seq<char>, a: Seq<char>) -> Seq<char> {
    line("    "@ + op + " "@ + a)
}

/// The instruction that computes `left op= right` for the simple operators.
pub open spec fn simple_op_s(op: BinOp) -> Option<Seq<char>> {
    match op {
        BinOp::BitAnd => Some("and"@),
        BinOp::BitOr => Some("or"@),
        BinOp::BitXor => Some("xor"@),
        BinOp::Add => Some("add"@),
        BinOp::Sub => Some("sub"@),
        BinOp::Mul => Some("imul"@),
        _ => None,
    }
}

/// The `set` instruction of a comparison.
pub open spec fn set_instr_s(op: BinOp, unsigned: bool) -> Seq<char> {
    match op {
        BinOp::Eq => "sete"@,
        BinOp::Neq => "setne"@,
        BinOp::Lt => if unsigned { "setb"@ } else { "setl"@ },
        BinOp::Lte => if unsigned { "setbe"@ } else { "setle"@ },
        BinOp::Gt => if unsigned { "seta"@ } else { "setg"@ },
        _ => if unsigned { "setae"@ } else { "setge"@ },
    }
}

pub open spec fn is_comparison(op: BinOp) -> bool {
    op == BinOp::Eq || op == BinOp::Neq || op == BinOp::Lt || op == BinOp::Lte || op == BinOp::Gt || op == BinOp::Gte
}

/// The relation a comparison operator stands for between two integers.
pub open spec fn compares(op: BinOp, x: int, y: int) -> bool {
    match op {
        BinOp::Eq => x == y,
        BinOp::Neq => x != y,
        BinOp::Lt => x < y,
        BinOp::Lte => x <= y,
        BinOp::Gt => x > y,
        _ => x >= y,
    }
}

/// The byte an x86 `setCC` instruction writes after `cmp x, y`: `sx`, `sy`
/// are the operands read as signed integers, `ux`, `uy` the same bits read
/// as unsigned ones. `sete`/`setne` test equality; `setl`, `setle`, `setg`,
/// `setge` compare the signed readings; `setb`, `setbe`, `seta`, `setae`
/// the unsigned ones. `None` for any other name.
pub open spec fn setcc_after_cmp(m: Seq<char>, sx: int, sy: int, ux: int, uy: int) -> Option<bool> {
    if m == "sete"@ { Some(ux == uy) }
    else if m == "setne"@ { Some(ux != uy) }
    else if m == "setl"@ { Some(sx < sy) }
    else if m == "setle"@ { Some(sx <= sy) }
    else if m == "setg"@ { Some(sx > sy) }
    else if m == "setge"@ { Some(sx >= sy) }
    else if m == "setb"@ { Some(ux < uy) }
    else if m == "setbe"@ { Some(ux <= uy) }
    else if m == "seta"@ { Some(ux > uy) }
    else if m == "setae"@ { Some(ux >= uy) }
    else { None }
}

/// A comparison compiles to `cmp left, right` and a `setCC al` whose byte is
/// exactly the truth of the comparison: on the signed readings of the
/// operands for a signed (or non-integer) type, on the unsigned readings for
/// an unsigned one. So `x <= y` on signed integers is true when `x == y`,
/// and `<` and `<=` differ exactly on equal operands.
pub proof fn lemma_comparison_sets_its_relation(op: BinOp, left: Seq<char>, right: Seq<char>, ty: TypeV,
    l: Layout, fuel: nat, sx: int, sy: int, ux: int, uy: int)
    requires
        is_comparison(op),
        (sx == sy) == (ux == uy),
    ensures
        ({
            let f = binop_text_s(op, left, right, ty, l, fuel).1;
            let unsigned = ty matches TypeV::Primitive(k) && is_unsigned_token(k);
            exists|m: Seq<char>, rest: Seq<char>|
                #![trigger setcc_after_cmp(m, sx, sy, ux, uy), ins1(m, "al"@) + rest]
                f == ins2("cmp"@, left, right) + ins1(m, "al"@) + rest
                && setcc_after_cmp(m, sx, sy, ux, uy)
                    == Some(if unsigned { compares(op, ux, uy) } else { compares(op, sx, sy) })
        }),
{
    reveal_strlit("sete");
    reveal_strlit("setne");
    reveal_strlit("setl");
    reveal_strlit("setle");
    reveal_strlit("setg");
    reveal_strlit("setge");
    reveal_strlit("setb");
    reveal_strlit("setbe");
    reveal_strlit("seta");
    reveal_strlit("setae");
    let unsigned = ty matches TypeV::Primitive(k) && is_unsigned_token(k);
    let m = set_instr_s(op, unsigned);
    let empty = Seq::<char>::empty();
    let rest = if left == "al"@ { empty } else { ins2("movzx"@, left, "al"@) };
    assert(simple_op_s(op) is None);
    assert(binop_text_s(op, left, right, ty, l, fuel).1 == ins2("cmp"@, left, right) + ins1(m, "al"@) + rest);
    assert(ins2("cmp"@, left, right) + ins1(m, "al"@) + rest == ins2("cmp"@, left, right) + (ins1(m, "al"@) + rest));
    assert(setcc_after_cmp(m, sx, sy, ux, uy)
        == Some(if unsigned { compares(op, ux, uy) } else { compares(op, sx, sy) })) by {
        let names = seq!["sete"@, "setne"@, "setl"@, "setle"@, "setg"@, "setge"@, "setb"@, "setbe"@, "seta"@, "setae"@];
        assert(names[0].len() == 4 && names[2].len() == 4 && names[4].len() == 4 && names[6].len() == 4 && names[8].len() == 4);
        assert(names[1].len() == 5 && names[3].len() == 5 && names[5].len() == 5 && names[7].len() == 5 && names[9].len() == 5);
        assert(names[0][3] == 'e' && names[2][3] == 'l' && names[4][3] == 'g' && names[6][3] == 'b' && names[8][3] == 'a');
        assert(names[1][3] == 'n' && names[3][3] == 'l' && names[5][3] == 'g' && names[7][3] == 'b' && names[9][3] == 'a');
    }
}

/// The sign extension before a signed division of operands of `size` bytes.
pub open spec fn sign_extend_s(size: int) -> Seq<char> {
    if size == 8 { line("    cqo"@) } else if size == 4 { line("    cdq"@) } else { line("    cwd"@) }
}

/// The lines of a division: the divisor moved into `divisor`, `rdx` saved,
/// then `div` after clearing `rdx_part` or `idiv` after a sign extension.
pub open spec fn division_s(right: Seq<char>, divisor: Seq<char>, unsigned: bool, rdx_part: Seq<char>, size: int) -> Seq<char> {
    ins2("mov"@, divisor, right) + line("    push rdx"@) + if unsigned {
        ins2("xor"@, rdx_part, rdx_part) + ins1("div"@, divisor)
    } else {
        sign_extend_s(size) + ins1("idiv"@, divisor)
    }
}

/// The text that `left op= right` appends: `(to out, to the function body)`.
/// Shifts go to the main output, every other operator to the function body.
pub open spec fn binop_text_s(op: BinOp, left: Seq<char>, right: Seq<char>, ty: TypeV, l: Layout, fuel: nat)
    -> (Seq<char>, Seq<char>)
{
    let unsigned = ty matches TypeV::Primitive(k) && is_unsigned_token(k);
    let map = l.generics;
    let empty = Seq::<char>::empty();
    match simple_op_s(op) {
        Some(ins) => (empty, ins2(ins, left, right)),
        None => match op {
            BinOp::ShiftLeft => (
                ins2("mov"@, "rcx"@, right) + ins2(if unsigned { "shl"@ } else { "sal"@ }, left, "cl"@),
                empty,
            ),
            BinOp::ShiftRight => (
                ins2("mov"@, "rcx"@, right) + ins2(if unsigned { "shr"@ } else { "sar"@ }, left, "cl"@),
                empty,
            ),
            BinOp::Div => (empty, division_s(
                right,
                reg_for_size_s("r10"@, ty, map).unwrap(),
                unsigned,
                reg_for_size_s("rdx"@, ty, map).unwrap(),
                type_size_s(ty, l, fuel).unwrap(),
            )),
            BinOp::Mod => (empty, division_s(
                right,
                reg_for_size_s("r10"@, ty, map).unwrap(),
                unsigned,
                reg_for_size_s("rdx"@, ty, map).unwrap(),
                type_size_s(ty, l, fuel).unwrap(),
            ) + ins2("mov"@, left, reg_for_size_s("rdx"@, ty, map).unwrap()) + line("    pop rdx"@)),
            BinOp::Or => {
                let lb = reg_for_size_s(left, TypeV::Primitive(TokenType::U8), map).unwrap();
                let rb = reg_for_size_s(right, TypeV::Primitive(TokenType::U8), map).unwrap();
                (empty, ins2("cmp"@, left, "0"@) + ins1("setne"@, lb) + ins2("cmp"@, right, "0"@) + ins1("setne"@, rb)
                    + ins2("or"@, lb, rb) + ins2("movzx"@, left, lb))
            },
            _ => (empty, ins2("cmp"@, left, right) + ins1(set_instr_s(op, unsigned), "al"@)
                + if left == "al"@ { empty } else { ins2("movzx"@, left, "al"@) }),
        },
    }
}

/// What `gen_expr_binop` needs to find: a register for the divisor and
/// `rdx`, the operand size of a signed division, the byte registers of `||`;
/// `&&` is never handed to it.
pub open spec fn binop_defined(op: BinOp, left: Seq<char>, right: Seq<char>, ty: TypeV, l: Layout, fuel: nat) -> bool {
    let unsigned = ty matches TypeV::Primitive(k) && is_unsigned_token(k);
    let map = l.generics;
    match op {
        BinOp::And => false,
        BinOp::Div | BinOp::Mod => {
            &&& resolve_s(ty, map, map.len()) is Some
            &&& reg_for_size_s("r10"@, ty, map) is Some
            &&& (unsigned || op == BinOp::Mod) ==> reg_for_size_s("rdx"@, ty, map) is Some
            &&& !unsigned ==> type_size_s(ty, l, fuel) is Some
        },
        BinOp::Or => {
            &&& reg_for_size_s(left, TypeV::Primitive(TokenType::U8), map) is Some
            &&& reg_for_size_s(right, TypeV::Primitive(TokenType::U8), map) is Some
        },
        _ => true,
    }
}

/// The names of a scope's variables.
pub open spec fn var_names(es: Seq<(String, VarData)>) -> Seq<Seq<char>> {
    es.map_values(|e: (String, VarData)| e.0@)
}

/// The variable `name` in the innermost scope that has it, else among the
/// globals.
pub open spec fn var_lookup_s(scopes: Seq<Seq<(String, VarData)>>, globals: Seq<(String, VarData)>, name: Seq<char>) -> Option<VarData>
    decreases scopes.len(),
{
    if scopes.len() == 0 {
        match first_index(var_names(globals), name) {
            Some(i) => Some(globals[i].1),
            None => None,
        }
    } else {
        match first_index(var_names(scopes.last()), name) {
            Some(i) => Some(scopes.last()[i].1),
            None => var_lookup_s(scopes.drop_last(), globals, name),
        }
    }
}

/// The scopes of a generator as sequences.
pub open spec fn gen_scopes(g: Gen) -> Seq<Seq<(String, VarData)>> {
    Seq::new(g.scopes@.len(), |i: int| g.scopes@[i]@)
}

/// The position of the first `)` at or after `i` (the end when there is none).
pub open spec fn close_paren(s: Seq<char>, i: int) -> int
    decreases s.len() - i,
{
    if i < 0 || i >= s.len() {
        s.len() as int
    } else if s[i] == ')' {
        i
    } else {
        close_paren(s, i + 1)
    }
}

pub proof fn lemma_close_paren(s: Seq<char>, i: int)
    requires
        0 <= i,
    ensures
        i <= close_paren(s, i) || i > s.len(),
        close_paren(s, i) <= s.len(),
        close_paren(s, i) < s.len() ==> s[close_paren(s, i)] == ')',
        forall|k: int| i <= k < close_paren(s, i) ==> s[k] != ')',
    decreases s.len() - i,
{
    if i < s.len() && s[i] != ')' {
        lemma_close_paren(s, i + 1);
    }
}

/// An inline assembly line from position `i` on, with each `(name)` replaced
/// by the stack slot `[rbp - N]` of the variable named between the brackets;
/// `None` when a variable is not found.
pub open spec fn asm_subst_s(s: Seq<char>, i: int, scopes: Seq<Seq<(String, VarData)>>, globals: Seq<(String, VarData)>) -> Option<Seq<char>>
    decreases s.len() - i,
{
    if i < 0 || i >= s.len() {
        Some(Seq::empty())
    } else if s[i] != '(' {
        match asm_subst_s(s, i + 1, scopes, globals) {
            Some(r) => Some(seq![s[i]] + r),
            None => None,
        }
    } else {
        let j = close_paren(s, i + 1);
        let name = s.subrange(i + 1, j);
        match var_lookup_s(scopes, globals, name) {
            None => None,
            Some(v) => if j >= s.len() {
                Some("[rbp - "@ + decimal(v.stack_pos as nat) + "]"@)
            } else {
                proof { lemma_close_paren(s, i + 1); }
                match asm_subst_s(s, j + 1, scopes, globals) {
                    Some(r) => Some("[rbp - "@ + decimal(v.stack_pos as nat) + "]"@ + r),
                    None => None,
                }
            },
        }
    }
}

/// The text written for the lines of an inline assembly block.
pub open spec fn asm_text_s(lines: Seq<Seq<char>>, scopes: Seq<Seq<(String, VarData)>>, globals: Seq<(String, VarData)>) -> Option<Seq<char>>
    decreases lines.len(),
{
    if lines.len() == 0 {
        Some(Seq::empty())
    } else {
        match (asm_text_s(lines.drop_last(), scopes, globals), asm_subst_s(lines.last(), 0, scopes, globals)) {
            (Some(a), Some(b)) => Some(a + line("    "@ + b)),
            _ => None,
        }
    }
}

/// The load of a value of the given type from memory into `rax`, widened by
/// sign or zero extension.
pub open spec fn typed_load_s(mem: Seq<char>, t: TypeV, word: Seq<char>, sized_rax: Seq<char>) -> Seq<char> {
    match t {
        TypeV::Primitive(TokenType::I8) | TypeV::Primitive(TokenType::I16) => line("    movsx rax, "@ + word + " "@ + mem),
        TypeV::Primitive(TokenType::I32) => line("    movsxd rax, "@ + word + " "@ + mem),
        TypeV::Primitive(TokenType::U8) | TypeV::Primitive(TokenType::U16) => line("    movzx rax, "@ + word + " "@ + mem),
        TypeV::Primitive(TokenType::U32) => line("    mov eax, "@ + word + " "@ + mem),
        _ => line("    mov "@ + sized_rax + ", "@ + word + " "@ + mem),
    }
}

/// The lines that copy `chunks` 8-byte chunks from `[rcx]` to `[rdi]`.
pub open spec fn chunk_copies_s(chunks: nat) -> Seq<char>
    decreases chunks,
{
    if chunks == 0 {
        Seq::empty()
    } else {
        let offset = decimal(((chunks - 1) * 8) as nat);
        chunk_copies_s((chunks - 1) as nat) + line("    mov rdx, [rcx + "@ + offset + "]"@)
            + line("    mov [rdi + "@ + offset + "], rdx"@)
    }
}

/// The data directive of a value of `size` bytes (`dq` for other sizes).
pub open spec fn data_directive_s(size: int) -> Seq<char> {
    if size == 8 { "dq"@ } else if size == 4 { "dd"@ } else if size == 2 { "dw"@ } else if size == 1 { "db"@ } else { "dq"@ }
}

/// The reservation directive of a value of `size` bytes (`resq` for other
/// sizes).
pub open spec fn size_directive_s(size: int) -> Seq<char> {
    if size == 8 { "resq"@ } else if size == 4 { "resd"@ } else if size == 2 { "resw"@ } else if size == 1 { "resb"@ } else { "resq"@ }
}

// ---------------------------------------------------------------------------
// Call arguments
// ---------------------------------------------------------------------------

/// The register that carries argument `pos` (of the first six).
pub open spec fn arg_base_reg_s(pos: int) -> Seq<char> {
    if pos == 0 {
        "rdi"@
    } else if pos == 1 {
        "rsi"@
    } else if pos == 2 {
        "rdx"@
    } else if pos == 3 {
        "rcx"@
    } else if pos == 4 {
        "r8"@
    } else {
        "r9"@
    }
}

/// The argument registers that a struct or enum of `size` bytes takes: one
/// up to 8 bytes, two up to 16, none beyond (it is passed on the stack).
pub open spec fn slots_s(size: int) -> int {
    if size <= 8 { 1 } else if size <= 16 { 2 } else { 0 }
}

/// The argument registers that a parameter of type `t` takes; `None` for a
/// struct or enum that is not known.
pub open spec fn arg_slots_s(t: TypeV, l: Layout) -> Option<int> {
    match t {
        TypeV::Struct(n) => match struct_size_of(l.structs, n) {
            Some(sz) => Some(slots_s(sz)),
            None => None,
        },
        TypeV::Enum(n, _) => match enum_of(l.enums, n) {
            Some(e) => Some(slots_s(e.size as int)),
            None => None,
        },
        _ => Some(1),
    }
}

/// The argument registers that parameters of types `ts` take together.
pub open spec fn arg_count_s(ts: Seq<TypeV>, l: Layout) -> Option<int>
    decreases ts.len(),
{
    if ts.len() == 0 {
        Some(0)
    } else {
        match (arg_count_s(ts.drop_last(), l), arg_slots_s(ts.last(), l)) {
            (Some(a), Some(b)) => Some(a + b),
            _ => None,
        }
    }
}

/// The types of a list of declarations.
pub open spec fn decl_types(ds: Seq<Declaration>) -> Seq<TypeV> {
    Seq::new(ds.len(), |i: int| type_v(ds[i].ty))
}

proof fn lemma_arg_count_prefix(ts: Seq<TypeV>, l: Layout, n: int)
    requires
        0 <= n <= ts.len(),
        arg_count_s(ts, l) is Some,
    ensures
        arg_count_s(ts.take(n), l) is Some,
        arg_count_s(ts.take(n), l).unwrap() <= 2 * n,
        n < ts.len() ==> arg_slots_s(ts[n], l) is Some,
    decreases ts.len(),
{
    if n == ts.len() {
        assert(ts.take(n) =~= ts);
        lemma_arg_count_bound(ts, l);
    } else {
        assert(ts.drop_last().take(n) =~= ts.take(n));
        if n < ts.len() - 1 {
            assert(ts.drop_last()[n] == ts[n]);
        }
        lemma_arg_count_prefix(ts.drop_last(), l, n);
    }
}

proof fn lemma_arg_count_bound(ts: Seq<TypeV>, l: Layout)
    requires
        arg_count_s(ts, l) is Some,
    ensures
        0 <= arg_count_s(ts, l).unwrap() <= 2 * ts.len(),
    decreases ts.len(),
{
    if ts.len() > 0 {
        lemma_arg_count_bound(ts.drop_last(), l);
    }
}

// ---------------------------------------------------------------------------
// Loading variables
// ---------------------------------------------------------------------------

/// `[rbp - N]`, the stack slot at depth `pos`.
pub open spec fn slot_s(pos: usize) -> Seq<char> {
    "[rbp - "@ + decimal(pos as nat) + "]"@
}

/// The load of a stack variable into `rax`: a primitive by its size, a
/// pointer whole, any other value by its address.
pub open spec fn var_return_s(v: VarData, map: Seq<(Seq<char>, TypeV)>) -> Seq<char> {
    let t = type_v(v.var_type);
    match t {
        TypeV::Primitive(_) => line("    mov "@ + reg_for_size_s("rax"@, t, map).unwrap() + ", "@
            + word_s(t).unwrap() + " "@ + slot_s(v.stack_pos)),
        TypeV::Pointer(_) => line("    mov rax, "@ + slot_s(v.stack_pos)),
        _ => line("    lea rax, "@ + slot_s(v.stack_pos)),
    }
}

/// The load of a global variable into `rax`: a primitive or pointer by its
/// size, any other value by its address.
pub open spec fn global_load_s(name: Seq<char>, t: TypeV, map: Seq<(Seq<char>, TypeV)>) -> Seq<char> {
    match t {
        TypeV::Primitive(_) | TypeV::Pointer(_) => line("    mov "@ + reg_for_size_s("rax"@, t, map).unwrap()
            + ", [rel "@ + name + "]"@),
        _ => line("    lea rax, [rel "@ + name + "]"@),
    }
}

/// The load of a stack variable into `rax` where a value of type
/// `expected` is wanted: a primitive narrower than that is sign-extended.
pub open spec fn var_return_addr_s(v: VarData, expected: TypeV, l: Layout, fuel: nat) -> Seq<char> {
    let t = type_v(v.var_type);
    match t {
        TypeV::Primitive(_) => if type_size_s(expected, l, fuel).unwrap() > type_size_s(t, l, fuel).unwrap() {
            line("    movsx rax, "@ + word_s(t).unwrap() + " "@ + slot_s(v.stack_pos))
        } else {
            line("    mov "@ + reg_for_size_s("rax"@, t, l.generics).unwrap() + ", "@
                + word_s(t).unwrap() + " "@ + slot_s(v.stack_pos))
        },
        TypeV::Pointer(_) => line("    mov rax, "@ + slot_s(v.stack_pos)),
        _ => line("    lea rax, "@ + slot_s(v.stack_pos)),
    }
}

/// A variable's type is one these loads handle: a sized primitive, or
/// anything but a primitive.
pub open spec fn loadable(t: TypeV) -> bool {
    t matches TypeV::Primitive(k) ==> reg_size_s(t) is Some
}

// ---------------------------------------------------------------------------
// Receiving arguments
// ---------------------------------------------------------------------------

/// The lines that copy `n` 8-byte chunks of an argument passed on the stack
/// (from `[rbp + src]` upwards) to its slot (from `[rbp - dst]` downwards).
pub open spec fn arg_chunks_s(n: nat, src: int, dst: int) -> Seq<char>
    decreases n,
{
    if n == 0 {
        Seq::empty()
    } else {
        let i = n - 1;
        arg_chunks_s((n - 1) as nat, src, dst)
            + line("    mov rax, [rbp + "@ + decimal((src + i * 8) as nat) + "]"@)
            + line("    mov [rbp - "@ + decimal((dst - i * 8) as nat) + "], rax"@)
    }
}

/// The lines that copy `n` single bytes from `[rbp + src]` upwards to
/// `[rbp - dst]` downwards.
pub open spec fn arg_bytes_s(n: nat, src: int, dst: int) -> Seq<char>
    decreases n,
{
    if n == 0 {
        Seq::empty()
    } else {
        let b = n - 1;
        arg_bytes_s((n - 1) as nat, src, dst)
            + line("    mov al, [rbp + "@ + decimal((src + b) as nat) + "]"@)
            + line("    mov BYTE [rbp - "@ + decimal((dst - b) as nat) + "], al"@)
    }
}

/// The chunks of a value of `size` bytes that are whole 8-byte words.
pub open spec fn full_chunks(size: int) -> int {
    let chunks = (size + 7) / 8;
    if size % 8 > 0 { chunks - 1 } else { chunks }
}

/// The lines that copy the last `size % 8` bytes, from `[rbp + src]` to
/// `[rbp - dst]`: as one move of 4, 2 or 1 bytes, else byte by byte.
pub open spec fn arg_tail_s(rem: int, src: int, dst: int) -> Seq<char> {
    if rem == 4 {
        line("    mov eax, [rbp + "@ + decimal(src as nat) + "]"@) + line("    mov DWORD [rbp - "@ + decimal(dst as nat) + "], eax"@)
    } else if rem == 2 {
        line("    mov ax, [rbp + "@ + decimal(src as nat) + "]"@) + line("    mov WORD [rbp - "@ + decimal(dst as nat) + "], ax"@)
    } else if rem == 1 {
        line("    mov al, [rbp + "@ + decimal(src as nat) + "]"@) + line("    mov BYTE [rbp - "@ + decimal(dst as nat) + "], al"@)
    } else {
        arg_bytes_s(rem as nat, src, dst)
    }
}

/// The lines that receive parameter number `pos` (counted from 1) into its
/// slot `[rbp - local_pos]`: from its register for the first six, else
/// copied from the caller's stack at `[rbp + stack_arg_pos]`.
pub open spec fn get_arg_s(pos: int, ty: TypeV, local_pos: int, stack_arg_pos: int, l: Layout, fuel: nat) -> Seq<char> {
    if pos > 6 {
        let size = type_size_s(ty, l, fuel).unwrap();
        let full = full_chunks(size);
        let rem = size % 8;
        arg_chunks_s(full as nat, stack_arg_pos, local_pos)
            + if rem == 0 { Seq::empty() } else { arg_tail_s(rem, stack_arg_pos + full * 8, local_pos - full * 8) }
    } else {
        line("    mov [rbp - "@ + decimal(local_pos as nat) + "], "@
            + reg_for_size_s(arg_base_reg_s(pos - 1), ty, l.generics).unwrap())
    }
}

/// What receiving a parameter of `size` bytes from the stack into the slot
/// at depth `local_pos` needs: every slot it writes lies within the frame.
pub open spec fn get_arg_fits(size: int, local_pos: int) -> bool {
    let full = full_chunks(size);
    let rem = size % 8;
    &&& full > 0 ==> local_pos >= (full - 1) * 8
    &&& rem > 0 ==> local_pos >= full * 8
    &&& (rem > 0 && rem != 1 && rem != 2 && rem != 4) ==> local_pos - full * 8 >= rem - 1
}

// ---------------------------------------------------------------------------
// Match arms
// ---------------------------------------------------------------------------

/// The first variant named `name`.
pub open spec fn variant_of(vs: Seq<EnumVariantV>, name: Seq<char>) -> Option<EnumVariantV>
    decreases vs.len(),
{
    if vs.len() == 0 {
        None
    } else if vs[0].name == name {
        Some(vs[0])
    } else {
        variant_of(vs.drop_first(), name)
    }
}

/// The enum that a pattern refers to: that of the matched value's type when
/// it is an enum, else the one the pattern names.
pub open spec fn arm_enum_name(base: Seq<char>, expr_ty: TypeV) -> Seq<char> {
    match expr_ty {
        TypeV::Enum(n, _) => n,
        _ => base,
    }
}

/// The tag of the variant `value` of the enum a pattern refers to.
pub open spec fn arm_tag_s(base: Seq<char>, value: Seq<char>, expr_ty: TypeV, l: Layout) -> Option<usize> {
    match enum_of(l.enums, arm_enum_name(base, expr_ty)) {
        Some(e) => match variant_of(e.variants, value) {
            Some(v) => Some(v.tag),
            None => None,
        },
        None => None,
    }
}

/// The lines that jump to arm `id` of a match when `rax` holds the arm's
/// value: a number, a variant's tag, or any value for the wildcard `_`.
pub open spec fn arm_check_s(left: MatchLeftValueV, id: usize, expr_ty: TypeV, l: Layout) -> Seq<char> {
    match left {
        MatchLeftValueV::Expr { expr } => match expr.kind {
            ExprKindV::Number(n) => ins2("cmp"@, "rax"@, int_text(n as int))
                + line("    je match_"@ + decimal(id as nat) + "_"@ + int_text(n as int)),
            _ => Seq::empty(),
        },
        MatchLeftValueV::Enum { base, value, .. } => if base == "_"@ {
            line("    jmp match_"@ + decimal(id as nat) + "_wildcard"@)
        } else {
            let tag = arm_tag_s(base, value, expr_ty, l).unwrap();
            ins2("cmp"@, "rax"@, decimal(tag as nat)) + line("    je match_"@ + decimal(id as nat) + "_"@ + decimal(tag as nat))
        },
    }
}

/// The arms that `arm_check_s` handles: numbers, wildcards, and variants
/// of a known enum.
pub open spec fn arm_check_defined(left: MatchLeftValueV, expr_ty: TypeV, l: Layout) -> bool {
    match left {
        MatchLeftValueV::Expr { expr } => expr.kind is Number,
        MatchLeftValueV::Enum { base, value, .. } => base == "_"@ || arm_tag_s(base, value, expr_ty, l) is Some,
    }
}

/// The lines that load a bound argument of a variant into `reg`, and the
/// slot depth reached: past the tag at each level, through pointers.
pub open spec fn match_arg_s(var_ty: TypeV, field: StructFieldV, reg: Seq<char>, pos: int) -> (Seq<char>, int)
    decreases var_ty,
{
    let p = pos + 8;
    let through = line("    mov rax, [rbp - "@ + decimal(p as nat) + "]"@) + line("    add rax, "@ + decimal(field.offset as nat))
        + line("    mov rax, [rax]"@);
    match var_ty {
        TypeV::Primitive(_) => (match field.ty {
            TypeV::Primitive(_) | TypeV::Array(..) => line("    mov "@ + reg + ", [rbp - "@ + decimal(p as nat) + "]"@),
            _ => line("    lea "@ + reg + ", [rbp - "@ + decimal(p as nat) + "]"@),
        }, p),
        TypeV::Pointer(inner) => {
            let (rest, q) = match_arg_s(*inner, field, reg, p);
            (through + rest, q)
        },
        TypeV::Enum(..) => (through, p),
        _ => (Seq::empty(), p),
    }
}

/// The types that `match_arg_s` handles, with the depths in range.
pub open spec fn match_arg_defined(var_ty: TypeV, field_ty: TypeV, pos: int) -> bool
    decreases var_ty,
{
    &&& pos + 8 <= usize::MAX
    &&& match var_ty {
        TypeV::Primitive(_) => !(field_ty is Unknown),
        TypeV::Pointer(inner) => match_arg_defined(*inner, field_ty, pos + 8),
        TypeV::Enum(..) => true,
        _ => false,
    }
}

// ---------------------------------------------------------------------------
// Globals and string literals
// ---------------------------------------------------------------------------

/// The line that reserves a global: an array in the zeroed section by its
/// element size, any other value in the data section by its size.
pub open spec fn global_line_s(name: Seq<char>, t: TypeV, l: Layout, fuel: nat) -> Seq<char> {
    match t {
        TypeV::Array(inner, _) => name + " "@ + size_directive_s(type_size_s(*inner, l, fuel).unwrap()) + " 0"@,
        _ => name + " "@ + data_directive_s(type_size_s(t, l, fuel).unwrap()) + " 0"@,
    }
}

/// The size that `global_line_s` reads is defined.
pub open spec fn global_defined(t: TypeV, l: Layout, fuel: nat) -> bool {
    match t {
        TypeV::Array(inner, _) => type_size_s(*inner, l, fuel) is Some,
        _ => type_size_s(t, l, fuel) is Some,
    }
}

/// `new` is the list of strings `old` with `x` added at the end.
pub open spec fn pushed_line(new: Seq<String>, old: Seq<String>, x: Seq<char>) -> bool {
    &&& new.len() == old.len() + 1
    &&& new.drop_last() == old
    &&& new.last()@ == x
}

/// `new` is the variables `old` with `name` bound to a global of type `t`:
/// an entry of that name keeps its place, else one is added at the end.
pub open spec fn global_put(new: Seq<(String, VarData)>, old: Seq<(String, VarData)>, name: Seq<char>, t: TypeV) -> bool {
    let i = match first_index(var_names(old), name) {
        Some(i) => i,
        None => old.len() as int,
    };
    &&& new.len() == (if i < old.len() { old.len() } else { old.len() + 1 })
    &&& forall|j: int| 0 <= j < old.len() && j != i ==> new[j] == old[j]
    &&& new[i].0@ == name
    &&& new[i].1.global_flag
    &&& new[i].1.stack_pos == 0
    &&& type_v(new[i].1.var_type) == t
}

// ---------------------------------------------------------------------------
// The code generator's state
// ---------------------------------------------------------------------------

/// A function's signature as calls see it: its parameters, its generic
/// parameters and its return type.
pub struct FuncData {
    pub args: Vec<Declaration>,
    pub generic: Vec<String>,
    pub return_type: Type,
}

pub struct FuncDataV {
    pub args: Seq<DeclarationV>,
    pub generic: Seq<Seq<char>>,
    pub return_type: TypeV,
}

pub open spec fn func_data_v(f: FuncData) -> FuncDataV {
    FuncDataV { args: decls_v(f.args@), generic: strs_v(f.generic@), return_type: type_v(f.return_type) }
}

/// The generator `g` with its label counter set to `id`.
pub open spec fn with_id(g: Gen, id: usize) -> Gen {
    Gen { id, ..g }
}

/// The state of code generation that these functions read and write: the
/// layouts they look up, the functions declared, the generic bindings in
/// force, and the text written so far.
pub struct Gen {
    pub scopes: Vec<Vec<(String, VarData)>>,
    pub global_vars: Vec<(String, VarData)>,
    pub structs: Vec<StructData>,
    pub enums: Vec<EnumData>,
    pub generics: Vec<(String, Type)>,
    pub out: String,
    pub func_data: String,
    pub stack_pos: usize,
    pub highest_stack_pos: usize,
    pub id: usize,
    pub functions: Vec<(String, Vec<FuncData>)>,
    pub generic_func: Vec<(String, Vec<Stmt>)>,
    pub data_code: Vec<String>,
    pub bss_code: Vec<String>,
}

impl Gen {
    pub open spec fn layout(&self) -> Layout {
        Layout {
            structs: self.structs@,
            enums: Seq::new(self.enums@.len(), |i: int| enum_data_v(self.enums@[i])),
            generics: entries_v(self.generics@),
        }
    }

    /// The steps through enums and generic bindings that suffice for every
    /// size computation that ends.
    pub open spec fn fuel(&self) -> nat {
        (self.enums@.len() + self.generics@.len()) as nat
    }

    /// Only the stack depths changed.
    pub open spec fn same_but_stack(&self, old: Gen) -> bool {
        &&& self.scopes == old.scopes
        &&& self.global_vars == old.global_vars
        &&& self.structs == old.structs
        &&& self.enums == old.enums
        &&& self.generics == old.generics
        &&& self.out == old.out
        &&& self.func_data == old.func_data
        &&& self.id == old.id
        &&& self.functions == old.functions
        &&& self.generic_func == old.generic_func
        &&& self.data_code == old.data_code
        &&& self.bss_code == old.bss_code
    }

    /// Only the main output and the function body text changed.
    pub open spec fn same_tables(&self, old: Gen) -> bool {
        &&& self.scopes == old.scopes
        &&& self.global_vars == old.global_vars
        &&& self.structs == old.structs
        &&& self.enums == old.enums
        &&& self.generics == old.generics
        &&& self.stack_pos == old.stack_pos
        &&& self.highest_stack_pos == old.highest_stack_pos
        &&& self.id == old.id
        &&& self.functions == old.functions
        &&& self.generic_func == old.generic_func
        &&& self.data_code == old.data_code
        &&& self.bss_code == old.bss_code
    }

    /// A generator with nothing declared and nothing written.
    pub fn new() -> (r: Gen)
        ensures
            r.scopes@.len() == 0,
            r.global_vars@.len() == 0,
            r.structs@.len() == 0,
            r.enums@.len() == 0,
            r.generics@.len() == 0,
            r.out@ == Seq::<char>::empty(),
            r.func_data@ == Seq::<char>::empty(),
            r.stack_pos == 0,
            r.highest_stack_pos == 0,
            r.id == 0,
            r.functions@.len() == 0,
            r.generic_func@.len() == 0,
            r.data_code@.len() == 0,
            r.bss_code@.len() == 0,
    {
        Gen {
            scopes: Vec::new(),
            global_vars: Vec::new(),
            structs: Vec::new(),
            enums: Vec::new(),
            generics: Vec::new(),
            out: String::new(),
            func_data: String::new(),
            stack_pos: 0,
            highest_stack_pos: 0,
            id: 0,
            functions: Vec::new(),
            generic_func: Vec::new(),
            data_code: Vec::new(),
            bss_code: Vec::new(),
        }
    }

    /// A fresh label number.
    pub fn get_id(&mut self) -> (r: usize)
        requires
            old(self).id < usize::MAX,
        ensures
            r == old(self).id + 1,
            final(self).id == r,
            *final(self) == with_id(*old(self), r),
            final(self).data_code == old(self).data_code,
            final(self).bss_code == old(self).bss_code,
            final(self).out == old(self).out,
            final(self).func_data == old(self).func_data,
            final(self).structs == old(self).structs,
            final(self).enums == old(self).enums,
            final(self).generics == old(self).generics,
            final(self).stack_pos == old(self).stack_pos,
    {
        self.id = self.id + 1;
        self.id
    }

    /// Reserves `size` bytes on the stack frame; returns the new depth.
    pub fn alloc_stack(&mut self, size: usize) -> (r: usize)
        requires
            old(self).stack_pos + size <= usize::MAX,
        ensures
            r == old(self).stack_pos + size,
            final(self).stack_pos == r,
            final(self).highest_stack_pos == (if old(self).highest_stack_pos < r { r } else { old(self).highest_stack_pos }),
            final(self).out == old(self).out,
            final(self).func_data == old(self).func_data,
            final(self).structs == old(self).structs,
            final(self).enums == old(self).enums,
            final(self).generics == old(self).generics,
            final(self).id == old(self).id,
            final(self).same_but_stack(*old(self)),
    {
        self.stack_pos = self.stack_pos + size;
        if self.highest_stack_pos < self.stack_pos {
            self.highest_stack_pos = self.stack_pos;
        }
        self.stack_pos
    }

    /// The type a generic parameter stands for (see `resolve_s`).
    fn follow_generic(&self, ty: &Type) -> (r: Type)
        requires
            resolve_s(ty@, entries_v(self.generics@), self.generics@.len() as nat) is Some,
        ensures
            resolve_s(ty@, entries_v(self.generics@), self.generics@.len() as nat) == Some(r@),
            !(r@ is GenericType),
    {
        let ghost map = entries_v(self.generics@);
        let mut cur = ty.duplicate();
        let mut fuel: usize = self.generics.len();
        loop
            invariant
                map == entries_v(self.generics@),
                fuel <= self.generics@.len(),
                resolve_s(ty@, map, self.generics@.len() as nat) == resolve_s(cur@, map, fuel as nat),
                resolve_s(cur@, map, fuel as nat) is Some,
            decreases fuel,
        {
            let next = match &cur {
                Type::GenericType(n) => match find_last_entry(&self.generics, n) {
                    Some(x) => x,
                    None => return cur,
                },
                _ => return cur,
            };
            cur = next;
            fuel = fuel - 1;
        }
    }

    /// The register that holds a value of type `ty` in (a part of) `base`
    /// (see `reg_for_size_s`).
    pub fn reg_for_size(&self, base: &str, ty: &Type) -> (r: Option<String>)
        requires
            resolve_s(ty@, entries_v(self.generics@), self.generics@.len() as nat) is Some,
        ensures
            match reg_for_size_s(base@, ty@, entries_v(self.generics@)) {
                Some(x) => r is Some && r.unwrap()@ == x,
                None => r is None,
            },
    {
        let base = to_base_reg(base);
        let ty = self.follow_generic(ty);
        let size: usize = match &ty {
            Type::Primitive(token) => {
                let k = *token;
                if k == TokenType::I8 || k == TokenType::U8 {
                    1
                } else if k == TokenType::I16 || k == TokenType::U16 {
                    2
                } else if k == TokenType::I32 || k == TokenType::U32 {
                    4
                } else if k == TokenType::I64 || k == TokenType::U64 {
                    8
                } else {
                    return None;
                }
            },
            Type::Unknown | Type::GenericInst(..) | Type::GenericType(_) => return None,
            _ => 8,
        };
        reg_part(base, size)
    }

    /// The size recorded for the first struct named `name`.
    pub(crate) fn struct_size(&self, name: &String) -> (r: Option<usize>)
        ensures
            match struct_size_of(self.structs@, name@) {
                Some(n) => r matches Some(x) && x == n,
                None => r is None,
            },
    {
        let ghost ss = self.structs@;
        assert(ss.subrange(0, ss.len() as int) =~= ss);
        let mut i: usize = 0;
        while i < self.structs.len()
            invariant
                i <= ss.len(),
                ss == self.structs@,
                struct_size_of(ss, name@) == struct_size_of(ss.subrange(i as int, ss.len() as int), name@),
            decreases self.structs.len() - i,
        {
            assert(ss.subrange(i as int, ss.len() as int).drop_first() =~= ss.subrange(i + 1, ss.len() as int));
            if self.structs[i].name.eq(name) {
                return Some(self.structs[i].size);
            }
            i = i + 1;
        }
        None
    }

    /// The index of the first enum named `name`.
    pub(crate) fn find_enum(&self, name: &String) -> (r: Option<usize>)
        ensures
            match enum_of(self.layout().enums, name@) {
                Some(e) => r matches Some(k) && k < self.enums@.len() && enum_data_v(self.enums@[k as int]) == e,
                None => r is None,
            },
    {
        let ghost es = self.layout().enums;
        assert(es.subrange(0, es.len() as int) =~= es);
        let mut i: usize = 0;
        while i < self.enums.len()
            invariant
                i <= es.len(),
                es == self.layout().enums,
                es.len() == self.enums@.len(),
                enum_of(es, name@) == enum_of(es.subrange(i as int, es.len() as int), name@),
            decreases self.enums.len() - i,
        {
            assert(es.subrange(i as int, es.len() as int).drop_first() =~= es.subrange(i + 1, es.len() as int));
            if self.enums[i].name.eq(name) {
                return Some(i);
            }
            i = i + 1;
        }
        None
    }

    /// The size of a type with `fuel` steps through enums and generic
    /// bindings (see `type_size_s`).
    #[verifier::loop_isolation(false)]
    pub(crate) fn type_size_fuel(&self, ty: &Type, fuel: usize) -> (r: Option<usize>)
        ensures
            match type_size_s(ty@, self.layout(), fuel as nat) {
                Some(n) => r matches Some(x) && x == n,
                None => r is None,
            },
        decreases fuel, ty,
    {
        match ty {
            Type::Primitive(token) => {
                let k = *token;
                if k == TokenType::I8 || k == TokenType::U8 {
                    Some(1)
                } else if k == TokenType::I16 || k == TokenType::U16 {
                    Some(2)
                } else if k == TokenType::I32 || k == TokenType::U32 {
                    Some(4)
                } else if k == TokenType::I64 || k == TokenType::U64 {
                    Some(8)
                } else {
                    None
                }
            },
            Type::Pointer(_) => Some(8),
            Type::Array(inner, count) => match self.type_size_fuel(inner, fuel) {
                Some(sz) => sz.checked_mul(*count),
                None => None,
            },
            Type::Struct(name) => self.struct_size(name),
            Type::Enum(name, _) => {
                if fuel == 0 {
                    return None;
                }
                let k = match self.find_enum(name) { None => return None, Some(k) => k };
                let f = fuel - 1;
                    {
            let ghost vat = variant_arg_types(enum_data_v(self.enums@[k as int]));
            let vs = &self.enums[k].variants;
            let mut max: usize = 0;
            let mut i: usize = 0;
            assert(vat.take(0) =~= Seq::<Seq<TypeV>>::empty());
            while i < vs.len()
                invariant
                    i <= vs@.len(),
                    vat.len() == vs@.len(),
                    vs@ == self.enums@[k as int].variants@,
                    vat == variant_arg_types(enum_data_v(self.enums@[k as int])),
                    variants_size_s(vat.take(i as int), self.layout(), f as nat) == Some(max as int),
                decreases vs.len() - i,
            {
                let args = &vs[i].args;
                let mut sum: usize = 0;
                let mut j: usize = 0;
                let ghost ts = vat[i as int];
                assert(ts.take(0) =~= Seq::<TypeV>::empty());
                while j < args.len()
                    invariant
                        j <= args@.len(),
                        ts.len() == args@.len(),
                        args@ == vs@[i as int].args@,
                        ts == vat[i as int],
                        vs@ == self.enums@[k as int].variants@,
                        vat == variant_arg_types(enum_data_v(self.enums@[k as int])),
                        i < vs@.len(),
                        forall|m: int| 0 <= m < ts.len() ==> ts[m] == type_v(#[trigger] args@[m].ty),
                        fields_size_s(ts.take(j as int), self.layout(), f as nat) == Some(sum as int),
                    decreases args.len() - j,
                {
                    assert(ts.take(j + 1).drop_last() =~= ts.take(j as int));
                    let sz = match self.type_size_fuel(&args[j].ty, f) {
                        None => {
                            proof {
                                lemma_fields_none(ts, self.layout(), f as nat, j + 1);
                                assert(vat.take(i + 1).drop_last() =~= vat.take(i as int));
                                lemma_variants_none(vat, self.layout(), f as nat, i + 1);
                            }
                            return None;
                        },
                        Some(n) => n,
                    };
                    if sum > usize::MAX - sz {
                        proof {
                            lemma_fields_none(ts, self.layout(), f as nat, j + 1);
                            assert(vat.take(i + 1).drop_last() =~= vat.take(i as int));
                            lemma_variants_none(vat, self.layout(), f as nat, i + 1);
                        }
                        return None;
                    }
                    sum = sum + sz;
                    j = j + 1;
                }
                assert(ts.take(j as int) =~= ts);
                assert(vat.take(i + 1).drop_last() =~= vat.take(i as int));
                if sum > max {
                    max = sum;
                }
                i = i + 1;
            }
            assert(vat.take(i as int) =~= vat);
            max.checked_add(8)
        }
            },
            Type::GenericType(name) => {
                if fuel == 0 {
                    return None;
                }
                match find_last_entry(&self.generics, name) {
                    Some(t) => self.type_size_fuel(&t, fuel - 1),
                    None => None,
                }
            },
            _ => None,
        }
    }

    /// The steps through enums and generic bindings used for sizes (see
    /// `fuel`), at most `usize::MAX`.
    pub(crate) fn fuel_bound(&self) -> (r: usize)
        ensures
            r as nat == (if self.fuel() > usize::MAX { usize::MAX as nat } else { self.fuel() }),
    {
        let a = self.enums.len();
        let b = self.generics.len();
        if a > usize::MAX - b { usize::MAX } else { a + b }
    }

    /// The size in bytes of a value of type `ty` (see `type_size_s`).
    pub fn type_size(&self, ty: &Type) -> (r: usize)
        requires
            type_size_s(ty@, self.layout(), self.size_fuel()) is Some,
        ensures
            type_size_s(ty@, self.layout(), self.size_fuel()) == Some(r as int),
    {
        let f = self.fuel_bound();
        match self.type_size_fuel(ty, f) {
            Some(n) => n,
            None => 0,
        }
    }

    /// The steps through enums and generic bindings that suffice for every
    /// size computation that ends (bounded by `usize::MAX`).
    pub open spec fn size_fuel(&self) -> nat {
        if self.fuel() > usize::MAX { usize::MAX as nat } else { self.fuel() }
    }

    /// Appends one line to the main output.
    pub(crate) fn emit(&mut self, s: String)
        ensures
            final(self).out@ == old(self).out@ + line(s@),
            final(self).func_data == old(self).func_data,
            final(self).same_tables(*old(self)),
    {
        push_str(&mut self.out, s.as_str());
        push_str(&mut self.out, "\n");
    }

    /// Appends one line to the body of the function being generated.
    pub(crate) fn emit_func_data(&mut self, s: String)
        ensures
            final(self).func_data@ == old(self).func_data@ + line(s@),
            final(self).out == old(self).out,
            final(self).same_tables(*old(self)),
    {
        push_str(&mut self.func_data, s.as_str());
        push_str(&mut self.func_data, "\n");
    }

    /// A shift of `left_reg` by `right_reg` (through `cl`), written to the
    /// main output.
    fn emit_shift(&mut self, left: bool, left_reg: &str, right_reg: &str, unsigned: bool)
        ensures
            final(self).same_tables(*old(self)),
            final(self).func_data == old(self).func_data,
            final(self).out@ == old(self).out@ + ins2("mov"@, "rcx"@, right_reg@) + ins2(
                if left { if unsigned { "shl"@ } else { "sal"@ } } else { if unsigned { "shr"@ } else { "sar"@ } },
                left_reg@,
                "cl"@,
            ),
    {
        let ins = if left { if unsigned { "shl" } else { "sal" } } else { if unsigned { "shr" } else { "sar" } };
        self.emit(ins2_text("mov", "rcx", right_reg));
        self.emit(ins2_text(ins, left_reg, "cl"));
    }

    /// A division of `rax` by `right_reg` (see `division_s`).
    fn emit_division(&mut self, right_reg: &str, expected_type: &Type)
        requires
            binop_defined(BinOp::Div, Seq::<char>::empty(), right_reg@, expected_type@, old(self).layout(), old(self).size_fuel()),
        ensures
            final(self).same_tables(*old(self)),
            final(self).out == old(self).out,
            final(self).func_data@ == old(self).func_data@ + division_s(
                right_reg@,
                reg_for_size_s("r10"@, expected_type@, old(self).layout().generics).unwrap(),
                expected_type@ matches TypeV::Primitive(k) && is_unsigned_token(k),
                reg_for_size_s("rdx"@, expected_type@, old(self).layout().generics).unwrap(),
                type_size_s(expected_type@, old(self).layout(), old(self).size_fuel()).unwrap(),
            ),
    {
        let unsigned = is_unsigned(expected_type);
        let divisor_reg = match self.reg_for_size("r10", expected_type) { Some(r) => r, None => return };
        self.emit_func_data(ins2_text("mov", divisor_reg.as_str(), right_reg));
        self.emit_func_data(from_lit("    push rdx"));
        let ghost mid = self.func_data@;
        if unsigned {
            let rdx_reg = match self.reg_for_size("rdx", expected_type) { Some(r) => r, None => return };
            self.emit_func_data(ins2_text("xor", rdx_reg.as_str(), rdx_reg.as_str()));
            self.emit_func_data(ins1_text("div", divisor_reg.as_str()));
            assert(self.func_data@ =~= mid + (ins2("xor"@, rdx_reg@, rdx_reg@) + ins1("div"@, divisor_reg@)));
        } else {
            let size = self.type_size(expected_type);
            if size == 8 {
                self.emit_func_data(from_lit("    cqo"));
            } else if size == 4 {
                self.emit_func_data(from_lit("    cdq"));
            } else {
                self.emit_func_data(from_lit("    cwd"));
            }
            let ghost mid2 = self.func_data@;
            assert(mid2 == mid + sign_extend_s(size as int));
            self.emit_func_data(ins1_text("idiv", divisor_reg.as_str()));
            assert(self.func_data@ =~= mid + (sign_extend_s(size as int) + ins1("idiv"@, divisor_reg@)));
        }
    }

    /// `left_reg || right_reg` as 0 or 1 in `left_reg`.
    #[verifier::rlimit(40)]
    fn emit_or(&mut self, left_reg: &str, right_reg: &str, expected_type: &Type)
        requires
            binop_defined(BinOp::Or, left_reg@, right_reg@, expected_type@, old(self).layout(), old(self).size_fuel()),
        ensures
            final(self).same_tables(*old(self)),
            final(self).out == old(self).out,
            final(self).func_data@ == old(self).func_data@ + binop_text_s(BinOp::Or, left_reg@, right_reg@,
                expected_type@, old(self).layout(), old(self).size_fuel()).1,
    {
        let u8_ty = Type::Primitive(TokenType::U8);
        let left_byte = match self.reg_for_size(left_reg, &u8_ty) { Some(r) => r, None => return };
        let right_byte = match self.reg_for_size(right_reg, &u8_ty) { Some(r) => r, None => return };
        self.emit_func_data(ins2_text("cmp", left_reg, "0"));
        self.emit_func_data(ins1_text("setne", left_byte.as_str()));
        self.emit_func_data(ins2_text("cmp", right_reg, "0"));
        self.emit_func_data(ins1_text("setne", right_byte.as_str()));
        self.emit_func_data(ins2_text("or", left_byte.as_str(), right_byte.as_str()));
        self.emit_func_data(ins2_text("movzx", left_reg, left_byte.as_str()));
        assert(self.func_data@ =~= old(self).func_data@ + binop_text_s(BinOp::Or, left_reg@, right_reg@,
            expected_type@, old(self).layout(), old(self).size_fuel()).1);
    }

    /// A comparison whose result (0 or 1) ends up in `left_reg`.
    fn emit_comparison(&mut self, op: BinOp, left_reg: &str, right_reg: &str, unsigned: bool)
        requires
            is_comparison(op),
        ensures
            final(self).same_tables(*old(self)),
            final(self).out == old(self).out,
            final(self).func_data@ == old(self).func_data@ + ins2("cmp"@, left_reg@, right_reg@)
                + ins1(set_instr_s(op, unsigned), "al"@)
                + if left_reg@ == "al"@ { Seq::<char>::empty() } else { ins2("movzx"@, left_reg@, "al"@) },
    {
        self.emit_func_data(ins2_text("cmp", left_reg, right_reg));
        let set_instr = match op {
            BinOp::Eq => "sete",
            BinOp::Neq => "setne",
            BinOp::Lt => if unsigned { "setb" } else { "setl" },
            BinOp::Lte => if unsigned { "setbe" } else { "setle" },
            BinOp::Gt => if unsigned { "seta" } else { "setg" },
            _ => if unsigned { "setae" } else { "setge" },
        };
        self.emit_func_data(ins1_text(set_instr, "al"));
        let lc = chars_of(left_reg);
        if !is_lit(&lc, "al") {
            self.emit_func_data(ins2_text("movzx", left_reg, "al"));
        }
        assert(self.func_data@ =~= old(self).func_data@ + ins2("cmp"@, left_reg@, right_reg@)
            + ins1(set_instr_s(op, unsigned), "al"@)
            + if left_reg@ == "al"@ { Seq::<char>::empty() } else { ins2("movzx"@, left_reg@, "al"@) });
    }

    /// Computes `left_reg op= right_reg` for operands of type
    /// `expected_type` (see `binop_text_s`).
    pub fn gen_expr_binop(&mut self, op: &BinOp, left_reg: &str, right_reg: &str, expected_type: &Type)
        requires
            binop_defined(*op, left_reg@, right_reg@, expected_type@, old(self).layout(), old(self).size_fuel()),
        ensures
            final(self).same_tables(*old(self)),
            ({
                let (o, f) = binop_text_s(*op, left_reg@, right_reg@, expected_type@, old(self).layout(), old(self).size_fuel());
                final(self).out@ == old(self).out@ + o && final(self).func_data@ == old(self).func_data@ + f
            }),
    {
        let unsigned = is_unsigned(expected_type);
        let simple: Option<&str> = match op {
            BinOp::BitAnd => Some("and"),
            BinOp::BitOr => Some("or"),
            BinOp::BitXor => Some("xor"),
            BinOp::Add => Some("add"),
            BinOp::Sub => Some("sub"),
            BinOp::Mul => Some("imul"),
            _ => None,
        };
        if let Some(ins) = simple {
            self.emit_func_data(ins2_text(ins, left_reg, right_reg));
            assert(self.out@ =~= old(self).out@ + Seq::<char>::empty());
            return;
        }
        match op {
            BinOp::ShiftLeft => {
                self.emit_shift(true, left_reg, right_reg, unsigned);
                assert(self.func_data@ =~= old(self).func_data@ + Seq::<char>::empty());
            },
            BinOp::ShiftRight => {
                self.emit_shift(false, left_reg, right_reg, unsigned);
                assert(self.func_data@ =~= old(self).func_data@ + Seq::<char>::empty());
            },
            BinOp::Div => {
                self.emit_division(right_reg, expected_type);
                assert(self.out@ =~= old(self).out@ + Seq::<char>::empty());
            },
            BinOp::Mod => {
                self.emit_division(right_reg, expected_type);
                let ghost mid = self.func_data@;
                let remainder_reg = match self.reg_for_size("rdx", expected_type) { Some(r) => r, None => return };
                self.emit_func_data(ins2_text("mov", left_reg, remainder_reg.as_str()));
                self.emit_func_data(from_lit("    pop rdx"));
                assert(self.func_data@ =~= mid + ins2("mov"@, left_reg@, remainder_reg@) + line("    pop rdx"@));
                assert(self.out@ =~= old(self).out@ + Seq::<char>::empty());
            },
            BinOp::Or => {
                self.emit_or(left_reg, right_reg, expected_type);
                assert(self.out@ =~= old(self).out@ + Seq::<char>::empty());
            },
            _ => {
                self.emit_comparison(*op, left_reg, right_reg, unsigned);
                assert(self.out@ =~= old(self).out@ + Seq::<char>::empty());
            },
        }
    }

    /// The first variable named `name` in a list of variables.
    pub(crate) fn find_var(es: &Vec<(String, VarData)>, name: &str) -> (r: Option<usize>)
        ensures
            match first_index(var_names(es@), name@) {
                Some(i) => r matches Some(k) && k == i && k < es@.len(),
                None => r is None,
            },
    {
        let ghost names = var_names(es@);
        proof { lemma_first_index(names, name@); }
        let mut i: usize = 0;
        while i < es.len()
            invariant
                i <= es@.len(),
                names == var_names(es@),
                names.len() == es@.len(),
                forall|j: int| 0 <= j < i ==> names[j] != name@,
                first_index(names, name@) matches Some(k) ==> 0 <= k < names.len() && names[k] == name@
                    && forall|j: int| 0 <= j < k ==> names[j] != name@,
                first_index(names, name@) is None ==> forall|j: int| 0 <= j < names.len() ==> names[j] != name@,
            decreases es.len() - i,
        {
            let c = chars_of(es[i].0.as_str());
            assert(names[i as int] == es@[i as int].0@);
            if is_lit(&c, name) {
                assert(first_index(names, name@) == Some(i as int));
                return Some(i);
            }
            i = i + 1;
        }
        None
    }

    /// The variable `name`, innermost scope first, then the globals (see
    /// `var_lookup_s`).
    pub fn lookup_var(&self, name: &str) -> (r: &VarData)
        requires
            var_lookup_s(gen_scopes(*self), self.global_vars@, name@) is Some,
        ensures
            var_lookup_s(gen_scopes(*self), self.global_vars@, name@) == Some(*r),
    {
        let ghost all = gen_scopes(*self);
        let mut i: usize = self.scopes.len();
        assert(all.take(all.len() as int) =~= all);
        while i > 0
            invariant
                i <= self.scopes@.len(),
                all == gen_scopes(*self),
                var_lookup_s(all, self.global_vars@, name@) == var_lookup_s(all.take(i as int), self.global_vars@, name@),
                var_lookup_s(all, self.global_vars@, name@) is Some,
            decreases i,
        {
            let ghost pre = all.take(i as int);
            assert(pre.drop_last() =~= all.take(i - 1));
            assert(pre.last() == self.scopes@[i - 1]@);
            match Gen::find_var(&self.scopes[i - 1], name) {
                Some(k) => {
                    return &self.scopes[i - 1][k].1;
                },
                None => {},
            }
            i = i - 1;
        }
        assert(all.take(0) =~= Seq::<Seq<(String, VarData)>>::empty());
        match Gen::find_var(&self.global_vars, name) {
            Some(k) => &self.global_vars[k].1,
            None => &self.global_vars[0].1,
        }
    }

    /// One line of inline assembly with its `(name)` references replaced
    /// (see `asm_subst_s`).
    fn subst_asm_line(&self, line_text: &String) -> (r: Option<String>)
        ensures
            match asm_subst_s(line_text@, 0, gen_scopes(*self), self.global_vars@) {
                Some(t) => r is Some && r.unwrap()@ == t,
                None => r is None,
            },
    {
        let ghost sc = gen_scopes(*self);
        let ghost gl = self.global_vars@;
        let cs = chars_of(line_text.as_str());
        let n = cs.len();
        let ghost target = asm_subst_s(cs@, 0, sc, gl);
        let mut buf = String::new();
        let mut i: usize = 0;
        assert(buf@ + Seq::<char>::empty() =~= buf@);
        loop
            invariant
                n == cs@.len(),
                cs@ == line_text@,
                sc == gen_scopes(*self),
                gl == self.global_vars@,
                i <= n,
                target == asm_subst_s(cs@, 0, sc, gl),
                target == (match asm_subst_s(cs@, i as int, sc, gl) {
                    Some(rest) => Some(buf@ + rest),
                    None => None::<Seq<char>>,
                }),
            decreases n - i,
        {
            if i >= n {
                assert(buf@ + Seq::<char>::empty() =~= buf@);
                return Some(buf);
            }
            let c = cs[i];
            if c != '(' {
                let ghost rest = asm_subst_s(cs@, i + 1, sc, gl);
                let ghost b0 = buf@;
                push_char(&mut buf, c);
                proof {
                    if let Some(r) = rest {
                        assert(b0 + (seq![c] + r) =~= buf@ + r);
                    }
                }
                i = i + 1;
            } else {
                let mut var_buf = String::new();
                let ghost vb0 = var_buf@;
                let mut j = i + 1;
                proof { lemma_close_paren(cs@, i + 1); }
                while j < n && cs[j] != ')'
                    invariant
                        n == cs@.len(),
                        i + 1 <= j <= n,
                        j <= close_paren(cs@, i + 1),
                        close_paren(cs@, i + 1) <= n,
                        forall|k: int| i + 1 <= k < close_paren(cs@, i + 1) ==> cs@[k] != ')',
                        close_paren(cs@, i + 1) < n ==> cs@[close_paren(cs@, i + 1)] == ')',
                        var_buf@ == vb0 + cs@.subrange(i + 1, j as int),
                    decreases n - j,
                {
                    push_char(&mut var_buf, cs[j]);
                    assert(var_buf@ =~= vb0 + cs@.subrange(i + 1, j + 1));
                    j = j + 1;
                }
                assert(j == close_paren(cs@, i + 1));
                let ghost lookup = var_lookup_s(sc, gl, var_buf@);
                if !self.has_var(var_buf.as_str()) {
                    return None;
                }
                let v = self.lookup_var(var_buf.as_str());
                let ghost before = buf@;
                push_str(&mut buf, "[rbp - ");
                push_decimal(&mut buf, v.stack_pos as u64);
                push_str(&mut buf, "]");
                assert(buf@ =~= before + ("[rbp - "@ + decimal(v.stack_pos as nat) + "]"@));
                if j >= n {
                    i = n;
                    assert(buf@ + Seq::<char>::empty() =~= buf@);
                } else {
                    i = j + 1;
                }
            }
        }
    }

    /// Whether a variable `name` is in scope.
    fn has_var(&self, name: &str) -> (r: bool)
        ensures
            r == (var_lookup_s(gen_scopes(*self), self.global_vars@, name@) is Some),
    {
        let ghost all = gen_scopes(*self);
        let mut i: usize = self.scopes.len();
        assert(all.take(all.len() as int) =~= all);
        while i > 0
            invariant
                i <= self.scopes@.len(),
                all == gen_scopes(*self),
                var_lookup_s(all, self.global_vars@, name@) == var_lookup_s(all.take(i as int), self.global_vars@, name@),
            decreases i,
        {
            let ghost pre = all.take(i as int);
            assert(pre.drop_last() =~= all.take(i - 1));
            assert(pre.last() == self.scopes@[i - 1]@);
            if Gen::find_var(&self.scopes[i - 1], name).is_some() {
                return true;
            }
            i = i - 1;
        }
        assert(all.take(0) =~= Seq::<Seq<(String, VarData)>>::empty());
        Gen::find_var(&self.global_vars, name).is_some()
    }

    /// Writes the lines of an inline assembly block, each with its
    /// `(name)` references replaced by the variables' stack slots (see
    /// `asm_text_s`).
    pub fn gen_inline_asm(&mut self, data: &Vec<String>)
        requires
            asm_text_s(strs_v(data@), gen_scopes(*old(self)), old(self).global_vars@) is Some,
        ensures
            final(self).same_tables(*old(self)),
            final(self).out == old(self).out,
            final(self).func_data@ == old(self).func_data@
                + asm_text_s(strs_v(data@), gen_scopes(*old(self)), old(self).global_vars@).unwrap(),
    {
        let ghost sc = gen_scopes(*self);
        let ghost gl = self.global_vars@;
        let ghost lines = strs_v(data@);
        let mut i: usize = 0;
        assert(lines.take(lines.len() as int) =~= lines);
        proof { lemma_asm_text_prefix(lines, sc, gl, lines.len() as int); }
        assert(lines.take(0) =~= Seq::<Seq<char>>::empty());
        assert(self.func_data@ =~= old(self).func_data@ + Seq::<char>::empty());
        while i < data.len()
            invariant
                i <= data@.len(),
                lines == strs_v(data@),
                sc == gen_scopes(*self),
                gl == self.global_vars@,
                self.same_tables(*old(self)),
                self.out == old(self).out,
                asm_text_s(lines, sc, gl) is Some,
                forall|k: int| 0 <= k <= lines.len() ==> #[trigger] asm_text_s(lines.take(k), sc, gl) is Some,
                self.func_data@ == old(self).func_data@ + asm_text_s(lines.take(i as int), sc, gl).unwrap(),
            decreases data.len() - i,
        {
            assert(lines.take(i + 1).drop_last() =~= lines.take(i as int));
            assert(lines.take(i + 1).last() == data@[i as int]@);
            assert(asm_text_s(lines.take(i + 1), sc, gl) is Some);
            let body = match self.subst_asm_line(&data[i]) { Some(b) => b, None => return };
            let mut text = from_lit("    ");
            push_str(&mut text, body.as_str());
            self.emit_func_data(text);
            i = i + 1;
        }
    }

    /// Loads a value of type `expected_type` from `mem_operand` into `rax`
    /// (see `typed_load_s`).
    pub fn emit_typed_load(&mut self, mem_operand: &str, expected_type: &Type)
        requires
            resolve_s(expected_type@, entries_v(old(self).generics@), old(self).generics@.len() as nat) matches Some(t)
                && word_s(t) is Some,
            reg_for_size_s("rax"@, expected_type@, entries_v(old(self).generics@)) is Some,
        ensures
            final(self).same_tables(*old(self)),
            final(self).out == old(self).out,
            ({
                let t = resolve_s(expected_type@, entries_v(old(self).generics@), old(self).generics@.len() as nat).unwrap();
                final(self).func_data@ == old(self).func_data@ + typed_load_s(mem_operand@, expected_type@, word_s(t).unwrap(),
                    reg_for_size_s("rax"@, expected_type@, entries_v(old(self).generics@)).unwrap())
            }),
    {
        let size_word = self.get_word(expected_type);
        let sized_rax = match self.reg_for_size("rax", expected_type) { Some(r) => r, None => return };
        let mut s = String::new();
        match expected_type {
            Type::Primitive(TokenType::I8) | Type::Primitive(TokenType::I16) => push_str(&mut s, "    movsx rax, "),
            Type::Primitive(TokenType::I32) => push_str(&mut s, "    movsxd rax, "),
            Type::Primitive(TokenType::U8) | Type::Primitive(TokenType::U16) => push_str(&mut s, "    movzx rax, "),
            Type::Primitive(TokenType::U32) => push_str(&mut s, "    mov eax, "),
            _ => {
                push_str(&mut s, "    mov ");
                push_str(&mut s, sized_rax.as_str());
                push_str(&mut s, ", ");
            },
        }
        push_str(&mut s, size_word.as_str());
        push_str(&mut s, " ");
        push_str(&mut s, mem_operand);
        self.emit_func_data(s);
    }

    /// Copies a value of `total_size` bytes from `[rax]` to the hidden return
    /// slot `[rbp - 8]`, 8 bytes at a time.
    pub fn copy_chunks_to_hidden_ret(&mut self, total_size: usize)
        requires
            total_size + 7 <= usize::MAX,
        ensures
            final(self).same_tables(*old(self)),
            final(self).out == old(self).out,
            final(self).func_data@ == old(self).func_data@ + line("    mov rdi, [rbp - 8]"@) + line("    mov rcx, rax"@)
                + chunk_copies_s(((total_size + 7) / 8) as nat),
    {
        self.emit_func_data(from_lit("    mov rdi, [rbp - 8]"));
        self.emit_func_data(from_lit("    mov rcx, rax"));
        let ghost start = self.func_data@;
        let chunks = (total_size + 7) / 8;
        let mut i: usize = 0;
        assert(start + chunk_copies_s(0) =~= start);
        while i < chunks
            invariant
                i <= chunks,
                chunks == (total_size + 7) / 8,
                total_size + 7 <= usize::MAX,
                self.same_tables(*old(self)),
                self.out == old(self).out,
                self.func_data@ == start + chunk_copies_s(i as nat),
            decreases chunks - i,
        {
            assert(i * 8 <= total_size + 7) by (nonlinear_arith)
                requires i < chunks, chunks == (total_size + 7) / 8;
            let offset = i * 8;
            let mut a = from_lit("    mov rdx, [rcx + ");
            push_decimal(&mut a, offset as u64);
            push_str(&mut a, "]");
            self.emit_func_data(a);
            let mut b = from_lit("    mov [rdi + ");
            push_decimal(&mut b, offset as u64);
            push_str(&mut b, "], rdx");
            self.emit_func_data(b);
            i = i + 1;
            assert(self.func_data@ =~= start + chunk_copies_s(i as nat));
        }
    }

    /// Loads an integer literal into `rax` (sized for the expected type);
    /// returns the register that holds it.
    pub fn gen_expr_num(&mut self, num: &i64, expected_type: &Type) -> (r: String)
        requires
            reg_for_size_s("rax"@, expected_type@, entries_v(old(self).generics@)) is Some,
            resolve_s(expected_type@, entries_v(old(self).generics@), old(self).generics@.len() as nat) is Some,
        ensures
            r@ == "rax"@,
            final(self).same_tables(*old(self)),
            final(self).out == old(self).out,
            final(self).func_data@ == old(self).func_data@ + ins2("mov"@, reg_for_size_s("rax"@, expected_type@,
                entries_v(old(self).generics@)).unwrap(), int_text(*num as int)),
    {
        let sized_rax = match self.reg_for_size("rax", expected_type) { Some(r) => r, None => return from_lit("rax") };
        let num_text = int_string(*num);
        self.emit_func_data(ins2_text("mov", sized_rax.as_str(), num_text.as_str()));
        from_lit("rax")
    }

    /// Pushes `rax`.
    pub fn push_result(&mut self)
        ensures
            final(self).same_tables(*old(self)),
            final(self).out == old(self).out,
            final(self).func_data@ == old(self).func_data@ + line("    push rax"@),
    {
        self.emit_func_data(from_lit("    push rax"));
    }

    /// Pops into `reg`.
    pub fn pop_into(&mut self, reg: &str)
        ensures
            final(self).same_tables(*old(self)),
            final(self).out == old(self).out,
            final(self).func_data@ == old(self).func_data@ + ins1("pop"@, reg@),
    {
        self.emit_func_data(ins1_text("pop", reg));
    }

    /// The data directive for a global of type `ty` (see `data_directive_s`).
    pub fn type_to_data_directive(&self, ty: &Type) -> (r: &'static str)
        requires
            type_size_s(ty@, self.layout(), self.size_fuel()) is Some,
        ensures
            r@ == data_directive_s(type_size_s(ty@, self.layout(), self.size_fuel()).unwrap()),
    {
        let size = self.type_size(ty);
        if size == 8 { "dq" } else if size == 4 { "dd" } else if size == 2 { "dw" } else if size == 1 { "db" } else { "dq" }
    }

    /// The reservation directive for a global array element of type `ty`
    /// (see `size_directive_s`).
    pub fn size_directive(&self, ty: &Type) -> (r: &'static str)
        requires
            type_size_s(ty@, self.layout(), self.size_fuel()) is Some,
        ensures
            r@ == size_directive_s(type_size_s(ty@, self.layout(), self.size_fuel()).unwrap()),
    {
        let size = self.type_size(ty);
        if size == 8 { "resq" } else if size == 4 { "resd" } else if size == 2 { "resw" } else if size == 1 { "resb" } else { "resq" }
    }

    /// Reserves stack space for a value of type `ty`; returns the new depth.
    pub fn alloc_type(&mut self, ty: &Type) -> (r: usize)
        requires
            type_size_s(ty@, old(self).layout(), old(self).size_fuel()) matches Some(n) && old(self).stack_pos + n <= usize::MAX,
        ensures
            r == old(self).stack_pos + type_size_s(ty@, old(self).layout(), old(self).size_fuel()).unwrap(),
            final(self).stack_pos == r,
            final(self).highest_stack_pos == (if old(self).highest_stack_pos < r { r } else { old(self).highest_stack_pos }),
            final(self).out == old(self).out,
            final(self).func_data == old(self).func_data,
            final(self).structs == old(self).structs,
            final(self).enums == old(self).enums,
            final(self).generics == old(self).generics,
            final(self).same_but_stack(*old(self)),
    {
        let size = self.type_size(ty);
        self.alloc_stack(size)
    }

    /// Loads a stack variable into `rax` (see `var_return_s`).
    pub fn var_return(&mut self, var_data: &VarData)
        requires
            loadable(type_v(var_data.var_type)),
        ensures
            final(self).func_data@ == old(self).func_data@ + var_return_s(*var_data, entries_v(old(self).generics@)),
            final(self).out == old(self).out,
            final(self).same_tables(*old(self)),
    {
        let mut text = String::new();
        match &var_data.var_type {
            Type::Primitive(_) => {
                let sized_rax = match self.reg_for_size("rax", &var_data.var_type) {
                    Some(r) => r,
                    None => return,
                };
                let word = self.get_word(&var_data.var_type);
                push_str(&mut text, "    mov ");
                push_str(&mut text, sized_rax.as_str());
                push_str(&mut text, ", ");
                push_str(&mut text, word.as_str());
                push_str(&mut text, " ");
            },
            Type::Pointer(_) => {
                push_str(&mut text, "    mov rax, ");
            },
            _ => {
                push_str(&mut text, "    lea rax, ");
            },
        }
        push_str(&mut text, "[rbp - ");
        push_decimal(&mut text, var_data.stack_pos as u64);
        push_str(&mut text, "]");
        self.emit_func_data(text);
    }

    /// Loads a global variable into `rax` (see `global_load_s`).
    fn global_load(&mut self, name: &String, ty: &Type)
        requires
            loadable(ty@),
        ensures
            final(self).func_data@ == old(self).func_data@ + global_load_s(name@, ty@, entries_v(old(self).generics@)),
            final(self).out == old(self).out,
            final(self).same_tables(*old(self)),
    {
        let mut text = String::new();
        match ty {
            Type::Primitive(_) | Type::Pointer(_) => {
                let sized_rax = match self.reg_for_size("rax", ty) {
                    Some(r) => r,
                    None => return,
                };
                push_str(&mut text, "    mov ");
                push_str(&mut text, sized_rax.as_str());
                push_str(&mut text, ", [rel ");
            },
            _ => {
                push_str(&mut text, "    lea rax, [rel ");
            },
        }
        push_str(&mut text, name.as_str());
        push_str(&mut text, "]");
        self.emit_func_data(text);
    }

    /// Loads the variable `var_name` into `rax`: a global by its name, a
    /// stack variable from its slot (see `var_return`). Returns `rax`.
    pub fn gen_expr_var(&mut self, var_name: &String, expected_type: &Type) -> (r: String)
        requires
            var_lookup_s(gen_scopes(*old(self)), old(self).global_vars@, var_name@) matches Some(v)
                && loadable(type_v(v.var_type)),
        ensures
            r@ == "rax"@,
            ({
                let v = var_lookup_s(gen_scopes(*old(self)), old(self).global_vars@, var_name@).unwrap();
                final(self).func_data@ == old(self).func_data@ + if v.global_flag {
                    global_load_s(var_name@, type_v(v.var_type), entries_v(old(self).generics@))
                } else {
                    var_return_s(v, entries_v(old(self).generics@))
                }
            }),
            final(self).out == old(self).out,
            final(self).same_tables(*old(self)),
    {
        let found = self.lookup_var(var_name.as_str());
        let var_data = VarData { stack_pos: found.stack_pos, var_type: found.var_type.duplicate(), global_flag: found.global_flag };
        if var_data.global_flag {
            self.global_load(var_name, &var_data.var_type);
            return from_lit("rax");
        }
        self.var_return(&var_data);
        from_lit("rax")
    }

    /// Loads a stack variable into `rax` where a value of type
    /// `expected_type` is wanted (see `var_return_addr_s`).
    pub fn var_return_addr(&mut self, var_data: &VarData, expected_type: &Type)
        requires
            loadable(type_v(var_data.var_type)),
            var_data.var_type is Primitive ==> type_size_s(expected_type@, old(self).layout(), old(self).size_fuel()) is Some,
        ensures
            final(self).func_data@ == old(self).func_data@
                + var_return_addr_s(*var_data, expected_type@, old(self).layout(), old(self).size_fuel()),
            final(self).out == old(self).out,
            final(self).same_tables(*old(self)),
    {
        let mut text = String::new();
        match &var_data.var_type {
            Type::Primitive(_) => {
                let actual_size = self.type_size(&var_data.var_type);
                let expected_size = self.type_size(expected_type);
                if expected_size > actual_size {
                    let src_word = self.get_word(&var_data.var_type);
                    push_str(&mut text, "    movsx rax, ");
                    push_str(&mut text, src_word.as_str());
                    push_str(&mut text, " ");
                } else {
                    let sized_rax = match self.reg_for_size("rax", &var_data.var_type) {
                        Some(r) => r,
                        None => return,
                    };
                    let word = self.get_word(&var_data.var_type);
                    push_str(&mut text, "    mov ");
                    push_str(&mut text, sized_rax.as_str());
                    push_str(&mut text, ", ");
                    push_str(&mut text, word.as_str());
                    push_str(&mut text, " ");
                }
            },
            Type::Pointer(_) => {
                push_str(&mut text, "    mov rax, ");
            },
            _ => {
                push_str(&mut text, "    lea rax, ");
            },
        }
        push_str(&mut text, "[rbp - ");
        push_decimal(&mut text, var_data.stack_pos as u64);
        push_str(&mut text, "]");
        self.emit_func_data(text);
    }

    /// Loads the variable `var_name` into `rax` where a value of type
    /// `expected_type` is wanted: a global by its name, a stack variable as
    /// `var_return_addr` does. Returns `rax`.
    pub fn gen_expr_var_addr(&mut self, var_name: &String, expected_type: &Type) -> (r: String)
        requires
            var_lookup_s(gen_scopes(*old(self)), old(self).global_vars@, var_name@) matches Some(v)
                && loadable(type_v(v.var_type))
                && (!v.global_flag && v.var_type is Primitive
                    ==> type_size_s(expected_type@, old(self).layout(), old(self).size_fuel()) is Some),
        ensures
            r@ == "rax"@,
            ({
                let v = var_lookup_s(gen_scopes(*old(self)), old(self).global_vars@, var_name@).unwrap();
                final(self).func_data@ == old(self).func_data@ + if v.global_flag {
                    global_load_s(var_name@, type_v(v.var_type), entries_v(old(self).generics@))
                } else {
                    var_return_addr_s(v, expected_type@, old(self).layout(), old(self).size_fuel())
                }
            }),
            final(self).out == old(self).out,
            final(self).same_tables(*old(self)),
    {
        let found = self.lookup_var(var_name.as_str());
        let var_data = VarData { stack_pos: found.stack_pos, var_type: found.var_type.duplicate(), global_flag: found.global_flag };
        if var_data.global_flag {
            self.global_load(var_name, &var_data.var_type);
            return from_lit("rax");
        }
        self.var_return_addr(&var_data, expected_type);
        from_lit("rax")
    }

    /// Receives parameter number `pos` (counted from 1) into its slot
    /// `[rbp - local_pos]` (see `get_arg_s`).
    #[verifier::rlimit(40)]
    pub fn get_arg(&mut self, pos: usize, ty: &Type, local_pos: usize, stack_arg_pos: Option<usize>, is_rvo: bool)
        requires
            pos > 6 ==> (type_size_s(ty@, old(self).layout(), old(self).size_fuel()) matches Some(size)
                && stack_arg_pos matches Some(sp) && sp + size + 8 <= usize::MAX
                && get_arg_fits(size, local_pos as int)),
            pos <= 6 ==> pos >= 1 && reg_for_size_s(arg_base_reg_s(pos - 1), ty@, entries_v(old(self).generics@)) is Some,
        ensures
            final(self).func_data@ == old(self).func_data@ + get_arg_s(pos as int, ty@, local_pos as int,
                match stack_arg_pos { Some(sp) => sp as int, None => 0 }, old(self).layout(), old(self).size_fuel()),
            final(self).out == old(self).out,
            final(self).same_tables(*old(self)),
    {
        let ghost start = self.func_data@;
        if pos > 6 {
            let size = self.type_size(ty);
            let sp = match stack_arg_pos {
                Some(sp) => sp,
                None => return,
            };
            let chunks = (size + 7) / 8;
            let remainder = size % 8;
            let full = if remainder > 0 { chunks - 1 } else { chunks };
            assert(full as int == full_chunks(size as int));
            assert(full * 8 <= size) by (nonlinear_arith)
                requires
                    remainder > 0 ==> full + 1 == chunks,
                    remainder == 0 ==> full == chunks,
                    chunks == (size + 7) / 8,
                    remainder == size % 8;
            let mut i: usize = 0;
            while i < full
                invariant
                    i <= full,
                    full * 8 <= size,
                    sp + size + 8 <= usize::MAX,
                    full > 0 ==> local_pos >= (full - 1) * 8,
                    self.func_data@ == start + arg_chunks_s(i as nat, sp as int, local_pos as int),
                    self.same_tables(*old(self)),
                    self.out == old(self).out,
                decreases full - i,
            {
                assert(i * 8 <= (full - 1) * 8) by (nonlinear_arith) requires i < full;
                let mut a = from_lit("    mov rax, [rbp + ");
                push_decimal(&mut a, (sp + i * 8) as u64);
                push_str(&mut a, "]");
                self.emit_func_data(a);
                let mut b = from_lit("    mov [rbp - ");
                push_decimal(&mut b, (local_pos - i * 8) as u64);
                push_str(&mut b, "], rax");
                self.emit_func_data(b);
                i = i + 1;
            }
            if remainder == 0 {
                return;
            }
            let src = sp + full * 8;
            let dst = local_pos - full * 8;
            let ghost mid = self.func_data@;
            if remainder == 4 {
                let mut a = from_lit("    mov eax, [rbp + ");
                push_decimal(&mut a, src as u64);
                push_str(&mut a, "]");
                self.emit_func_data(a);
                let mut b = from_lit("    mov DWORD [rbp - ");
                push_decimal(&mut b, dst as u64);
                push_str(&mut b, "], eax");
                self.emit_func_data(b);
            } else if remainder == 2 {
                let mut a = from_lit("    mov ax, [rbp + ");
                push_decimal(&mut a, src as u64);
                push_str(&mut a, "]");
                self.emit_func_data(a);
                let mut b = from_lit("    mov WORD [rbp - ");
                push_decimal(&mut b, dst as u64);
                push_str(&mut b, "], ax");
                self.emit_func_data(b);
            } else if remainder == 1 {
                let mut a = from_lit("    mov al, [rbp + ");
                push_decimal(&mut a, src as u64);
                push_str(&mut a, "]");
                self.emit_func_data(a);
                let mut b = from_lit("    mov BYTE [rbp - ");
                push_decimal(&mut b, dst as u64);
                push_str(&mut b, "], al");
                self.emit_func_data(b);
            } else {
                let mut k: usize = 0;
                while k < remainder
                    invariant
                        k <= remainder,
                        remainder < 8,
                        src + remainder <= usize::MAX,
                        dst >= remainder - 1,
                        self.func_data@ == mid + arg_bytes_s(k as nat, src as int, dst as int),
                        self.same_tables(*old(self)),
                        self.out == old(self).out,
                    decreases remainder - k,
                {
                    let mut a = from_lit("    mov al, [rbp + ");
                    push_decimal(&mut a, (src + k) as u64);
                    push_str(&mut a, "]");
                    self.emit_func_data(a);
                    let mut b = from_lit("    mov BYTE [rbp - ");
                    push_decimal(&mut b, (dst - k) as u64);
                    push_str(&mut b, "], al");
                    self.emit_func_data(b);
                    k = k + 1;
                }
            }
        } else {
            let base = if pos == 1 {
                "rdi"
            } else if pos == 2 {
                "rsi"
            } else if pos == 3 {
                "rdx"
            } else if pos == 4 {
                "rcx"
            } else if pos == 5 {
                "r8"
            } else {
                "r9"
            };
            proof {
                reveal_strlit("rdi");
                reveal_strlit("rsi");
                reveal_strlit("rdx");
                reveal_strlit("rcx");
                reveal_strlit("r8");
                reveal_strlit("r9");
            }
            assert(base@ == arg_base_reg_s(pos - 1));
            let reg = match self.reg_for_size(base, ty) {
                Some(r) => r,
                None => return,
            };
            let mut a = from_lit("    mov [rbp - ");
            push_decimal(&mut a, local_pos as u64);
            push_str(&mut a, "], ");
            push_str(&mut a, reg.as_str());
            self.emit_func_data(a);
        }
    }

    /// Loads a bound argument of a variant into `reg` (see `match_arg_s`);
    /// `pos` moves past the tag at each level.
    pub fn gen_match_field_arg(&mut self, var_ty: &Type, field: &StructField, reg: &String, pos: &mut usize)
        requires
            match_arg_defined(var_ty@, field.ty@, *old(pos) as int),
        ensures
            final(self).func_data@ == old(self).func_data@ + match_arg_s(var_ty@, field_v(*field), reg@, *old(pos) as int).0,
            *final(pos) as int == match_arg_s(var_ty@, field_v(*field), reg@, *old(pos) as int).1,
            final(self).out == old(self).out,
            final(self).same_tables(*old(self)),
        decreases var_ty,
    {
        *pos = *pos + 8;
        match var_ty {
            Type::Primitive(_) => {
                let mut text = match &field.ty {
                    Type::Primitive(_) | Type::Array(..) => from_lit("    mov "),
                    _ => from_lit("    lea "),
                };
                push_str(&mut text, reg.as_str());
                push_str(&mut text, ", [rbp - ");
                push_decimal(&mut text, *pos as u64);
                push_str(&mut text, "]");
                self.emit_func_data(text);
            },
            Type::Pointer(inner) => {
                self.emit_through(*pos, field.offset);
                self.gen_match_field_arg(inner, field, reg, pos);
            },
            Type::Enum(..) => {
                self.emit_through(*pos, field.offset);
            },
            _ => {},
        }
    }

    /// The three lines that follow a pointer in slot `pos` to the field at
    /// `offset` and load it.
    fn emit_through(&mut self, pos: usize, offset: usize)
        ensures
            final(self).func_data@ == old(self).func_data@ + line("    mov rax, [rbp - "@ + decimal(pos as nat) + "]"@)
                + line("    add rax, "@ + decimal(offset as nat)) + line("    mov rax, [rax]"@),
            final(self).out == old(self).out,
            final(self).same_tables(*old(self)),
    {
        let mut a = from_lit("    mov rax, [rbp - ");
        push_decimal(&mut a, pos as u64);
        push_str(&mut a, "]");
        self.emit_func_data(a);
        let mut b = from_lit("    add rax, ");
        push_decimal(&mut b, offset as u64);
        self.emit_func_data(b);
        self.emit_func_data(from_lit("    mov rax, [rax]"));
    }

    /// The tag of the first variant named `value` of enum number `k`.
    fn variant_tag(&self, k: usize, value: &String) -> (r: Option<usize>)
        requires
            k < self.enums@.len(),
        ensures
            match variant_of(enum_data_v(self.enums@[k as int]).variants, value@) {
                Some(v) => r == Some(v.tag),
                None => r is None,
            },
    {
        let ghost vs = enum_data_v(self.enums@[k as int]).variants;
        let mut i: usize = 0;
        assert(vs.subrange(0, vs.len() as int) =~= vs);
        while i < self.enums[k].variants.len()
            invariant
                k < self.enums@.len(),
                vs == enum_data_v(self.enums@[k as int]).variants,
                vs.len() == self.enums@[k as int].variants@.len(),
                i <= vs.len(),
                variant_of(vs, value@) == variant_of(vs.subrange(i as int, vs.len() as int), value@),
            decreases vs.len() - i,
        {
            assert(vs.subrange(i as int, vs.len() as int).drop_first() =~= vs.subrange(i + 1, vs.len() as int));
            assert(vs[i as int].name == self.enums@[k as int].variants@[i as int].name@);
            if self.enums[k].variants[i].name.eq(value) {
                return Some(self.enums[k].variants[i].tag);
            }
            i = i + 1;
        }
        None
    }

    /// Writes the lines that jump to arm `id` of a match when `rax` holds
    /// the arm's value (see `arm_check_s`).
    pub fn gen_match_asm_checking(&mut self, var: &MatchField, id: usize, expr_ty: &Type)
        requires
            arm_check_defined(match_left_v(var.left), expr_ty@, old(self).layout()),
        ensures
            final(self).func_data@ == old(self).func_data@ + arm_check_s(match_left_v(var.left), id, expr_ty@, old(self).layout()),
            final(self).out == old(self).out,
            final(self).same_tables(*old(self)),
    {
        match &var.left {
            MatchLeftValue::Expr { expr } => match &expr.ty {
                ExprType::Number(num) => {
                    let num_text = int_string(*num);
                    self.emit_func_data(ins2_text("cmp", "rax", num_text.as_str()));
                    let mut j = from_lit("    je match_");
                    push_decimal(&mut j, id as u64);
                    push_str(&mut j, "_");
                    push_str(&mut j, num_text.as_str());
                    self.emit_func_data(j);
                },
                _ => {},
            },
            MatchLeftValue::Enum { base, value, args: _ } => {
                proof { reveal_strlit("_"); }
                if str_eq(base, &from_lit("_")) {
                    let mut j = from_lit("    jmp match_");
                    push_decimal(&mut j, id as u64);
                    push_str(&mut j, "_wildcard");
                    self.emit_func_data(j);
                    return;
                }
                let new_base = match expr_ty {
                    Type::Enum(name, _) => name,
                    _ => base,
                };
                assert(new_base@ == arm_enum_name(base@, expr_ty@));
                let tag = match self.find_enum(new_base) {
                    Some(k) => match self.variant_tag(k, value) {
                        Some(t) => t,
                        None => return,
                    },
                    None => return,
                };
                let mut tag_text = String::new();
                push_decimal(&mut tag_text, tag as u64);
                self.emit_func_data(ins2_text("cmp", "rax", tag_text.as_str()));
                let mut j = from_lit("    je match_");
                push_decimal(&mut j, id as u64);
                push_str(&mut j, "_");
                push_str(&mut j, tag_text.as_str());
                self.emit_func_data(j);
            },
        }
    }

    /// Adds a line to the data section.
    pub fn emit_data(&mut self, s: String)
        ensures
            pushed_line(final(self).data_code@, old(self).data_code@, s@),
            final(self).bss_code == old(self).bss_code,
            final(self).out == old(self).out,
            final(self).func_data == old(self).func_data,
            final(self).scopes == old(self).scopes,
            final(self).global_vars == old(self).global_vars,
            final(self).structs == old(self).structs,
            final(self).enums == old(self).enums,
            final(self).generics == old(self).generics,
            final(self).id == old(self).id,
            final(self).stack_pos == old(self).stack_pos,
            final(self).highest_stack_pos == old(self).highest_stack_pos,
            final(self).functions == old(self).functions,
            final(self).generic_func == old(self).generic_func,
    {
        let ghost before = self.data_code@;
        self.data_code.push(s);
        assert(self.data_code@.drop_last() =~= before);
    }

    /// Adds a line to the zeroed section.
    pub fn emit_bss(&mut self, s: String)
        ensures
            pushed_line(final(self).bss_code@, old(self).bss_code@, s@),
            final(self).data_code == old(self).data_code,
            final(self).out == old(self).out,
            final(self).func_data == old(self).func_data,
            final(self).scopes == old(self).scopes,
            final(self).global_vars == old(self).global_vars,
            final(self).structs == old(self).structs,
            final(self).enums == old(self).enums,
            final(self).generics == old(self).generics,
            final(self).id == old(self).id,
    {
        let ghost before = self.bss_code@;
        self.bss_code.push(s);
        assert(self.bss_code@.drop_last() =~= before);
    }

    /// Declares a global variable: space reserved for it (see
    /// `global_line_s`) and its name bound to a global of its type. A
    /// global has no initializer.
    pub fn gen_global(&mut self, global: Box<Stmt>)
        requires
            global.ty matches StmtType::Declaration(d) && d.initializer is None
                && global_defined(d.ty@, old(self).layout(), old(self).size_fuel()),
        ensures
            ({
                let d = match global.ty { StmtType::Declaration(d) => d, _ => arbitrary() };
                let text = global_line_s(d.name@, d.ty@, old(self).layout(), old(self).size_fuel());
                &&& (d.ty is Array ==> pushed_line(final(self).bss_code@, old(self).bss_code@, text)
                    && final(self).data_code == old(self).data_code)
                &&& (!(d.ty is Array) ==> pushed_line(final(self).data_code@, old(self).data_code@, text)
                    && final(self).bss_code == old(self).bss_code)
                &&& global_put(final(self).global_vars@, old(self).global_vars@, d.name@, d.ty@)
            }),
            final(self).out == old(self).out,
            final(self).func_data == old(self).func_data,
            final(self).scopes == old(self).scopes,
            final(self).structs == old(self).structs,
            final(self).enums == old(self).enums,
            final(self).generics == old(self).generics,
    {
        match &global.ty {
            StmtType::Declaration(d) => {
                let mut text = d.name.clone();
                push_str(&mut text, " ");
                match &d.ty {
                    Type::Array(inner, _) => {
                        let dir = self.size_directive(inner);
                        push_str(&mut text, dir);
                        push_str(&mut text, " 0");
                        self.emit_bss(text);
                    },
                    _ => {
                        let dir = self.type_to_data_directive(&d.ty);
                        push_str(&mut text, dir);
                        push_str(&mut text, " 0");
                        self.emit_data(text);
                    },
                }
                let vd = VarData { global_flag: true, stack_pos: 0, var_type: d.ty.duplicate() };
                let ghost before = self.global_vars@;
                proof { lemma_first_index(var_names(before), d.name@); }
                match Gen::find_var(&self.global_vars, d.name.as_str()) {
                    Some(k) => {
                        self.global_vars.set(k, (d.name.clone(), vd));
                    },
                    None => {
                        self.global_vars.push((d.name.clone(), vd));
                    },
                }
            },
            _ => {},
        }
    }

    /// A string literal: its bytes and a terminating zero added to the data
    /// section under a fresh label, whose address is loaded into `rax`.
    /// Returns `rax`.
    pub fn gen_string(&mut self, str: &String) -> (r: String)
        requires
            old(self).id < usize::MAX,
        ensures
            r@ == "rax"@,
            final(self).id == old(self).id + 1,
            pushed_line(final(self).data_code@, old(self).data_code@,
                "str_"@ + decimal(final(self).id as nat) + ": db \""@ + str@ + "\", 0"@),
            final(self).func_data@ == old(self).func_data@
                + line("    lea rax, [rel str_"@ + decimal(final(self).id as nat) + "]"@),
            final(self).out == old(self).out,
            final(self).bss_code == old(self).bss_code,
            final(self).structs == old(self).structs,
            final(self).enums == old(self).enums,
            final(self).generics == old(self).generics,
            final(self).scopes == old(self).scopes,
            final(self).global_vars == old(self).global_vars,
            final(self).stack_pos == old(self).stack_pos,
            final(self).highest_stack_pos == old(self).highest_stack_pos,
            final(self).functions == old(self).functions,
            final(self).generic_func == old(self).generic_func,
    {
        let id = self.get_id();
        let mut d = from_lit("str_");
        push_decimal(&mut d, id as u64);
        push_str(&mut d, ": db \"");
        push_str(&mut d, str.as_str());
        push_str(&mut d, "\", 0");
        self.emit_data(d);
        let mut t = from_lit("    lea rax, [rel str_");
        push_decimal(&mut t, id as u64);
        push_str(&mut t, "]");
        self.emit_func_data(t);
        from_lit("rax")
    }

    /// Passes a value held in `rval` as argument `pos`: moved into the
    /// argument register of its size for the first six, pushed (with stack
    /// space reserved for its type) for the others.
    pub fn push_arg(&mut self, pos: usize, ty: &Type, rval: &str)
        requires
            pos < 6 ==> reg_for_size_s(arg_base_reg_s(pos as int), ty@, entries_v(old(self).generics@)) is Some,
            pos >= 6 ==> (type_size_s(ty@, old(self).layout(), old(self).size_fuel()) matches Some(n)
                && old(self).stack_pos + n <= usize::MAX),
        ensures
            pos < 6 ==> final(self).func_data@ == old(self).func_data@ + ins2("mov"@,
                reg_for_size_s(arg_base_reg_s(pos as int), ty@, entries_v(old(self).generics@)).unwrap(), rval@)
                && final(self).out == old(self).out && final(self).same_tables(*old(self)),
            pos >= 6 ==> {
                let r = old(self).stack_pos + type_size_s(ty@, old(self).layout(), old(self).size_fuel()).unwrap();
                &&& final(self).stack_pos == r
                &&& final(self).highest_stack_pos == (if old(self).highest_stack_pos < r { r } else { old(self).highest_stack_pos as int })
                &&& final(self).func_data@ == old(self).func_data@ + ins1("push"@, rval@)
                &&& final(self).out == old(self).out
                &&& final(self).structs == old(self).structs
                &&& final(self).enums == old(self).enums
                &&& final(self).generics == old(self).generics
                &&& final(self).scopes == old(self).scopes
                &&& final(self).global_vars == old(self).global_vars
                &&& final(self).id == old(self).id
                &&& final(self).functions == old(self).functions
                &&& final(self).generic_func == old(self).generic_func
                &&& final(self).data_code == old(self).data_code
                &&& final(self).bss_code == old(self).bss_code
            },
    {
        if pos < 6 {
            let base = if pos == 0 {
                "rdi"
            } else if pos == 1 {
                "rsi"
            } else if pos == 2 {
                "rdx"
            } else if pos == 3 {
                "rcx"
            } else if pos == 4 {
                "r8"
            } else {
                "r9"
            };
            proof {
                reveal_strlit("rdi");
                reveal_strlit("rsi");
                reveal_strlit("rdx");
                reveal_strlit("rcx");
                reveal_strlit("r8");
                reveal_strlit("r9");
            }
            assert(base@ == arg_base_reg_s(pos as int));
            let reg = match self.reg_for_size(base, ty) {
                Some(r) => r,
                None => return,
            };
            self.emit_func_data(ins2_text("mov", reg.as_str(), rval));
        } else {
            self.alloc_type(ty);
            self.emit_func_data(ins1_text("push", rval));
        }
    }

    /// The argument registers that parameters `args` take (see
    /// `arg_count_s`), plus one for a hidden return pointer.
    pub fn arg_count(&mut self, is_rvo: bool, args: &Vec<Declaration>) -> (r: usize)
        requires
            arg_count_s(decl_types(args@), old(self).layout()) is Some,
            args@.len() < usize::MAX / 2,
        ensures
            r == arg_count_s(decl_types(args@), old(self).layout()).unwrap() + (if is_rvo { 1int } else { 0int }),
            *final(self) == *old(self),
    {
        let ghost ts = decl_types(args@);
        let ghost l = self.layout();
        let mut count: usize = 0;
        let mut i: usize = 0;
        assert(ts.take(0) =~= Seq::<TypeV>::empty());
        while i < args.len()
            invariant
                i <= args@.len(),
                ts == decl_types(args@),
                l == self.layout(),
                args@.len() < usize::MAX / 2,
                arg_count_s(ts, l) is Some,
                arg_count_s(ts.take(i as int), l) == Some(count as int),
                count <= 2 * i,
            decreases args.len() - i,
        {
            proof {
                lemma_arg_count_prefix(ts, l, i as int);
                assert(ts.take(i + 1).drop_last() =~= ts.take(i as int));
                assert(ts.take(i + 1).last() == ts[i as int]);
            }
            let add: usize = match &args[i].ty {
                Type::Struct(name) => {
                    let size = match self.struct_size(name) {
                        Some(sz) => sz,
                        None => 0,
                    };
                    if size <= 8 { 1 } else if size <= 16 { 2 } else { 0 }
                },
                Type::Enum(name, _) => {
                    let size = match self.find_enum(name) {
                        Some(k) => self.enums[k].size,
                        None => 0,
                    };
                    if size <= 8 { 1 } else if size <= 16 { 2 } else { 0 }
                },
                _ => 1,
            };
            count = count + add;
            i = i + 1;
        }
        assert(ts.take(i as int) =~= ts);
        if is_rvo {
            count + 1
        } else {
            count
        }
    }

    /// The first struct layout named `name`, by index.
    pub(crate) fn find_struct_data(&self, name: &String) -> (r: Option<usize>)
        ensures
            match first_index(data_names(self.structs@), name@) {
                Some(i) => r matches Some(k) && k == i && k < self.structs@.len(),
                None => r is None,
            },
            match struct_of(self.structs@, name@) {
                Some(sd) => r matches Some(k) && k < self.structs@.len() && self.structs@[k as int] == sd,
                None => r is None,
            },
    {
        let ghost names = data_names(self.structs@);
        proof {
            lemma_first_index(names, name@);
            lemma_struct_of_index(self.structs@, name@);
        }
        let mut i: usize = 0;
        while i < self.structs.len()
            invariant
                i <= self.structs@.len(),
                names == data_names(self.structs@),
                names.len() == self.structs@.len(),
                struct_of(self.structs@, name@) == (match first_index(names, name@) {
                    Some(x) => Some(self.structs@[x]),
                    None => None::<StructData>,
                }),
                forall|j: int| 0 <= j < i ==> names[j] != name@,
                first_index(names, name@) matches Some(k) ==> 0 <= k < names.len() && names[k] == name@
                    && forall|j: int| 0 <= j < k ==> names[j] != name@,
                first_index(names, name@) is None ==> forall|j: int| 0 <= j < names.len() ==> names[j] != name@,
            decreases self.structs.len() - i,
        {
            assert(names[i as int] == self.structs@[i as int].name@);
            if self.structs[i].name.eq(name) {
                assert(first_index(names, name@) == Some(i as int));
                return Some(i);
            }
            i = i + 1;
        }
        None
    }

    /// The alignment of a type with `fuel` steps through structs, enums and
    /// generic bindings (see `align_s`).
    #[verifier::loop_isolation(false)]
    pub(crate) fn field_alignment_fuel(&self, ty: &Type, fuel: usize) -> (r: Option<usize>)
        ensures
            match align_s(ty@, self.layout(), fuel as nat) {
                Some(n) => r matches Some(x) && x == n,
                None => r is None,
            },
        decreases fuel, ty,
    {
        match ty {
            Type::Struct(name) => {
                if fuel == 0 {
                    return None;
                }
                let f = fuel - 1;
                let k = match self.find_struct_data(name) { None => return None, Some(k) => k };
                let m = &self.structs[k].elements;
                let ghost es = field_map_entries(*m);
                let ghost tys = es.map_values(|e: (Seq<char>, StructFieldV)| e.1.ty);
                let n = field_map_len(m);
                let mut acc: Option<usize> = None;
                let mut i: usize = 0;
                assert(tys.subrange(0, tys.len() as int) =~= tys);
                while i < n
                    invariant
                        n == es.len(),
                        tys.len() == es.len(),
                        i <= n,
                        es == field_map_entries(self.structs@[k as int].elements),
                        m == &self.structs@[k as int].elements,
                        forall|j: int| 0 <= j < tys.len() ==> tys[j] == es[j].1.ty,
                        max_align_s(tys, None, self.layout(), f as nat) == max_align_s(tys.subrange(i as int, tys.len() as int),
                            match acc { Some(a) => Some(a as int), None => None::<int> }, self.layout(), f as nat),
                    decreases n - i,
                {
                    let ghost rest = tys.subrange(i as int, tys.len() as int);
                    assert(rest.drop_first() =~= tys.subrange(i + 1, tys.len() as int));
                    assert(rest[0] == tys[i as int]);
                    let (_, fld) = match field_map_get_index(m, i) { Some(e) => e, None => return None };
                    let b = match self.field_alignment_fuel(&fld.ty, f) { None => return None, Some(b) => b };
                    acc = Some(match acc {
                        Some(a) => if b > a { b } else { a },
                        None => b,
                    });
                    i = i + 1;
                }
                assert(tys.subrange(i as int, tys.len() as int) =~= Seq::<TypeV>::empty());
                match acc {
                    Some(a) => Some(a),
                    None => Some(1),
                }
            },
            Type::Enum(name, _) => {
                if fuel == 0 {
                    return None;
                }
                let f = fuel - 1;
                let k = match self.find_enum(name) { None => return None, Some(k) => k };
                let ghost vat = variant_arg_types(enum_data_v(self.enums@[k as int]));
                let vs = &self.enums[k].variants;
                let mut acc: Option<usize> = None;
                let mut i: usize = 0;
                assert(vat.subrange(0, vat.len() as int) =~= vat);
                while i < vs.len()
                    invariant
                        i <= vs@.len(),
                        vat.len() == vs@.len(),
                        vs@ == self.enums@[k as int].variants@,
                        vat == variant_arg_types(enum_data_v(self.enums@[k as int])),
                        variants_align_s(vat, None, self.layout(), f as nat) == variants_align_s(
                            vat.subrange(i as int, vat.len() as int),
                            match acc { Some(a) => Some(a as int), None => None::<int> }, self.layout(), f as nat),
                    decreases vs.len() - i,
                {
                    let ghost vrest = vat.subrange(i as int, vat.len() as int);
                    assert(vrest.drop_first() =~= vat.subrange(i + 1, vat.len() as int));
                    let ghost ts = vat[i as int];
                    assert(vrest[0] == ts);
                    let args = &vs[i].args;
                    let mut j: usize = 0;
                    let ghost acc0 = match acc { Some(a) => Some(a as int), None => None::<int> };
                    assert(ts.subrange(0, ts.len() as int) =~= ts);
                    while j < args.len()
                        invariant
                            j <= args@.len(),
                            ts.len() == args@.len(),
                            args@ == vs@[i as int].args@,
                            i < vs@.len(),
                            forall|m2: int| 0 <= m2 < ts.len() ==> ts[m2] == type_v(#[trigger] args@[m2].ty),
                            max_align_s(ts, acc0, self.layout(), f as nat) == max_align_s(ts.subrange(j as int, ts.len() as int),
                                match acc { Some(a) => Some(a as int), None => None::<int> }, self.layout(), f as nat),
                        decreases args.len() - j,
                    {
                        let ghost trest = ts.subrange(j as int, ts.len() as int);
                        assert(trest.drop_first() =~= ts.subrange(j + 1, ts.len() as int));
                        assert(trest[0] == ts[j as int]);
                        let b = match self.field_alignment_fuel(&args[j].ty, f) {
                            None => {
                                proof {
                                    assert(max_align_s(ts, acc0, self.layout(), f as nat) is None);
                                }
                                return None;
                            },
                            Some(b) => b,
                        };
                        acc = Some(match acc {
                            Some(a) => if b > a { b } else { a },
                            None => b,
                        });
                        j = j + 1;
                    }
                    assert(ts.subrange(j as int, ts.len() as int) =~= Seq::<TypeV>::empty());
                    i = i + 1;
                }
                assert(vat.subrange(i as int, vat.len() as int) =~= Seq::<Seq<TypeV>>::empty());
                match acc {
                    Some(a) => Some(if a > 8 { a } else { 8 }),
                    None => Some(8),
                }
            },
            _ => self.type_size_fuel(ty, fuel),
        }
    }

    /// The steps through structs, enums and generic bindings used for
    /// alignments (at most `usize::MAX`).
    pub open spec fn align_fuel(&self) -> nat {
        let f = self.structs@.len() + self.enums@.len() + self.generics@.len();
        if f > usize::MAX { usize::MAX as nat } else { f as nat }
    }

    pub(crate) fn align_fuel_bound(&self) -> (r: usize)
        ensures
            r as nat == self.align_fuel(),
    {
        let a = self.structs.len();
        let b = self.enums.len();
        let c = self.generics.len();
        if a > usize::MAX - b {
            usize::MAX
        } else if a + b > usize::MAX - c {
            usize::MAX
        } else {
            a + b + c
        }
    }

    /// The alignment of a value of type `ty` (see `align_s`).
    pub fn field_alignment(&self, ty: &Type) -> (r: usize)
        requires
            align_s(ty@, self.layout(), self.align_fuel()) is Some,
        ensures
            align_s(ty@, self.layout(), self.align_fuel()) == Some(r as int),
    {
        let f = self.align_fuel_bound();
        match self.field_alignment_fuel(ty, f) {
            Some(a) => a,
            None => 1,
        }
    }

    /// The size of a struct with the given fields (see `struct_size_s`).
    pub fn compute_struct_size(&self, fields: &Vec<StructField>) -> (r: usize)
        requires
            struct_size_s(field_types(fields@), self.layout(), self.align_fuel()) is Some,
        ensures
            struct_size_s(field_types(fields@), self.layout(), self.align_fuel()) == Some(r as int),
    {
        let ghost ts = field_types(fields@);
        let f = self.align_fuel_bound();
        let mut offset: usize = 0;
        let mut max_align: usize = 1;
        let mut i: usize = 0;
        assert(ts.take(0) =~= Seq::<TypeV>::empty());
        assert(ts.take(ts.len() as int) =~= ts);
        proof { lemma_layout_prefix(ts, self.layout(), f as nat, ts.len() as int); }
        while i < fields.len()
            invariant
                i <= fields@.len(),
                ts == field_types(fields@),
                ts.len() == fields@.len(),
                f as nat == self.align_fuel(),
                layout_s(ts, self.layout(), f as nat) is Some,
                forall|k: int| 0 <= k <= ts.len() ==> #[trigger] layout_s(ts.take(k), self.layout(), f as nat) is Some,
                layout_s(ts.take(i as int), self.layout(), f as nat) == Some((offset as int, max_align as int)),
            decreases fields.len() - i,
        {
            assert(ts.take(i + 1).drop_last() =~= ts.take(i as int));
            assert(ts.take(i + 1).last() == ts[i as int]);
            assert(layout_s(ts.take(i + 1), self.layout(), f as nat) is Some);
            let align = match self.field_alignment_fuel(&fields[i].ty, f) { Some(a) => a, None => return 0 };
            let size = match self.type_size_fuel(&fields[i].ty, f) { Some(n) => n, None => return 0 };
            let x = offset + align - 1;
            offset = x & !(align - 1);
            offset = offset + size;
            if align > max_align {
                max_align = align;
            }
            i = i + 1;
        }
        assert(ts.take(i as int) =~= ts);
        let x = offset + max_align - 1;
        x & !(max_align - 1)
    }

    /// Records the layout of a declared struct: its fields by name and its
    /// size; a layout of the same name is replaced.
    pub fn gen_init_struct(&mut self, data: &StructDef)
        requires
            struct_size_s(field_types(data.fields@), old(self).layout(), old(self).align_fuel()) is Some,
        ensures
            final(self).structs@ == struct_data_insert(old(self).structs@, final(self).structs@[
                first_index(data_names(final(self).structs@), data.name@).unwrap()]),
            struct_of(final(self).structs@, data.name@) matches Some(sd)
                && field_map_entries(sd.elements) == entries_from(fields_v(data.fields@))
                && strs_v(sd.generic_type@) == strs_v(data.generic_type@)
                && sd.size == struct_size_s(field_types(data.fields@), old(self).layout(), old(self).align_fuel()).unwrap(),
            forall|n: Seq<char>| n != data.name@ ==> struct_of(final(self).structs@, n) == struct_of(old(self).structs@, n),
            final(self).enums == old(self).enums,
            final(self).generics == old(self).generics,
            final(self).out == old(self).out,
            final(self).func_data == old(self).func_data,
    {
        let size = self.compute_struct_size(&data.fields);
        let sd = StructData::from_def(data, size);
        let ghost sdv = sd;
        let ghost old_ss = self.structs@;
        match self.find_struct_data(&data.name) {
            Some(k) => {
                proof { lemma_struct_of_index(old_ss, data.name@); lemma_first_index(data_names(old_ss), data.name@); }
                self.structs.set(k, sd);
            },
            None => {
                proof { lemma_struct_of_index(old_ss, data.name@); }
                self.structs.push(sd);
            },
        }
        proof {
            assert(self.structs@ == struct_data_insert(old_ss, sdv));
            lemma_struct_data_insert(old_ss, sdv, data.name@);
            assert forall|n: Seq<char>| n != data.name@ implies struct_of(self.structs@, n) == struct_of(old_ss, n) by {
                lemma_struct_data_insert(old_ss, sdv, n);
            }
            lemma_struct_of_index(self.structs@, data.name@);
        }
    }

    /// The size keyword of a memory operand of type `ty` (see `word_s`).
    pub fn get_word(&self, ty: &Type) -> (r: String)
        requires
            resolve_s(ty@, entries_v(self.generics@), self.generics@.len() as nat) matches Some(t) && word_s(t) is Some,
        ensures
            resolve_s(ty@, entries_v(self.generics@), self.generics@.len() as nat) matches Some(t)
                && word_s(t) == Some(r@),
    {
        let ty = self.follow_generic(ty);
        match &ty {
            Type::Primitive(token) => {
                let k = *token;
                if k == TokenType::I8 || k == TokenType::U8 {
                    from_lit("BYTE")
                } else if k == TokenType::I16 || k == TokenType::U16 {
                    from_lit("WORD")
                } else if k == TokenType::I32 || k == TokenType::U32 {
                    from_lit("DWORD")
                } else {
                    from_lit("QWORD")
                }
            },
            _ => from_lit("QWORD"),
        }
    }
}

/// The part of register `base` that holds `size` bytes (see `reg_part_s`).
fn reg_part(base: &str, size: usize) -> (r: Option<String>)
    ensures
        match reg_part_s(base@, size as int) {
            Some(x) => r is Some && r.unwrap()@ == x,
            None => r is None,
        },
{
    let c = chars_of(base);
    let names: Option<(&str, &str, &str, &str)> = if is_lit(&c, "rax") {
        Some(("rax", "eax", "ax", "al"))
    } else if is_lit(&c, "rbx") {
        Some(("rbx", "ebx", "bx", "bl"))
    } else if is_lit(&c, "rcx") {
        Some(("rcx", "ecx", "cx", "cl"))
    } else if is_lit(&c, "rdx") {
        Some(("rdx", "edx", "dx", "dl"))
    } else if is_lit(&c, "rsi") {
        Some(("rsi", "esi", "si", "sil"))
    } else if is_lit(&c, "rdi") {
        Some(("rdi", "edi", "di", "dil"))
    } else {
        None
    };
    match names {
        Some((q, d, w, b)) => {
            if size == 8 {
                Some(from_lit(q))
            } else if size == 4 {
                Some(from_lit(d))
            } else if size == 2 {
                Some(from_lit(w))
            } else if size == 1 {
                Some(from_lit(b))
            } else {
                None
            }
        },
        None => {
            if size == 8 {
                return Some(from_lit(base));
            }
            if c.len() == 0 || c[0] != 'r' {
                return None;
            }
            let suffix = if size == 4 { "d" } else if size == 2 { "w" } else if size == 1 { "b" } else { return None; };
            let mut s = from_lit(base);
            push_str(&mut s, suffix);
            Some(s)
        },
    }
}


/// `    op a, b` without the line end.
pub(crate) fn ins2_text(op: &str, a: &str, b: &str) -> (r: String)
    ensures
        line(r@) == ins2(op@, a@, b@),
{
    let mut s = from_lit("    ");
    push_str(&mut s, op);
    push_str(&mut s, " ");
    push_str(&mut s, a);
    push_str(&mut s, ", ");
    push_str(&mut s, b);
    s
}

/// `    op a` without the line end.
pub(crate) fn ins1_text(op: &str, a: &str) -> (r: String)
    ensures
        line(r@) == ins1(op@, a@),
{
    let mut s = from_lit("    ");
    push_str(&mut s, op);
    push_str(&mut s, " ");
    push_str(&mut s, a);
    s
}


/// Every prefix of a block whose lines can all be written can be written.
proof fn lemma_asm_text_prefix(lines: Seq<Seq<char>>, sc: Seq<Seq<(String, VarData)>>, gl: Seq<(String, VarData)>, n: int)
    requires
        0 <= n <= lines.len(),
        asm_text_s(lines.take(n), sc, gl) is Some,
    ensures
        forall|k: int| 0 <= k <= n ==> #[trigger] asm_text_s(lines.take(k), sc, gl) is Some,
    decreases n,
{
    if n > 0 {
        assert(lines.take(n).drop_last() =~= lines.take(n - 1));
        lemma_asm_text_prefix(lines, sc, gl, n - 1);
    }
}

/// The decimal text of an integer, with `-` before a negative one.
pub open spec fn int_text(n: int) -> Seq<char> {
    if n < 0 { "-"@ + decimal((-n) as nat) } else { decimal(n as nat) }
}

/// The decimal text of an `i64`.
pub(crate) fn int_string(n: i64) -> (r: String)
    ensures
        r@ == int_text(n as int),
{
    let mut s = String::new();
    if n < 0 {
        push_str(&mut s, "-");
        let m: u64 = if n == i64::MIN { 0x8000_0000_0000_0000u64 } else { (-n) as u64 };
        push_decimal(&mut s, m);
    } else {
        push_decimal(&mut s, n as u64);
    }
    s
}


/// The types of a list of fields.
pub open spec fn field_types(fs: Seq<StructField>) -> Seq<TypeV> {
    Seq::new(fs.len(), |i: int| type_v(fs[i].ty))
}

pub(crate) proof fn lemma_layout_prefix(ts: Seq<TypeV>, l: Layout, fuel: nat, n: int)
    requires
        0 <= n <= ts.len(),
        layout_s(ts.take(n), l, fuel) is Some,
    ensures
        forall|k: int| 0 <= k <= n ==> #[trigger] layout_s(ts.take(k), l, fuel) is Some,
    decreases n,
{
    if n > 0 {
        assert(ts.take(n).drop_last() =~= ts.take(n - 1));
        lemma_layout_prefix(ts, l, fuel, n - 1);
    }
}

} // verus!
