use vstd::prelude::*;
use crate::ir::{LValue, LValueV, Type, TypeV, type_v, types_v, lemma_types_v, BinOp, SemanticError, Error, type_eq};
use crate::shared::{numeric_rank_s, is_int_token, same_signedness_s, coerce_numeric_s, is_numeric, is_number, same_signedness, coerce_numeric, first_index, lemma_first_index, substitute_s, substitute_all_s, lemma_substitute_all};
use crate::tokenizer::TokenType;
use crate::codegen::{StructData, field_map_entries, entry_keys};

verus! {

// ---------------------------------------------------------------------------
// Typing rules of operators
// ---------------------------------------------------------------------------

/// A sized integer primitive.
pub open spec fn number_s(t: TypeV) -> bool {
    t matches TypeV::Primitive(k) && is_int_token(k)
}

/// A type with a numeric rank.
pub open spec fn numeric_s(t: TypeV) -> bool {
    numeric_rank_s(t) is Some
}

/// The type of `l op r`, or `None` when the operator does not apply to the
/// operand types.
///
/// Arithmetic takes two integers of the same signedness and gives the
/// wider one (`+ - * /` also take a pointer and an integer and give the
/// pointer); comparisons and logic give `i32`; shifts give the left type.
pub open spec fn binary_type_s(op: BinOp, l: TypeV, r: TypeV) -> Option<TypeV> {
    let i32_ty = TypeV::Primitive(TokenType::I32);
    match op {
        BinOp::Add | BinOp::Sub | BinOp::Mul | BinOp::Div => {
            if l is Pointer && number_s(r) {
                Some(l)
            } else if r is Pointer && number_s(l) {
                Some(r)
            } else if !number_s(l) || !number_s(r) || !same_signedness_s(l, r) {
                None
            } else {
                Some(coerce_numeric_s(l, r))
            }
        },
        BinOp::Mod | BinOp::BitAnd | BinOp::BitOr | BinOp::BitXor => {
            if !number_s(l) || !number_s(r) || !same_signedness_s(l, r) {
                None
            } else {
                Some(coerce_numeric_s(l, r))
            }
        },
        BinOp::Lt | BinOp::Lte | BinOp::Gt | BinOp::Gte | BinOp::And | BinOp::Or => {
            if !numeric_s(l) || !numeric_s(r) || !same_signedness_s(l, r) {
                None
            } else {
                Some(i32_ty)
            }
        },
        BinOp::Eq | BinOp::Neq => {
            let compatible = (numeric_s(l) && numeric_s(r)) || l == r || (l is Pointer && r is Pointer);
            if !compatible || (numeric_s(l) && numeric_s(r) && !same_signedness_s(l, r)) {
                None
            } else {
                Some(i32_ty)
            }
        },
        BinOp::ShiftLeft | BinOp::ShiftRight => {
            if !number_s(l) || !number_s(r) || !same_signedness_s(l, r) {
                None
            } else {
                Some(l)
            }
        },
    }
}

/// The last entry named `name` (a later entry overrides an earlier one).
pub open spec fn last_entry(es: Seq<(Seq<char>, TypeV)>, name: Seq<char>) -> Option<TypeV>
    decreases es.len(),
{
    if es.len() == 0 {
        None
    } else if es.last().0 == name {
        Some(es.last().1)
    } else {
        last_entry(es.drop_last(), name)
    }
}

/// Replaces each generic parameter by its entry in `map` (where it has one),
/// inside pointers, arrays and generic instances.
pub open spec fn generic_to_ty_s(t: TypeV, map: Seq<(Seq<char>, TypeV)>) -> TypeV
    decreases t,
{
    match t {
        TypeV::GenericType(name) => match last_entry(map, name) {
            Some(x) => x,
            None => t,
        },
        TypeV::Array(inner, n) => TypeV::Array(Box::new(generic_to_ty_s(*inner, map)), n),
        TypeV::Pointer(inner) => TypeV::Pointer(Box::new(generic_to_ty_s(*inner, map))),
        TypeV::GenericInst(name, args) => TypeV::GenericInst(name, generic_to_tys_s(args, map)),
        _ => t,
    }
}

pub open spec fn generic_to_tys_s(ts: Seq<TypeV>, map: Seq<(Seq<char>, TypeV)>) -> Seq<TypeV>
    decreases ts,
{
    if ts.len() == 0 {
        Seq::empty()
    } else {
        generic_to_tys_s(ts.drop_last(), map).push(generic_to_ty_s(ts.last(), map))
    }
}

pub proof fn lemma_generic_to_tys(ts: Seq<TypeV>, map: Seq<(Seq<char>, TypeV)>)
    ensures
        generic_to_tys_s(ts, map).len() == ts.len(),
        forall|i: int| 0 <= i < ts.len() ==> #[trigger] generic_to_tys_s(ts, map)[i] == generic_to_ty_s(ts[i], map),
    decreases ts.len(),
{
    if ts.len() > 0 {
        lemma_generic_to_tys(ts.drop_last(), map);
    }
}

/// A list of named types by value.
pub open spec fn entries_v(es: Seq<(String, Type)>) -> Seq<(Seq<char>, TypeV)> {
    Seq::new(es.len(), |i: int| (es[i].0@, type_v(es[i].1)))
}

/// The scopes by value, outermost first.
pub open spec fn scopes_v(ss: Seq<Vec<(String, Type)>>) -> Seq<Seq<(Seq<char>, TypeV)>> {
    Seq::new(ss.len(), |i: int| entries_v(ss[i]@))
}

/// The names of a scope's entries.
pub open spec fn entry_names(es: Seq<(Seq<char>, TypeV)>) -> Seq<Seq<char>> {
    es.map_values(|e: (Seq<char>, TypeV)| e.0)
}

/// The type recorded under `name` in the first scope that has it (scopes are
/// searched outermost first), else in the global variables.
pub open spec fn lookup_s(scopes: Seq<Seq<(Seq<char>, TypeV)>>, globals: Seq<(Seq<char>, TypeV)>, name: Seq<char>) -> Option<TypeV>
    decreases scopes.len(),
{
    if scopes.len() == 0 {
        match first_index(entry_names(globals), name) {
            Some(i) => Some(globals[i].1),
            None => None,
        }
    } else {
        match first_index(entry_names(scopes[0]), name) {
            Some(i) => Some(scopes[0][i].1),
            None => lookup_s(scopes.drop_first(), globals, name),
        }
    }
}

/// A scope after recording `name` with type `t`: an entry of that name is
/// replaced in place, else the entry is added at the end.
pub open spec fn scope_insert(es: Seq<(Seq<char>, TypeV)>, name: Seq<char>, t: TypeV) -> Seq<(Seq<char>, TypeV)> {
    match first_index(entry_names(es), name) {
        Some(i) => es.update(i, (name, t)),
        None => es.push((name, t)),
    }
}

// ---------------------------------------------------------------------------
// Laws of the typing rules and of scopes
// ---------------------------------------------------------------------------

/// Every operator but the shifts types its operands symmetrically: swapping
/// the operands gives the same result type, or fails in both orders.
pub proof fn lemma_binary_type_symmetric(op: BinOp, l: TypeV, r: TypeV)
    requires
        op != BinOp::ShiftLeft,
        op != BinOp::ShiftRight,
    ensures
        binary_type_s(op, l, r) == binary_type_s(op, r, l),
{
    crate::shared::lemma_same_signedness_symmetric(l, r);
    if number_s(l) && number_s(r) && same_signedness_s(l, r) {
        crate::shared::lemma_coerce_numeric_commutes(l, r);
    }
}

/// Comparisons and logical operators always give `i32` when they apply.
pub proof fn lemma_comparison_type(op: BinOp, l: TypeV, r: TypeV)
    requires
        op == BinOp::Eq || op == BinOp::Neq || op == BinOp::Lt || op == BinOp::Lte || op == BinOp::Gt
            || op == BinOp::Gte || op == BinOp::And || op == BinOp::Or,
    ensures
        binary_type_s(op, l, r) is Some ==> binary_type_s(op, l, r) == Some(TypeV::Primitive(TokenType::I32)),
{
}

/// Arithmetic on two integers of the same signedness gives one of the two
/// operand types.
pub proof fn lemma_arithmetic_type_operand(op: BinOp, l: TypeV, r: TypeV)
    requires
        op == BinOp::Add || op == BinOp::Sub || op == BinOp::Mul || op == BinOp::Div || op == BinOp::Mod
            || op == BinOp::BitAnd || op == BinOp::BitOr || op == BinOp::BitXor,
        binary_type_s(op, l, r) is Some,
    ensures
        binary_type_s(op, l, r) == Some(l) || binary_type_s(op, l, r) == Some(r),
{
    crate::shared::lemma_coerce_numeric_operand(l, r);
}

/// After a scope records `name`, its lookup there gives the recorded type.
proof fn lemma_scope_insert_finds(es: Seq<(Seq<char>, TypeV)>, name: Seq<char>, t: TypeV)
    ensures
        first_index(entry_names(scope_insert(es, name, t)), name) matches Some(i)
            && scope_insert(es, name, t)[i].1 == t,
{
    let names = entry_names(es);
    lemma_first_index(names, name);
    let es2 = scope_insert(es, name, t);
    let names2 = entry_names(es2);
    match first_index(names, name) {
        Some(i) => {
            assert(names2 =~= names.update(i, name));
            lemma_first_index(names2, name);
            assert(forall|j: int| 0 <= j < i ==> names2[j] == names[j]);
            assert(names2[i] == name);
            assert(first_index(names2, name) == Some(i));
        },
        None => {
            assert(names2 =~= names.push(name));
            lemma_first_index(names2, name);
            assert(forall|j: int| 0 <= j < names.len() ==> names2[j] == names[j]);
            assert(names2[names.len() as int] == name);
            assert(first_index(names2, name) == Some(names.len() as int));
        },
    }
}

/// A variable that is declared nowhere is found, after `add_var`, with the
/// type it was given (read after write).
pub proof fn lemma_lookup_after_add(scopes: Seq<Seq<(Seq<char>, TypeV)>>, globals: Seq<(Seq<char>, TypeV)>, name: Seq<char>, t: TypeV)
    requires
        scopes.len() > 0,
        lookup_s(scopes, globals, name) is None,
    ensures
        lookup_s(scopes.update(scopes.len() - 1, scope_insert(scopes.last(), name, t)), globals, name) == Some(t),
    decreases scopes.len(),
{
    let s2 = scopes.update(scopes.len() - 1, scope_insert(scopes.last(), name, t));
    if scopes.len() == 1 {
        lemma_scope_insert_finds(scopes.last(), name, t);
        assert(s2[0] == scope_insert(scopes.last(), name, t));
    } else {
        lemma_first_index(entry_names(scopes[0]), name);
        assert(s2[0] == scopes[0]);
        assert(s2.drop_first() =~= scopes.drop_first().update(scopes.len() - 2, scope_insert(scopes.drop_first().last(), name, t)));
        lemma_lookup_after_add(scopes.drop_first(), globals, name, t);
    }
}

/// Closing a scope undoes opening one.
pub proof fn lemma_pop_after_push(scopes: Seq<Seq<(Seq<char>, TypeV)>>)
    ensures
        scopes.push(Seq::empty()).drop_last() == scopes,
{
    assert(scopes.push(Seq::empty()).drop_last() =~= scopes);
}

/// With no generic bindings, resolving generic parameters changes nothing.
pub proof fn lemma_generic_to_ty_empty(t: TypeV)
    ensures
        generic_to_ty_s(t, Seq::empty()) == t,
    decreases t,
{
    match t {
        TypeV::Array(inner, _) => lemma_generic_to_ty_empty(*inner),
        TypeV::Pointer(inner) => lemma_generic_to_ty_empty(*inner),
        TypeV::GenericInst(name, args) => {
            lemma_generic_to_tys(args, Seq::empty());
            assert forall|i: int| 0 <= i < args.len() implies generic_to_tys_s(args, Seq::empty())[i] == args[i] by {
                assert(decreases_to!(t => args));
                assert(decreases_to!(args => args[i]));
                lemma_generic_to_ty_empty(args[i]);
            }
            assert(generic_to_tys_s(args, Seq::empty()) =~= args);
        },
        _ => {},
    }
}

/// Where `last_entry` finds a name: at an entry of that name after which no
/// entry has it; nowhere when no entry has it.
pub proof fn lemma_last_entry(es: Seq<(Seq<char>, TypeV)>, name: Seq<char>)
    ensures
        last_entry(es, name) matches Some(x) ==> exists|i: int| 0 <= i < es.len() && #[trigger] es[i].0 == name && es[i].1 == x,
        last_entry(es, name) is None ==> forall|i: int| 0 <= i < es.len() ==> #[trigger] es[i].0 != name,
    decreases es.len(),
{
    if es.len() > 0 {
        lemma_last_entry(es.drop_last(), name);
        if es.last().0 != name {
            if let Some(x) = last_entry(es, name) {
                let i = choose|i: int| 0 <= i < es.drop_last().len() && #[trigger] es.drop_last()[i].0 == name
                    && es.drop_last()[i].1 == x;
                assert(es[i] == es.drop_last()[i]);
            } else {
                assert forall|i: int| 0 <= i < es.len() implies #[trigger] es[i].0 != name by {
                    if i < es.len() - 1 {
                        assert(es[i] == es.drop_last()[i]);
                    }
                }
            }
        } else {
            assert(es[es.len() - 1].0 == name);
        }
    }
}

/// The bindings that pair each generic parameter with the argument at the
/// same position.
pub open spec fn is_zip_of(map: Seq<(Seq<char>, TypeV)>, params: Seq<Seq<char>>, args: Seq<TypeV>) -> bool {
    &&& map.len() == params.len()
    &&& params.len() == args.len()
    &&& forall|i: int| 0 <= i < map.len() ==> #[trigger] map[i] == (params[i], args[i])
}

/// Looking a name up in the bindings of distinct parameters to their
/// arguments finds the argument at the parameter's position.
proof fn lemma_last_entry_zip(map: Seq<(Seq<char>, TypeV)>, params: Seq<Seq<char>>, args: Seq<TypeV>, name: Seq<char>)
    requires
        is_zip_of(map, params, args),
        params.no_duplicates(),
    ensures
        last_entry(map, name) == (match first_index(params, name) {
            Some(p) => Some(args[p]),
            None => None,
        }),
{
    lemma_last_entry(map, name);
    lemma_first_index(params, name);
    match first_index(params, name) {
        Some(p) => {
            assert(map[p].0 == name);
            if let Some(x) = last_entry(map, name) {
                let i = choose|i: int| 0 <= i < map.len() && #[trigger] map[i].0 == name && map[i].1 == x;
                assert(params[i] == name);
            }
        },
        None => {
            if let Some(x) = last_entry(map, name) {
                let i = choose|i: int| 0 <= i < map.len() && #[trigger] map[i].0 == name && map[i].1 == x;
                assert(params[i] == name);
            }
        },
    }
}

/// Resolving generic parameters through the bindings of distinct parameters
/// to their arguments, position by position, is substituting the arguments
/// for the parameters.
pub proof fn lemma_generic_to_ty_is_substitution(t: TypeV, map: Seq<(Seq<char>, TypeV)>, params: Seq<Seq<char>>, args: Seq<TypeV>)
    requires
        is_zip_of(map, params, args),
        params.no_duplicates(),
    ensures
        generic_to_ty_s(t, map) == substitute_s(t, params, args),
    decreases t,
{
    match t {
        TypeV::GenericType(n) => lemma_last_entry_zip(map, params, args, n),
        TypeV::Array(inner, _) => lemma_generic_to_ty_is_substitution(*inner, map, params, args),
        TypeV::Pointer(inner) => lemma_generic_to_ty_is_substitution(*inner, map, params, args),
        TypeV::GenericInst(_, ts) => {
            lemma_generic_to_tys(ts, map);
            lemma_substitute_all(ts, params, args, 0);
            assert forall|i: int| 0 <= i < ts.len() implies generic_to_tys_s(ts, map)[i] == substitute_all_s(ts, params, args)[i] by {
                assert(decreases_to!(t => ts));
                assert(decreases_to!(ts => ts[i]));
                lemma_generic_to_ty_is_substitution(ts[i], map, params, args);
            }
            assert(generic_to_tys_s(ts, map) =~= substitute_all_s(ts, params, args));
        },
        _ => {},
    }
}

/// The first struct layout named `name`.
pub open spec fn struct_of(ss: Seq<StructData>, name: Seq<char>) -> Option<StructData>
    decreases ss.len(),
{
    if ss.len() == 0 {
        None
    } else if ss[0].name@ == name {
        Some(ss[0])
    } else {
        struct_of(ss.drop_first(), name)
    }
}

/// The type of field `name` of a struct, looked up through pointers;
/// `Unknown` where there is no such struct or field.
pub open spec fn field_ty_s(t: TypeV, ss: Seq<StructData>, name: Seq<char>) -> TypeV
    decreases t,
{
    match t {
        TypeV::Pointer(inner) => field_ty_s(*inner, ss, name),
        TypeV::Struct(sn) => match struct_of(ss, sn) {
            Some(sd) => match first_index(entry_keys(field_map_entries(sd.elements)), name) {
                Some(i) => field_map_entries(sd.elements)[i].1.ty,
                None => TypeV::Unknown,
            },
            None => TypeV::Unknown,
        },
        _ => TypeV::Unknown,
    }
}

/// The type of an assignment target; `Unknown` where it has none.
pub open spec fn lvalue_type_s(
    l: LValueV,
    scopes: Seq<Seq<(Seq<char>, TypeV)>>,
    globals: Seq<(Seq<char>, TypeV)>,
    ss: Seq<StructData>,
) -> TypeV
    decreases l,
{
    match l {
        LValueV::Variable(n) => match lookup_s(scopes, globals, n) {
            Some(t) => t,
            None => TypeV::Unknown,
        },
        LValueV::Deref(inner) => match lvalue_type_s(*inner, scopes, globals, ss) {
            TypeV::Pointer(t) => *t,
            _ => TypeV::Unknown,
        },
        LValueV::Field { base, name } => field_ty_s(lvalue_type_s(*base, scopes, globals, ss), ss, name),
        LValueV::Index { base, .. } => match lvalue_type_s(*base, scopes, globals, ss) {
            TypeV::Array(e, _) => *e,
            TypeV::Pointer(e) => *e,
            _ => TypeV::Unknown,
        },
    }
}

// ---------------------------------------------------------------------------
// The analyzer's state
// ---------------------------------------------------------------------------

/// The state of the semantic analysis: variables in scope, the generic
/// parameters bound so far, the errors found, and the position of the
/// statement being checked.
pub struct Analyzer {
    pub scopes: Vec<Vec<(String, Type)>>,
    pub structs: Vec<StructData>,
    pub global_vars: Vec<(String, Type)>,
    pub generics: Vec<(String, Type)>,
    pub errors: Vec<Error>,
    pub had_error: bool,
    pub current_ret_type: Type,
    pub line: usize,
    pub current_file: String,
    pub col: usize,
}

/// Copies a named type.
fn copy_entry(e: &(String, Type)) -> (r: (String, Type))
    ensures
        r.0@ == e.0@,
        r.1@ == e.1@,
{
    (e.0.clone(), e.1.duplicate())
}

/// The first index of `name` in a list of named types.
fn find_entry(es: &Vec<(String, Type)>, name: &String) -> (r: Option<usize>)
    ensures
        match first_index(entry_names(entries_v(es@)), name@) {
            Some(i) => r matches Some(k) && k == i,
            None => r is None,
        },
{
    let ghost names = entry_names(entries_v(es@));
    proof { lemma_first_index(names, name@); }
    let mut i: usize = 0;
    while i < es.len()
        invariant
            i <= es@.len(),
            names == entry_names(entries_v(es@)),
            names.len() == es@.len(),
            forall|j: int| 0 <= j < i ==> names[j] != name@,
            first_index(names, name@) matches Some(k) ==> 0 <= k < names.len() && names[k] == name@
                && forall|j: int| 0 <= j < k ==> names[j] != name@,
            first_index(names, name@) is None ==> forall|j: int| 0 <= j < names.len() ==> names[j] != name@,
        decreases es.len() - i,
    {
        assert(names[i as int] == es@[i as int].0@);
        if es[i].0.eq(name) {
            assert(first_index(names, name@) == Some(i as int));
            return Some(i);
        }
        i = i + 1;
    }
    None
}

/// The last entry named `name` in a list of named types.
pub(crate) fn find_last_entry(es: &Vec<(String, Type)>, name: &String) -> (r: Option<Type>)
    ensures
        match last_entry(entries_v(es@), name@) {
            Some(t) => r is Some && r.unwrap()@ == t,
            None => r is None,
        },
{
    let mut i: usize = es.len();
    assert(entries_v(es@).take(es@.len() as int) =~= entries_v(es@));
    while i > 0
        invariant
            i <= es@.len(),
            last_entry(entries_v(es@), name@) == last_entry(entries_v(es@).take(i as int), name@),
        decreases i,
    {
        let ghost pre = entries_v(es@).take(i as int);
        assert(pre.drop_last() =~= entries_v(es@).take(i - 1));
        if es[i - 1].0.eq(name) {
            return Some(es[i - 1].1.duplicate());
        }
        i = i - 1;
    }
    assert(entries_v(es@).take(0) =~= Seq::<(Seq<char>, TypeV)>::empty());
    None
}

impl Analyzer {
    /// An analyzer with one (global) scope and nothing declared.
    pub fn new() -> (r: Analyzer)
        ensures
            scopes_v(r.scopes@) == seq![Seq::<(Seq<char>, TypeV)>::empty()],
            entries_v(r.global_vars@) == Seq::<(Seq<char>, TypeV)>::empty(),
            entries_v(r.generics@) == Seq::<(Seq<char>, TypeV)>::empty(),
            r.errors@.len() == 0,
            !r.had_error,
            r.current_ret_type@ == TypeV::Unknown,
            r.line == 0,
            r.col == 0,
            r.current_file@ == Seq::<char>::empty(),
            r.structs@.len() == 0,
    {
        let mut scopes: Vec<Vec<(String, Type)>> = Vec::new();
        scopes.push(Vec::new());
        let r = Analyzer {
            scopes,
            structs: Vec::new(),
            global_vars: Vec::new(),
            generics: Vec::new(),
            errors: Vec::new(),
            had_error: false,
            current_ret_type: Type::Unknown,
            line: 0,
            current_file: String::new(),
            col: 0,
        };
        assert(scopes_v(r.scopes@) =~= seq![Seq::<(Seq<char>, TypeV)>::empty()]) by {
            assert(entries_v(r.scopes@[0]@) =~= Seq::<(Seq<char>, TypeV)>::empty());
        }
        assert(entries_v(r.global_vars@) =~= Seq::<(Seq<char>, TypeV)>::empty());
        assert(entries_v(r.generics@) =~= Seq::<(Seq<char>, TypeV)>::empty());
        r
    }

    /// An error of the given kind at the current position.
    pub fn type_to_error(&self, error_ty: SemanticError) -> (r: Error)
        ensures
            r.ty == error_ty,
            r.file@ == self.current_file@,
            r.line == self.line,
            r.col == self.col,
    {
        Error { ty: error_ty, file: self.current_file.clone(), line: self.line, col: self.col }
    }

    /// Records an error; the analysis has failed from then on.
    pub fn report_error(&mut self, err: Error)
        ensures
            final(self).errors@ == old(self).errors@.push(err),
            final(self).had_error,
            final(self).scopes == old(self).scopes,
            final(self).global_vars == old(self).global_vars,
            final(self).generics == old(self).generics,
            final(self).line == old(self).line,
            final(self).col == old(self).col,
            final(self).current_file == old(self).current_file,
    {
        self.errors.push(err);
        self.had_error = true;
    }

    /// The type of `l op r` (see `binary_type_s`), or the error that the
    /// operator does not apply to these types.
    pub fn check_binary_types(&mut self, op: &BinOp, l: Type, r: Type) -> (res: Result<Type, Error>)
        ensures
            *final(self) == *old(self),
            match binary_type_s(*op, l@, r@) {
                Some(t) => res matches Ok(x) && x@ == t,
                None => res matches Err(e) && (e.ty matches SemanticError::InvalidBinary { op: o, left, right }
                    && o == *op && left@ == l@ && right@ == r@)
                    && e.file@ == old(self).current_file@ && e.line == old(self).line && e.col == old(self).col,
            },
    {
        let ln = is_number(&l);
        let rn = is_number(&r);
        let lr = is_numeric(&l);
        let rr = is_numeric(&r);
        let same = same_signedness(&l, &r);
        let l_ptr = match &l { Type::Pointer(_) => true, _ => false };
        let r_ptr = match &r { Type::Pointer(_) => true, _ => false };
        let ok: Option<Type> = match op {
            BinOp::Add | BinOp::Sub | BinOp::Mul | BinOp::Div => {
                if l_ptr && rn {
                    Some(l.duplicate())
                } else if r_ptr && ln {
                    Some(r.duplicate())
                } else if !ln || !rn || !same {
                    None
                } else {
                    Some(coerce_numeric(&l, &r))
                }
            },
            BinOp::Mod | BinOp::BitAnd | BinOp::BitOr | BinOp::BitXor => {
                if !ln || !rn || !same {
                    None
                } else {
                    Some(coerce_numeric(&l, &r))
                }
            },
            BinOp::Lt | BinOp::Lte | BinOp::Gt | BinOp::Gte | BinOp::And | BinOp::Or => {
                if !lr || !rr || !same {
                    None
                } else {
                    Some(Type::Primitive(TokenType::I32))
                }
            },
            BinOp::Eq | BinOp::Neq => {
                let compatible = (lr && rr) || type_eq(&l, &r) || (l_ptr && r_ptr);
                if !compatible || (lr && rr && !same) {
                    None
                } else {
                    Some(Type::Primitive(TokenType::I32))
                }
            },
            BinOp::ShiftLeft | BinOp::ShiftRight => {
                if !ln || !rn || !same {
                    None
                } else {
                    Some(l.duplicate())
                }
            },
        };
        match ok {
            Some(t) => Ok(t),
            None => Err(self.type_to_error(SemanticError::InvalidBinary { op: *op, left: l, right: r })),
        }
    }

    /// The type of a variable (see `lookup_s`).
    pub fn lookup(&self, expected_name: &String) -> (r: Option<Type>)
        ensures
            match lookup_s(scopes_v(self.scopes@), entries_v(self.global_vars@), expected_name@) {
                Some(t) => r is Some && r.unwrap()@ == t,
                None => r is None,
            },
    {
        let ghost all = scopes_v(self.scopes@);
        let ghost gl = entries_v(self.global_vars@);
        let mut i: usize = 0;
        assert(all.subrange(0, all.len() as int) =~= all);
        while i < self.scopes.len()
            invariant
                i <= self.scopes@.len(),
                all == scopes_v(self.scopes@),
                gl == entries_v(self.global_vars@),
                lookup_s(all, gl, expected_name@) == lookup_s(all.subrange(i as int, all.len() as int), gl, expected_name@),
            decreases self.scopes.len() - i,
        {
            let ghost rest = all.subrange(i as int, all.len() as int);
            assert(rest.drop_first() =~= all.subrange(i + 1, all.len() as int));
            assert(rest[0] == entries_v(self.scopes@[i as int]@));
            match find_entry(&self.scopes[i], expected_name) {
                Some(k) => {
                    proof {
                        lemma_first_index(entry_names(rest[0]), expected_name@);
                        assert(first_index(entry_names(rest[0]), expected_name@) == Some(k as int));
                        assert(rest[0][k as int].1 == type_v(self.scopes@[i as int]@[k as int].1));
                    }
                    let t = self.scopes[i][k].1.duplicate();
                    return Some(t);
                },
                None => {},
            }
            i = i + 1;
        }
        assert(all.subrange(i as int, all.len() as int) =~= Seq::<Seq<(Seq<char>, TypeV)>>::empty());
        proof {
            assert(lookup_s(all.subrange(i as int, all.len() as int), gl, expected_name@)
                == lookup_s(Seq::<Seq<(Seq<char>, TypeV)>>::empty(), gl, expected_name@));
        }
        match find_entry(&self.global_vars, expected_name) {
            Some(k) => {
                proof {
                    lemma_first_index(entry_names(gl), expected_name@);
                    assert(gl[k as int].1 == type_v(self.global_vars@[k as int].1));
                }
                let t = self.global_vars[k].1.duplicate();
                Some(t)
            },
            None => None,
        }
    }

    /// Records a variable in the innermost scope (see `scope_insert`).
    pub fn add_var(&mut self, name: String, ty: Type)
        requires
            old(self).scopes@.len() > 0,
        ensures
            scopes_v(final(self).scopes@) == scopes_v(old(self).scopes@).update(
                old(self).scopes@.len() - 1,
                scope_insert(scopes_v(old(self).scopes@).last(), name@, ty@),
            ),
            final(self).global_vars == old(self).global_vars,
            final(self).generics == old(self).generics,
            final(self).errors == old(self).errors,
    {
        let last = self.scopes.len() - 1;
        let mut scope = self.scopes.remove(last);
        let ghost es = entries_v(scope@);
        assert(es == scopes_v(old(self).scopes@).last());
        assert(self.scopes@ =~= old(self).scopes@.take(last as int));
        match find_entry(&scope, &name) {
            Some(k) => {
                proof { lemma_first_index(entry_names(es), name@); }
                scope.set(k, (name, ty));
                assert(entries_v(scope@) =~= es.update(k as int, (name@, ty@)));
            },
            None => {
                scope.push((name, ty));
                assert(entries_v(scope@) =~= es.push((name@, ty@)));
            },
        }
        let ghost sv = entries_v(scope@);
        assert(sv == scope_insert(scopes_v(old(self).scopes@).last(), name@, ty@));
        self.scopes.push(scope);
        assert(scopes_v(self.scopes@) =~= scopes_v(old(self).scopes@).update(
            old(self).scopes@.len() - 1,
            scope_insert(scopes_v(old(self).scopes@).last(), name@, ty@),
        ));
    }

    /// Opens a new innermost scope.
    pub fn push_scope(&mut self)
        ensures
            scopes_v(final(self).scopes@) == scopes_v(old(self).scopes@).push(Seq::empty()),
            final(self).global_vars == old(self).global_vars,
            final(self).generics == old(self).generics,
            final(self).errors == old(self).errors,
    {
        self.scopes.push(Vec::new());
        assert(scopes_v(self.scopes@) =~= scopes_v(old(self).scopes@).push(Seq::empty())) by {
            assert(entries_v(self.scopes@.last()@) =~= Seq::<(Seq<char>, TypeV)>::empty());
        }
    }

    /// Closes the innermost scope.
    pub fn pop_scope(&mut self)
        requires
            old(self).scopes@.len() > 0,
        ensures
            scopes_v(final(self).scopes@) == scopes_v(old(self).scopes@).drop_last(),
            final(self).global_vars == old(self).global_vars,
            final(self).generics == old(self).generics,
            final(self).errors == old(self).errors,
    {
        self.scopes.pop();
        assert(scopes_v(self.scopes@) =~= scopes_v(old(self).scopes@).drop_last());
    }

    /// The generic parameters `generic_names` bound to `concrete_types` in
    /// order, each resolved through the analyzer's bindings (see
    /// `generic_to_ty`).
    pub fn build_generic_map(&self, generic_names: &Vec<String>, concrete_types: &Vec<Type>) -> (r: Vec<(String, Type)>)
        requires
            generic_names@.len() <= concrete_types@.len(),
        ensures
            r@.len() == generic_names@.len(),
            forall|i: int| 0 <= i < r@.len() ==> #[trigger] r@[i].0@ == generic_names@[i]@
                && r@[i].1@ == generic_to_ty_s(concrete_types@[i]@, entries_v(self.generics@)),
    {
        let mut out: Vec<(String, Type)> = Vec::new();
        let mut i: usize = 0;
        while i < generic_names.len()
            invariant
                i <= generic_names@.len(),
                generic_names@.len() <= concrete_types@.len(),
                out@.len() == i,
                forall|k: int| 0 <= k < i ==> #[trigger] out@[k].0@ == generic_names@[k]@
                    && out@[k].1@ == generic_to_ty_s(concrete_types@[k]@, entries_v(self.generics@)),
            decreases generic_names.len() - i,
        {
            let t = self.generic_to_ty(&concrete_types[i], &self.generics);
            out.push((generic_names[i].clone(), t));
            i = i + 1;
        }
        out
    }

    /// Resolves the generic parameters of `ty` through `type_map` (see
    /// `generic_to_ty_s`).
    #[verifier::loop_isolation(false)]
    pub fn generic_to_ty(&self, ty: &Type, type_map: &Vec<(String, Type)>) -> (r: Type)
        ensures
            r@ == generic_to_ty_s(ty@, entries_v(type_map@)),
        decreases ty,
    {
        match ty {
            Type::GenericType(name) => match find_last_entry(type_map, name) {
                Some(t) => t,
                None => ty.duplicate(),
            },
            Type::Array(inner, size) => Type::Array(Box::new(self.generic_to_ty(inner, type_map)), *size),
            Type::Pointer(inner) => Type::Pointer(Box::new(self.generic_to_ty(inner, type_map))),
            Type::GenericInst(name, args) => {
                let ghost m = entries_v(type_map@);
                let mut out: Vec<Type> = Vec::new();
                let mut i: usize = 0;
                proof { lemma_types_v(args@); }
                while i < args.len()
                    invariant
                        i <= args.len(),
                        types_v(args@).len() == args@.len(),
                        forall|j: int| 0 <= j < args@.len() ==> #[trigger] types_v(args@)[j] == type_v(args@[j]),
                        out@.len() == i,
                        forall|j: int| 0 <= j < i ==> #[trigger] type_v(out@[j]) == generic_to_ty_s(type_v(args@[j]), m),
                        m == entries_v(type_map@),
                    decreases args.len() - i,
                {
                    proof {
                        assert(decreases_to!(*ty => *args));
                        assert(decreases_to!(*args => args[i as int]));
                    }
                    out.push(self.generic_to_ty(&args[i], type_map));
                    i = i + 1;
                }
                proof {
                    lemma_types_v(out@);
                    lemma_generic_to_tys(types_v(args@), m);
                    assert(types_v(out@) =~= generic_to_tys_s(types_v(args@), m));
                }
                Type::GenericInst(name.clone(), out)
            },
            _ => ty.duplicate(),
        }
    }

    /// The first struct layout named `name`, by index.
    fn find_struct(&self, name: &String) -> (r: Option<usize>)
        ensures
            match struct_of(self.structs@, name@) {
                Some(sd) => r matches Some(k) && k < self.structs@.len() && self.structs@[k as int] == sd,
                None => r is None,
            },
    {
        let ghost ss = self.structs@;
        assert(ss.subrange(0, ss.len() as int) =~= ss);
        let mut i: usize = 0;
        while i < self.structs.len()
            invariant
                i <= ss.len(),
                ss == self.structs@,
                struct_of(ss, name@) == struct_of(ss.subrange(i as int, ss.len() as int), name@),
            decreases self.structs.len() - i,
        {
            assert(ss.subrange(i as int, ss.len() as int).drop_first() =~= ss.subrange(i + 1, ss.len() as int));
            if self.structs[i].name.eq(name) {
                return Some(i);
            }
            i = i + 1;
        }
        None
    }

    /// The type of field `name` of a struct (see `field_ty_s`).
    fn field_ty_match(&mut self, ty: &Type, name: &String) -> (r: Type)
        ensures
            *final(self) == *old(self),
            r@ == field_ty_s(ty@, old(self).structs@, name@),
        decreases ty,
    {
        match ty {
            Type::Pointer(p_ty) => self.field_ty_match(p_ty, name),
            Type::Struct(struct_name) => match self.find_struct(struct_name) {
                Some(k) => match self.structs[k].field(name) {
                    Some(f) => f.ty,
                    None => Type::Unknown,
                },
                None => Type::Unknown,
            },
            _ => Type::Unknown,
        }
    }

    /// The type of an assignment target (see `lvalue_type_s`).
    pub fn lvalue_type(&mut self, lvalue: &LValue) -> (r: Type)
        ensures
            *final(self) == *old(self),
            r@ == lvalue_type_s(lvalue@, scopes_v(old(self).scopes@), entries_v(old(self).global_vars@), old(self).structs@),
        decreases lvalue,
    {
        match lvalue {
            LValue::Variable(name) => match self.lookup(name) {
                Some(t) => t,
                None => Type::Unknown,
            },
            LValue::Deref(inner) => {
                let inner_ty = self.lvalue_type(inner);
                match inner_ty {
                    Type::Pointer(ty) => *ty,
                    _ => Type::Unknown,
                }
            },
            LValue::Field { base, name } => {
                let base_ty = self.lvalue_type(base);
                self.field_ty_match(&base_ty, name)
            },
            LValue::Index { base, .. } => {
                let base_ty = self.lvalue_type(base);
                match base_ty {
                    Type::Array(elem_ty, _) => *elem_ty,
                    Type::Pointer(elem_ty) => *elem_ty,
                    _ => Type::Unknown,
                }
            },
        }
    }

    /// The type of an integer literal where `expected_ty` is expected: the
    /// expected type when it is a primitive, else `i32`.
    pub fn check_num(&mut self, num: &i64, expected_ty: &Type) -> (r: Type)
        ensures
            *final(self) == *old(self),
            r@ == (match expected_ty@ {
                TypeV::Primitive(_) => expected_ty@,
                _ => TypeV::Primitive(TokenType::I32),
            }),
    {
        match expected_ty {
            Type::Primitive(_) => expected_ty.duplicate(),
            _ => Type::Primitive(TokenType::I32),
        }
    }

    /// The type of a variable; an undeclared one is reported and typed `i64`.
    pub fn check_var(&mut self, var: &String) -> (r: Type)
        ensures
            final(self).scopes == old(self).scopes,
            final(self).global_vars == old(self).global_vars,
            match lookup_s(scopes_v(old(self).scopes@), entries_v(old(self).global_vars@), var@) {
                Some(t) => r@ == t && final(self).errors == old(self).errors,
                None => r@ == TypeV::Primitive(TokenType::I64) && final(self).had_error
                    && final(self).errors@.len() == old(self).errors@.len() + 1
                    && (final(self).errors@.last().ty matches SemanticError::UndeclaredVariable(n) && n@ == var@),
            },
    {
        match self.lookup(var) {
            Some(t) => t,
            None => {
                let err = self.type_to_error(SemanticError::UndeclaredVariable(var.clone()));
                self.report_error(err);
                Type::Primitive(TokenType::I64)
            },
        }
    }
}


/// The four signed sized integer primitives.
pub open spec fn signed_int_kind(k: TokenType) -> bool {
    k == TokenType::I8 || k == TokenType::I16 || k == TokenType::I32 || k == TokenType::I64
}

/// The four unsigned sized integer primitives.
pub open spec fn unsigned_int_kind(k: TokenType) -> bool {
    k == TokenType::U8 || k == TokenType::U16 || k == TokenType::U32 || k == TokenType::U64
}

/// Two integers of the same signedness may be compared, whatever their
/// widths: `==`, `!=`, `<`, `<=`, `>` and `>=` on them are accepted and give
/// `i32` (e.g. `a == b` with an `i32` `a` and an `i64` `b`).
pub proof fn lemma_integer_comparison_is_accepted(op: BinOp, a: TokenType, b: TokenType)
    requires
        op == BinOp::Eq || op == BinOp::Neq || op == BinOp::Lt || op == BinOp::Lte
            || op == BinOp::Gt || op == BinOp::Gte,
        (signed_int_kind(a) && signed_int_kind(b)) || (unsigned_int_kind(a) && unsigned_int_kind(b)),
    ensures
        binary_type_s(op, TypeV::Primitive(a), TypeV::Primitive(b)) == Some(TypeV::Primitive(TokenType::I32)),
{
}

/// An integer compared with an integer of the other signedness is refused,
/// for every comparison and every pair of widths.
pub proof fn lemma_mixed_sign_comparison_is_refused(op: BinOp, a: TokenType, b: TokenType)
    requires
        op == BinOp::Eq || op == BinOp::Neq || op == BinOp::Lt || op == BinOp::Lte
            || op == BinOp::Gt || op == BinOp::Gte,
        signed_int_kind(a) && unsigned_int_kind(b),
    ensures
        binary_type_s(op, TypeV::Primitive(a), TypeV::Primitive(b)) is None,
        binary_type_s(op, TypeV::Primitive(b), TypeV::Primitive(a)) is None,
{
}

/// Two pointers, and two values of one and the same type, may be tested for
/// equality; the result is `i32`.
pub proof fn lemma_equality_of_like_operands(op: BinOp, l: TypeV, r: TypeV)
    requires
        op == BinOp::Eq || op == BinOp::Neq,
        l == r || (l is Pointer && r is Pointer),
    ensures
        binary_type_s(op, l, r) == Some(TypeV::Primitive(TokenType::I32)),
{
    if numeric_s(l) && numeric_s(r) {
        assert(same_signedness_s(l, r));
    }
}

} // verus!
