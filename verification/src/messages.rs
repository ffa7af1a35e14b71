use vstd::prelude::*;
use crate::ir::{Type, TypeV, BinOp, UnaryOp, SemanticError, Error};
use crate::text::{push_str, push_decimal, decimal};
use crate::tokenizer::{token_name, token_name_s};

verus! {

// ---------------------------------------------------------------------------
// Rendering of values in error messages
// ---------------------------------------------------------------------------

/// The text of `format!("{:?}", s)` for a string: the string quoted, with
/// std's escapes.
pub uninterp spec fn str_debug(s: Seq<char>) -> Seq<char>;

/// The `Debug` rendering of a string.
///
/// Trusted: formats with std's `Debug` for `str` (`{:?}`); the contract names
/// the result `str_debug` of the string, which depends on the string alone
/// (std quotes it and escapes quotes, backslashes and control characters;
/// those rules are not restated here).
#[verifier::external_body]
fn str_debug_text(s: &String) -> (r: String)
    ensures
        r@ == str_debug(s@),
{
    format!("{:?}", s)
}

/// Appends the `Debug` rendering of a string.
fn push_str_debug(out: &mut String, s: &String)
    ensures
        final(out)@ == old(out)@ + str_debug(s@),
{
    let t = str_debug_text(s);
    push_str(out, t.as_str());
}

/// The name of a binary operator as it is declared.
pub open spec fn binop_name_s(op: BinOp) -> Seq<char> {
    match op {
        BinOp::Add => "Add"@,
        BinOp::Sub => "Sub"@,
        BinOp::Mul => "Mul"@,
        BinOp::Div => "Div"@,
        BinOp::Mod => "Mod"@,
        BinOp::Eq => "Eq"@,
        BinOp::Neq => "Neq"@,
        BinOp::Lt => "Lt"@,
        BinOp::Lte => "Lte"@,
        BinOp::Gt => "Gt"@,
        BinOp::Gte => "Gte"@,
        BinOp::And => "And"@,
        BinOp::Or => "Or"@,
        BinOp::BitAnd => "BitAnd"@,
        BinOp::BitOr => "BitOr"@,
        BinOp::BitXor => "BitXor"@,
        BinOp::ShiftLeft => "ShiftLeft"@,
        BinOp::ShiftRight => "ShiftRight"@,
    }
}

pub fn binop_name(op: BinOp) -> (r: &'static str)
    ensures
        r@ == binop_name_s(op),
{
    match op {
        BinOp::Add => "Add",
        BinOp::Sub => "Sub",
        BinOp::Mul => "Mul",
        BinOp::Div => "Div",
        BinOp::Mod => "Mod",
        BinOp::Eq => "Eq",
        BinOp::Neq => "Neq",
        BinOp::Lt => "Lt",
        BinOp::Lte => "Lte",
        BinOp::Gt => "Gt",
        BinOp::Gte => "Gte",
        BinOp::And => "And",
        BinOp::Or => "Or",
        BinOp::BitAnd => "BitAnd",
        BinOp::BitOr => "BitOr",
        BinOp::BitXor => "BitXor",
        BinOp::ShiftLeft => "ShiftLeft",
        BinOp::ShiftRight => "ShiftRight",
    }
}

/// The name of a unary operator as it is declared.
pub open spec fn unary_name_s(op: UnaryOp) -> Seq<char> {
    match op {
        UnaryOp::Neg => "Neg"@,
        UnaryOp::Not => "Not"@,
        UnaryOp::GetAddr => "GetAddr"@,
        UnaryOp::BitNot => "BitNot"@,
    }
}

pub fn unary_name(op: UnaryOp) -> (r: &'static str)
    ensures
        r@ == unary_name_s(op),
{
    match op {
        UnaryOp::Neg => "Neg",
        UnaryOp::Not => "Not",
        UnaryOp::GetAddr => "GetAddr",
        UnaryOp::BitNot => "BitNot",
    }
}

/// The `Debug` rendering of a type: its variant name with its fields in
/// brackets, strings quoted, lists in square brackets.
pub open spec fn type_debug_s(t: TypeV) -> Seq<char>
    decreases t,
{
    match t {
        TypeV::Primitive(k) => "Primitive("@ + token_name_s(k) + ")"@,
        TypeV::Pointer(inner) => "Pointer("@ + type_debug_s(*inner) + ")"@,
        TypeV::Array(inner, n) => "Array("@ + type_debug_s(*inner) + ", "@ + decimal(n as nat) + ")"@,
        TypeV::Struct(n) => "Struct("@ + str_debug(n) + ")"@,
        TypeV::Enum(n, v) => "Enum("@ + str_debug(n) + ", "@ + (match v {
            Some(x) => "Some("@ + str_debug(x) + ")"@,
            None => "None"@,
        }) + ")"@,
        TypeV::Named(n) => "Named("@ + str_debug(n) + ")"@,
        TypeV::GenericType(n) => "GenericType("@ + str_debug(n) + ")"@,
        TypeV::GenericInst(n, ts) => "GenericInst("@ + str_debug(n) + ", ["@ + types_debug_s(ts) + "])"@,
        TypeV::Unknown => "Unknown"@,
    }
}

/// The `Debug` renderings of a list of types, separated by `, `.
pub open spec fn types_debug_s(ts: Seq<TypeV>) -> Seq<char>
    decreases ts,
{
    if ts.len() == 0 {
        Seq::empty()
    } else if ts.len() == 1 {
        type_debug_s(ts[0])
    } else {
        types_debug_s(ts.drop_last()) + ", "@ + type_debug_s(ts.last())
    }
}

/// Appends the `Debug` rendering of a type.
#[verifier::loop_isolation(false)]
pub fn push_type_debug(out: &mut String, t: &Type)
    ensures
        final(out)@ == old(out)@ + type_debug_s(t@),
    decreases t,
{
    match t {
        Type::Primitive(k) => {
            push_str(out, "Primitive(");
            push_str(out, token_name(*k));
            push_str(out, ")");
        },
        Type::Pointer(inner) => {
            push_str(out, "Pointer(");
            push_type_debug(out, inner);
            push_str(out, ")");
        },
        Type::Array(inner, n) => {
            push_str(out, "Array(");
            push_type_debug(out, inner);
            push_str(out, ", ");
            push_decimal(out, *n as u64);
            push_str(out, ")");
        },
        Type::Struct(n) => {
            push_str(out, "Struct(");
            push_str_debug(out, n);
            push_str(out, ")");
        },
        Type::Enum(n, v) => {
            push_str(out, "Enum(");
            push_str_debug(out, n);
            push_str(out, ", ");
            match v {
                Some(x) => {
                    push_str(out, "Some(");
                    push_str_debug(out, x);
                    push_str(out, ")");
                },
                None => push_str(out, "None"),
            }
            push_str(out, ")");
        },
        Type::Named(n) => {
            push_str(out, "Named(");
            push_str_debug(out, n);
            push_str(out, ")");
        },
        Type::GenericType(n) => {
            push_str(out, "GenericType(");
            push_str_debug(out, n);
            push_str(out, ")");
        },
        Type::GenericInst(n, ts) => {
            push_str(out, "GenericInst(");
            push_str_debug(out, n);
            push_str(out, ", [");
            let ghost start = out@;
            let mut i: usize = 0;
            proof { crate::ir::lemma_types_v(ts@); }
            while i < ts.len()
                invariant
                    i <= ts.len(),
                    crate::ir::types_v(ts@).len() == ts@.len(),
                    forall|j: int| 0 <= j < ts@.len() ==> #[trigger] crate::ir::types_v(ts@)[j] == crate::ir::type_v(ts@[j]),
                    out@ == start + types_debug_s(crate::ir::types_v(ts@).take(i as int)),
                decreases ts.len() - i,
            {
                proof {
                    assert(decreases_to!(*t => *ts));
                    assert(decreases_to!(*ts => ts[i as int]));
                    let tv = crate::ir::types_v(ts@);
                    assert(tv.take(i + 1).drop_last() =~= tv.take(i as int));
                    assert(tv.take(i + 1).last() == tv[i as int]);
                    if i == 0 {
                        assert(tv.take(1) =~= seq![tv[0]]);
                        assert(tv.take(0) =~= Seq::<TypeV>::empty());
                    }
                }
                if i > 0 {
                    push_str(out, ", ");
                }
                push_type_debug(out, &ts[i]);
                i = i + 1;
            }
            proof {
                let tv = crate::ir::types_v(ts@);
                assert(tv.take(tv.len() as int) =~= tv);
            }
            push_str(out, "])");
        },
        Type::Unknown => push_str(out, "Unknown"),
    }
}

// ---------------------------------------------------------------------------
// Messages of semantic errors
// ---------------------------------------------------------------------------

/// The message shown for a semantic error.
pub open spec fn message_s(e: SemanticError) -> Seq<char> {
    match e {
        SemanticError::EmptyArray => "Cannot initialize an empty array without a specific type."@,
        SemanticError::UndeclaredVariable(n) => "Cannot find variable '"@ + n@ + "' in this scope."@,
        SemanticError::UndeclaredFunction(n) => "Cannot find function '"@ + n@ + "' in this scope."@,
        SemanticError::UndeclaredStruct(n) => "Cannot find struct '"@ + n@ + "' in this scope."@,
        SemanticError::UndeclaredField(s, f) => "Struct '"@ + s@ + "' has no field named '"@ + f@ + "'."@,
        SemanticError::BadType(k) => "Expected type but got '"@ + token_name_s(k) + "'"@,
        SemanticError::BreakOutsideOfLoop => "Break outside of loop"@,
        SemanticError::ContinueOutsideOfLoop => "Continue outside of loop"@,
        SemanticError::UnkownType(n) => "Unkown type '"@ + n@ + "'"@,
        SemanticError::FunctionArgsMismatch { func_name, expected, got } =>
            "Function '"@ + func_name@ + "' expected "@ + decimal(expected as nat) + " args, but got "@ + decimal(got as nat),
        SemanticError::NoFoundFuncOverload(n) =>
            "No overload for function '"@ + n@ + "' matches the provided argument types."@,
        SemanticError::AlreadyDeclared(n) => "The name '"@ + n@ + "' is already defined in this scope."@,
        SemanticError::VoidVariable(n) => "Variable '"@ + n@ + "' cannot be declared with type 'void'."@,
        SemanticError::ArrayTooLarge { arr_name, expected, got } =>
            "Array '"@ + arr_name@ + "' expects "@ + decimal(expected as nat) + " elements, but got "@ + decimal(got as nat) + "."@,
        SemanticError::TypeMismatch { expected, got } =>
            "Type mismatch: expected "@ + type_debug_s(expected@) + ", found "@ + type_debug_s(got@) + "."@,
        SemanticError::StructCountMismatch { struct_name, expected, got } =>
            "Struct '"@ + struct_name@ + "' expects "@ + decimal(expected as nat) + " fields, but got "@ + decimal(got as nat) + "."@,
        SemanticError::StructTypeMismatch { struct_name, expected, got } =>
            "Type mismatch in struct '"@ + struct_name@ + "' initialization: expected "@ + type_debug_s(expected@)
                + ", found "@ + type_debug_s(got@) + "."@,
        SemanticError::StructNameNotFound { struct_name, got } =>
            "Invalid field '"@ + got@ + "' provided when initializing struct '"@ + struct_name@ + "'."@,
        SemanticError::ReturnTypeMismatch { expected, got } =>
            "Return type mismatch: expected "@ + type_debug_s(expected@) + ", found "@ + type_debug_s(got@) + "."@,
        SemanticError::NotAPointer(t) => "Type "@ + type_debug_s(t@) + " cannot be dereferenced. It is not a pointer."@,
        SemanticError::NotIndexable(t) => "Type "@ + type_debug_s(t@) + " is not an array and cannot be indexed."@,
        SemanticError::NotAStruct(t) => "Type "@ + type_debug_s(t@) + " is not a struct and has no fields to access."@,
        SemanticError::InvalidArrayIndex(t) =>
            "Cannot index an array with type "@ + type_debug_s(t@) + ". Expected an integer."@,
        SemanticError::NonArrayIndex(t) => "Type "@ + type_debug_s(t@) + " cannot be indexed."@,
        SemanticError::MatchTypeMismatch { expected, got } =>
            "Match arms have incompatible types: expected "@ + type_debug_s(expected@) + ", found "@ + type_debug_s(got@) + "."@,
        SemanticError::InvalidUnary { op, ty } =>
            "Cannot apply unary operator "@ + unary_name_s(op) + " to type "@ + type_debug_s(ty@) + "."@,
        SemanticError::InvalidBinary { op, left, right } =>
            "Cannot apply binary operator "@ + binop_name_s(op) + " to types "@ + type_debug_s(left@) + " and "@
                + type_debug_s(right@) + "."@,
        SemanticError::CastError { before, after } =>
            "Invalid cast: cannot cast from type "@ + type_debug_s(before@) + " to "@ + type_debug_s(after@) + "."@,
        SemanticError::MatchExprUnsuported(t) => "Cannot match on type "@ + type_debug_s(t@) + ". Not supported."@,
        SemanticError::PrivateFunctionOutsideCall(n) => "PrivateFunctionOutsideCall("@ + str_debug(n@) + ")"@,
        SemanticError::ReturnOutsideFunction => "ReturnOutsideFunction"@,
        SemanticError::DerefNonPointer(t) => "DerefNonPointer("@ + type_debug_s(t@) + ")"@,
        SemanticError::CircularStruct(n) => "CircularStruct("@ + str_debug(n@) + ")"@,
        SemanticError::MissingReturn(n) => "MissingReturn("@ + str_debug(n@) + ")"@,
        SemanticError::FileDoesntExist(n) => "FileDoesntExist("@ + str_debug(n@) + ")"@,
    }
}

fn push_quoted(out: &mut String, pre: &str, n: &String, post: &str)
    ensures
        final(out)@ == old(out)@ + pre@ + n@ + post@,
{
    push_str(out, pre);
    push_str(out, n.as_str());
    push_str(out, post);
}

fn push_one_type(out: &mut String, pre: &str, t: &Type, post: &str)
    ensures
        final(out)@ == old(out)@ + pre@ + type_debug_s(t@) + post@,
{
    push_str(out, pre);
    push_type_debug(out, t);
    push_str(out, post);
}

fn push_two_types(out: &mut String, pre: &str, a: &Type, mid: &str, b: &Type, post: &str)
    ensures
        final(out)@ == old(out)@ + pre@ + type_debug_s(a@) + mid@ + type_debug_s(b@) + post@,
{
    push_str(out, pre);
    push_type_debug(out, a);
    push_str(out, mid);
    push_type_debug(out, b);
    push_str(out, post);
}

fn push_counts(out: &mut String, pre: &str, name: &String, mid1: &str, expected: usize, mid2: &str, got: usize)
    ensures
        final(out)@ == old(out)@ + pre@ + name@ + mid1@ + decimal(expected as nat) + mid2@ + decimal(got as nat),
{
    push_str(out, pre);
    push_str(out, name.as_str());
    push_str(out, mid1);
    push_decimal(out, expected as u64);
    push_str(out, mid2);
    push_decimal(out, got as u64);
}

fn push_debug_variant(out: &mut String, pre: &str, n: &String)
    ensures
        final(out)@ == old(out)@ + pre@ + str_debug(n@) + ")"@,
{
    push_str(out, pre);
    push_str_debug(out, n);
    push_str(out, ")");
}

impl SemanticError {
    /// The message shown for this error (see `message_s`).
    pub fn message(&self) -> (r: String)
        ensures
            r@ == message_s(*self),
    {
        let mut s = String::new();
        match self {
            SemanticError::EmptyArray => push_str(&mut s, "Cannot initialize an empty array without a specific type."),
            SemanticError::UndeclaredVariable(n) => push_quoted(&mut s, "Cannot find variable '", n, "' in this scope."),
            SemanticError::UndeclaredFunction(n) => push_quoted(&mut s, "Cannot find function '", n, "' in this scope."),
            SemanticError::UndeclaredStruct(n) => push_quoted(&mut s, "Cannot find struct '", n, "' in this scope."),
            SemanticError::UndeclaredField(st, f) => {
                push_quoted(&mut s, "Struct '", st, "' has no field named '");
                push_str(&mut s, f.as_str());
                push_str(&mut s, "'.");
            },
            SemanticError::BadType(k) => {
                push_str(&mut s, "Expected type but got '");
                push_str(&mut s, token_name(*k));
                push_str(&mut s, "'");
            },
            SemanticError::BreakOutsideOfLoop => push_str(&mut s, "Break outside of loop"),
            SemanticError::ContinueOutsideOfLoop => push_str(&mut s, "Continue outside of loop"),
            SemanticError::UnkownType(n) => push_quoted(&mut s, "Unkown type '", n, "'"),
            SemanticError::FunctionArgsMismatch { func_name, expected, got } =>
                push_counts(&mut s, "Function '", func_name, "' expected ", *expected, " args, but got ", *got),
            SemanticError::NoFoundFuncOverload(n) =>
                push_quoted(&mut s, "No overload for function '", n, "' matches the provided argument types."),
            SemanticError::AlreadyDeclared(n) => push_quoted(&mut s, "The name '", n, "' is already defined in this scope."),
            SemanticError::VoidVariable(n) => push_quoted(&mut s, "Variable '", n, "' cannot be declared with type 'void'."),
            SemanticError::ArrayTooLarge { arr_name, expected, got } => {
                push_counts(&mut s, "Array '", arr_name, "' expects ", *expected, " elements, but got ", *got);
                push_str(&mut s, ".");
            },
            SemanticError::TypeMismatch { expected, got } =>
                push_two_types(&mut s, "Type mismatch: expected ", expected, ", found ", got, "."),
            SemanticError::StructCountMismatch { struct_name, expected, got } => {
                push_counts(&mut s, "Struct '", struct_name, "' expects ", *expected, " fields, but got ", *got);
                push_str(&mut s, ".");
            },
            SemanticError::StructTypeMismatch { struct_name, expected, got } => {
                push_quoted(&mut s, "Type mismatch in struct '", struct_name, "' initialization: expected ");
                push_type_debug(&mut s, expected);
                push_str(&mut s, ", found ");
                push_type_debug(&mut s, got);
                push_str(&mut s, ".");
            },
            SemanticError::StructNameNotFound { struct_name, got } => {
                push_quoted(&mut s, "Invalid field '", got, "' provided when initializing struct '");
                push_str(&mut s, struct_name.as_str());
                push_str(&mut s, "'.");
            },
            SemanticError::ReturnTypeMismatch { expected, got } =>
                push_two_types(&mut s, "Return type mismatch: expected ", expected, ", found ", got, "."),
            SemanticError::NotAPointer(t) => push_one_type(&mut s, "Type ", t, " cannot be dereferenced. It is not a pointer."),
            SemanticError::NotIndexable(t) => push_one_type(&mut s, "Type ", t, " is not an array and cannot be indexed."),
            SemanticError::NotAStruct(t) => push_one_type(&mut s, "Type ", t, " is not a struct and has no fields to access."),
            SemanticError::InvalidArrayIndex(t) =>
                push_one_type(&mut s, "Cannot index an array with type ", t, ". Expected an integer."),
            SemanticError::NonArrayIndex(t) => push_one_type(&mut s, "Type ", t, " cannot be indexed."),
            SemanticError::MatchTypeMismatch { expected, got } =>
                push_two_types(&mut s, "Match arms have incompatible types: expected ", expected, ", found ", got, "."),
            SemanticError::InvalidUnary { op, ty } => {
                push_str(&mut s, "Cannot apply unary operator ");
                push_str(&mut s, unary_name(*op));
                push_one_type(&mut s, " to type ", ty, ".");
            },
            SemanticError::InvalidBinary { op, left, right } => {
                push_str(&mut s, "Cannot apply binary operator ");
                push_str(&mut s, binop_name(*op));
                push_two_types(&mut s, " to types ", left, " and ", right, ".");
            },
            SemanticError::CastError { before, after } =>
                push_two_types(&mut s, "Invalid cast: cannot cast from type ", before, " to ", after, "."),
            SemanticError::MatchExprUnsuported(t) => push_one_type(&mut s, "Cannot match on type ", t, ". Not supported."),
            SemanticError::PrivateFunctionOutsideCall(n) => push_debug_variant(&mut s, "PrivateFunctionOutsideCall(", n),
            SemanticError::ReturnOutsideFunction => push_str(&mut s, "ReturnOutsideFunction"),
            SemanticError::DerefNonPointer(t) => push_one_type(&mut s, "DerefNonPointer(", t, ")"),
            SemanticError::CircularStruct(n) => push_debug_variant(&mut s, "CircularStruct(", n),
            SemanticError::MissingReturn(n) => push_debug_variant(&mut s, "MissingReturn(", n),
            SemanticError::FileDoesntExist(n) => push_debug_variant(&mut s, "FileDoesntExist(", n),
        }
        assert(s@ =~= message_s(*self));
        s
    }
}

impl Error {
    /// The two lines printed for an error: the message, then where it was found.
    pub fn report(&self) -> (r: (String, String))
        ensures
            r.0@ == message_s(self.ty),
            r.1@ == self.file@ + ":"@ + decimal(self.line as nat) + ":"@ + decimal(self.col as nat),
    {
        let msg = self.ty.message();
        let mut at = String::new();
        push_str(&mut at, self.file.as_str());
        push_str(&mut at, ":");
        push_decimal(&mut at, self.line as u64);
        push_str(&mut at, ":");
        push_decimal(&mut at, self.col as u64);
        (msg, at)
    }
}

} // verus!
