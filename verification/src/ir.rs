use vstd::prelude::*;
use crate::tokenizer::TokenType;

verus! {

// ---------------------------------------------------------------------------
// Types
// ---------------------------------------------------------------------------

/// Types of the source language.
#[derive(Debug)]
pub enum Type {
    Primitive(TokenType),
    Pointer(Box<Type>),
    Array(Box<Type>, usize),
    Struct(String),
    Enum(String, Option<String>),
    Named(String),
    GenericType(String),
    GenericInst(String, Vec<Type>),
    Unknown,
}

/// The mathematical value of a `Type`: names are character sequences.
pub enum TypeV {
    Primitive(TokenType),
    Pointer(Box<TypeV>),
    Array(Box<TypeV>, usize),
    Struct(Seq<char>),
    Enum(Seq<char>, Option<Seq<char>>),
    Named(Seq<char>),
    GenericType(Seq<char>),
    GenericInst(Seq<char>, Seq<TypeV>),
    Unknown,
}

pub open spec fn opt_str_v(o: Option<String>) -> Option<Seq<char>> {
    match o {
        Some(s) => Some(s@),
        None => None,
    }
}

pub open spec fn type_v(t: Type) -> TypeV
    decreases t,
{
    match t {
        Type::Primitive(k) => TypeV::Primitive(k),
        Type::Pointer(inner) => TypeV::Pointer(Box::new(type_v(*inner))),
        Type::Array(inner, n) => TypeV::Array(Box::new(type_v(*inner)), n),
        Type::Struct(n) => TypeV::Struct(n@),
        Type::Enum(n, v) => TypeV::Enum(n@, opt_str_v(v)),
        Type::Named(n) => TypeV::Named(n@),
        Type::GenericType(n) => TypeV::GenericType(n@),
        Type::GenericInst(n, args) => TypeV::GenericInst(n@, types_v(args@)),
        Type::Unknown => TypeV::Unknown,
    }
}

pub open spec fn types_v(ts: Seq<Type>) -> Seq<TypeV>
    decreases ts,
{
    if ts.len() == 0 {
        Seq::empty()
    } else {
        types_v(ts.drop_last()).push(type_v(ts.last()))
    }
}

impl View for Type {
    type V = TypeV;

    open spec fn view(&self) -> TypeV {
        type_v(*self)
    }
}

/// `types_v` maps each type to its value.
pub proof fn lemma_types_v(ts: Seq<Type>)
    ensures
        types_v(ts).len() == ts.len(),
        forall|i: int| 0 <= i < ts.len() ==> #[trigger] types_v(ts)[i] == type_v(ts[i]),
    decreases ts.len(),
{
    if ts.len() > 0 {
        lemma_types_v(ts.drop_last());
    }
}

pub proof fn lemma_types_v_push(ts: Seq<Type>, t: Type)
    ensures
        types_v(ts.push(t)) == types_v(ts).push(type_v(t)),
{
    assert(ts.push(t).drop_last() =~= ts);
}

/// Two types have the same value iff their values are equal (helper used by
/// the structural comparisons of this library).
pub open spec fn str_v(s: String) -> Seq<char> {
    s@
}

pub fn copy_string(s: &String) -> (r: String)
    ensures
        r@ == s@,
{
    s.clone()
}

pub fn copy_opt_string(s: &Option<String>) -> (r: Option<String>)
    ensures
        opt_str_v(r) == opt_str_v(*s),
{
    match s {
        Some(x) => Some(x.clone()),
        None => None,
    }
}

pub fn copy_strings(ss: &Vec<String>) -> (r: Vec<String>)
    ensures
        strs_v(r@) == strs_v(ss@),
{
    let mut r: Vec<String> = Vec::new();
    let mut i: usize = 0;
    while i < ss.len()
        invariant
            i <= ss.len(),
            r@.len() == i,
            forall|j: int| 0 <= j < i ==> #[trigger] r@[j]@ == ss@[j]@,
        decreases ss.len() - i,
    {
        r.push(ss[i].clone());
        i = i + 1;
    }
    assert(strs_v(r@) =~= strs_v(ss@));
    r
}

/// Exact comparison of two strings by their characters.
pub fn str_eq(a: &String, b: &String) -> (r: bool)
    ensures
        r == (a@ == b@),
{
    a.eq(b)
}

impl Type {
    /// A copy of this type with the same value.
    #[verifier::loop_isolation(false)]
    pub fn duplicate(&self) -> (r: Type)
        ensures
            r@ == self@,
        decreases self,
    {
        match self {
            Type::Primitive(k) => Type::Primitive(*k),
            Type::Pointer(inner) => Type::Pointer(Box::new(inner.duplicate())),
            Type::Array(inner, n) => Type::Array(Box::new(inner.duplicate()), *n),
            Type::Struct(n) => Type::Struct(n.clone()),
            Type::Enum(n, v) => Type::Enum(n.clone(), copy_opt_string(v)),
            Type::Named(n) => Type::Named(n.clone()),
            Type::GenericType(n) => Type::GenericType(n.clone()),
            Type::GenericInst(n, args) => {
                let mut out: Vec<Type> = Vec::new();
                let mut i: usize = 0;
                while i < args.len()
                    invariant
                        i <= args.len(),
                        out@.len() == i,
                        forall|j: int| 0 <= j < i ==> #[trigger] type_v(out@[j]) == type_v(args@[j]),
                    decreases args.len() - i,
                {
                    proof {
                        assert(decreases_to!(*self => *args));
                        assert(decreases_to!(*args => args[i as int]));
                        assert(decreases_to!(*self => args[i as int]));
                    }
                    out.push(args[i].duplicate());
                    i = i + 1;
                }
                proof {
                    lemma_types_v(out@);
                    lemma_types_v(args@);
                    assert(types_v(out@) =~= types_v(args@));
                }
                Type::GenericInst(n.clone(), out)
            },
            Type::Unknown => Type::Unknown,
        }
    }
}

/// Copies a list of types.
pub fn copy_types(ts: &Vec<Type>) -> (r: Vec<Type>)
    ensures
        types_v(r@) == types_v(ts@),
{
    let mut out: Vec<Type> = Vec::new();
    let mut i: usize = 0;
    while i < ts.len()
        invariant
            i <= ts.len(),
            out@.len() == i,
            forall|j: int| 0 <= j < i ==> #[trigger] type_v(out@[j]) == type_v(ts@[j]),
        decreases ts.len() - i,
    {
        out.push(ts[i].duplicate());
        i = i + 1;
    }
    proof {
        lemma_types_v(out@);
        lemma_types_v(ts@);
        assert(types_v(out@) =~= types_v(ts@));
    }
    out
}

/// Structural equality of two types (names compared by their characters).
#[verifier::loop_isolation(false)]
pub fn type_eq(a: &Type, b: &Type) -> (r: bool)
    ensures
        r == (a@ == b@),
    decreases a,
{
    match a {
        Type::Primitive(x) => match b {
            Type::Primitive(y) => *x == *y,
            _ => false,
        },
        Type::Pointer(x) => match b {
            Type::Pointer(y) => type_eq(x, y),
            _ => false,
        },
        Type::Array(x, n) => match b {
            Type::Array(y, m) => *n == *m && type_eq(x, y),
            _ => false,
        },
        Type::Struct(x) => match b {
            Type::Struct(y) => str_eq(x, y),
            _ => false,
        },
        Type::Enum(x, v) => match b {
            Type::Enum(y, w) => {
                if !str_eq(x, y) {
                    false
                } else {
                    match (v, w) {
                        (Some(p), Some(q)) => str_eq(p, q),
                        (None, None) => true,
                        _ => false,
                    }
                }
            },
            _ => false,
        },
        Type::Named(x) => match b {
            Type::Named(y) => str_eq(x, y),
            _ => false,
        },
        Type::GenericType(x) => match b {
            Type::GenericType(y) => str_eq(x, y),
            _ => false,
        },
        Type::GenericInst(x, xs) => match b {
            Type::GenericInst(y, ys) => {
                proof {
                    lemma_types_v(xs@);
                    lemma_types_v(ys@);
                }
                if !str_eq(x, y) || xs.len() != ys.len() {
                    return false;
                }
                let mut i: usize = 0;
                let mut same = true;
                while i < xs.len() && same
                    invariant
                        i <= xs.len(),
                        xs.len() == ys.len(),
                        types_v(xs@).len() == xs@.len(),
                        types_v(ys@).len() == ys@.len(),
                        forall|j: int| 0 <= j < xs@.len() ==> #[trigger] types_v(xs@)[j] == type_v(xs@[j]),
                        forall|j: int| 0 <= j < ys@.len() ==> #[trigger] types_v(ys@)[j] == type_v(ys@[j]),
                        same ==> forall|j: int| 0 <= j < i ==> #[trigger] type_v(xs@[j]) == type_v(ys@[j]),
                        !same ==> types_v(xs@) != types_v(ys@),
                    decreases xs.len() - i + (if same { 1int } else { 0int }),
                {
                    proof {
                        assert(decreases_to!(*a => *xs));
                        assert(decreases_to!(*xs => xs[i as int]));
                        assert(decreases_to!(*a => xs[i as int]));
                    }
                    if !type_eq(&xs[i], &ys[i]) {
                        assert(types_v(xs@)[i as int] != types_v(ys@)[i as int]);
                        same = false;
                    } else {
                        i = i + 1;
                    }
                }
                if same {
                    assert(types_v(xs@) =~= types_v(ys@));
                }
                same
            },
            _ => false,
        },
        Type::Unknown => match b {
            Type::Unknown => true,
            _ => false,
        },
    }
}

// ---------------------------------------------------------------------------
// Operators
// ---------------------------------------------------------------------------

#[derive(Debug, Clone, Copy, PartialEq, Eq, Structural)]
pub enum BinOp {
    Add,
    Sub,
    Mul,
    Div,
    Mod,
    Eq,
    Neq,
    Lt,
    Lte,
    Gt,
    Gte,
    And,
    Or,
    BitAnd,
    BitOr,
    BitXor,
    ShiftLeft,
    ShiftRight,
}

#[derive(Debug, Clone, Copy, PartialEq, Eq, Structural)]
pub enum UnaryOp {
    Neg,
    Not,
    GetAddr,
    BitNot,
}

// ---------------------------------------------------------------------------
// Expressions
// ---------------------------------------------------------------------------

#[derive(Debug)]
pub struct Expr {
    pub ty: ExprType,
    pub file: String,
    pub line: usize,
    pub col: usize,
}

#[derive(Debug)]
pub enum ExprType {
    Number(i64),
    Variable(String),
    Binary { op: BinOp, left: Box<Expr>, right: Box<Expr> },
    Unary { op: UnaryOp, expr: Box<Expr> },
    Call { name: String, generics: Vec<Type>, args: Vec<Expr> },
    StructInit { struct_name_ty: String, fields: Vec<(String, Expr)> },
    StructMember { base: Box<Expr>, name: String },
    Deref(Box<Expr>),
    Index { base: Box<Expr>, index: Box<Expr> },
    ArrayInit { elements: Vec<Expr> },
    SizeOf { ty: Type },
    String { str: String },
    GetEnum { base: String, variant: String, value: Vec<EnumExprField> },
    Cast { expr: Box<Expr>, ty: Type },
}

#[derive(Debug)]
pub struct EnumExprField {
    pub name: String,
    pub expr: Expr,
}

pub struct ExprV {
    pub kind: ExprKindV,
    pub file: Seq<char>,
    pub line: usize,
    pub col: usize,
}

pub enum ExprKindV {
    Number(i64),
    Variable(Seq<char>),
    Binary { op: BinOp, left: Box<ExprV>, right: Box<ExprV> },
    Unary { op: UnaryOp, expr: Box<ExprV> },
    Call { name: Seq<char>, generics: Seq<TypeV>, args: Seq<ExprV> },
    StructInit { struct_name_ty: Seq<char>, fields: Seq<(Seq<char>, ExprV)> },
    StructMember { base: Box<ExprV>, name: Seq<char> },
    Deref(Box<ExprV>),
    Index { base: Box<ExprV>, index: Box<ExprV> },
    ArrayInit { elements: Seq<ExprV> },
    SizeOf { ty: TypeV },
    String { str: Seq<char> },
    GetEnum { base: Seq<char>, variant: Seq<char>, value: Seq<(Seq<char>, ExprV)> },
    Cast { expr: Box<ExprV>, ty: TypeV },
}

pub open spec fn expr_v(e: Expr) -> ExprV
    decreases e,
{
    ExprV { kind: expr_kind_v(e.ty), file: e.file@, line: e.line, col: e.col }
}

pub open spec fn expr_kind_v(k: ExprType) -> ExprKindV
    decreases k,
{
    match k {
        ExprType::Number(n) => ExprKindV::Number(n),
        ExprType::Variable(s) => ExprKindV::Variable(s@),
        ExprType::Binary { op, left, right } => ExprKindV::Binary {
            op,
            left: Box::new(expr_v(*left)),
            right: Box::new(expr_v(*right)),
        },
        ExprType::Unary { op, expr } => ExprKindV::Unary { op, expr: Box::new(expr_v(*expr)) },
        ExprType::Call { name, generics, args } => ExprKindV::Call {
            name: name@,
            generics: types_v(generics@),
            args: exprs_v(args@),
        },
        ExprType::StructInit { struct_name_ty, fields } => ExprKindV::StructInit {
            struct_name_ty: struct_name_ty@,
            fields: named_exprs_v(fields@),
        },
        ExprType::StructMember { base, name } => ExprKindV::StructMember {
            base: Box::new(expr_v(*base)),
            name: name@,
        },
        ExprType::Deref(inner) => ExprKindV::Deref(Box::new(expr_v(*inner))),
        ExprType::Index { base, index } => ExprKindV::Index {
            base: Box::new(expr_v(*base)),
            index: Box::new(expr_v(*index)),
        },
        ExprType::ArrayInit { elements } => ExprKindV::ArrayInit { elements: exprs_v(elements@) },
        ExprType::SizeOf { ty } => ExprKindV::SizeOf { ty: type_v(ty) },
        ExprType::String { str } => ExprKindV::String { str: str@ },
        ExprType::GetEnum { base, variant, value } => ExprKindV::GetEnum {
            base: base@,
            variant: variant@,
            value: enum_fields_v(value@),
        },
        ExprType::Cast { expr, ty } => ExprKindV::Cast { expr: Box::new(expr_v(*expr)), ty: type_v(ty) },
    }
}

pub open spec fn exprs_v(es: Seq<Expr>) -> Seq<ExprV>
    decreases es,
{
    if es.len() == 0 {
        Seq::empty()
    } else {
        exprs_v(es.drop_last()).push(expr_v(es.last()))
    }
}

pub open spec fn named_exprs_v(es: Seq<(String, Expr)>) -> Seq<(Seq<char>, ExprV)>
    decreases es,
{
    if es.len() == 0 {
        Seq::empty()
    } else {
        named_exprs_v(es.drop_last()).push((es.last().0@, expr_v(es.last().1)))
    }
}

pub open spec fn enum_fields_v(es: Seq<EnumExprField>) -> Seq<(Seq<char>, ExprV)>
    decreases es,
{
    if es.len() == 0 {
        Seq::empty()
    } else {
        enum_fields_v(es.drop_last()).push((es.last().name@, expr_v(es.last().expr)))
    }
}

pub proof fn lemma_exprs_v_push(es: Seq<Expr>, e: Expr)
    ensures
        exprs_v(es.push(e)) == exprs_v(es).push(expr_v(e)),
{
    assert(es.push(e).drop_last() =~= es);
}

pub proof fn lemma_named_exprs_v_push(es: Seq<(String, Expr)>, e: (String, Expr))
    ensures
        named_exprs_v(es.push(e)) == named_exprs_v(es).push((e.0@, expr_v(e.1))),
{
    assert(es.push(e).drop_last() =~= es);
}

pub proof fn lemma_enum_fields_v_push(es: Seq<EnumExprField>, e: EnumExprField)
    ensures
        enum_fields_v(es.push(e)) == enum_fields_v(es).push((e.name@, expr_v(e.expr))),
{
    assert(es.push(e).drop_last() =~= es);
}

impl View for Expr {
    type V = ExprV;

    open spec fn view(&self) -> ExprV {
        expr_v(*self)
    }
}

// ---------------------------------------------------------------------------
// Statements
// ---------------------------------------------------------------------------

#[derive(Debug)]
pub enum LValue {
    Variable(String),
    Field { base: Box<LValue>, name: String },
    Deref(Box<LValue>),
    Index { base: Box<LValue>, index: Box<Expr> },
}

pub enum LValueV {
    Variable(Seq<char>),
    Field { base: Box<LValueV>, name: Seq<char> },
    Deref(Box<LValueV>),
    Index { base: Box<LValueV>, index: ExprV },
}

pub open spec fn lvalue_v(l: LValue) -> LValueV
    decreases l,
{
    match l {
        LValue::Variable(n) => LValueV::Variable(n@),
        LValue::Field { base, name } => LValueV::Field { base: Box::new(lvalue_v(*base)), name: name@ },
        LValue::Deref(inner) => LValueV::Deref(Box::new(lvalue_v(*inner))),
        LValue::Index { base, index } => LValueV::Index { base: Box::new(lvalue_v(*base)), index: expr_v(*index) },
    }
}

impl View for LValue {
    type V = LValueV;

    open spec fn view(&self) -> LValueV {
        lvalue_v(*self)
    }
}

#[derive(Debug)]
pub struct Declaration {
    pub name: String,
    pub ty: Type,
    pub initializer: Option<Expr>,
}

pub struct DeclarationV {
    pub name: Seq<char>,
    pub ty: TypeV,
    pub initializer: Option<ExprV>,
}

pub open spec fn decl_v(d: Declaration) -> DeclarationV {
    DeclarationV {
        name: d.name@,
        ty: type_v(d.ty),
        initializer: match d.initializer {
            Some(e) => Some(expr_v(e)),
            None => None,
        },
    }
}

pub open spec fn decls_v(ds: Seq<Declaration>) -> Seq<DeclarationV> {
    Seq::new(ds.len(), |i: int| decl_v(ds[i]))
}

#[derive(Debug)]
pub struct StructField {
    pub name: String,
    pub offset: usize,
    pub ty: Type,
}

pub struct StructFieldV {
    pub name: Seq<char>,
    pub offset: usize,
    pub ty: TypeV,
}

pub open spec fn field_v(f: StructField) -> StructFieldV {
    StructFieldV { name: f.name@, offset: f.offset, ty: type_v(f.ty) }
}

pub open spec fn fields_v(fs: Seq<StructField>) -> Seq<StructFieldV> {
    Seq::new(fs.len(), |i: int| field_v(fs[i]))
}

/// A variant of an enum declaration; `size` is the number of bytes that the
/// variant occupies (tag included).
#[derive(Debug)]
pub struct EnumVariant {
    pub name: String,
    pub tag: usize,
    pub args: Vec<StructField>,
    pub size: usize,
}

pub struct EnumVariantV {
    pub name: Seq<char>,
    pub tag: usize,
    pub args: Seq<StructFieldV>,
    pub size: usize,
}

pub open spec fn variant_v(v: EnumVariant) -> EnumVariantV {
    EnumVariantV { name: v.name@, tag: v.tag, args: fields_v(v.args@), size: v.size }
}

pub open spec fn variants_v(vs: Seq<EnumVariant>) -> Seq<EnumVariantV> {
    Seq::new(vs.len(), |i: int| variant_v(vs[i]))
}

/// An enum declaration; its variants are kept in declaration order.
#[derive(Debug)]
pub struct EnumData {
    pub name: String,
    pub generic_type: Vec<String>,
    pub variants: Vec<EnumVariant>,
    pub size: usize,
}

pub struct EnumDataV {
    pub name: Seq<char>,
    pub generic_type: Seq<Seq<char>>,
    pub variants: Seq<EnumVariantV>,
    pub size: usize,
}

pub open spec fn strs_v(ss: Seq<String>) -> Seq<Seq<char>> {
    Seq::new(ss.len(), |i: int| ss[i]@)
}

pub open spec fn enum_data_v(e: EnumData) -> EnumDataV {
    EnumDataV {
        name: e.name@,
        generic_type: strs_v(e.generic_type@),
        variants: variants_v(e.variants@),
        size: e.size,
    }
}

#[derive(Debug)]
pub struct StructDef {
    pub name: String,
    pub fields: Vec<StructField>,
    pub generic_type: Vec<String>,
    pub size: usize,
}

pub struct StructDefV {
    pub name: Seq<char>,
    pub fields: Seq<StructFieldV>,
    pub generic_type: Seq<Seq<char>>,
    pub size: usize,
}

pub open spec fn struct_def_v(d: StructDef) -> StructDefV {
    StructDefV {
        name: d.name@,
        fields: fields_v(d.fields@),
        generic_type: strs_v(d.generic_type@),
        size: d.size,
    }
}

/// A copy of a list of fields.
pub fn copy_fields(fs: &Vec<StructField>) -> (r: Vec<StructField>)
    ensures
        fields_v(r@) == fields_v(fs@),
{
    let mut out: Vec<StructField> = Vec::new();
    let mut i: usize = 0;
    while i < fs.len()
        invariant
            i <= fs.len(),
            out@.len() == i,
            forall|j: int| 0 <= j < i ==> #[trigger] field_v(out@[j]) == field_v(fs@[j]),
        decreases fs.len() - i,
    {
        let f = &fs[i];
        out.push(StructField { name: f.name.clone(), offset: f.offset, ty: f.ty.duplicate() });
        i = i + 1;
    }
    assert(fields_v(out@) =~= fields_v(fs@));
    out
}

impl EnumVariant {
    pub fn duplicate(&self) -> (r: EnumVariant)
        ensures
            variant_v(r) == variant_v(*self),
    {
        EnumVariant { name: self.name.clone(), tag: self.tag, args: copy_fields(&self.args), size: self.size }
    }
}

/// A copy of a list of enum variants.
pub fn copy_variants(vs: &Vec<EnumVariant>) -> (r: Vec<EnumVariant>)
    ensures
        variants_v(r@) == variants_v(vs@),
{
    let mut out: Vec<EnumVariant> = Vec::new();
    let mut i: usize = 0;
    while i < vs.len()
        invariant
            i <= vs.len(),
            out@.len() == i,
            forall|j: int| 0 <= j < i ==> #[trigger] variant_v(out@[j]) == variant_v(vs@[j]),
        decreases vs.len() - i,
    {
        out.push(vs[i].duplicate());
        i = i + 1;
    }
    assert(variants_v(out@) =~= variants_v(vs@));
    out
}

impl StructDef {
    pub fn duplicate(&self) -> (r: StructDef)
        ensures
            struct_def_v(r) == struct_def_v(*self),
    {
        StructDef {
            name: self.name.clone(),
            fields: copy_fields(&self.fields),
            generic_type: copy_strings(&self.generic_type),
            size: self.size,
        }
    }
}

impl EnumData {
    pub fn duplicate(&self) -> (r: EnumData)
        ensures
            enum_data_v(r) == enum_data_v(*self),
    {
        EnumData {
            name: self.name.clone(),
            generic_type: copy_strings(&self.generic_type),
            variants: copy_variants(&self.variants),
            size: self.size,
        }
    }
}

#[derive(Debug)]
pub struct Stmt {
    pub ty: StmtType,
    pub line: usize,
    pub file: String,
}

#[derive(Debug)]
pub enum StmtType {
    Block(Vec<Stmt>),
    Declaration(Declaration),
    Assignment { target: LValue, value: Expr },
    ExprStmt(Expr),
    If { condition: Expr, if_block: Box<Stmt>, else_block: Option<Box<Stmt>> },
    While { condition: Expr, body: Box<Stmt> },
    For { init: Option<Box<Stmt>>, condition: Option<Expr>, update: Option<Box<Stmt>>, body: Box<Stmt> },
    Return(Option<Expr>),
    AsmCode(Vec<String>),
    InitFunc { name: String, args: Vec<Declaration>, ret_type: Type, data: Box<Stmt> },
    GenericInitFunc { name: String, generic_types: Vec<String>, args: Vec<Declaration>, ret_type: Type, data: Box<Stmt> },
    ExternFn(Box<Stmt>),
    InitStruct(StructDef),
    GlobalDecl(Box<Stmt>),
    InitEnum { name: String, generic_types: Vec<String>, variants: Vec<EnumVariant> },
    Match { expr: Expr, variants: Vec<MatchField> },
}

#[derive(Debug)]
pub struct MatchField {
    pub left: MatchLeftValue,
    pub right: Stmt,
}

#[derive(Debug)]
pub enum MatchLeftValue {
    Enum { base: String, value: String, args: Vec<String> },
    Expr { expr: Expr },
}

pub struct StmtV {
    pub kind: StmtKindV,
    pub line: usize,
    pub file: Seq<char>,
}

pub enum StmtKindV {
    Block(Seq<StmtV>),
    Declaration(DeclarationV),
    Assignment { target: LValueV, value: ExprV },
    ExprStmt(ExprV),
    If { condition: ExprV, if_block: Box<StmtV>, else_block: Option<Box<StmtV>> },
    While { condition: ExprV, body: Box<StmtV> },
    For { init: Option<Box<StmtV>>, condition: Option<ExprV>, update: Option<Box<StmtV>>, body: Box<StmtV> },
    Return(Option<ExprV>),
    AsmCode(Seq<Seq<char>>),
    InitFunc { name: Seq<char>, args: Seq<DeclarationV>, ret_type: TypeV, data: Box<StmtV> },
    GenericInitFunc { name: Seq<char>, generic_types: Seq<Seq<char>>, args: Seq<DeclarationV>, ret_type: TypeV, data: Box<StmtV> },
    ExternFn(Box<StmtV>),
    InitStruct(StructDefV),
    GlobalDecl(Box<StmtV>),
    InitEnum { name: Seq<char>, generic_types: Seq<Seq<char>>, variants: Seq<EnumVariantV> },
    Match { expr: ExprV, variants: Seq<(MatchLeftValueV, StmtV)> },
}

pub enum MatchLeftValueV {
    Enum { base: Seq<char>, value: Seq<char>, args: Seq<Seq<char>> },
    Expr { expr: ExprV },
}

pub open spec fn opt_expr_v(o: Option<Expr>) -> Option<ExprV> {
    match o {
        Some(e) => Some(expr_v(e)),
        None => None,
    }
}

pub open spec fn match_left_v(m: MatchLeftValue) -> MatchLeftValueV {
    match m {
        MatchLeftValue::Enum { base, value, args } => MatchLeftValueV::Enum {
            base: base@,
            value: value@,
            args: strs_v(args@),
        },
        MatchLeftValue::Expr { expr } => MatchLeftValueV::Expr { expr: expr_v(expr) },
    }
}

pub open spec fn stmt_v(s: Stmt) -> StmtV
    decreases s,
{
    StmtV { kind: stmt_kind_v(s.ty), line: s.line, file: s.file@ }
}

pub open spec fn opt_stmt_v(o: Option<Box<Stmt>>) -> Option<Box<StmtV>>
    decreases o,
{
    match o {
        Some(b) => Some(Box::new(stmt_v(*b))),
        None => None,
    }
}

pub open spec fn stmt_kind_v(k: StmtType) -> StmtKindV
    decreases k,
{
    match k {
        StmtType::Block(ss) => StmtKindV::Block(stmts_v(ss@)),
        StmtType::Declaration(d) => StmtKindV::Declaration(decl_v(d)),
        StmtType::Assignment { target, value } => StmtKindV::Assignment {
            target: lvalue_v(target),
            value: expr_v(value),
        },
        StmtType::ExprStmt(e) => StmtKindV::ExprStmt(expr_v(e)),
        StmtType::If { condition, if_block, else_block } => StmtKindV::If {
            condition: expr_v(condition),
            if_block: Box::new(stmt_v(*if_block)),
            else_block: opt_stmt_v(else_block),
        },
        StmtType::While { condition, body } => StmtKindV::While {
            condition: expr_v(condition),
            body: Box::new(stmt_v(*body)),
        },
        StmtType::For { init, condition, update, body } => StmtKindV::For {
            init: opt_stmt_v(init),
            condition: opt_expr_v(condition),
            update: opt_stmt_v(update),
            body: Box::new(stmt_v(*body)),
        },
        StmtType::Return(e) => StmtKindV::Return(opt_expr_v(e)),
        StmtType::AsmCode(lines) => StmtKindV::AsmCode(strs_v(lines@)),
        StmtType::InitFunc { name, args, ret_type, data } => StmtKindV::InitFunc {
            name: name@,
            args: decls_v(args@),
            ret_type: type_v(ret_type),
            data: Box::new(stmt_v(*data)),
        },
        StmtType::GenericInitFunc { name, generic_types, args, ret_type, data } => StmtKindV::GenericInitFunc {
            name: name@,
            generic_types: strs_v(generic_types@),
            args: decls_v(args@),
            ret_type: type_v(ret_type),
            data: Box::new(stmt_v(*data)),
        },
        StmtType::ExternFn(inner) => StmtKindV::ExternFn(Box::new(stmt_v(*inner))),
        StmtType::InitStruct(d) => StmtKindV::InitStruct(struct_def_v(d)),
        StmtType::GlobalDecl(inner) => StmtKindV::GlobalDecl(Box::new(stmt_v(*inner))),
        StmtType::InitEnum { name, generic_types, variants } => StmtKindV::InitEnum {
            name: name@,
            generic_types: strs_v(generic_types@),
            variants: variants_v(variants@),
        },
        StmtType::Match { expr, variants } => StmtKindV::Match {
            expr: expr_v(expr),
            variants: match_fields_v(variants@),
        },
    }
}

pub open spec fn stmts_v(ss: Seq<Stmt>) -> Seq<StmtV>
    decreases ss,
{
    if ss.len() == 0 {
        Seq::empty()
    } else {
        stmts_v(ss.drop_last()).push(stmt_v(ss.last()))
    }
}

pub open spec fn match_fields_v(ms: Seq<MatchField>) -> Seq<(MatchLeftValueV, StmtV)>
    decreases ms,
{
    if ms.len() == 0 {
        Seq::empty()
    } else {
        match_fields_v(ms.drop_last()).push((match_left_v(ms.last().left), stmt_v(ms.last().right)))
    }
}

pub proof fn lemma_stmts_v_push(ss: Seq<Stmt>, x: Stmt)
    ensures
        stmts_v(ss.push(x)) == stmts_v(ss).push(stmt_v(x)),
{
    assert(ss.push(x).drop_last() =~= ss);
}

pub proof fn lemma_match_fields_v_push(ms: Seq<MatchField>, m: MatchField)
    ensures
        match_fields_v(ms.push(m)) == match_fields_v(ms).push((match_left_v(m.left), stmt_v(m.right))),
{
    assert(ms.push(m).drop_last() =~= ms);
}

impl View for Stmt {
    type V = StmtV;

    open spec fn view(&self) -> StmtV {
        stmt_v(*self)
    }
}

// ---------------------------------------------------------------------------
// Code generation and semantic analysis data
// ---------------------------------------------------------------------------

/// Where a variable lives: its stack offset, its type, and whether it is global.
#[derive(Debug)]
pub struct VarData {
    pub stack_pos: usize,
    pub var_type: Type,
    pub global_flag: bool,
}

/// An address: on the stack at `[rbp - offset]`, or held in a register.
#[derive(Debug)]
pub enum Addr {
    Stack(isize),
    Reg(String),
}

/// A semantic error together with where it was found.
#[derive(Debug)]
pub struct Error {
    pub ty: SemanticError,
    pub file: String,
    pub line: usize,
    pub col: usize,
}

#[derive(Debug)]
pub enum SemanticError {
    EmptyArray,
    UndeclaredVariable(String),
    UndeclaredFunction(String),
    UndeclaredStruct(String),
    UndeclaredField(String, String),
    AlreadyDeclared(String),
    UnkownType(String),
    BreakOutsideOfLoop,
    PrivateFunctionOutsideCall(String),
    FunctionArgsMismatch { func_name: String, expected: usize, got: usize },
    ContinueOutsideOfLoop,
    VoidVariable(String),
    ArrayTooLarge { arr_name: String, expected: usize, got: usize },
    TypeMismatch { expected: Type, got: Type },
    BadType(TokenType),
    StructCountMismatch { struct_name: String, expected: usize, got: usize },
    StructTypeMismatch { struct_name: String, expected: Type, got: Type },
    StructNameNotFound { struct_name: String, got: String },
    ReturnTypeMismatch { expected: Type, got: Type },
    ReturnOutsideFunction,
    NotAPointer(Type),
    NotIndexable(Type),
    NotAStruct(Type),
    InvalidArrayIndex(Type),
    NonArrayIndex(Type),
    MatchTypeMismatch { expected: Type, got: Type },
    InvalidUnary { op: UnaryOp, ty: Type },
    InvalidBinary { op: BinOp, left: Type, right: Type },
    CastError { before: Type, after: Type },
    MatchExprUnsuported(Type),
    DerefNonPointer(Type),
    CircularStruct(String),
    NoFoundFuncOverload(String),
    MissingReturn(String),
    FileDoesntExist(String),
}

} // verus!
