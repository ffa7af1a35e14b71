use vstd::prelude::*;
use crate::ir::{
    Expr, ExprType, expr_v, exprs_v, named_exprs_v, enum_fields_v, lemma_exprs_v_push,
    lemma_named_exprs_v_push, lemma_enum_fields_v_push, EnumExprField, copy_types, copy_strings,
    LValue, lvalue_v, Declaration, decl_v, decls_v, Stmt, StmtType, stmt_v, stmt_kind_v, stmts_v,
    lemma_stmts_v_push, MatchField, MatchLeftValue, match_left_v, match_fields_v,
    lemma_match_fields_v_push, copy_variants,
};

verus! {

impl Expr {
    /// A copy of this expression with the same value.
    #[verifier::loop_isolation(false)]
    pub fn duplicate(&self) -> (r: Expr)
        ensures
            expr_v(r) == expr_v(*self),
        decreases self,
    {
        let ty = match &self.ty {
            ExprType::Number(n) => ExprType::Number(*n),
            ExprType::Variable(s) => ExprType::Variable(s.clone()),
            ExprType::Binary { op, left, right } => {
                proof {
                    assert(decreases_to!(*self => self.ty));
                }
                ExprType::Binary { op: *op, left: Box::new(left.duplicate()), right: Box::new(right.duplicate()) }
            },
            ExprType::Unary { op, expr } => ExprType::Unary { op: *op, expr: Box::new(expr.duplicate()) },
            ExprType::Call { name, generics, args } => {
                let mut out: Vec<Expr> = Vec::new();
                let mut i: usize = 0;
                while i < args.len()
                    invariant
                        i <= args.len(),
                        out@.len() == i,
                        exprs_v(out@) == exprs_v(args@.take(i as int)),
                    decreases args.len() - i,
                {
                    proof {
                        assert(decreases_to!(*self => self.ty));
                        assert(decreases_to!(self.ty => *args));
                        assert(decreases_to!(*args => args[i as int]));
                        assert(args@.take(i + 1).drop_last() =~= args@.take(i as int));
                    }
                    let e = args[i].duplicate();
                    proof { lemma_exprs_v_push(out@, e); }
                    out.push(e);
                    i = i + 1;
                }
                assert(args@.take(i as int) =~= args@);
                ExprType::Call { name: name.clone(), generics: copy_types(generics), args: out }
            },
            ExprType::StructInit { struct_name_ty, fields } => {
                let mut out: Vec<(String, Expr)> = Vec::new();
                let mut i: usize = 0;
                while i < fields.len()
                    invariant
                        i <= fields.len(),
                        out@.len() == i,
                        named_exprs_v(out@) == named_exprs_v(fields@.take(i as int)),
                    decreases fields.len() - i,
                {
                    proof {
                        assert(decreases_to!(*self => self.ty));
                        assert(decreases_to!(self.ty => *fields));
                        assert(decreases_to!(*fields => fields[i as int]));
                        assert(decreases_to!(fields[i as int] => fields[i as int].1));
                        assert(fields@.take(i + 1).drop_last() =~= fields@.take(i as int));
                    }
                    let e = (fields[i].0.clone(), fields[i].1.duplicate());
                    proof { lemma_named_exprs_v_push(out@, e); }
                    out.push(e);
                    i = i + 1;
                }
                assert(fields@.take(i as int) =~= fields@);
                ExprType::StructInit { struct_name_ty: struct_name_ty.clone(), fields: out }
            },
            ExprType::StructMember { base, name } => ExprType::StructMember { base: Box::new(base.duplicate()), name: name.clone() },
            ExprType::Deref(inner) => ExprType::Deref(Box::new(inner.duplicate())),
            ExprType::Index { base, index } => ExprType::Index { base: Box::new(base.duplicate()), index: Box::new(index.duplicate()) },
            ExprType::ArrayInit { elements } => {
                let mut out: Vec<Expr> = Vec::new();
                let mut i: usize = 0;
                while i < elements.len()
                    invariant
                        i <= elements.len(),
                        out@.len() == i,
                        exprs_v(out@) == exprs_v(elements@.take(i as int)),
                    decreases elements.len() - i,
                {
                    proof {
                        assert(decreases_to!(*self => self.ty));
                        assert(decreases_to!(self.ty => *elements));
                        assert(decreases_to!(*elements => elements[i as int]));
                        assert(elements@.take(i + 1).drop_last() =~= elements@.take(i as int));
                    }
                    let e = elements[i].duplicate();
                    proof { lemma_exprs_v_push(out@, e); }
                    out.push(e);
                    i = i + 1;
                }
                assert(elements@.take(i as int) =~= elements@);
                ExprType::ArrayInit { elements: out }
            },
            ExprType::SizeOf { ty } => ExprType::SizeOf { ty: ty.duplicate() },
            ExprType::String { str } => ExprType::String { str: str.clone() },
            ExprType::GetEnum { base, variant, value } => {
                let mut out: Vec<EnumExprField> = Vec::new();
                let mut i: usize = 0;
                while i < value.len()
                    invariant
                        i <= value.len(),
                        out@.len() == i,
                        enum_fields_v(out@) == enum_fields_v(value@.take(i as int)),
                    decreases value.len() - i,
                {
                    proof {
                        assert(decreases_to!(*self => self.ty));
                        assert(decreases_to!(self.ty => *value));
                        assert(decreases_to!(*value => value[i as int]));
                        assert(decreases_to!(value[i as int] => value[i as int].expr));
                        assert(value@.take(i + 1).drop_last() =~= value@.take(i as int));
                    }
                    let e = EnumExprField { name: value[i].name.clone(), expr: value[i].expr.duplicate() };
                    proof { lemma_enum_fields_v_push(out@, e); }
                    out.push(e);
                    i = i + 1;
                }
                assert(value@.take(i as int) =~= value@);
                ExprType::GetEnum { base: base.clone(), variant: variant.clone(), value: out }
            },
            ExprType::Cast { expr, ty } => ExprType::Cast { expr: Box::new(expr.duplicate()), ty: ty.duplicate() },
        };
        Expr { ty, file: self.file.clone(), line: self.line, col: self.col }
    }
}

impl LValue {
    /// A copy of this assignment target with the same value.
    pub fn duplicate(&self) -> (r: LValue)
        ensures
            lvalue_v(r) == lvalue_v(*self),
        decreases self,
    {
        match self {
            LValue::Variable(n) => LValue::Variable(n.clone()),
            LValue::Field { base, name } => LValue::Field { base: Box::new(base.duplicate()), name: name.clone() },
            LValue::Deref(inner) => LValue::Deref(Box::new(inner.duplicate())),
            LValue::Index { base, index } => LValue::Index { base: Box::new(base.duplicate()), index: Box::new(index.duplicate()) },
        }
    }
}

impl Declaration {
    /// A copy of this declaration with the same value.
    pub fn duplicate(&self) -> (r: Declaration)
        ensures
            decl_v(r) == decl_v(*self),
    {
        let initializer = match &self.initializer {
            Some(e) => Some(e.duplicate()),
            None => None,
        };
        Declaration { name: self.name.clone(), ty: self.ty.duplicate(), initializer }
    }
}

/// A copy of a list of declarations.
pub fn copy_decls(ds: &Vec<Declaration>) -> (r: Vec<Declaration>)
    ensures
        decls_v(r@) == decls_v(ds@),
{
    let mut out: Vec<Declaration> = Vec::new();
    let mut i: usize = 0;
    while i < ds.len()
        invariant
            i <= ds.len(),
            out@.len() == i,
            forall|j: int| 0 <= j < i ==> #[trigger] decl_v(out@[j]) == decl_v(ds@[j]),
        decreases ds.len() - i,
    {
        out.push(ds[i].duplicate());
        i = i + 1;
    }
    assert(decls_v(out@) =~= decls_v(ds@));
    out
}

impl MatchLeftValue {
    /// A copy of this pattern with the same value.
    pub fn duplicate(&self) -> (r: MatchLeftValue)
        ensures
            match_left_v(r) == match_left_v(*self),
    {
        match self {
            MatchLeftValue::Enum { base, value, args } => MatchLeftValue::Enum {
                base: base.clone(),
                value: value.clone(),
                args: copy_strings(args),
            },
            MatchLeftValue::Expr { expr } => MatchLeftValue::Expr { expr: expr.duplicate() },
        }
    }
}

impl Stmt {
    /// A copy of this statement with the same value.
    #[verifier::loop_isolation(false)]
    pub fn duplicate(&self) -> (r: Stmt)
        ensures
            stmt_v(r) == stmt_v(*self),
        decreases self,
    {
        let ty = match &self.ty {
            StmtType::Block(ss) => {
                let mut out: Vec<Stmt> = Vec::new();
                let mut i: usize = 0;
                while i < ss.len()
                    invariant
                        i <= ss.len(),
                        out@.len() == i,
                        stmts_v(out@) == stmts_v(ss@.take(i as int)),
                    decreases ss.len() - i,
                {
                    proof {
                        assert(decreases_to!(*self => self.ty));
                        assert(decreases_to!(self.ty => *ss));
                        assert(decreases_to!(*ss => ss[i as int]));
                        assert(ss@.take(i + 1).drop_last() =~= ss@.take(i as int));
                    }
                    let x = ss[i].duplicate();
                    proof { lemma_stmts_v_push(out@, x); }
                    out.push(x);
                    i = i + 1;
                }
                assert(ss@.take(i as int) =~= ss@);
                StmtType::Block(out)
            },
            StmtType::Declaration(d) => StmtType::Declaration(d.duplicate()),
            StmtType::Assignment { target, value } => StmtType::Assignment { target: target.duplicate(), value: value.duplicate() },
            StmtType::ExprStmt(e) => StmtType::ExprStmt(e.duplicate()),
            StmtType::If { condition, if_block, else_block } => {
                let else_copy = match else_block {
                    Some(b) => {
                        proof {
                            assert(decreases_to!(*self => self.ty));
                            assert(decreases_to!(self.ty => *else_block));
                            assert(decreases_to!(*else_block => *b));
                        }
                        Some(Box::new(b.duplicate()))
                    },
                    None => None,
                };
                StmtType::If { condition: condition.duplicate(), if_block: Box::new(if_block.duplicate()), else_block: else_copy }
            },
            StmtType::While { condition, body } => StmtType::While { condition: condition.duplicate(), body: Box::new(body.duplicate()) },
            StmtType::For { init, condition, update, body } => {
                let init_copy = match init {
                    Some(b) => {
                        proof {
                            assert(decreases_to!(*self => self.ty));
                            assert(decreases_to!(self.ty => *init));
                            assert(decreases_to!(*init => *b));
                        }
                        Some(Box::new(b.duplicate()))
                    },
                    None => None,
                };
                let update_copy = match update {
                    Some(b) => {
                        proof {
                            assert(decreases_to!(*self => self.ty));
                            assert(decreases_to!(self.ty => *update));
                            assert(decreases_to!(*update => *b));
                        }
                        Some(Box::new(b.duplicate()))
                    },
                    None => None,
                };
                let cond_copy = match condition {
                    Some(e) => Some(e.duplicate()),
                    None => None,
                };
                StmtType::For { init: init_copy, condition: cond_copy, update: update_copy, body: Box::new(body.duplicate()) }
            },
            StmtType::Return(e) => StmtType::Return(match e {
                Some(x) => Some(x.duplicate()),
                None => None,
            }),
            StmtType::AsmCode(lines) => StmtType::AsmCode(copy_strings(lines)),
            StmtType::InitFunc { name, args, ret_type, data } => StmtType::InitFunc {
                name: name.clone(),
                args: copy_decls(args),
                ret_type: ret_type.duplicate(),
                data: Box::new(data.duplicate()),
            },
            StmtType::GenericInitFunc { name, generic_types, args, ret_type, data } => StmtType::GenericInitFunc {
                name: name.clone(),
                generic_types: copy_strings(generic_types),
                args: copy_decls(args),
                ret_type: ret_type.duplicate(),
                data: Box::new(data.duplicate()),
            },
            StmtType::ExternFn(inner) => StmtType::ExternFn(Box::new(inner.duplicate())),
            StmtType::InitStruct(d) => StmtType::InitStruct(d.duplicate()),
            StmtType::GlobalDecl(inner) => StmtType::GlobalDecl(Box::new(inner.duplicate())),
            StmtType::InitEnum { name, generic_types, variants } => StmtType::InitEnum {
                name: name.clone(),
                generic_types: copy_strings(generic_types),
                variants: copy_variants(variants),
            },
            StmtType::Match { expr, variants } => {
                let mut out: Vec<MatchField> = Vec::new();
                let mut i: usize = 0;
                while i < variants.len()
                    invariant
                        i <= variants.len(),
                        out@.len() == i,
                        match_fields_v(out@) == match_fields_v(variants@.take(i as int)),
                    decreases variants.len() - i,
                {
                    proof {
                        assert(decreases_to!(*self => self.ty));
                        assert(decreases_to!(self.ty => *variants));
                        assert(decreases_to!(*variants => variants[i as int]));
                        assert(decreases_to!(variants[i as int] => variants[i as int].right));
                        assert(variants@.take(i + 1).drop_last() =~= variants@.take(i as int));
                    }
                    let m = MatchField { left: variants[i].left.duplicate(), right: variants[i].right.duplicate() };
                    proof { lemma_match_fields_v_push(out@, m); }
                    out.push(m);
                    i = i + 1;
                }
                assert(variants@.take(i as int) =~= variants@);
                StmtType::Match { expr: expr.duplicate(), variants: out }
            },
        };
        assert(stmt_kind_v(ty) == stmt_kind_v(self.ty));
        let r = Stmt { ty, line: self.line, file: self.file.clone() };
        assert(stmt_v(r) == stmt_v(*self));
        r
    }
}

} // verus!
