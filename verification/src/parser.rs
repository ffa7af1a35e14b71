use vstd::prelude::*;
use crate::ir::{StructDefV, EnumDataV, MatchField, MatchLeftValueV, stmt_v, opt_stmt_v, lemma_stmts_v_push, match_fields_v, lemma_match_fields_v_push, LValue, LValueV, MatchLeftValue, match_left_v, StructField, StructFieldV, field_v, fields_v, EnumVariant, EnumVariantV, variant_v, variants_v, copy_strings, copy_variants, type_v, opt_str_v, Stmt, StmtType, StmtV, StmtKindV, stmt_kind_v, stmts_v, Declaration, DeclarationV, decl_v, decls_v, Type, TypeV, Expr, ExprType, ExprV, ExprKindV, EnumExprField, BinOp, UnaryOp, StructDef, EnumData, strs_v, struct_def_v, enum_data_v, exprs_v, named_exprs_v, enum_fields_v, types_v, lemma_types_v_push, lemma_exprs_v_push, lemma_named_exprs_v_push, lemma_enum_fields_v_push};
use crate::grammar::{Ctx, set_add, struct_names, struct_insert, enum_names, enum_insert, struct_find, enum_find, mk, expect_s, is_type_s, ptr_count_s, apply_ptr_s, get_type_s, parse_array_s, type_arg_s, lemma_type_arg, lemma_type_args_end, type_args_s, generic_types_s, bin_op_s, precedence_s, expr_s, binary_s, binary_loop_s, unary_s, postfix_s, ident_s, postfix_loop_s, call_args_s, paren_args_s, enum_fields_s, struct_fields_s, array_elems_s, primary_s, utf8_len, declaration_s, params_s, args_s, generic_names_s, generic_s, ret_type_s, mk_stmt, extern_s, size_of_s, custom_type_s, struct_members_s, struct_init_s, variant_members_s, enum_variant_s, enum_variants_s, enum_s, variant_names, variant_insert, skip_brackets_s, target_suffix_s, stars_end, assignment_start_s, wrap_deref, lvalue_suffix_s, assignment_s, asm_lines_s, asm_s, ret_s, global_s, expr_stmt_s, pattern_names_s, match_left_s, stmt_s, if_s, while_s, for_s, func_s, block_s, block_items_s, match_s, match_arms_s, top_level_s, types_union, structs_merge, enums_merge, merge_ctx};
use crate::shared::{mangled_type_name, first_index, lemma_first_index};
use crate::text::{is_lit, from_lit, chars_of, parse_i64, parse_usize, parse_int_s};
use crate::tokenizer::{Token, TokenType, TokenV, tokens_v};


verus! {

/// Prepends `acc` to the list of a successful partial parse.
pub open spec fn prepend_res<A>(acc: Seq<A>, o: Option<(Seq<A>, int)>) -> Option<(Seq<A>, int)> {
    match o {
        Some((rest, r)) => Some((acc + rest, r)),
        None => None,
    }
}

pub proof fn lemma_prepend_res<A>(acc: Seq<A>, a: A, o: Option<(Seq<A>, int)>)
    ensures
        prepend_res(acc, prepend_res(seq![a], o)) == prepend_res(acc.push(a), o),
{
    if let Some((rest, r)) = o {
        assert(acc + (seq![a] + rest) =~= acc.push(a) + rest);
    }
}

pub proof fn lemma_prepend_empty<A>(o: Option<(Seq<A>, int)>)
    ensures
        prepend_res(Seq::<A>::empty(), o) == o,
{
    if let Some((rest, r)) = o {
        assert(Seq::<A>::empty() + rest =~= rest);
    }
}

/// The parsed value (if any) matches the grammar's result and position.
pub open spec fn agrees<T, V>(r: Option<T>, view: spec_fn(T) -> V, s: Option<(V, int)>, q: int) -> bool {
    match s {
        None => r is None,
        Some((v, p)) => r is Some && view(r.unwrap()) == v && q == p,
    }
}

/// The parsed value (if any) matches the grammar's result, position and the
/// declarations it leaves behind.
pub open spec fn agrees_in<T, V>(r: Option<T>, view: spec_fn(T) -> V, s: Option<(V, int, Ctx)>, q: int, c: Ctx) -> bool {
    match s {
        None => r is None,
        Some((v, p, c1)) => r is Some && view(r.unwrap()) == v && q == p && c == c1,
    }
}

/// The outcome of one postfix operation.
pub enum Step {
    /// the chain ends with this expression
    Done(Expr),
    /// the chain goes on from this expression
    Next(Expr),
    /// the tokens do not continue the chain
    Fail,
}

/// One postfix operation agrees with the grammar.
pub open spec fn step_ok(r: Step, e: ExprV, ts: Seq<TokenV>, p: int, c: Ctx, q: int) -> bool {
    match r {
        Step::Fail => postfix_loop_s(e, ts, p, c) is None,
        Step::Done(x) => postfix_loop_s(e, ts, p, c) == Some((x@, q)),
        Step::Next(x) => p < q <= ts.len() && postfix_loop_s(e, ts, p, c) == postfix_loop_s(x@, ts, q, c),
    }
}

/// The recursive descent parser over a token list.
pub struct Parser {
    m_tokens: Vec<Token>,
    m_index: usize,
    struct_table: Vec<StructDef>,
    types: Vec<String>,
    enums_table: Vec<EnumData>,
    current_file: String,
    line: usize,
    col: usize,
    generic: Vec<String>,
}

impl Parser {
    /// The tokens being parsed.
    pub closed spec fn tokens(&self) -> Seq<TokenV> {
        tokens_v(self.m_tokens@)
    }

    /// The position of the next token.
    pub closed spec fn pos(&self) -> int {
        self.m_index as int
    }

    /// The declarations and names known to the parser.
    pub closed spec fn ctx(&self) -> Ctx {
        Ctx {
            types: strs_v(self.types@),
            structs: Seq::new(self.struct_table@.len(), |i: int| struct_def_v(self.struct_table@[i])),
            enums: Seq::new(self.enums_table@.len(), |i: int| enum_data_v(self.enums_table@[i])),
            generic: strs_v(self.generic@),
            file: self.current_file@,
            line: self.line,
            col: self.col,
        }
    }

    pub closed spec fn wf(&self) -> bool {
        self.m_index <= self.m_tokens@.len()
    }

    /// Only the position changed.
    pub closed spec fn moved_from(&self, old: Parser) -> bool {
        &&& self.m_tokens == old.m_tokens
        &&& self.struct_table == old.struct_table
        &&& self.types == old.types
        &&& self.enums_table == old.enums_table
        &&& self.current_file == old.current_file
        &&& self.line == old.line
        &&& self.col == old.col
        &&& self.generic == old.generic
    }

    proof fn lemma_moved_ctx(&self, old: Parser)
        requires
            self.moved_from(old),
        ensures
            self.tokens() == old.tokens(),
            self.ctx() == old.ctx(),
    {
    }

    /// The same tokens, file and position in it: only the reading position
    /// and the declarations may differ.
    pub open spec fn same_input(&self, old: Parser) -> bool {
        &&& self.tokens() == old.tokens()
        &&& self.ctx().file == old.ctx().file
        &&& self.ctx().line == old.ctx().line
        &&& self.ctx().col == old.ctx().col
    }

    proof fn lemma_wf(&self)
        requires
            self.wf(),
        ensures
            0 <= self.pos() <= self.tokens().len(),
    {
    }

    // -----------------------------------------------------------------------
    // Token access
    // -----------------------------------------------------------------------

    /// The reading position.
    fn at_pos(&self) -> (r: usize)
        ensures
            r == self.pos(),
    {
        self.m_index
    }

    /// The kind of the token `offset` places ahead, if there is one.
    fn kind_at(&self, offset: usize) -> (k: Option<TokenType>)
        requires
            self.wf(),
        ensures
            (self.pos() + offset < self.tokens().len()) == (k is Some),
            k matches Some(x) ==> x == self.tokens()[self.pos() + offset].kind,
    {
        if offset < self.m_tokens.len() - self.m_index {
            Some(self.m_tokens[self.m_index + offset].token)
        } else {
            None
        }
    }

    /// The text of the token `offset` places ahead.
    fn text_at(&self, offset: usize) -> (t: Option<String>)
        requires
            self.wf(),
            self.pos() + offset < self.tokens().len(),
        ensures
            match self.tokens()[self.pos() + offset].text {
                Some(x) => t is Some && t.unwrap()@ == x,
                None => t is None,
            },
    {
        let n = self.m_tokens.len();
        match &self.m_tokens[self.m_index + offset].value {
            Some(v) => Some(v.clone()),
            None => None,
        }
    }

    fn advance(&mut self, n: usize)
        requires
            old(self).wf(),
            old(self).pos() + n <= old(self).tokens().len(),
        ensures
            final(self).wf(),
            final(self).moved_from(*old(self)),
            final(self).pos() == old(self).pos() + n,
    {
        let len = self.m_tokens.len();
        assert(len == old(self).tokens().len());
        self.m_index = self.m_index + n;
    }

    /// Steps over a token of kind `ty`; `Some(true)` when it was there.
    pub fn expect(&mut self, ty: TokenType) -> (r: Option<bool>)
        requires
            old(self).wf(),
            old(self).pos() < old(self).tokens().len(),
        ensures
            final(self).wf(),
            final(self).moved_from(*old(self)),
            Some(final(self).pos()) == expect_s(old(self).tokens(), old(self).pos(), ty),
            r == (if old(self).tokens()[old(self).pos()].kind == ty { Some(true) } else { None::<bool> }),
    {
        if self.m_tokens[self.m_index].token != ty {
            return None;
        }
        self.advance(1);
        Some(true)
    }

    fn mk_expr(&self, ty: ExprType) -> (e: Expr)
        ensures
            e@ == mk(crate::ir::expr_kind_v(ty), self.ctx()),
    {
        Expr { ty, file: self.current_file.clone(), line: self.line, col: self.col }
    }

    fn is_declared_type(&self, name: &String) -> (r: bool)
        ensures
            r == self.ctx().types.contains(name@),
    {
        let mut i: usize = 0;
        while i < self.types.len()
            invariant
                i <= self.types@.len(),
                forall|j: int| 0 <= j < i ==> self.types@[j]@ != name@,
            decreases self.types.len() - i,
        {
            if self.types[i].eq(name) {
                assert(strs_v(self.types@)[i as int] == name@);
                return true;
            }
            i = i + 1;
        }
        assert(!strs_v(self.types@).contains(name@));
        false
    }

    fn is_generic_name(&self, name: &String) -> (r: bool)
        ensures
            r == self.ctx().generic.contains(name@),
    {
        let mut i: usize = 0;
        while i < self.generic.len()
            invariant
                i <= self.generic@.len(),
                forall|j: int| 0 <= j < i ==> self.generic@[j]@ != name@,
            decreases self.generic.len() - i,
        {
            if self.generic[i].eq(name) {
                assert(strs_v(self.generic@)[i as int] == name@);
                return true;
            }
            i = i + 1;
        }
        assert(!strs_v(self.generic@).contains(name@));
        false
    }

    fn has_struct(&self, name: &String) -> (r: bool)
        ensures
            r == (struct_find(self.ctx().structs, name@) is Some),
    {
        let ghost ss = self.ctx().structs;
        assert(ss.subrange(0, ss.len() as int) =~= ss);
        let mut i: usize = 0;
        while i < self.struct_table.len()
            invariant
                i <= self.struct_table@.len(),
                ss == self.ctx().structs,
                ss.len() == self.struct_table@.len(),
                struct_find(ss, name@) == struct_find(ss.subrange(i as int, ss.len() as int), name@),
            decreases self.struct_table.len() - i,
        {
            let ghost rest = ss.subrange(i as int, ss.len() as int);
            assert(rest.drop_first() =~= ss.subrange(i + 1, ss.len() as int));
            if self.struct_table[i].name.eq(name) {
                return true;
            }
            i = i + 1;
        }
        false
    }

    fn has_enum(&self, name: &String) -> (r: bool)
        ensures
            r == (enum_find(self.ctx().enums, name@) is Some),
    {
        let ghost es = self.ctx().enums;
        assert(es.subrange(0, es.len() as int) =~= es);
        let mut i: usize = 0;
        while i < self.enums_table.len()
            invariant
                i <= self.enums_table@.len(),
                es == self.ctx().enums,
                es.len() == self.enums_table@.len(),
                enum_find(es, name@) == enum_find(es.subrange(i as int, es.len() as int), name@),
            decreases self.enums_table.len() - i,
        {
            let ghost rest = es.subrange(i as int, es.len() as int);
            assert(rest.drop_first() =~= es.subrange(i + 1, es.len() as int));
            if self.enums_table[i].name.eq(name) {
                return true;
            }
            i = i + 1;
        }
        false
    }

    /// The size recorded for the first struct declared under `name`.
    fn struct_size(&self, name: &String) -> (r: Option<usize>)
        ensures
            r == (match struct_find(self.ctx().structs, name@) {
                Some(d) => Some(d.size),
                None => None::<usize>,
            }),
    {
        let ghost ss = self.ctx().structs;
        assert(ss.subrange(0, ss.len() as int) =~= ss);
        let mut i: usize = 0;
        while i < self.struct_table.len()
            invariant
                i <= self.struct_table@.len(),
                ss == self.ctx().structs,
                ss.len() == self.struct_table@.len(),
                struct_find(ss, name@) == struct_find(ss.subrange(i as int, ss.len() as int), name@),
            decreases self.struct_table.len() - i,
        {
            let ghost rest = ss.subrange(i as int, ss.len() as int);
            assert(rest.drop_first() =~= ss.subrange(i + 1, ss.len() as int));
            if self.struct_table[i].name.eq(name) {
                return Some(self.struct_table[i].size);
            }
            i = i + 1;
        }
        None
    }

    /// Declares `name` as a type name.
    fn declare_type(&mut self, name: &String)
        requires
            old(self).wf(),
        ensures
            final(self).wf(),
            final(self).pos() == old(self).pos(),
            final(self).same_input(*old(self)),
            final(self).ctx() == (Ctx { types: set_add(old(self).ctx().types, name@), ..old(self).ctx() }),
    {
        if !self.is_declared_type(name) {
            self.types.push(name.clone());
            proof {
                assert(strs_v(self.types@) =~= strs_v(old(self).types@).push(name@));
            }
        }
    }

    /// Declares `name` as a generic parameter.
    fn declare_generic(&mut self, name: &String)
        requires
            old(self).wf(),
        ensures
            final(self).wf(),
            final(self).pos() == old(self).pos(),
            final(self).same_input(*old(self)),
            final(self).ctx() == (Ctx { generic: set_add(old(self).ctx().generic, name@), ..old(self).ctx() }),
    {
        if !self.is_generic_name(name) {
            self.generic.push(name.clone());
            proof {
                assert(strs_v(self.generic@) =~= strs_v(old(self).generic@).push(name@));
            }
        }
    }

    /// Records a struct declaration, replacing one of the same name.
    fn insert_struct(&mut self, d: StructDef)
        requires
            old(self).wf(),
        ensures
            final(self).wf(),
            final(self).pos() == old(self).pos(),
            final(self).same_input(*old(self)),
            final(self).ctx() == (Ctx { structs: struct_insert(old(self).ctx().structs, struct_def_v(d)), ..old(self).ctx() }),
    {
        let ghost ss = old(self).ctx().structs;
        let ghost names = struct_names(ss);
        proof { lemma_first_index(names, d.name@); }
        let mut i: usize = 0;
        while i < self.struct_table.len()
            invariant
                i <= self.struct_table@.len(),
                *self == *old(self),
                old(self).wf(),
                ss == old(self).ctx().structs,
                names == struct_names(ss),
                names.len() == self.struct_table@.len(),
                forall|j: int| 0 <= j < i ==> names[j] != d.name@,
                first_index(names, d.name@) matches Some(k) ==> 0 <= k < names.len() && names[k] == d.name@
                    && forall|j: int| 0 <= j < k ==> names[j] != d.name@,
                first_index(names, d.name@) is None ==> forall|j: int| 0 <= j < names.len() ==> names[j] != d.name@,
            decreases self.struct_table.len() - i,
        {
            assert(names[i as int] == self.struct_table@[i as int].name@);
            if self.struct_table[i].name.eq(&d.name) {
                assert(first_index(names, d.name@) == Some(i as int));
                self.struct_table.set(i, d);
                proof {
                    assert(self.ctx().structs =~= ss.update(i as int, struct_def_v(d)));
                }
                return;
            }
            i = i + 1;
        }
        assert(first_index(names, d.name@) is None);
        self.struct_table.push(d);
        proof {
            assert(self.ctx().structs =~= ss.push(struct_def_v(d)));
        }
    }

    /// Records an enum declaration, replacing one of the same name.
    fn insert_enum(&mut self, d: EnumData)
        requires
            old(self).wf(),
        ensures
            final(self).wf(),
            final(self).pos() == old(self).pos(),
            final(self).same_input(*old(self)),
            final(self).ctx() == (Ctx { enums: enum_insert(old(self).ctx().enums, enum_data_v(d)), ..old(self).ctx() }),
    {
        let ghost es = old(self).ctx().enums;
        let ghost names = enum_names(es);
        proof { lemma_first_index(names, d.name@); }
        let mut i: usize = 0;
        while i < self.enums_table.len()
            invariant
                i <= self.enums_table@.len(),
                *self == *old(self),
                old(self).wf(),
                es == old(self).ctx().enums,
                names == enum_names(es),
                names.len() == self.enums_table@.len(),
                forall|j: int| 0 <= j < i ==> names[j] != d.name@,
                first_index(names, d.name@) matches Some(k) ==> 0 <= k < names.len() && names[k] == d.name@
                    && forall|j: int| 0 <= j < k ==> names[j] != d.name@,
                first_index(names, d.name@) is None ==> forall|j: int| 0 <= j < names.len() ==> names[j] != d.name@,
            decreases self.enums_table.len() - i,
        {
            assert(names[i as int] == self.enums_table@[i as int].name@);
            if self.enums_table[i].name.eq(&d.name) {
                assert(first_index(names, d.name@) == Some(i as int));
                self.enums_table.set(i, d);
                proof {
                    assert(self.ctx().enums =~= es.update(i as int, enum_data_v(d)));
                }
                return;
            }
            i = i + 1;
        }
        assert(first_index(names, d.name@) is None);
        self.enums_table.push(d);
        proof {
            assert(self.ctx().enums =~= es.push(enum_data_v(d)));
        }
    }

    /// Whether a token starts a type.
    pub fn is_type(&self, token: &Token) -> (r: bool)
        ensures
            r == is_type_s(token@, self.ctx()),
    {
        match token.token {
            TokenType::IntType | TokenType::CharType | TokenType::LongType | TokenType::ShortType
            | TokenType::Void => true,
            TokenType::Var => match &token.value {
                Some(name) => self.is_declared_type(name),
                None => false,
            },
            _ => false,
        }
    }

    // -----------------------------------------------------------------------
    // Types
    // -----------------------------------------------------------------------

    /// Counts and steps over consecutive `*` tokens.
    pub fn parse_ptr(&mut self) -> (r: Option<u32>)
        requires
            old(self).wf(),
        ensures
            final(self).wf(),
            final(self).moved_from(*old(self)),
            match ptr_count_s(old(self).tokens(), old(self).pos()) {
                None => r is None,
                Some((n, q)) => r == Some(n as u32) && final(self).pos() == q,
            },
    {
        let ghost ts = self.tokens();
        let ghost p0 = self.pos();
        let mut index: u32 = 0;
        loop
            invariant
                self.wf(),
                self.moved_from(*old(self)),
                ts == self.tokens(),
                p0 == old(self).pos(),
                p0 <= self.pos(),
                ptr_count_s(ts, p0) == match ptr_count_s(ts, self.pos()) {
                    Some((n, q)) => if n + index > u32::MAX { None } else { Some(((n + index) as nat, q)) },
                    None => None,
                },
            decreases ts.len() - self.pos(),
        {
            match self.kind_at(0) {
                Some(TokenType::Mul) => {},
                _ => {
                    return Some(index);
                },
            }
            if index == u32::MAX {
                proof {
                    assert(ptr_count_s(ts, self.pos()) matches Some((n, _)) ==> n >= 1);
                }
                return None;
            }
            index = index + 1;
            self.advance(1);
        }
    }

    /// `ty` behind `index` pointers.
    pub fn apply_ptr(&mut self, ty: Type, index: u32) -> (r: Type)
        ensures
            r@ == apply_ptr_s(ty@, index as nat),
            *final(self) == *old(self),
    {
        let ghost ty0 = ty@;
        let mut ty = ty;
        let mut i: u32 = 0;
        while i < index
            invariant
                i <= index,
                ty@ == apply_ptr_s(ty0, i as nat),
            decreases index - i,
        {
            ty = Type::Pointer(Box::new(ty));
            i = i + 1;
        }
        ty
    }

    /// Reads a base type name (see `get_type_s`).
    pub fn get_type(&mut self) -> (r: Option<Type>)
        requires
            old(self).wf(),
        ensures
            final(self).wf(),
            final(self).moved_from(*old(self)),
            agrees(r, |t: Type| t@, get_type_s(old(self).tokens(), old(self).pos(), old(self).ctx()), final(self).pos()),
    {
        let k = match self.kind_at(0) {
            None => return None,
            Some(k) => k,
        };
        if k == TokenType::Var {
            let name = match self.text_at(0) {
                None => return None,
                Some(n) => n,
            };
            if !self.is_declared_type(&name) {
                return None;
            }
            self.advance(1);
            if self.has_struct(&name) {
                Some(Type::Struct(name))
            } else if self.has_enum(&name) {
                Some(Type::Enum(name, None))
            } else if self.is_generic_name(&name) {
                Some(Type::GenericType(name))
            } else {
                Some(Type::Unknown)
            }
        } else {
            self.advance(1);
            Some(Type::Primitive(k))
        }
    }

    /// Reads array suffixes `[N]` and `[]` after a type.
    pub fn parse_array(&mut self, ty: Type) -> (r: Option<Type>)
        requires
            old(self).wf(),
        ensures
            final(self).wf(),
            final(self).moved_from(*old(self)),
            agrees(r, |t: Type| t@, parse_array_s(ty@, old(self).tokens(), old(self).pos()), final(self).pos()),
    {
        let ghost ts = self.tokens();
        let ghost target = parse_array_s(ty@, ts, self.pos());
        let mut cur = ty;
        loop
            invariant
                self.wf(),
                self.moved_from(*old(self)),
                ts == self.tokens(),
                ts == old(self).tokens(),
                target == parse_array_s(ty@, ts, old(self).pos()),
                target == parse_array_s(cur@, ts, self.pos()),
            decreases ts.len() - self.pos(),
        {
            match self.kind_at(0) {
                Some(TokenType::OpenBracket) => {},
                _ => return Some(cur),
            }
            if self.kind_at(1).is_none() {
                return None;
            }
            let size_kind = self.kind_at(1).unwrap();
            if size_kind != TokenType::CloseBracket {
                let txt = match self.text_at(1) {
                    None => return None,
                    Some(t) => t,
                };
                let digits = chars_of(txt.as_str());
                let size = match parse_usize(&digits) {
                    None => return None,
                    Some(n) => n,
                };
                self.advance(2);
                if self.kind_at(0).is_none() {
                    return None;
                }
                self.expect(TokenType::CloseBracket);
                cur = Type::Array(Box::new(cur), size);
            } else {
                self.advance(2);
                cur = Type::Array(Box::new(cur), 0);
            }
        }
    }

    /// One type argument (see `type_arg_s`).
    fn parse_type_arg(&mut self) -> (r: Option<Type>)
        requires
            old(self).wf(),
        ensures
            final(self).wf(),
            final(self).moved_from(*old(self)),
            agrees(r, |t: Type| t@, type_arg_s(old(self).tokens(), old(self).pos(), old(self).ctx()), final(self).pos()),
    {
        let pre = match self.parse_ptr() { None => return None, Some(n) => n };
        let ty = match self.get_type() { None => return None, Some(t) => t };
        let post = match self.parse_ptr() { None => return None, Some(n) => n };
        let ty = match self.parse_array(ty) { None => return None, Some(t) => t };
        if pre > u32::MAX - post {
            return None;
        }
        Some(self.apply_ptr(ty, pre + post))
    }

    /// Type arguments up to the closing `>` (not consumed).
    fn parse_type_args(&mut self) -> (r: Option<Vec<Type>>)
        requires
            old(self).wf(),
        ensures
            final(self).wf(),
            final(self).moved_from(*old(self)),
            agrees(r, |v: Vec<Type>| types_v(v@), type_args_s(old(self).tokens(), old(self).pos(), old(self).ctx()), final(self).pos()),
    {
        let ghost ts = self.tokens();
        let ghost c = self.ctx();
        let ghost target = type_args_s(ts, self.pos(), c);
        let mut res: Vec<Type> = Vec::new();
        proof { lemma_prepend_empty(target); }
        loop
            invariant
                self.wf(),
                self.moved_from(*old(self)),
                ts == self.tokens(),
                c == self.ctx(),
                ts == old(self).tokens(),
                c == old(self).ctx(),
                target == type_args_s(ts, old(self).pos(), c),
                target == prepend_res(types_v(res@), type_args_s(ts, self.pos(), c)),
            decreases ts.len() - self.pos(),
        {
            let k = match self.kind_at(0) {
                None => return None,
                Some(k) => k,
            };
            if k == TokenType::More {
                assert(types_v(res@) + Seq::<TypeV>::empty() =~= types_v(res@));
                return Some(res);
            }
            let ghost p = self.pos();
            proof { lemma_type_arg(ts, p, c); }
            let t = match self.parse_type_arg() { None => return None, Some(t) => t };
            match self.kind_at(0) {
                None => return None,
                Some(TokenType::Coma) => self.advance(1),
                _ => {},
            }
            proof {
                lemma_prepend_res(types_v(res@), t@, type_args_s(ts, self.pos(), c));
                lemma_types_v_push(res@, t);
            }
            res.push(t);
        }
    }

    /// `<T, ...>` after a base type (see `generic_types_s`).
    pub fn parse_generic_types(&mut self, ty: Type) -> (r: Option<Type>)
        requires
            old(self).wf(),
        ensures
            final(self).wf(),
            final(self).moved_from(*old(self)),
            agrees(r, |t: Type| t@, generic_types_s(ty@, old(self).tokens(), old(self).pos(), old(self).ctx()), final(self).pos()),
    {
        match self.kind_at(0) {
            None => return None,
            Some(TokenType::Less) => {},
            _ => return Some(ty),
        }
        self.advance(1);
        proof { lemma_type_args_end(self.tokens(), self.pos(), self.ctx()); }
        let args = match self.parse_type_args() { None => return None, Some(a) => a };
        self.expect(TokenType::More);
        Some(Type::GenericInst(mangled_type_name(&ty), args))
    }

    // -----------------------------------------------------------------------
    // Expressions
    // -----------------------------------------------------------------------

    fn precedence(op: &BinOp) -> (r: u8)
        ensures
            r == precedence_s(*op),
    {
        match op {
            BinOp::Mul | BinOp::Div | BinOp::Mod => 10,
            BinOp::Add | BinOp::Sub => 8,
            BinOp::ShiftLeft | BinOp::ShiftRight => 7,
            BinOp::BitAnd => 6,
            BinOp::BitXor => 5,
            BinOp::BitOr => 4,
            BinOp::Lt | BinOp::Lte | BinOp::Gt | BinOp::Gte => 3,
            BinOp::Eq | BinOp::Neq => 3,
            BinOp::And => 2,
            BinOp::Or => 1,
        }
    }

    fn is_bin_op(ty: TokenType) -> (r: Option<BinOp>)
        ensures
            r == bin_op_s(ty),
    {
        match ty {
            TokenType::Add => Some(BinOp::Add),
            TokenType::Sub => Some(BinOp::Sub),
            TokenType::Mul => Some(BinOp::Mul),
            TokenType::Div => Some(BinOp::Div),
            TokenType::AsertEq => Some(BinOp::Eq),
            TokenType::NotEq => Some(BinOp::Neq),
            TokenType::LessThan => Some(BinOp::Lte),
            TokenType::Less => Some(BinOp::Lt),
            TokenType::More => Some(BinOp::Gt),
            TokenType::MoreThan => Some(BinOp::Gte),
            TokenType::And => Some(BinOp::And),
            TokenType::Or => Some(BinOp::Or),
            TokenType::Remainder => Some(BinOp::Mod),
            TokenType::Address => Some(BinOp::BitAnd),
            TokenType::BitOr => Some(BinOp::BitOr),
            TokenType::BitXor => Some(BinOp::BitXor),
            TokenType::LeftShift => Some(BinOp::ShiftLeft),
            TokenType::RightShift => Some(BinOp::ShiftRight),
            _ => None,
        }
    }

    /// Parses an expression at the current position.
    pub fn parse_expr(&mut self) -> (r: Option<Expr>)
        requires
            old(self).wf(),
        ensures
            final(self).wf(),
            final(self).moved_from(*old(self)),
            agrees(r, |e: Expr| e@, expr_s(old(self).tokens(), old(self).pos(), old(self).ctx()), final(self).pos()),
        decreases old(self).tokens().len() - old(self).pos(), 5int,
    {
        self.parse_binary(0)
    }

    fn parse_binary(&mut self, min_prec: u8) -> (r: Option<Expr>)
        requires
            old(self).wf(),
        ensures
            final(self).wf(),
            final(self).moved_from(*old(self)),
            agrees(r, |e: Expr| e@, binary_s(min_prec, old(self).tokens(), old(self).pos(), old(self).ctx()), final(self).pos()),
        decreases old(self).tokens().len() - old(self).pos(), 4int,
    {
        let ghost ts = self.tokens();
        let ghost c = self.ctx();
        let start = self.m_index;
        let first = match self.parse_unary() { None => return None, Some(e) => e };
        if self.m_index <= start {
            return None;
        }
        match self.kind_at(0) {
            None => return None,
            Some(TokenType::Semi) => return Some(first),
            _ => {},
        }
        let mut left = first;
        loop
            invariant
                self.wf(),
                self.moved_from(*old(self)),
                ts == self.tokens(),
                c == self.ctx(),
                ts == old(self).tokens(),
                c == old(self).ctx(),
                start == old(self).pos(),
                start < self.pos(),
                binary_s(min_prec, ts, start as int, c) == binary_loop_s(left@, min_prec, ts, self.pos(), c),
            decreases ts.len() - self.pos(),
        {
            let k = match self.kind_at(0) { None => return None, Some(k) => k };
            let op = match Parser::is_bin_op(k) { None => return Some(left), Some(op) => op };
            let prec = Parser::precedence(&op);
            if prec < min_prec {
                return Some(left);
            }
            let before = self.m_index;
            self.advance(1);
            let right = match self.parse_binary(prec + 1) { None => return None, Some(e) => e };
            if self.m_index <= before {
                return None;
            }
            left = self.mk_expr(ExprType::Binary { op, left: Box::new(left), right: Box::new(right) });
        }
    }

    fn parse_unary(&mut self) -> (r: Option<Expr>)
        requires
            old(self).wf(),
        ensures
            final(self).wf(),
            final(self).moved_from(*old(self)),
            agrees(r, |e: Expr| e@, unary_s(old(self).tokens(), old(self).pos(), old(self).ctx()), final(self).pos()),
        decreases old(self).tokens().len() - old(self).pos(), 3int,
    {
        let k = match self.kind_at(0) { None => return None, Some(k) => k };
        match k {
            TokenType::Mul => {
                self.advance(1);
                let rhs = match self.parse_unary() { None => return None, Some(e) => e };
                Some(self.mk_expr(ExprType::Deref(Box::new(rhs))))
            },
            TokenType::Address => {
                self.advance(1);
                let rhs = match self.parse_unary() { None => return None, Some(e) => e };
                Some(self.mk_expr(ExprType::Unary { op: UnaryOp::GetAddr, expr: Box::new(rhs) }))
            },
            TokenType::Sub => {
                self.advance(1);
                let rhs = match self.parse_unary() { None => return None, Some(e) => e };
                Some(self.mk_expr(ExprType::Unary { op: UnaryOp::Neg, expr: Box::new(rhs) }))
            },
            TokenType::Not => {
                self.advance(1);
                let rhs = match self.parse_unary() { None => return None, Some(e) => e };
                Some(self.mk_expr(ExprType::Unary { op: UnaryOp::Not, expr: Box::new(rhs) }))
            },
            _ => self.parse_postfix_chain(),
        }
    }

    fn expr_to_ident(&self, expr: Expr) -> (r: Option<String>)
        ensures
            match ident_s(expr@) {
                Some(n) => r is Some && r.unwrap()@ == n,
                None => r is None,
            },
    {
        match expr.ty {
            ExprType::Variable(var) => Some(var),
            _ => None,
        }
    }

    /// A primary expression followed by postfix operations.
    pub fn parse_postfix_chain(&mut self) -> (r: Option<Expr>)
        requires
            old(self).wf(),
        ensures
            final(self).wf(),
            final(self).moved_from(*old(self)),
            agrees(r, |e: Expr| e@, postfix_s(old(self).tokens(), old(self).pos(), old(self).ctx()), final(self).pos()),
        decreases old(self).tokens().len() - old(self).pos(), 2int,
    {
        let ghost ts = self.tokens();
        let ghost c = self.ctx();
        let start = self.m_index;
        let first = match self.parse_primary() { None => return None, Some(e) => e };
        if self.m_index <= start {
            return None;
        }
        let mut expr = first;
        loop
            invariant
                self.wf(),
                self.moved_from(*old(self)),
                ts == self.tokens(),
                c == self.ctx(),
                ts == old(self).tokens(),
                c == old(self).ctx(),
                start == old(self).pos(),
                start < self.pos(),
                postfix_s(ts, start as int, c) == postfix_loop_s(expr@, ts, self.pos(), c),
            decreases ts.len() - self.pos(),
        {
            let k = match self.kind_at(0) { None => return None, Some(k) => k };
            let step = match k {
                TokenType::OpenBracket => self.postfix_index(expr),
                TokenType::As => self.postfix_cast(expr),
                TokenType::Dot => self.postfix_member(expr, false),
                TokenType::Access => self.postfix_member(expr, true),
                TokenType::Less => self.postfix_generic_call(expr),
                TokenType::OpenParen => self.postfix_call(expr),
                TokenType::Colon => self.postfix_enum(expr),
                _ => return Some(expr),
            };
            match step {
                Step::Fail => return None,
                Step::Done(e) => return Some(e),
                Step::Next(e) => {
                    expr = e;
                },
            }
        }
    }

    /// `[index]` after an expression.
    fn postfix_index(&mut self, expr: Expr) -> (r: Step)
        requires
            old(self).wf(),
            old(self).pos() < old(self).tokens().len(),
            old(self).tokens()[old(self).pos()].kind == TokenType::OpenBracket,
        ensures
            final(self).wf(),
            final(self).moved_from(*old(self)),
            step_ok(r, expr@, old(self).tokens(), old(self).pos(), old(self).ctx(), final(self).pos()),
        decreases old(self).tokens().len() - old(self).pos(), 0int,
    {
        let before = self.m_index;
        self.advance(1);
        let index = match self.parse_expr() { None => return Step::Fail, Some(e) => e };
        if self.kind_at(0).is_none() {
            return Step::Fail;
        }
        self.expect(TokenType::CloseBracket);
        if self.m_index <= before {
            return Step::Fail;
        }
        Step::Next(self.mk_expr(ExprType::Index { base: Box::new(expr), index: Box::new(index) }))
    }

    /// `as T` after an expression.
    fn postfix_cast(&mut self, expr: Expr) -> (r: Step)
        requires
            old(self).wf(),
            old(self).pos() < old(self).tokens().len(),
            old(self).tokens()[old(self).pos()].kind == TokenType::As,
        ensures
            final(self).wf(),
            final(self).moved_from(*old(self)),
            step_ok(r, expr@, old(self).tokens(), old(self).pos(), old(self).ctx(), final(self).pos()),
    {
        let before = self.m_index;
        self.advance(1);
        let pre = match self.parse_ptr() { None => return Step::Fail, Some(n) => n };
        let ty = match self.get_type() { None => return Step::Fail, Some(t) => t };
        let post = match self.parse_ptr() { None => return Step::Fail, Some(n) => n };
        if pre > u32::MAX - post {
            return Step::Fail;
        }
        let ty = self.apply_ptr(ty, pre + post);
        if self.m_index <= before {
            return Step::Fail;
        }
        Step::Next(self.mk_expr(ExprType::Cast { expr: Box::new(expr), ty }))
    }

    /// `.field` (or `->field`, which dereferences first) after an expression.
    fn postfix_member(&mut self, expr: Expr, deref: bool) -> (r: Step)
        requires
            old(self).wf(),
            old(self).pos() < old(self).tokens().len(),
            old(self).tokens()[old(self).pos()].kind == (if deref { TokenType::Access } else { TokenType::Dot }),
        ensures
            final(self).wf(),
            final(self).moved_from(*old(self)),
            step_ok(r, expr@, old(self).tokens(), old(self).pos(), old(self).ctx(), final(self).pos()),
    {
        if self.kind_at(1).is_none() {
            return Step::Fail;
        }
        let name = match self.text_at(1) { None => return Step::Fail, Some(n) => n };
        self.advance(2);
        if deref {
            let base = self.mk_expr(ExprType::Deref(Box::new(expr)));
            Step::Next(self.mk_expr(ExprType::StructMember { base: Box::new(base), name }))
        } else {
            Step::Next(self.mk_expr(ExprType::StructMember { base: Box::new(expr), name }))
        }
    }

    /// `<T, ...>(args)` after a name; stops the chain when `<` is not
    /// followed by a type.
    fn postfix_generic_call(&mut self, expr: Expr) -> (r: Step)
        requires
            old(self).wf(),
            old(self).pos() < old(self).tokens().len(),
            old(self).tokens()[old(self).pos()].kind == TokenType::Less,
        ensures
            final(self).wf(),
            final(self).moved_from(*old(self)),
            step_ok(r, expr@, old(self).tokens(), old(self).pos(), old(self).ctx(), final(self).pos()),
        decreases old(self).tokens().len() - old(self).pos(), 0int,
    {
        let before = self.m_index;
        if self.kind_at(1).is_none() {
            return Step::Fail;
        }
        let n = self.m_tokens.len();
        if !self.is_type(&self.m_tokens[self.m_index + 1]) {
            return Step::Done(expr);
        }
        self.advance(1);
        proof { lemma_type_args_end(self.tokens(), self.pos(), self.ctx()); }
        let generics = match self.parse_type_args() { None => return Step::Fail, Some(g) => g };
        if self.m_index < before {
            return Step::Fail;
        }
        self.advance(1);
        let k1 = match self.kind_at(0) { None => return Step::Fail, Some(k1) => k1 };
        let args = if k1 != TokenType::CloseParen {
            self.advance(1);
            match self.parse_call_args() { None => return Step::Fail, Some(a) => a }
        } else {
            Vec::new()
        };
        if self.kind_at(0).is_none() {
            return Step::Fail;
        }
        self.expect(TokenType::CloseParen);
        let name = match self.expr_to_ident(expr) { None => return Step::Fail, Some(n) => n };
        if self.m_index <= before {
            return Step::Fail;
        }
        Step::Next(self.mk_expr(ExprType::Call { generics, name, args }))
    }

    /// `(args)` after a name.
    fn postfix_call(&mut self, expr: Expr) -> (r: Step)
        requires
            old(self).wf(),
            old(self).pos() < old(self).tokens().len(),
            old(self).tokens()[old(self).pos()].kind == TokenType::OpenParen,
        ensures
            final(self).wf(),
            final(self).moved_from(*old(self)),
            step_ok(r, expr@, old(self).tokens(), old(self).pos(), old(self).ctx(), final(self).pos()),
        decreases old(self).tokens().len() - old(self).pos(), 0int,
    {
        let before = self.m_index;
        let k1 = match self.kind_at(1) { None => return Step::Fail, Some(k1) => k1 };
        self.advance(1);
        let args = if k1 != TokenType::CloseParen {
            match self.parse_paren_args() { None => return Step::Fail, Some(a) => a }
        } else {
            Vec::new()
        };
        if self.kind_at(0).is_none() {
            return Step::Fail;
        }
        self.expect(TokenType::CloseParen);
        let name = match self.expr_to_ident(expr) { None => return Step::Fail, Some(n) => n };
        if self.m_index <= before {
            return Step::Fail;
        }
        Step::Next(self.mk_expr(ExprType::Call { generics: Vec::new(), name, args }))
    }

    /// `::Variant` or `::Variant(field: value, ...)` after an enum name.
    fn postfix_enum(&mut self, expr: Expr) -> (r: Step)
        requires
            old(self).wf(),
            old(self).pos() < old(self).tokens().len(),
            old(self).tokens()[old(self).pos()].kind == TokenType::Colon,
        ensures
            final(self).wf(),
            final(self).moved_from(*old(self)),
            step_ok(r, expr@, old(self).tokens(), old(self).pos(), old(self).ctx(), final(self).pos()),
        decreases old(self).tokens().len() - old(self).pos(), 0int,
    {
        let before = self.m_index;
        self.expect(TokenType::Colon);
        if self.kind_at(0).is_none() {
            return Step::Fail;
        }
        self.expect(TokenType::Colon);
        if self.kind_at(0).is_none() {
            return Step::Fail;
        }
        let variant = match self.text_at(0) { None => return Step::Fail, Some(v) => v };
        self.advance(1);
        let k1 = match self.kind_at(0) { None => return Step::Fail, Some(k1) => k1 };
        let value = if k1 == TokenType::OpenParen {
            self.advance(1);
            let fs = match self.parse_enum_fields() { None => return Step::Fail, Some(f) => f };
            if self.kind_at(0).is_none() {
                return Step::Fail;
            }
            self.expect(TokenType::CloseParen);
            fs
        } else {
            Vec::new()
        };
        let base = match self.expr_to_ident(expr) { None => return Step::Fail, Some(n) => n };
        if self.m_index <= before {
            return Step::Fail;
        }
        Step::Next(self.mk_expr(ExprType::GetEnum { base, variant, value }))
    }

    /// Arguments after `name<T>(` up to the closing `)` (not consumed).
    fn parse_call_args(&mut self) -> (r: Option<Vec<Expr>>)
        requires
            old(self).wf(),
        ensures
            final(self).wf(),
            final(self).moved_from(*old(self)),
            agrees(r, |v: Vec<Expr>| exprs_v(v@), call_args_s(old(self).tokens(), old(self).pos(), old(self).ctx()), final(self).pos()),
        decreases old(self).tokens().len() - old(self).pos(), 6int,
    {
        let ghost ts = self.tokens();
        let ghost c = self.ctx();
        let ghost target = call_args_s(ts, self.pos(), c);
        let start = self.m_index;
        let mut res: Vec<Expr> = Vec::new();
        proof { lemma_prepend_empty(target); }
        loop
            invariant
                self.wf(),
                self.moved_from(*old(self)),
                ts == self.tokens(),
                c == self.ctx(),
                ts == old(self).tokens(),
                c == old(self).ctx(),
                start == old(self).pos(),
                start <= self.pos(),
                target == call_args_s(ts, start as int, c),
                target == prepend_res(exprs_v(res@), call_args_s(ts, self.pos(), c)),
            decreases ts.len() - self.pos(),
        {
            let before = self.m_index;
            let k = match self.kind_at(0) { None => return None, Some(k) => k };
            if k == TokenType::CloseParen {
                assert(exprs_v(res@) + Seq::<ExprV>::empty() =~= exprs_v(res@));
                return Some(res);
            }
            let a = match self.parse_expr() { None => return None, Some(e) => e };
            if self.m_index <= before {
                return None;
            }
            match self.kind_at(0) {
                None => return None,
                Some(TokenType::Coma) => self.advance(1),
                _ => {},
            }
            proof {
                lemma_prepend_res(exprs_v(res@), a@, call_args_s(ts, self.pos(), c));
                lemma_exprs_v_push(res@, a);
            }
            res.push(a);
        }
    }

    /// Arguments after `name(` up to the closing `)` (not consumed).
    fn parse_paren_args(&mut self) -> (r: Option<Vec<Expr>>)
        requires
            old(self).wf(),
        ensures
            final(self).wf(),
            final(self).moved_from(*old(self)),
            agrees(r, |v: Vec<Expr>| exprs_v(v@), paren_args_s(old(self).tokens(), old(self).pos(), old(self).ctx()), final(self).pos()),
        decreases old(self).tokens().len() - old(self).pos(), 6int,
    {
        let ghost ts = self.tokens();
        let ghost c = self.ctx();
        let ghost target = paren_args_s(ts, self.pos(), c);
        let start = self.m_index;
        let mut res: Vec<Expr> = Vec::new();
        proof { lemma_prepend_empty(target); }
        loop
            invariant
                self.wf(),
                self.moved_from(*old(self)),
                ts == self.tokens(),
                c == self.ctx(),
                ts == old(self).tokens(),
                c == old(self).ctx(),
                start == old(self).pos(),
                start <= self.pos(),
                target == paren_args_s(ts, start as int, c),
                target == prepend_res(exprs_v(res@), paren_args_s(ts, self.pos(), c)),
            decreases ts.len() - self.pos(),
        {
            let before = self.m_index;
            let a = match self.parse_expr() { None => return None, Some(e) => e };
            if self.m_index <= before {
                return None;
            }
            let k = match self.kind_at(0) { None => return None, Some(k) => k };
            if k == TokenType::CloseParen {
                proof {
                    lemma_exprs_v_push(res@, a);
                    assert(exprs_v(res@) + seq![a@] =~= exprs_v(res@).push(a@));
                }
                res.push(a);
                return Some(res);
            }
            self.expect(TokenType::Coma);
            proof {
                lemma_prepend_res(exprs_v(res@), a@, paren_args_s(ts, self.pos(), c));
                lemma_exprs_v_push(res@, a);
            }
            res.push(a);
        }
    }

    /// `name: expr` fields of an enum value up to `)` (not consumed).
    fn parse_enum_fields(&mut self) -> (r: Option<Vec<EnumExprField>>)
        requires
            old(self).wf(),
        ensures
            final(self).wf(),
            final(self).moved_from(*old(self)),
            agrees(r, |v: Vec<EnumExprField>| enum_fields_v(v@), enum_fields_s(old(self).tokens(), old(self).pos(), old(self).ctx()), final(self).pos()),
        decreases old(self).tokens().len() - old(self).pos(), 6int,
    {
        let ghost ts = self.tokens();
        let ghost c = self.ctx();
        let ghost target = enum_fields_s(ts, self.pos(), c);
        let start = self.m_index;
        let mut res: Vec<EnumExprField> = Vec::new();
        proof { lemma_prepend_empty(target); }
        loop
            invariant
                self.wf(),
                self.moved_from(*old(self)),
                ts == self.tokens(),
                c == self.ctx(),
                ts == old(self).tokens(),
                c == old(self).ctx(),
                start == old(self).pos(),
                start <= self.pos(),
                target == enum_fields_s(ts, start as int, c),
                target == prepend_res(enum_fields_v(res@), enum_fields_s(ts, self.pos(), c)),
            decreases ts.len() - self.pos(),
        {
            let before = self.m_index;
            let k = match self.kind_at(0) { None => return None, Some(k) => k };
            if k == TokenType::CloseParen {
                assert(enum_fields_v(res@) + Seq::<(Seq<char>, ExprV)>::empty() =~= enum_fields_v(res@));
                return Some(res);
            }
            let name = match self.text_at(0) { None => return None, Some(n) => n };
            self.advance(1);
            if self.kind_at(0).is_none() {
                return None;
            }
            self.expect(TokenType::Colon);
            let e = match self.parse_expr() { None => return None, Some(e) => e };
            if self.m_index <= before {
                return None;
            }
            match self.kind_at(0) {
                None => return None,
                Some(TokenType::Coma) => self.advance(1),
                _ => {},
            }
            let f = EnumExprField { name, expr: e };
            proof {
                lemma_prepend_res(enum_fields_v(res@), (f.name@, f.expr@), enum_fields_s(ts, self.pos(), c));
                lemma_enum_fields_v_push(res@, f);
            }
            res.push(f);
        }
    }

    /// `field: expr` initializers of a struct value up to `}` (not consumed).
    fn parse_struct_fields(&mut self) -> (r: Option<Vec<(String, Expr)>>)
        requires
            old(self).wf(),
        ensures
            final(self).wf(),
            final(self).moved_from(*old(self)),
            agrees(r, |v: Vec<(String, Expr)>| named_exprs_v(v@), struct_fields_s(old(self).tokens(), old(self).pos(), old(self).ctx()), final(self).pos()),
        decreases old(self).tokens().len() - old(self).pos(), 6int,
    {
        let ghost ts = self.tokens();
        let ghost c = self.ctx();
        let ghost target = struct_fields_s(ts, self.pos(), c);
        let start = self.m_index;
        let mut res: Vec<(String, Expr)> = Vec::new();
        proof { lemma_prepend_empty(target); }
        loop
            invariant
                self.wf(),
                self.moved_from(*old(self)),
                ts == self.tokens(),
                c == self.ctx(),
                ts == old(self).tokens(),
                c == old(self).ctx(),
                start == old(self).pos(),
                start <= self.pos(),
                target == struct_fields_s(ts, start as int, c),
                target == prepend_res(named_exprs_v(res@), struct_fields_s(ts, self.pos(), c)),
            decreases ts.len() - self.pos(),
        {
            let before = self.m_index;
            let k = match self.kind_at(0) { None => return None, Some(k) => k };
            if k == TokenType::CloseScope {
                assert(named_exprs_v(res@) + Seq::<(Seq<char>, ExprV)>::empty() =~= named_exprs_v(res@));
                return Some(res);
            }
            if k != TokenType::Var {
                return None;
            }
            let name = match self.text_at(0) { None => return None, Some(n) => n };
            self.advance(1);
            if self.kind_at(0).is_none() {
                return None;
            }
            self.expect(TokenType::Colon);
            let e = match self.parse_expr() { None => return None, Some(e) => e };
            if self.m_index <= before {
                return None;
            }
            let k2 = match self.kind_at(0) { None => return None, Some(k2) => k2 };
            if k2 != TokenType::CloseScope {
                self.expect(TokenType::Coma);
            }
            let f = (name, e);
            proof {
                lemma_prepend_res(named_exprs_v(res@), (f.0@, f.1@), struct_fields_s(ts, self.pos(), c));
                lemma_named_exprs_v_push(res@, f);
            }
            res.push(f);
        }
    }

    /// Elements of an array literal up to `}` (not consumed).
    fn parse_array_elems(&mut self) -> (r: Option<Vec<Expr>>)
        requires
            old(self).wf(),
        ensures
            final(self).wf(),
            final(self).moved_from(*old(self)),
            agrees(r, |v: Vec<Expr>| exprs_v(v@), array_elems_s(old(self).tokens(), old(self).pos(), old(self).ctx()), final(self).pos()),
        decreases old(self).tokens().len() - old(self).pos(), 6int,
    {
        let ghost ts = self.tokens();
        let ghost c = self.ctx();
        let ghost target = array_elems_s(ts, self.pos(), c);
        let start = self.m_index;
        let mut res: Vec<Expr> = Vec::new();
        proof { lemma_prepend_empty(target); }
        loop
            invariant
                self.wf(),
                self.moved_from(*old(self)),
                ts == self.tokens(),
                c == self.ctx(),
                ts == old(self).tokens(),
                c == old(self).ctx(),
                start == old(self).pos(),
                start <= self.pos(),
                target == array_elems_s(ts, start as int, c),
                target == prepend_res(exprs_v(res@), array_elems_s(ts, self.pos(), c)),
            decreases ts.len() - self.pos(),
        {
            let before = self.m_index;
            let k = match self.kind_at(0) { None => return None, Some(k) => k };
            if k == TokenType::CloseScope {
                assert(exprs_v(res@) + Seq::<ExprV>::empty() =~= exprs_v(res@));
                return Some(res);
            }
            let a = match self.parse_expr() { None => return None, Some(e) => e };
            if self.m_index <= before {
                return None;
            }
            match self.kind_at(0) {
                None => return None,
                Some(TokenType::Coma) => self.advance(1),
                _ => {},
            }
            proof {
                lemma_prepend_res(exprs_v(res@), a@, array_elems_s(ts, self.pos(), c));
                lemma_exprs_v_push(res@, a);
            }
            res.push(a);
        }
    }

    fn parse_number(&self, radix: u32) -> (r: Option<i64>)
        requires
            self.wf(),
            self.pos() < self.tokens().len(),
            radix == 10 || radix == 16,
        ensures
            match self.tokens()[self.pos()].text {
                None => r is None,
                Some(txt) => match parse_int_s(txt, radix as int, i64::MIN as int, i64::MAX as int) {
                    None => r is None,
                    Some(v) => r == Some(v as i64),
                },
            },
    {
        let txt = match self.text_at(0) { None => return None, Some(t) => t };
        let digits = chars_of(txt.as_str());
        parse_i64(&digits, radix)
    }

    /// A primary expression (see `primary_s`).
    #[verifier::rlimit(40)]
    fn parse_primary(&mut self) -> (r: Option<Expr>)
        requires
            old(self).wf(),
        ensures
            final(self).wf(),
            final(self).moved_from(*old(self)),
            agrees(r, |e: Expr| e@, primary_s(old(self).tokens(), old(self).pos(), old(self).ctx()), final(self).pos()),
        decreases old(self).tokens().len() - old(self).pos(), 1int,
    {
        let k = match self.kind_at(0) { None => return None, Some(k) => k };
        match k {
            TokenType::Var => {
                let name = match self.text_at(0) { None => return None, Some(n) => n };
                self.advance(1);
                if self.is_declared_type(&name) {
                    let k1 = match self.kind_at(0) { None => return None, Some(k1) => k1 };
                    if k1 == TokenType::OpenScope {
                        self.advance(1);
                        let fields = match self.parse_struct_fields() { None => return None, Some(f) => f };
                        if self.kind_at(0).is_none() {
                            return None;
                        }
                        self.expect(TokenType::CloseScope);
                        return Some(self.mk_expr(ExprType::StructInit { fields, struct_name_ty: name }));
                    }
                }
                Some(self.mk_expr(ExprType::Variable(name)))
            },
            TokenType::Num | TokenType::CharValue => {
                let v = match self.parse_number(10) { None => return None, Some(v) => v };
                self.advance(1);
                Some(self.mk_expr(ExprType::Number(v)))
            },
            TokenType::HexNum => {
                let v = match self.parse_number(16) { None => return None, Some(v) => v };
                self.advance(1);
                Some(self.mk_expr(ExprType::Number(v)))
            },
            TokenType::Mul => {
                self.advance(1);
                let rhs = match self.parse_primary() { None => return None, Some(e) => e };
                Some(self.mk_expr(ExprType::Deref(Box::new(rhs))))
            },
            TokenType::Not => {
                self.advance(1);
                let rhs = match self.parse_primary() { None => return None, Some(e) => e };
                Some(self.mk_expr(ExprType::Unary { op: UnaryOp::Not, expr: Box::new(rhs) }))
            },
            TokenType::Sub => {
                self.advance(1);
                let rhs = match self.parse_primary() { None => return None, Some(e) => e };
                Some(self.mk_expr(ExprType::Unary { op: UnaryOp::Neg, expr: Box::new(rhs) }))
            },
            TokenType::OpenScope => {
                self.advance(1);
                let elements = match self.parse_array_elems() { None => return None, Some(e) => e };
                if self.kind_at(0).is_none() {
                    return None;
                }
                self.expect(TokenType::CloseScope);
                Some(self.mk_expr(ExprType::ArrayInit { elements }))
            },
            TokenType::SizeOf => {
                self.advance(1);
                if self.kind_at(0).is_none() {
                    return None;
                }
                self.expect(TokenType::OpenParen);
                let pre = match self.parse_ptr() { None => return None, Some(n) => n };
                let base = match self.get_type() { None => return None, Some(t) => t };
                let ty = match self.parse_generic_types(base) { None => return None, Some(t) => t };
                let post = match self.parse_ptr() { None => return None, Some(n) => n };
                if pre > u32::MAX - post {
                    return None;
                }
                let ty = self.apply_ptr(ty, pre + post);
                let ty = match self.parse_array(ty) { None => return None, Some(t) => t };
                if self.kind_at(0).is_none() {
                    return None;
                }
                self.expect(TokenType::CloseParen);
                Some(self.mk_expr(ExprType::SizeOf { ty }))
            },
            TokenType::String => {
                let str = match self.text_at(0) { None => return None, Some(t) => t };
                self.advance(1);
                Some(self.mk_expr(ExprType::String { str }))
            },
            TokenType::OpenParen => {
                self.advance(1);
                let e = match self.parse_expr() { None => return None, Some(e) => e };
                if self.kind_at(0).is_none() {
                    return None;
                }
                self.expect(TokenType::CloseParen);
                Some(e)
            },
            _ => None,
        }
    }
}

// ---------------------------------------------------------------------------
// Statements
// ---------------------------------------------------------------------------


/// Prepends `acc` to the list of a successful partial parse that also
/// carries the declarations made.
pub open spec fn prepend_in<A>(acc: Seq<A>, o: Option<(Seq<A>, int, Ctx)>) -> Option<(Seq<A>, int, Ctx)> {
    match o {
        Some((rest, r, c)) => Some((acc + rest, r, c)),
        None => None,
    }
}

pub proof fn lemma_prepend_in<A>(acc: Seq<A>, a: A, o: Option<(Seq<A>, int, Ctx)>)
    ensures
        prepend_in(acc, prepend_in(seq![a], o)) == prepend_in(acc.push(a), o),
{
    if let Some((rest, r, c)) = o {
        assert(acc + (seq![a] + rest) =~= acc.push(a) + rest);
    }
}

pub proof fn lemma_prepend_in_empty<A>(o: Option<(Seq<A>, int, Ctx)>)
    ensures
        prepend_in(Seq::<A>::empty(), o) == o,
{
    if let Some((rest, r, c)) = o {
        assert(Seq::<A>::empty() + rest =~= rest);
    }
}

/// The bytes of one character in UTF-8.
pub open spec fn utf8_width(c: char) -> int {
    if (c as u32) < 0x80 { 1int } else if (c as u32) < 0x800 { 2int } else if (c as u32) < 0x10000 { 3int } else { 4int }
}

proof fn lemma_utf8_take(s: Seq<char>, i: int)
    requires
        0 <= i < s.len(),
    ensures
        utf8_len(s.take(i + 1)) == utf8_len(s.take(i)) + utf8_width(s[i]),
{
    assert(s.take(i + 1).drop_last() =~= s.take(i));
}

proof fn lemma_utf8_mono(s: Seq<char>, i: int)
    requires
        0 <= i <= s.len(),
    ensures
        utf8_len(s.take(i)) <= utf8_len(s),
    decreases s.len() - i,
{
    if i < s.len() {
        lemma_utf8_take(s, i);
        lemma_utf8_mono(s, i + 1);
    } else {
        assert(s.take(i) =~= s);
    }
}

/// The UTF-8 length of a string plus one (room for its terminating zero),
/// when that fits in `usize`.
pub(crate) fn c_string_size(s: &String) -> (r: Option<usize>)
    ensures
        match r {
            Some(n) => n == utf8_len(s@) + 1,
            None => utf8_len(s@) + 1 > usize::MAX,
        },
{
    let cs = chars_of(s.as_str());
    let mut total: usize = 1;
    let mut i: usize = 0;
    assert(cs@.take(0) =~= Seq::<char>::empty());
    while i < cs.len()
        invariant
            i <= cs@.len(),
            cs@ == s@,
            total == utf8_len(cs@.take(i as int)) + 1,
        decreases cs.len() - i,
    {
        let c = cs[i];
        let w: usize = if (c as u32) < 0x80 { 1 } else if (c as u32) < 0x800 { 2 } else if (c as u32) < 0x10000 { 3 } else { 4 };
        proof { lemma_utf8_take(cs@, i as int); }
        if total > usize::MAX - w {
            proof { lemma_utf8_mono(cs@, i + 1); }
            return None;
        }
        total = total + w;
        i = i + 1;
    }
    assert(cs@.take(i as int) =~= cs@);
    Some(total)
}

impl Parser {
    /// The grammar's declaration, on the parser's tokens and declarations.
    pub open spec fn declaration_here(&self) -> Option<(DeclarationV, int)> {
        declaration_s(self.tokens(), self.pos(), self.ctx())
    }

    /// A declaration `T name`, `T[] name` or `T name = expr` (see
    /// `declaration_s`).
    #[verifier::rlimit(50)]
    #[verifier::spinoff_prover]
    fn parse_decl(&mut self) -> (r: Option<Declaration>)
        requires
            old(self).wf(),
        ensures
            final(self).wf(),
            final(self).moved_from(*old(self)),
            agrees(r, |d: Declaration| decl_v(d), old(self).declaration_here(), final(self).pos()),
    {
        reveal(declaration_s);
        let ghost ts = self.tokens();
        let ghost c = self.ctx();
        let pre = match self.parse_ptr() { None => return None, Some(n) => n };
        let base = match self.get_type() { None => return None, Some(t) => t };
        let g = match self.parse_generic_types(base) { None => return None, Some(t) => t };
        let post = match self.parse_ptr() { None => return None, Some(n) => n };
        let g = match self.parse_array(g) { None => return None, Some(t) => t };
        if self.kind_at(0).is_none() {
            return None;
        }
        let ghost p4 = self.pos();
        let name = self.text_at(0);
        self.advance(1);
        let arr = match self.parse_array(g) { None => return None, Some(t) => t };
        if pre > u32::MAX - post {
            return None;
        }
        let next = match self.kind_at(0) { None => return None, Some(k) => k };
        let ty = self.apply_ptr(arr, pre + post);
        if next == TokenType::Eq {
            self.advance(1);
            let init = match self.parse_expr() { None => return None, Some(e) => e };
            let is_c_string = Parser::is_c_string_decl(&ty, &init);
            let ty2 = if is_c_string {
                let size = match &init.ty {
                    ExprType::String { str } => c_string_size(str),
                    _ => None,
                };
                match size {
                    None => return None,
                    Some(n) => {
                        let ch = Type::Primitive(TokenType::CharType);
                        assert(ch@ == TypeV::Primitive(TokenType::CharType));
                        Type::Array(Box::new(ch), n)
                    },
                }
            } else {
                ty
            };
            proof {
                assert(ts[p4].text == opt_str_v(name));
                assert(expr_s(ts, p4 + 1 + 0, c) == expr_s(ts, p4 + 1, c));
                if is_c_string {
                    assert(init@.kind matches ExprKindV::String { .. });
                    assert(ty2@ matches TypeV::Array(inner, _) && *inner == TypeV::Primitive(TokenType::CharType));
                } else {
                    assert(ty2@ == ty@);
                }
            }
            match name {
                None => None,
                Some(n) => {
                    let d = Declaration { name: n, ty: ty2, initializer: Some(init) };
                    assert(declaration_s(ts, old(self).pos(), c) == Some((decl_v(d), self.pos())));
                    Some(d)
                },
            }
        } else {
            match name {
                None => None,
                Some(n) => {
                    let d = Declaration { name: n, ty, initializer: None };
                    assert(declaration_s(ts, old(self).pos(), c) == Some((decl_v(d), self.pos())));
                    Some(d)
                },
            }
        }
    }

    /// Wraps a statement kind with the current position.
    pub fn type_to_stmt(&self, ty: StmtType) -> (r: Stmt)
        ensures
            r@ == mk_stmt(stmt_kind_v(ty), self.ctx()),
    {
        Stmt { ty, line: self.line, file: self.current_file.clone() }
    }

    /// A declaration statement (without its `;`).
    pub fn parse_declaration(&mut self) -> (r: Option<Stmt>)
        requires
            old(self).wf(),
        ensures
            final(self).wf(),
            final(self).moved_from(*old(self)),
            match old(self).declaration_here() {
                None => r is None,
                Some((d, q)) => r is Some && r.unwrap()@ == mk_stmt(StmtKindV::Declaration(d), old(self).ctx())
                    && final(self).pos() == q,
            },
    {
        let d = match self.parse_decl() { None => return None, Some(d) => d };
        Some(self.type_to_stmt(StmtType::Declaration(d)))
    }

    /// Parameter declarations up to and including `)` (see `params_s`).
    fn parse_params(&mut self) -> (r: Option<Vec<Declaration>>)
        requires
            old(self).wf(),
        ensures
            final(self).wf(),
            final(self).moved_from(*old(self)),
            agrees(r, |v: Vec<Declaration>| decls_v(v@), params_s(old(self).tokens(), old(self).pos(), old(self).ctx()), final(self).pos()),
    {
        let ghost ts = self.tokens();
        let ghost c = self.ctx();
        let ghost target = params_s(ts, self.pos(), c);
        let mut res: Vec<Declaration> = Vec::new();
        proof { lemma_prepend_empty(target); }
        loop
            invariant
                self.wf(),
                self.moved_from(*old(self)),
                ts == self.tokens(),
                c == self.ctx(),
                target == params_s(ts, old(self).pos(), c),
                target == prepend_res(decls_v(res@), params_s(ts, self.pos(), c)),
            decreases ts.len() - self.pos(),
        {
            let k = match self.kind_at(0) { None => return None, Some(k) => k };
            if k == TokenType::CloseParen {
                self.advance(1);
                assert(decls_v(res@) + Seq::<DeclarationV>::empty() =~= decls_v(res@));
                return Some(res);
            }
            let start = self.at_pos();
            let d = match self.parse_decl() { None => return None, Some(d) => d };
            if self.at_pos() <= start {
                return None;
            }
            match self.kind_at(0) {
                None => return None,
                Some(TokenType::Coma) => self.advance(1),
                _ => {},
            }
            proof {
                lemma_prepend_res(decls_v(res@), decl_v(d), params_s(ts, self.pos(), c));
                assert(decls_v(res@.push(d)) =~= decls_v(res@).push(decl_v(d)));
            }
            res.push(d);
        }
    }

    /// `(T a, U b)`: a parameter list (see `args_s`).
    pub fn parse_args(&mut self) -> (r: Option<Vec<Declaration>>)
        requires
            old(self).wf(),
        ensures
            final(self).wf(),
            final(self).moved_from(*old(self)),
            agrees(r, |v: Vec<Declaration>| decls_v(v@), args_s(old(self).tokens(), old(self).pos(), old(self).ctx()), final(self).pos()),
    {
        if self.kind_at(0).is_none() {
            return None;
        }
        self.expect(TokenType::OpenParen);
        self.parse_params()
    }

    /// Generic parameter names up to `>`, each declared as a type and as a
    /// generic parameter (see `generic_names_s`).
    fn parse_generic_names(&mut self) -> (r: Option<Vec<String>>)
        requires
            old(self).wf(),
        ensures
            final(self).wf(),
            final(self).same_input(*old(self)),
            agrees_in(r, |v: Vec<String>| strs_v(v@), generic_names_s(old(self).tokens(), old(self).pos(), old(self).ctx()),
                final(self).pos(), final(self).ctx()),
    {
        let ghost ts = self.tokens();
        let ghost target = generic_names_s(ts, self.pos(), self.ctx());
        let mut res: Vec<String> = Vec::new();
        proof { lemma_prepend_in_empty(target); }
        loop
            invariant
                self.wf(),
                self.same_input(*old(self)),
                ts == self.tokens(),
                target == generic_names_s(ts, old(self).pos(), old(self).ctx()),
                target == prepend_in(strs_v(res@), generic_names_s(ts, self.pos(), self.ctx())),
            decreases ts.len() - self.pos(),
        {
            let k = match self.kind_at(0) { None => return None, Some(k) => k };
            if k == TokenType::More {
                assert(strs_v(res@) + Seq::<Seq<char>>::empty() =~= strs_v(res@));
                return Some(res);
            }
            let name = match self.text_at(0) {
                Some(v) => v,
                None => mangled_type_name(&Type::Primitive(k)),
            };
            let ghost c0 = self.ctx();
            let ghost p0 = self.pos();
            if self.kind_at(1).is_none() {
                return None;
            }
            self.advance(1);
            match self.kind_at(0) {
                None => return None,
                Some(TokenType::Coma) => self.advance(1),
                _ => {},
            }
            self.declare_type(&name);
            self.declare_generic(&name);
            proof {
                assert(self.ctx() == (Ctx { types: set_add(c0.types, name@), generic: set_add(c0.generic, name@), ..c0 }));
                lemma_prepend_in(strs_v(res@), name@, generic_names_s(ts, self.pos(), self.ctx()));
                assert(strs_v(res@.push(name)) =~= strs_v(res@).push(name@));
            }
            res.push(name);
        }
    }

    /// An optional `<A, B>` list of generic parameters; the `>` is expected
    /// in either case (see `generic_s`).
    pub fn parse_generic(&mut self) -> (r: Option<Vec<String>>)
        requires
            old(self).wf(),
        ensures
            final(self).wf(),
            final(self).same_input(*old(self)),
            agrees_in(r, |v: Vec<String>| strs_v(v@), generic_s(old(self).tokens(), old(self).pos(), old(self).ctx()),
                final(self).pos(), final(self).ctx()),
    {
        reveal(generic_s);
        let k = match self.kind_at(0) { None => return None, Some(k) => k };
        if k == TokenType::Less {
            self.advance(1);
            let names = match self.parse_generic_names() { None => return None, Some(n) => n };
            if self.kind_at(0).is_none() {
                return None;
            }
            self.expect(TokenType::More);
            Some(names)
        } else {
            self.expect(TokenType::More);
            let names: Vec<String> = Vec::new();
            assert(strs_v(names@) =~= Seq::<Seq<char>>::empty());
            Some(names)
        }
    }

    /// An optional `-> T` return type, `void` without one (see `ret_type_s`).
    fn parse_ret_type(&mut self) -> (r: Option<Type>)
        requires
            old(self).wf(),
        ensures
            final(self).wf(),
            final(self).moved_from(*old(self)),
            agrees(r, |t: Type| t@, ret_type_s(old(self).tokens(), old(self).pos(), old(self).ctx()), final(self).pos()),
    {
        reveal(ret_type_s);
        let k = match self.kind_at(0) { None => return None, Some(k) => k };
        if k != TokenType::Access {
            let v = Type::Primitive(TokenType::Void);
            assert(v@ == TypeV::Primitive(TokenType::Void));
            return Some(v);
        }
        self.advance(1);
        let pre = match self.parse_ptr() { None => return None, Some(n) => n };
        let base = match self.get_type() { None => return None, Some(t) => t };
        let g = match self.parse_generic_types(base) { None => return None, Some(t) => t };
        let arr = match self.parse_array(g) { None => return None, Some(t) => t };
        let post = match self.parse_ptr() { None => return None, Some(n) => n };
        if pre > u32::MAX - post {
            return None;
        }
        Some(self.apply_ptr(arr, pre + post))
    }

    /// `extern fn name<..>(params) -> T` (see `extern_s`).
    fn parse_extern(&mut self) -> (r: Option<Stmt>)
        requires
            old(self).wf(),
        ensures
            final(self).wf(),
            final(self).same_input(*old(self)),
            agrees_in(r, |s: Stmt| s@, extern_s(old(self).tokens(), old(self).pos(), old(self).ctx()),
                final(self).pos(), final(self).ctx()),
    {
        reveal(extern_s);
        if self.kind_at(0).is_none() {
            return None;
        }
        self.expect(TokenType::ExternFn);
        if self.kind_at(1).is_none() {
            return None;
        }
        let name = match self.text_at(1) { None => return None, Some(n) => n };
        self.advance(2);
        let _generics = match self.parse_generic() { None => return None, Some(g) => g };
        let args = match self.parse_args() { None => return None, Some(a) => a };
        let ret_type = match self.parse_ret_type() { None => return None, Some(t) => t };
        let body = self.type_to_stmt(StmtType::Block(Vec::new()));
        proof {
            assert(stmts_v(Seq::<Stmt>::empty()) =~= Seq::<StmtV>::empty());
        }
        let func = self.type_to_stmt(StmtType::InitFunc { name, args, ret_type, data: Box::new(body) });
        Some(self.type_to_stmt(StmtType::ExternFn(Box::new(func))))
    }

    /// The size in bytes of a field of type `ty` (see `size_of_s`).
    fn size_of(&self, ty: &Type) -> (r: Option<usize>)
        ensures
            match size_of_s(ty@, self.ctx()) {
                Some(n) => r matches Some(x) && x == n,
                None => r is None,
            },
        decreases ty,
    {
        match ty {
            Type::Primitive(k) => {
                let k = *k;
                if k == TokenType::I32 || k == TokenType::U32 {
                    Some(4)
                } else if k == TokenType::I8 || k == TokenType::U8 {
                    Some(1)
                } else if k == TokenType::I16 || k == TokenType::U16 {
                    Some(2)
                } else if k == TokenType::I64 || k == TokenType::U64 {
                    Some(8)
                } else {
                    None
                }
            },
            Type::Pointer(_) => Some(8),
            Type::Array(inner, count) => match self.size_of(inner) {
                None => None,
                Some(sz) => sz.checked_mul(*count),
            },
            Type::Struct(name) => self.struct_size(name),
            Type::Enum(..) => Some(8),
            Type::GenericType(_) => Some(0),
            _ => None,
        }
    }

    /// The type named by a declared name (see `custom_type_s`).
    fn get_custom_type(&self, name: &String) -> (r: Option<Type>)
        ensures
            match custom_type_s(name@, self.ctx()) {
                Some(t) => r is Some && r.unwrap()@ == t,
                None => r is None,
            },
    {
        if self.is_declared_type(name) {
            if self.has_struct(name) {
                Some(Type::Struct(name.clone()))
            } else if self.has_enum(name) {
                Some(Type::Enum(name.clone(), None))
            } else {
                Some(Type::GenericType(name.clone()))
            }
        } else {
            None
        }
    }

    /// The base type of a struct field: a primitive keyword or a declared name.
    fn field_base_type(&self) -> (r: Option<Type>)
        requires
            self.wf(),
            self.pos() < self.tokens().len(),
        ensures
            ({
                let bt = self.tokens()[self.pos()];
                let base = if is_type_s(bt, self.ctx()) && bt.kind != TokenType::Var {
                    Some(TypeV::Primitive(bt.kind))
                } else {
                    match bt.text {
                        None => None,
                        Some(n) => custom_type_s(n, self.ctx()),
                    }
                };
                match base {
                    Some(t) => r is Some && r.unwrap()@ == t,
                    None => r is None,
                }
            }),
    {
        let tok = &self.m_tokens[self.m_index];
        if self.is_type(tok) && tok.token != TokenType::Var {
            return Some(Type::Primitive(tok.token));
        }
        match &tok.value {
            None => None,
            Some(n) => self.get_custom_type(n),
        }
    }

    /// Struct fields up to `}` laid out from `offset` (see `struct_members_s`).
    fn parse_struct_members(&mut self, offset: usize) -> (r: Option<(Vec<StructField>, usize)>)
        requires
            old(self).wf(),
        ensures
            final(self).wf(),
            final(self).moved_from(*old(self)),
            match struct_members_s(old(self).tokens(), old(self).pos(), old(self).ctx(), offset as int) {
                None => r is None,
                Some((fs, q, total)) => r matches Some((v, t)) && fields_v(v@) == fs && t == total && final(self).pos() == q,
            },
    {
        let ghost ts = self.tokens();
        let ghost c = self.ctx();
        let ghost target = struct_members_s(ts, self.pos(), c, offset as int);
        let mut res: Vec<StructField> = Vec::new();
        let mut off = offset;
        proof { lemma_prepend_sized_empty(target); }
        loop
            invariant
                self.wf(),
                self.moved_from(*old(self)),
                ts == self.tokens(),
                c == self.ctx(),
                target == struct_members_s(ts, old(self).pos(), c, offset as int),
                target == prepend_sized(fields_v(res@), struct_members_s(ts, self.pos(), c, off as int)),
            decreases ts.len() - self.pos(),
        {
            let k = match self.kind_at(0) { None => return None, Some(k) => k };
            if k == TokenType::CloseScope {
                assert(fields_v(res@) + Seq::<StructFieldV>::empty() =~= fields_v(res@));
                return Some((res, off));
            }
            let start = self.at_pos();
            let ty = match self.field_base_type() { None => return None, Some(t) => t };
            self.advance(1);
            let idx = match self.parse_ptr() { None => return None, Some(n) => n };
            if self.kind_at(0).is_none() {
                return None;
            }
            let fname = match self.text_at(0) { None => return None, Some(n) => n };
            self.advance(1);
            let arr = match self.parse_array(ty) { None => return None, Some(t) => t };
            if self.kind_at(0).is_none() {
                return None;
            }
            self.expect(TokenType::Semi);
            let fty = self.apply_ptr(arr, idx);
            let sz = match self.size_of(&fty) { None => return None, Some(n) => n };
            if off > usize::MAX - sz || self.at_pos() <= start {
                return None;
            }
            let f = StructField { name: fname, offset: off, ty: fty };
            proof {
                lemma_prepend_sized(fields_v(res@), field_v(f), struct_members_s(ts, self.pos(), c, off + sz));
                assert(fields_v(res@.push(f)) =~= fields_v(res@).push(field_v(f)));
            }
            res.push(f);
            off = off + sz;
        }
    }

    /// `struct Name<..> { fields }` (see `struct_init_s`).
    fn parse_struct_init(&mut self) -> (r: Option<Stmt>)
        requires
            old(self).wf(),
        ensures
            final(self).wf(),
            final(self).same_input(*old(self)),
            agrees_in(r, |s: Stmt| s@, struct_init_s(old(self).tokens(), old(self).pos(), old(self).ctx()),
                final(self).pos(), final(self).ctx()),
    {
        reveal(struct_init_s);
        if self.kind_at(1).is_none() {
            return None;
        }
        let name = match self.text_at(1) { None => return None, Some(n) => n };
        self.advance(2);
        let generic = match self.parse_generic() { None => return None, Some(g) => g };
        if self.kind_at(0).is_none() {
            return None;
        }
        self.expect(TokenType::OpenScope);
        let (fields, size) = match self.parse_struct_members(0) { None => return None, Some(x) => x };
        if self.kind_at(0).is_none() {
            return None;
        }
        self.expect(TokenType::CloseScope);
        let def = StructDef { name: name.clone(), fields, generic_type: generic, size };
        let copy = def.duplicate();
        self.declare_type(&name);
        self.insert_struct(copy);
        Some(self.type_to_stmt(StmtType::InitStruct(def)))
    }

    /// Fields of an enum variant up to `}` laid out from `offset` (see
    /// `variant_members_s`).
    fn parse_variant_members(&mut self, offset: usize) -> (r: Option<(Vec<StructField>, usize)>)
        requires
            old(self).wf(),
        ensures
            final(self).wf(),
            final(self).moved_from(*old(self)),
            match variant_members_s(old(self).tokens(), old(self).pos(), old(self).ctx(), offset as int) {
                None => r is None,
                Some((fs, q, total)) => r matches Some((v, t)) && fields_v(v@) == fs && t == total && final(self).pos() == q,
            },
    {
        let ghost ts = self.tokens();
        let ghost c = self.ctx();
        let ghost target = variant_members_s(ts, self.pos(), c, offset as int);
        let mut res: Vec<StructField> = Vec::new();
        let mut off = offset;
        proof { lemma_prepend_sized_empty(target); }
        loop
            invariant
                self.wf(),
                self.moved_from(*old(self)),
                ts == self.tokens(),
                c == self.ctx(),
                target == variant_members_s(ts, old(self).pos(), c, offset as int),
                target == prepend_sized(fields_v(res@), variant_members_s(ts, self.pos(), c, off as int)),
            decreases ts.len() - self.pos(),
        {
            let k = match self.kind_at(0) { None => return None, Some(k) => k };
            if k == TokenType::CloseScope {
                assert(fields_v(res@) + Seq::<StructFieldV>::empty() =~= fields_v(res@));
                return Some((res, off));
            }
            let start = self.at_pos();
            let ty = match self.get_type() { None => return None, Some(t) => t };
            let idx = match self.parse_ptr() { None => return None, Some(n) => n };
            if self.kind_at(0).is_none() {
                return None;
            }
            let fname = match self.text_at(0) { None => return None, Some(n) => n };
            self.advance(1);
            let arr = match self.parse_array(ty) { None => return None, Some(t) => t };
            if self.kind_at(0).is_none() {
                return None;
            }
            self.expect(TokenType::Semi);
            let fty = self.apply_ptr(arr, idx);
            let sz = match self.size_of(&fty) { None => return None, Some(n) => n };
            if off > usize::MAX - sz || self.at_pos() <= start {
                return None;
            }
            let f = StructField { name: fname, offset: off, ty: fty };
            proof {
                lemma_prepend_sized(fields_v(res@), field_v(f), variant_members_s(ts, self.pos(), c, off + sz));
                assert(fields_v(res@.push(f)) =~= fields_v(res@).push(field_v(f)));
            }
            res.push(f);
            off = off + sz;
        }
    }

    /// One enum variant with the given tag (see `enum_variant_s`).
    pub fn parse_enum_field(&mut self, tag: usize) -> (r: Option<EnumVariant>)
        requires
            old(self).wf(),
        ensures
            final(self).wf(),
            final(self).moved_from(*old(self)),
            agrees(r, |v: EnumVariant| variant_v(v), enum_variant_s(old(self).tokens(), old(self).pos(), old(self).ctx(), tag),
                final(self).pos()),
    {
        reveal(enum_variant_s);
        if self.kind_at(1).is_none() {
            return None;
        }
        let name = match self.text_at(0) { None => return None, Some(n) => n };
        if self.kind_at(1) == Some(TokenType::Coma) {
            self.advance(1);
            let v = EnumVariant { name, tag, args: Vec::new(), size: tag };
            assert(fields_v(v.args@) =~= Seq::<StructFieldV>::empty());
            return Some(v);
        }
        self.advance(1);
        self.expect(TokenType::OpenScope);
        let (args, offset) = match self.parse_variant_members(0) { None => return None, Some(x) => x };
        if self.kind_at(0).is_none() {
            return None;
        }
        self.expect(TokenType::CloseScope);
        if tag > usize::MAX - offset {
            return None;
        }
        Some(EnumVariant { name, tag, args, size: tag + offset })
    }

    /// The variants of an enum up to `}` (see `enum_variants_s`).
    fn parse_enum_variants(&mut self) -> (r: Option<(Vec<EnumVariant>, usize)>)
        requires
            old(self).wf(),
        ensures
            final(self).wf(),
            final(self).moved_from(*old(self)),
            match enum_variants_s(old(self).tokens(), old(self).pos(), old(self).ctx(), 0, 8, Seq::empty()) {
                None => r is None,
                Some((vs, q, size)) => r matches Some((v, n)) && variants_v(v@) == vs && n == size && final(self).pos() == q,
            },
    {
        let ghost ts = self.tokens();
        let ghost c = self.ctx();
        let ghost target = enum_variants_s(ts, self.pos(), c, 0, 8, Seq::empty());
        let mut variants: Vec<EnumVariant> = Vec::new();
        let mut tag: usize = 0;
        let mut max_size: usize = 8;
        assert(variants_v(variants@) =~= Seq::<EnumVariantV>::empty());
        loop
            invariant
                self.wf(),
                self.moved_from(*old(self)),
                ts == self.tokens(),
                c == self.ctx(),
                target == enum_variants_s(ts, old(self).pos(), c, 0, 8, Seq::empty()),
                target == enum_variants_s(ts, self.pos(), c, tag, max_size, variants_v(variants@)),
            decreases ts.len() - self.pos(),
        {
            let k = match self.kind_at(0) { None => return None, Some(k) => k };
            if k == TokenType::CloseScope {
                return Some((variants, max_size));
            }
            let start = self.at_pos();
            let v = match self.parse_enum_field(tag) { None => return None, Some(v) => v };
            if self.kind_at(0).is_none() {
                return None;
            }
            self.expect(TokenType::Coma);
            if self.at_pos() <= start || tag == usize::MAX {
                return None;
            }
            if v.size > max_size {
                max_size = v.size;
            }
            tag = tag + 1;
            insert_variant(&mut variants, v);
        }
    }

    /// `enum Name<..> { variants }` (see `enum_s`).
    fn parse_enum(&mut self) -> (r: Option<Stmt>)
        requires
            old(self).wf(),
        ensures
            final(self).wf(),
            final(self).same_input(*old(self)),
            agrees_in(r, |s: Stmt| s@, enum_s(old(self).tokens(), old(self).pos(), old(self).ctx()),
                final(self).pos(), final(self).ctx()),
    {
        reveal(enum_s);
        if self.kind_at(1).is_none() {
            return None;
        }
        let name = match self.text_at(1) { None => return None, Some(n) => n };
        self.advance(2);
        let generic = match self.parse_generic() { None => return None, Some(g) => g };
        if self.kind_at(0).is_none() {
            return None;
        }
        self.expect(TokenType::OpenScope);
        let (variants, size) = match self.parse_enum_variants() { None => return None, Some(x) => x };
        if self.kind_at(0).is_none() {
            return None;
        }
        self.expect(TokenType::CloseScope);
        let data = EnumData {
            name: name.clone(),
            generic_type: copy_strings(&generic),
            variants: copy_variants(&variants),
            size,
        };
        self.declare_type(&name);
        self.insert_enum(data);
        Some(self.type_to_stmt(StmtType::InitEnum { name, generic_types: generic, variants }))
    }

    /// The kind of the token at absolute position `i`.
    fn kind_abs(&self, i: usize) -> (k: TokenType)
        requires
            i < self.tokens().len(),
        ensures
            k == self.tokens()[i as int].kind,
    {
        self.m_tokens[i].token
    }

    /// The number of tokens.
    fn token_count(&self) -> (n: usize)
        ensures
            n == self.tokens().len(),
    {
        self.m_tokens.len()
    }

    /// The position after the `]` that closes a bracket opened before `i`
    /// (see `skip_brackets_s`).
    fn skip_brackets(&self, i: usize) -> (r: Option<usize>)
        requires
            1 <= i <= self.tokens().len(),
        ensures
            match skip_brackets_s(self.tokens(), i as int, 1) {
                Some(q) => r matches Some(x) && x == q,
                None => r is None,
            },
    {
        let n = self.token_count();
        let mut k = i;
        let mut depth: usize = 1;
        while depth > 0
            invariant
                n == self.tokens().len(),
                1 <= i <= k <= n,
                depth <= k - i + 1,
                skip_brackets_s(self.tokens(), i as int, 1) == skip_brackets_s(self.tokens(), k as int, depth as nat),
            decreases n - k,
        {
            if k >= n {
                return None;
            }
            let kind = self.kind_abs(k);
            if kind == TokenType::OpenBracket {
                depth = depth + 1;
            } else if kind == TokenType::CloseBracket {
                depth = depth - 1;
            }
            k = k + 1;
        }
        Some(k)
    }

    /// Whether the tokens here start an assignment (see `assignment_start_s`).
    fn check_assignment_start(&self) -> (r: Option<bool>)
        requires
            self.wf(),
        ensures
            r == assignment_start_s(self.tokens(), self.pos()),
    {
        reveal(assignment_start_s);
        let ghost ts = self.tokens();
        let n = self.token_count();
        let mut i = self.at_pos();
        while i < n && self.kind_abs(i) == TokenType::Mul
            invariant
                n == ts.len(),
                ts == self.tokens(),
                self.pos() <= i,
                stars_end(ts, self.pos()) == stars_end(ts, i as int),
            decreases n - i,
        {
            i = i + 1;
        }
        if i >= n {
            return None;
        }
        if self.kind_abs(i) != TokenType::Var {
            return Some(false);
        }
        let ghost i0 = i;
        let mut j = i + 1;
        loop
            invariant
                n == ts.len(),
                ts == self.tokens(),
                stars_end(ts, self.pos()) == Some(i0 as int),
                i0 < n,
                ts[i0 as int].kind == TokenType::Var,
                target_suffix_s(ts, i0 + 1) == target_suffix_s(ts, j as int),
            decreases n - j,
        {
            reveal(assignment_start_s);
            if j >= n {
                return None;
            }
            let k = self.kind_abs(j);
            if k == TokenType::Dot || k == TokenType::Access {
                if j + 1 >= n {
                    return None;
                }
                if self.kind_abs(j + 1) != TokenType::Var {
                    return Some(false);
                }
                j = j + 2;
            } else if k == TokenType::OpenBracket {
                let q = match self.skip_brackets(j + 1) { None => return None, Some(q) => q };
                if q <= j || q > n {
                    return None;
                }
                j = q;
            } else {
                return Some(k == TokenType::Eq);
            }
        }
    }

    /// Member accesses and indexing after the variable of an assignment
    /// target (see `lvalue_suffix_s`).
    fn parse_lvalue_suffix(&mut self, lv: LValue) -> (r: Option<LValue>)
        requires
            old(self).wf(),
        ensures
            final(self).wf(),
            final(self).moved_from(*old(self)),
            agrees(r, |l: LValue| l@, lvalue_suffix_s(lv@, old(self).tokens(), old(self).pos(), old(self).ctx()), final(self).pos()),
    {
        let ghost ts = self.tokens();
        let ghost c = self.ctx();
        let ghost target = lvalue_suffix_s(lv@, ts, self.pos(), c);
        let mut cur = lv;
        loop
            invariant
                self.wf(),
                self.moved_from(*old(self)),
                ts == self.tokens(),
                c == self.ctx(),
                target == lvalue_suffix_s(lv@, ts, old(self).pos(), c),
                target == lvalue_suffix_s(cur@, ts, self.pos(), c),
            decreases ts.len() - self.pos(),
        {
            let k = match self.kind_at(0) { None => return None, Some(k) => k };
            if k == TokenType::Dot || k == TokenType::Access {
                if self.kind_at(1).is_none() {
                    return None;
                }
                let name = match self.text_at(1) { None => return None, Some(n) => n };
                let base = if k == TokenType::Dot { cur } else { LValue::Deref(Box::new(cur)) };
                let ghost bv = base@;
                cur = LValue::Field { base: Box::new(base), name };
                assert(cur@ == (LValueV::Field { base: Box::new(bv), name: name@ }));
                self.advance(2);
            } else if k == TokenType::OpenBracket {
                let start = self.at_pos();
                self.advance(1);
                let idx = match self.parse_expr() { None => return None, Some(e) => e };
                if self.kind_at(0).is_none() {
                    return None;
                }
                self.expect(TokenType::CloseBracket);
                if self.at_pos() <= start {
                    return None;
                }
                cur = LValue::Index { base: Box::new(cur), index: Box::new(idx) };
            } else {
                return Some(cur);
            }
        }
    }

    /// `lv` under `n` dereferences.
    fn wrap_deref(lv: LValue, n: usize) -> (r: LValue)
        ensures
            r@ == wrap_deref(lv@, n as nat),
    {
        let ghost l0 = lv@;
        let mut cur = lv;
        let mut i: usize = 0;
        while i < n
            invariant
                i <= n,
                cur@ == wrap_deref(l0, i as nat),
            decreases n - i,
        {
            cur = LValue::Deref(Box::new(cur));
            i = i + 1;
        }
        cur
    }

    /// `*..*target = expr`, without the `;` (see `assignment_s`).
    #[verifier::rlimit(30)]
    fn parse_assignment_no_semi(&mut self) -> (r: Option<Stmt>)
        requires
            old(self).wf(),
        ensures
            final(self).wf(),
            final(self).moved_from(*old(self)),
            agrees(r, |s: Stmt| s@, assignment_s(old(self).tokens(), old(self).pos(), old(self).ctx()), final(self).pos()),
    {
        reveal(assignment_s);
        let ghost ts = self.tokens();
        let start = self.at_pos();
        loop
            invariant
                self.wf(),
                self.moved_from(*old(self)),
                ts == self.tokens(),
                start == old(self).pos(),
                start <= self.pos(),
                stars_end(ts, start as int) == stars_end(ts, self.pos()),
            ensures
                self.pos() < ts.len() ==> ts[self.pos()].kind != TokenType::Mul,
            decreases ts.len() - self.pos(),
        {
            match self.kind_at(0) {
                Some(TokenType::Mul) => {},
                _ => break,
            }
            self.advance(1);
        }
        let depth = self.at_pos() - start;
        if self.kind_at(0).is_none() || depth > 0x7fff_ffff {
            return None;
        }
        let var = match self.text_at(0) { None => return None, Some(v) => v };
        self.advance(1);
        let lv = match self.parse_lvalue_suffix(LValue::Variable(var)) { None => return None, Some(l) => l };
        if self.kind_at(0).is_none() {
            return None;
        }
        self.expect(TokenType::Eq);
        let value = match self.parse_expr() { None => return None, Some(e) => e };
        let target = Parser::wrap_deref(lv, depth);
        Some(self.type_to_stmt(StmtType::Assignment { target, value }))
    }

    /// An assignment followed by `;`.
    fn parse_assignment(&mut self) -> (r: Option<Stmt>)
        requires
            old(self).wf(),
        ensures
            final(self).wf(),
            final(self).moved_from(*old(self)),
            match assignment_s(old(self).tokens(), old(self).pos(), old(self).ctx()) {
                None => r is None,
                Some((st, q)) => match expect_s(old(self).tokens(), q, TokenType::Semi) {
                    None => r is None,
                    Some(q2) => r is Some && r.unwrap()@ == st && final(self).pos() == q2,
                },
            },
    {
        let st = match self.parse_assignment_no_semi() { None => return None, Some(s) => s };
        if self.kind_at(0).is_none() {
            return None;
        }
        self.expect(TokenType::Semi);
        Some(st)
    }

    /// The lines of an `asm { .. }` block up to and including `}`.
    fn parse_asm_lines(&mut self) -> (r: Option<Vec<String>>)
        requires
            old(self).wf(),
        ensures
            final(self).wf(),
            final(self).moved_from(*old(self)),
            agrees(r, |v: Vec<String>| strs_v(v@), asm_lines_s(old(self).tokens(), old(self).pos()), final(self).pos()),
    {
        let ghost ts = self.tokens();
        let ghost target = asm_lines_s(ts, self.pos());
        let mut res: Vec<String> = Vec::new();
        proof { lemma_prepend_empty(target); }
        loop
            invariant
                self.wf(),
                self.moved_from(*old(self)),
                ts == self.tokens(),
                target == asm_lines_s(ts, old(self).pos()),
                target == prepend_res(strs_v(res@), asm_lines_s(ts, self.pos())),
            decreases ts.len() - self.pos(),
        {
            let k = match self.kind_at(0) { None => return None, Some(k) => k };
            if k == TokenType::CloseScope {
                self.advance(1);
                assert(strs_v(res@) + Seq::<Seq<char>>::empty() =~= strs_v(res@));
                return Some(res);
            }
            let line = match self.text_at(0) { None => return None, Some(l) => l };
            self.advance(1);
            proof {
                lemma_prepend_res(strs_v(res@), line@, asm_lines_s(ts, self.pos()));
                assert(strs_v(res@.push(line)) =~= strs_v(res@).push(line@));
            }
            res.push(line);
        }
    }

    /// `asm { "..." }` (see `asm_s`).
    fn parse_asm_stmt(&mut self) -> (r: Option<Stmt>)
        requires
            old(self).wf(),
        ensures
            final(self).wf(),
            final(self).moved_from(*old(self)),
            agrees(r, |s: Stmt| s@, asm_s(old(self).tokens(), old(self).pos(), old(self).ctx()), final(self).pos()),
    {
        reveal(asm_s);
        if self.kind_at(1).is_none() {
            return None;
        }
        self.advance(2);
        let lines = match self.parse_asm_lines() { None => return None, Some(l) => l };
        Some(self.type_to_stmt(StmtType::AsmCode(lines)))
    }

    /// `return;` or `return expr;` (see `ret_s`).
    fn parse_ret(&mut self) -> (r: Option<Stmt>)
        requires
            old(self).wf(),
        ensures
            final(self).wf(),
            final(self).moved_from(*old(self)),
            agrees(r, |s: Stmt| s@, ret_s(old(self).tokens(), old(self).pos(), old(self).ctx()), final(self).pos()),
    {
        reveal(ret_s);
        let k = match self.kind_at(1) { None => return None, Some(k) => k };
        self.advance(1);
        if k != TokenType::Semi {
            let e = match self.parse_expr() { None => return None, Some(e) => e };
            if self.kind_at(0).is_none() {
                return None;
            }
            if self.kind_at(0) == Some(TokenType::Semi) {
                self.advance(1);
            }
            Some(self.type_to_stmt(StmtType::Return(Some(e))))
        } else {
            self.advance(1);
            Some(self.type_to_stmt(StmtType::Return(None)))
        }
    }

    /// `global T name = expr;` (see `global_s`).
    fn parse_global(&mut self) -> (r: Option<Stmt>)
        requires
            old(self).wf(),
            old(self).pos() < old(self).tokens().len(),
        ensures
            final(self).wf(),
            final(self).moved_from(*old(self)),
            agrees(r, |s: Stmt| s@, global_s(old(self).tokens(), old(self).pos(), old(self).ctx()), final(self).pos()),
    {
        reveal(global_s);
        if self.kind_at(0).is_none() {
            return None;
        }
        self.advance(1);
        let decl = match self.parse_declaration() { None => return None, Some(d) => d };
        if self.kind_at(0).is_none() {
            return None;
        }
        self.expect(TokenType::Semi);
        Some(self.type_to_stmt(StmtType::GlobalDecl(Box::new(decl))))
    }

    /// An expression followed by `;` (see `expr_stmt_s`).
    fn parse_expr_stmt(&mut self) -> (r: Option<Stmt>)
        requires
            old(self).wf(),
        ensures
            final(self).wf(),
            final(self).moved_from(*old(self)),
            agrees(r, |s: Stmt| s@, expr_stmt_s(old(self).tokens(), old(self).pos(), old(self).ctx()), final(self).pos()),
    {
        reveal(expr_stmt_s);
        let e = match self.parse_expr() { None => return None, Some(e) => e };
        if self.kind_at(0).is_none() {
            return None;
        }
        self.expect(TokenType::Semi);
        Some(self.type_to_stmt(StmtType::ExprStmt(e)))
    }

    /// Names of enum variant fields in a match arm, up to `)` (see
    /// `pattern_names_s`).
    fn parse_pattern_names(&mut self) -> (r: Option<Vec<String>>)
        requires
            old(self).wf(),
        ensures
            final(self).wf(),
            final(self).moved_from(*old(self)),
            agrees(r, |v: Vec<String>| strs_v(v@), pattern_names_s(old(self).tokens(), old(self).pos()), final(self).pos()),
    {
        let ghost ts = self.tokens();
        let ghost target = pattern_names_s(ts, self.pos());
        let mut res: Vec<String> = Vec::new();
        proof { lemma_prepend_empty(target); }
        loop
            invariant
                self.wf(),
                self.moved_from(*old(self)),
                ts == self.tokens(),
                target == pattern_names_s(ts, old(self).pos()),
                target == prepend_res(strs_v(res@), pattern_names_s(ts, self.pos())),
            decreases ts.len() - self.pos(),
        {
            let k = match self.kind_at(0) { None => return None, Some(k) => k };
            if k == TokenType::CloseParen {
                assert(strs_v(res@) + Seq::<Seq<char>>::empty() =~= strs_v(res@));
                return Some(res);
            }
            let name = match self.text_at(0) { None => return None, Some(n) => n };
            let next = match self.kind_at(1) { None => return None, Some(k) => k };
            if next == TokenType::Coma {
                self.advance(2);
            } else {
                self.advance(1);
            }
            proof {
                lemma_prepend_res(strs_v(res@), name@, pattern_names_s(ts, self.pos()));
                assert(strs_v(res@.push(name)) =~= strs_v(res@).push(name@));
            }
            res.push(name);
        }
    }

    /// The left side of a match arm (see `match_left_s`).
    fn parse_match_field(&mut self) -> (r: Option<MatchLeftValue>)
        requires
            old(self).wf(),
        ensures
            final(self).wf(),
            final(self).moved_from(*old(self)),
            agrees(r, |m: MatchLeftValue| match_left_v(m), match_left_s(old(self).tokens(), old(self).pos(), old(self).ctx()),
                final(self).pos()),
    {
        reveal(match_left_s);
        if self.kind_at(0).is_none() {
            return None;
        }
        let base = match self.text_at(0) { None => return None, Some(b) => b };
        let base_chars = chars_of(base.as_str());
        proof {
            reveal_strlit("_");
            assert("_"@ =~= seq!['_']);
        }
        if is_lit(&base_chars, "_") {
            self.advance(1);
            let args: Vec<String> = Vec::new();
            assert(strs_v(args@) =~= Seq::<Seq<char>>::empty());
            return Some(MatchLeftValue::Enum { base, value: from_lit("_"), args });
        }
        let next = match self.kind_at(1) { None => return None, Some(k) => k };
        if next == TokenType::Colon {
            self.advance(2);
            if self.kind_at(0).is_none() {
                return None;
            }
            self.expect(TokenType::Colon);
            if self.kind_at(0).is_none() {
                return None;
            }
            let value = match self.text_at(0) { None => return None, Some(v) => v };
            let after = match self.kind_at(1) { None => return None, Some(k) => k };
            if after == TokenType::OpenParen {
                self.advance(2);
                let args = match self.parse_pattern_names() { None => return None, Some(a) => a };
                if self.kind_at(0).is_none() {
                    return None;
                }
                self.expect(TokenType::CloseParen);
                Some(MatchLeftValue::Enum { base, value, args })
            } else {
                self.advance(1);
                let args: Vec<String> = Vec::new();
                assert(strs_v(args@) =~= Seq::<Seq<char>>::empty());
                Some(MatchLeftValue::Enum { base, value, args })
            }
        } else {
            let expr = match self.parse_expr() { None => return None, Some(e) => e };
            Some(MatchLeftValue::Expr { expr })
        }
    }

    /// Parses one statement at the current position (see `stmt_s`).
    pub fn parse_stmt(&mut self) -> (r: Option<Stmt>)
        requires
            old(self).wf(),
        ensures
            final(self).wf(),
            final(self).same_input(*old(self)),
            agrees_in(r, |s: Stmt| s@, stmt_s(old(self).tokens(), old(self).pos(), old(self).ctx()),
                final(self).pos(), final(self).ctx()),
        decreases old(self).tokens().len() - old(self).pos(), 10int,
    {
        let k = match self.kind_at(0) { None => return None, Some(k) => k };
        match k {
            TokenType::If => self.parse_if(),
            TokenType::While => self.parse_while(),
            TokenType::For => self.parse_for(),
            TokenType::OpenScope => self.parse_scope(),
            TokenType::Return => self.parse_ret(),
            TokenType::Asm => self.parse_asm_stmt(),
            TokenType::Func => self.parse_func_init(),
            TokenType::Struct => self.parse_struct_init(),
            TokenType::Global => self.parse_global(),
            TokenType::Enum => self.parse_enum(),
            TokenType::Match => self.parse_match(),
            TokenType::ExternFn => self.parse_extern(),
            TokenType::Import => None,
            _ => {
                let is_ty = self.is_type(&self.m_tokens[self.m_index]);
                if is_ty {
                    let st = match self.parse_declaration() { None => return None, Some(s) => s };
                    if self.kind_at(0).is_none() {
                        return None;
                    }
                    self.expect(TokenType::Semi);
                    Some(st)
                } else {
                    match self.check_assignment_start() {
                        None => None,
                        Some(true) => self.parse_assignment(),
                        Some(false) => self.parse_expr_stmt(),
                    }
                }
            },
        }
    }

    /// `if cond stmt [else stmt]` (see `if_s`).
    #[verifier::rlimit(80)]
    fn parse_if(&mut self) -> (r: Option<Stmt>)
        requires
            old(self).wf(),
            old(self).pos() < old(self).tokens().len(),
        ensures
            final(self).wf(),
            final(self).same_input(*old(self)),
            agrees_in(r, |s: Stmt| s@, if_s(old(self).tokens(), old(self).pos(), old(self).ctx()),
                final(self).pos(), final(self).ctx()),
        decreases old(self).tokens().len() - old(self).pos(), 9int,
    {
        let start = self.at_pos();
        self.advance(1);
        let condition = match self.parse_expr() { None => return None, Some(e) => e };
        if self.at_pos() <= start {
            return None;
        }
        let if_block = match self.parse_stmt() { None => return None, Some(s) => s };
        if self.at_pos() <= start {
            return None;
        }
        let k = match self.kind_at(0) { None => return None, Some(k) => k };
        if k == TokenType::Else {
            self.advance(1);
            let else_block = match self.parse_stmt() { None => return None, Some(s) => s };
            Some(self.type_to_stmt(StmtType::If {
                condition,
                if_block: Box::new(if_block),
                else_block: Some(Box::new(else_block)),
            }))
        } else {
            Some(self.type_to_stmt(StmtType::If { condition, if_block: Box::new(if_block), else_block: None }))
        }
    }

    /// `while cond stmt` (see `while_s`).
    fn parse_while(&mut self) -> (r: Option<Stmt>)
        requires
            old(self).wf(),
            old(self).pos() < old(self).tokens().len(),
        ensures
            final(self).wf(),
            final(self).same_input(*old(self)),
            agrees_in(r, |s: Stmt| s@, while_s(old(self).tokens(), old(self).pos(), old(self).ctx()),
                final(self).pos(), final(self).ctx()),
        decreases old(self).tokens().len() - old(self).pos(), 9int,
    {
        let start = self.at_pos();
        self.advance(1);
        let condition = match self.parse_expr() { None => return None, Some(e) => e };
        if self.at_pos() <= start {
            return None;
        }
        let body = match self.parse_stmt() { None => return None, Some(s) => s };
        Some(self.type_to_stmt(StmtType::While { condition, body: Box::new(body) }))
    }

    /// `for (init; cond; update) stmt` (see `for_s`).
    #[verifier::rlimit(80)]
    fn parse_for(&mut self) -> (r: Option<Stmt>)
        requires
            old(self).wf(),
            old(self).pos() < old(self).tokens().len(),
        ensures
            final(self).wf(),
            final(self).same_input(*old(self)),
            agrees_in(r, |s: Stmt| s@, for_s(old(self).tokens(), old(self).pos(), old(self).ctx()),
                final(self).pos(), final(self).ctx()),
        decreases old(self).tokens().len() - old(self).pos(), 9int,
    {
        let ghost ts = self.tokens();
        let ghost c = self.ctx();
        let start = self.at_pos();
        if self.kind_at(2).is_none() {
            return None;
        }
        self.advance(2);
        let is_ty = self.is_type(&self.m_tokens[self.m_index]);
        let init = if is_ty {
            let d = match self.parse_declaration() { None => return None, Some(d) => d };
            Some(Box::new(d))
        } else {
            None
        };
        if self.kind_at(0).is_none() {
            return None;
        }
        self.expect(TokenType::Semi);
        let k = match self.kind_at(0) { None => return None, Some(k) => k };
        let condition = if k != TokenType::Semi {
            let e = match self.parse_expr() { None => return None, Some(e) => e };
            Some(e)
        } else {
            None
        };
        if self.kind_at(0).is_none() {
            return None;
        }
        self.expect(TokenType::Semi);
        let k2 = match self.kind_at(0) { None => return None, Some(k) => k };
        let update = if k2 != TokenType::CloseParen {
            let st = match self.parse_assignment_no_semi() { None => return None, Some(s) => s };
            Some(Box::new(st))
        } else {
            None
        };
        if self.at_pos() <= start || self.kind_at(0).is_none() {
            return None;
        }
        self.advance(1);
        let body = match self.parse_stmt() { None => return None, Some(s) => s };
        proof {
            assert(opt_stmt_v(init) == (match init { Some(b) => Some(Box::new(stmt_v(*b))), None => None::<Box<StmtV>> }));
        }
        Some(self.type_to_stmt(StmtType::For { init, condition, update, body: Box::new(body) }))
    }

    /// `fn name<..>(params) -> T stmt` (see `func_s`).
    pub fn parse_func_init(&mut self) -> (r: Option<Stmt>)
        requires
            old(self).wf(),
            old(self).pos() < old(self).tokens().len(),
        ensures
            final(self).wf(),
            final(self).same_input(*old(self)),
            agrees_in(r, |s: Stmt| s@, func_s(old(self).tokens(), old(self).pos(), old(self).ctx()),
                final(self).pos(), final(self).ctx()),
        decreases old(self).tokens().len() - old(self).pos(), 9int,
    {
        let start = self.at_pos();
        self.expect(TokenType::Func);
        if self.kind_at(0).is_none() {
            return None;
        }
        let name = match self.text_at(0) { None => return None, Some(n) => n };
        self.advance(1);
        let generics = match self.parse_generic() { None => return None, Some(g) => g };
        let args = match self.parse_args() { None => return None, Some(a) => a };
        let ret_type = match self.parse_ret_type() { None => return None, Some(t) => t };
        if self.at_pos() <= start {
            return None;
        }
        let body = match self.parse_stmt() { None => return None, Some(s) => s };
        if generics.len() > 0 {
            Some(self.type_to_stmt(StmtType::GenericInitFunc {
                name,
                generic_types: generics,
                args,
                ret_type,
                data: Box::new(body),
            }))
        } else {
            Some(self.type_to_stmt(StmtType::InitFunc { name, args, ret_type, data: Box::new(body) }))
        }
    }

    /// `{ stmt ... }` (see `block_s`).
    fn parse_scope(&mut self) -> (r: Option<Stmt>)
        requires
            old(self).wf(),
            old(self).pos() < old(self).tokens().len(),
        ensures
            final(self).wf(),
            final(self).same_input(*old(self)),
            agrees_in(r, |s: Stmt| s@, block_s(old(self).tokens(), old(self).pos(), old(self).ctx()),
                final(self).pos(), final(self).ctx()),
        decreases old(self).tokens().len() - old(self).pos(), 9int,
    {
        let ghost ts = self.tokens();
        let ghost p0 = self.pos();
        self.advance(1);
        let ghost target = block_items_s(ts, self.pos(), self.ctx());
        let mut stmts: Vec<Stmt> = Vec::new();
        proof { lemma_prepend_in_empty(target); }
        loop
            invariant
                self.wf(),
                self.same_input(*old(self)),
                ts == self.tokens(),
                p0 == old(self).pos(),
                p0 < self.pos() <= ts.len(),
                target == block_items_s(ts, p0 + 1, old(self).ctx()),
                target == prepend_in(stmts_v(stmts@), block_items_s(ts, self.pos(), self.ctx())),
            decreases ts.len() - self.pos(),
        {
            let k = match self.kind_at(0) { None => return None, Some(k) => k };
            if k == TokenType::CloseScope {
                assert(stmts_v(stmts@) + Seq::<StmtV>::empty() =~= stmts_v(stmts@));
                self.advance(1);
                return Some(self.type_to_stmt(StmtType::Block(stmts)));
            }
            let before = self.at_pos();
            let st = match self.parse_stmt() { None => return None, Some(s) => s };
            if self.at_pos() <= before {
                return None;
            }
            proof {
                lemma_prepend_in(stmts_v(stmts@), stmt_v(st), block_items_s(ts, self.pos(), self.ctx()));
                lemma_stmts_v_push(stmts@, st);
            }
            stmts.push(st);
        }
    }

    /// `match expr { left => stmt, ... }` (see `match_s`).
    #[verifier::rlimit(80)]
    fn parse_match(&mut self) -> (r: Option<Stmt>)
        requires
            old(self).wf(),
            old(self).pos() < old(self).tokens().len(),
        ensures
            final(self).wf(),
            final(self).same_input(*old(self)),
            agrees_in(r, |s: Stmt| s@, match_s(old(self).tokens(), old(self).pos(), old(self).ctx()),
                final(self).pos(), final(self).ctx()),
        decreases old(self).tokens().len() - old(self).pos(), 9int,
    {
        let ghost ts = self.tokens();
        let ghost p0 = self.pos();
        let start = self.at_pos();
        self.advance(1);
        let expr = match self.parse_expr() { None => return None, Some(e) => e };
        if self.kind_at(0).is_none() {
            return None;
        }
        self.expect(TokenType::OpenScope);
        if self.at_pos() <= start {
            return None;
        }
        let ghost target = match_arms_s(ts, self.pos(), self.ctx());
        let ghost q1 = self.pos();
        let mut variants: Vec<MatchField> = Vec::new();
        proof { lemma_prepend_in_empty(target); }
        loop
            invariant
                self.wf(),
                self.same_input(*old(self)),
                ts == self.tokens(),
                p0 == old(self).pos(),
                p0 < q1 <= self.pos() <= ts.len(),
                target == match_arms_s(ts, q1, old(self).ctx()),
                match_s(ts, p0, old(self).ctx()) == (match target {
                    None => None,
                    Some((arms, q2, c1)) => match expect_s(ts, q2, TokenType::CloseScope) {
                        None => None,
                        Some(q3) => Some((mk_stmt(StmtKindV::Match { expr: expr@, variants: arms }, c1), q3, c1)),
                    },
                }),
                target == prepend_in(match_fields_v(variants@), match_arms_s(ts, self.pos(), self.ctx())),
            decreases ts.len() - self.pos(),
        {
            let k = match self.kind_at(0) { None => return None, Some(k) => k };
            if k == TokenType::CloseScope {
                assert(match_fields_v(variants@) + Seq::<(MatchLeftValueV, StmtV)>::empty() =~= match_fields_v(variants@));
                self.advance(1);
                return Some(self.type_to_stmt(StmtType::Match { expr, variants }));
            }
            let before = self.at_pos();
            let left = match self.parse_match_field() { None => return None, Some(l) => l };
            if self.kind_at(0).is_none() {
                return None;
            }
            self.expect(TokenType::Eq);
            if self.kind_at(0).is_none() {
                return None;
            }
            self.expect(TokenType::More);
            if self.at_pos() <= before {
                return None;
            }
            let right = match self.parse_stmt() { None => return None, Some(s) => s };
            if self.kind_at(0).is_none() {
                return None;
            }
            self.expect(TokenType::Coma);
            if self.at_pos() <= before {
                return None;
            }
            let field = MatchField { left, right };
            proof {
                lemma_prepend_in(match_fields_v(variants@), (match_left_v(field.left), stmt_v(field.right)),
                    match_arms_s(ts, self.pos(), self.ctx()));
                lemma_match_fields_v_push(variants@, field);
            }
            variants.push(field);
        }
    }

    /// A parser at the start of `m_tokens`, with nothing declared yet.
    pub fn new(m_tokens: Vec<Token>, current_file: String) -> (r: Parser)
        ensures
            r.wf(),
            r.tokens() == tokens_v(m_tokens@),
            r.pos() == 0,
            r.ctx() == (Ctx {
                types: Seq::empty(),
                structs: Seq::empty(),
                enums: Seq::empty(),
                generic: Seq::empty(),
                file: current_file@,
                line: 1,
                col: 0,
            }),
    {
        let r = Parser {
            m_tokens,
            m_index: 0,
            struct_table: Vec::new(),
            types: Vec::new(),
            enums_table: Vec::new(),
            current_file,
            line: 1,
            col: 0,
            generic: Vec::new(),
        };
        assert(r.ctx().types =~= Seq::<Seq<char>>::empty());
        assert(r.ctx().structs =~= Seq::<StructDefV>::empty());
        assert(r.ctx().enums =~= Seq::<EnumDataV>::empty());
        assert(r.ctx().generic =~= Seq::<Seq<char>>::empty());
        r
    }

    /// Whether every token has been read.
    pub fn is_done(&self) -> (r: bool)
        requires
            self.wf(),
        ensures
            r == (self.pos() >= self.tokens().len()),
    {
        self.kind_at(0).is_none()
    }

    /// Parses top-level statements up to the end of the tokens or up to an
    /// `import` (see `top_level_s`).
    pub fn parse(&mut self) -> (r: Option<Vec<Stmt>>)
        requires
            old(self).wf(),
        ensures
            final(self).wf(),
            final(self).same_input(*old(self)),
            agrees_in(r, |v: Vec<Stmt>| stmts_v(v@), top_level_s(old(self).tokens(), old(self).pos(), old(self).ctx()),
                final(self).pos(), final(self).ctx()),
    {
        let ghost ts = self.tokens();
        let ghost target = top_level_s(ts, self.pos(), self.ctx());
        let mut stmts: Vec<Stmt> = Vec::new();
        proof { lemma_prepend_in_empty(target); }
        loop
            invariant
                self.wf(),
                self.same_input(*old(self)),
                ts == self.tokens(),
                target == top_level_s(ts, old(self).pos(), old(self).ctx()),
                target == prepend_in(stmts_v(stmts@), top_level_s(ts, self.pos(), self.ctx())),
            decreases ts.len() - self.pos(),
        {
            match self.kind_at(0) {
                None => {
                    assert(stmts_v(stmts@) + Seq::<StmtV>::empty() =~= stmts_v(stmts@));
                    return Some(stmts);
                },
                Some(TokenType::Import) => {
                    assert(stmts_v(stmts@) + Seq::<StmtV>::empty() =~= stmts_v(stmts@));
                    return Some(stmts);
                },
                _ => {},
            }
            let before = self.at_pos();
            let st = match self.parse_stmt() { None => return None, Some(s) => s };
            if self.at_pos() <= before {
                return None;
            }
            proof {
                lemma_prepend_in(stmts_v(stmts@), stmt_v(st), top_level_s(ts, self.pos(), self.ctx()));
                lemma_stmts_v_push(stmts@, st);
            }
            stmts.push(st);
        }
    }

    /// The file named by an `import "file"` at the reading position.
    pub fn pending_import(&self) -> (r: Option<String>)
        requires
            self.wf(),
        ensures
            match r {
                Some(f) => self.pos() + 1 < self.tokens().len()
                    && self.tokens()[self.pos()].kind == TokenType::Import
                    && self.tokens()[self.pos() + 1].text == Some(f@),
                None => !(self.pos() + 1 < self.tokens().len()
                    && self.tokens()[self.pos()].kind == TokenType::Import
                    && self.tokens()[self.pos() + 1].text is Some),
            },
    {
        match self.kind_at(0) {
            Some(TokenType::Import) => {},
            _ => return None,
        }
        if self.kind_at(1).is_none() {
            return None;
        }
        self.text_at(1)
    }

    /// Steps over an `import "file"`; the statement that stands in its place
    /// is an empty block.
    pub fn skip_import(&mut self) -> (r: Stmt)
        requires
            old(self).wf(),
            old(self).pos() + 1 < old(self).tokens().len(),
        ensures
            final(self).wf(),
            final(self).moved_from(*old(self)),
            final(self).pos() == old(self).pos() + 2,
            r@ == mk_stmt(StmtKindV::Block(Seq::empty()), old(self).ctx()),
    {
        self.advance(2);
        let r = self.type_to_stmt(StmtType::Block(Vec::new()));
        assert(stmts_v(Seq::<Stmt>::empty()) =~= Seq::<StmtV>::empty());
        r
    }

    /// The file recorded in the statements built from now on.
    pub fn set_current_file(&mut self, file: String)
        requires
            old(self).wf(),
        ensures
            final(self).wf(),
            final(self).tokens() == old(self).tokens(),
            final(self).pos() == old(self).pos(),
            final(self).ctx() == (Ctx { file: file@, ..old(self).ctx() }),
    {
        self.current_file = file;
    }

    /// Takes over the type names, structs and enums declared by the parser
    /// of an imported file (see `merge_ctx`).
    pub fn merge_declarations(&mut self, imported: &Parser)
        requires
            old(self).wf(),
        ensures
            final(self).wf(),
            final(self).pos() == old(self).pos(),
            final(self).same_input(*old(self)),
            final(self).ctx() == merge_ctx(old(self).ctx(), imported.ctx()),
    {
        let ghost c0 = self.ctx();
        let ghost ic = imported.ctx();
        let mut i: usize = 0;
        while i < imported.types.len()
            invariant
                self.wf(),
                self.pos() == old(self).pos(),
                self.same_input(*old(self)),
                c0 == old(self).ctx(),
                ic == imported.ctx(),
                i <= imported.types@.len(),
                self.ctx() == (Ctx { types: types_union(c0.types, ic.types.take(i as int)), ..c0 }),
            decreases imported.types.len() - i,
        {
            proof {
                assert(ic.types.take(i + 1).drop_last() =~= ic.types.take(i as int));
                assert(ic.types.take(i + 1).last() == imported.types@[i as int]@);
            }
            self.declare_type(&imported.types[i]);
            i = i + 1;
        }
        assert(ic.types.take(ic.types.len() as int) =~= ic.types);
        let ghost c1 = self.ctx();
        let mut i: usize = 0;
        while i < imported.struct_table.len()
            invariant
                self.wf(),
                self.pos() == old(self).pos(),
                self.same_input(*old(self)),
                ic == imported.ctx(),
                i <= imported.struct_table@.len(),
                self.ctx() == (Ctx { structs: structs_merge(c1.structs, ic.structs.take(i as int)), ..c1 }),
            decreases imported.struct_table.len() - i,
        {
            proof {
                assert(ic.structs.take(i + 1).drop_last() =~= ic.structs.take(i as int));
            }
            let d = imported.struct_table[i].duplicate();
            self.insert_struct(d);
            i = i + 1;
        }
        assert(ic.structs.take(ic.structs.len() as int) =~= ic.structs);
        let ghost c2 = self.ctx();
        let mut i: usize = 0;
        while i < imported.enums_table.len()
            invariant
                self.wf(),
                self.pos() == old(self).pos(),
                self.same_input(*old(self)),
                ic == imported.ctx(),
                i <= imported.enums_table@.len(),
                self.ctx() == (Ctx { enums: enums_merge(c2.enums, ic.enums.take(i as int)), ..c2 }),
            decreases imported.enums_table.len() - i,
        {
            proof {
                assert(ic.enums.take(i + 1).drop_last() =~= ic.enums.take(i as int));
            }
            let d = imported.enums_table[i].duplicate();
            self.insert_enum(d);
            i = i + 1;
        }
        assert(ic.enums.take(ic.enums.len() as int) =~= ic.enums);
    }

    /// An unsized `char` array initialised by a string literal.
    fn is_c_string_decl(ty: &Type, init: &Expr) -> (r: bool)
        ensures
            r == (match (ty@, init@.kind) {
                (TypeV::Array(inner, 0), ExprKindV::String { str }) => *inner == TypeV::Primitive(TokenType::CharType),
                _ => false,
            }),
    {
        match &ty {
            Type::Array(inner, n) => {
                if *n != 0 {
                    return false;
                }
                let is_char = match &**inner {
                    Type::Primitive(k) => *k == TokenType::CharType,
                    _ => false,
                };
                assert(is_char == (type_v(**inner) == TypeV::Primitive(TokenType::CharType)));
                if !is_char {
                    return false;
                }
                match &init.ty {
                    ExprType::String { .. } => true,
                    _ => false,
                }
            },
            _ => false,
        }
    }
}


/// Prepends `acc` to the fields of a successful partial parse of a field list.
pub open spec fn prepend_sized<A>(acc: Seq<A>, o: Option<(Seq<A>, int, int)>) -> Option<(Seq<A>, int, int)> {
    match o {
        Some((rest, r, n)) => Some((acc + rest, r, n)),
        None => None,
    }
}

pub proof fn lemma_prepend_sized<A>(acc: Seq<A>, a: A, o: Option<(Seq<A>, int, int)>)
    ensures
        prepend_sized(acc, prepend_sized(seq![a], o)) == prepend_sized(acc.push(a), o),
{
    if let Some((rest, r, n)) = o {
        assert(acc + (seq![a] + rest) =~= acc.push(a) + rest);
    }
}

pub proof fn lemma_prepend_sized_empty<A>(o: Option<(Seq<A>, int, int)>)
    ensures
        prepend_sized(Seq::<A>::empty(), o) == o,
{
    if let Some((rest, r, n)) = o {
        assert(Seq::<A>::empty() + rest =~= rest);
    }
}

/// Adds a variant to a list; one of the same name is replaced.
fn insert_variant(vs: &mut Vec<EnumVariant>, v: EnumVariant)
    ensures
        variants_v(final(vs)@) == variant_insert(variants_v(old(vs)@), variant_v(v)),
{
    let ghost names = variant_names(variants_v(old(vs)@));
    proof { lemma_first_index(names, v.name@); }
    let mut i: usize = 0;
    while i < vs.len()
        invariant
            i <= vs@.len(),
            *vs == *old(vs),
            names == variant_names(variants_v(old(vs)@)),
            names.len() == vs@.len(),
            forall|j: int| 0 <= j < i ==> names[j] != v.name@,
            first_index(names, v.name@) matches Some(k) ==> 0 <= k < names.len() && names[k] == v.name@
                && forall|j: int| 0 <= j < k ==> names[j] != v.name@,
            first_index(names, v.name@) is None ==> forall|j: int| 0 <= j < names.len() ==> names[j] != v.name@,
        decreases vs.len() - i,
    {
        assert(names[i as int] == vs@[i as int].name@);
        if vs[i].name.eq(&v.name) {
            assert(first_index(names, v.name@) == Some(i as int));
            vs.set(i, v);
            proof {
                assert(variants_v(vs@) =~= variants_v(old(vs)@).update(i as int, variant_v(v)));
            }
            return;
        }
        i = i + 1;
    }
    assert(first_index(names, v.name@) is None);
    vs.push(v);
    proof {
        assert(variants_v(vs@) =~= variants_v(old(vs)@).push(variant_v(v)));
    }
}

} // verus!
