use vstd::prelude::*;
use crate::text::{decimal, is_lit, string_of, decimal_string, chars_of, push_char};

verus! {

/// The kinds of tokens of the language.
#[derive(Debug, PartialEq, Eq, Clone, Copy, Structural)]
pub enum TokenType {
    IntType,
    CharType,
    ShortType,
    LongType,
    Var,
    CharValue,
    Num,
    HexNum,
    Eq,
    Add,
    Mul,
    Sub,
    Div,
    OpenParen,
    CloseParen,
    OpenScope,
    CloseScope,
    If,
    Else,
    AsertEq,
    NotEq,
    Not,
    Less,
    LessThan,
    More,
    MoreThan,
    And,
    Or,
    While,
    For,
    Inc,
    Dec,
    Void,
    Return,
    Coma,
    String,
    Struct,
    OpenBracket,
    Dot,
    CloseBracket,
    Remainder,
    Address,
    Access,
    Asm,
    Func,
    Colon,
    Import,
    Global,
    SizeOf,
    Enum,
    As,
    Match,
    Other,
    BitOr,
    BitXor,
    BitNot,
    LeftShift,
    RightShift,
    ExternFn,
    Semi,
    I8,
    I16,
    I32,
    I64,
    U8,
    U16,
    U32,
    U64,
}


/// The name of a token kind as it is written in its declaration.
pub open spec fn token_name_s(k: TokenType) -> Seq<char> {
    match k {
        TokenType::IntType => "IntType"@,
        TokenType::CharType => "CharType"@,
        TokenType::ShortType => "ShortType"@,
        TokenType::LongType => "LongType"@,
        TokenType::Var => "Var"@,
        TokenType::CharValue => "CharValue"@,
        TokenType::Num => "Num"@,
        TokenType::HexNum => "HexNum"@,
        TokenType::Eq => "Eq"@,
        TokenType::Add => "Add"@,
        TokenType::Mul => "Mul"@,
        TokenType::Sub => "Sub"@,
        TokenType::Div => "Div"@,
        TokenType::OpenParen => "OpenParen"@,
        TokenType::CloseParen => "CloseParen"@,
        TokenType::OpenScope => "OpenScope"@,
        TokenType::CloseScope => "CloseScope"@,
        TokenType::If => "If"@,
        TokenType::Else => "Else"@,
        TokenType::AsertEq => "AsertEq"@,
        TokenType::NotEq => "NotEq"@,
        TokenType::Not => "Not"@,
        TokenType::Less => "Less"@,
        TokenType::LessThan => "LessThan"@,
        TokenType::More => "More"@,
        TokenType::MoreThan => "MoreThan"@,
        TokenType::And => "And"@,
        TokenType::Or => "Or"@,
        TokenType::While => "While"@,
        TokenType::For => "For"@,
        TokenType::Inc => "Inc"@,
        TokenType::Dec => "Dec"@,
        TokenType::Void => "Void"@,
        TokenType::Return => "Return"@,
        TokenType::Coma => "Coma"@,
        TokenType::String => "String"@,
        TokenType::Struct => "Struct"@,
        TokenType::OpenBracket => "OpenBracket"@,
        TokenType::Dot => "Dot"@,
        TokenType::CloseBracket => "CloseBracket"@,
        TokenType::Remainder => "Remainder"@,
        TokenType::Address => "Address"@,
        TokenType::Access => "Access"@,
        TokenType::Asm => "Asm"@,
        TokenType::Func => "Func"@,
        TokenType::Colon => "Colon"@,
        TokenType::Import => "Import"@,
        TokenType::Global => "Global"@,
        TokenType::SizeOf => "SizeOf"@,
        TokenType::Enum => "Enum"@,
        TokenType::As => "As"@,
        TokenType::Match => "Match"@,
        TokenType::Other => "Other"@,
        TokenType::BitOr => "BitOr"@,
        TokenType::BitXor => "BitXor"@,
        TokenType::BitNot => "BitNot"@,
        TokenType::LeftShift => "LeftShift"@,
        TokenType::RightShift => "RightShift"@,
        TokenType::ExternFn => "ExternFn"@,
        TokenType::Semi => "Semi"@,
        TokenType::I8 => "I8"@,
        TokenType::I16 => "I16"@,
        TokenType::I32 => "I32"@,
        TokenType::I64 => "I64"@,
        TokenType::U8 => "U8"@,
        TokenType::U16 => "U16"@,
        TokenType::U32 => "U32"@,
        TokenType::U64 => "U64"@,
    }
}

/// The name of a token kind as it is written in its declaration.
pub fn token_name(k: TokenType) -> (r: &'static str)
    ensures
        r@ == token_name_s(k),
{
    match k {
        TokenType::IntType => "IntType",
        TokenType::CharType => "CharType",
        TokenType::ShortType => "ShortType",
        TokenType::LongType => "LongType",
        TokenType::Var => "Var",
        TokenType::CharValue => "CharValue",
        TokenType::Num => "Num",
        TokenType::HexNum => "HexNum",
        TokenType::Eq => "Eq",
        TokenType::Add => "Add",
        TokenType::Mul => "Mul",
        TokenType::Sub => "Sub",
        TokenType::Div => "Div",
        TokenType::OpenParen => "OpenParen",
        TokenType::CloseParen => "CloseParen",
        TokenType::OpenScope => "OpenScope",
        TokenType::CloseScope => "CloseScope",
        TokenType::If => "If",
        TokenType::Else => "Else",
        TokenType::AsertEq => "AsertEq",
        TokenType::NotEq => "NotEq",
        TokenType::Not => "Not",
        TokenType::Less => "Less",
        TokenType::LessThan => "LessThan",
        TokenType::More => "More",
        TokenType::MoreThan => "MoreThan",
        TokenType::And => "And",
        TokenType::Or => "Or",
        TokenType::While => "While",
        TokenType::For => "For",
        TokenType::Inc => "Inc",
        TokenType::Dec => "Dec",
        TokenType::Void => "Void",
        TokenType::Return => "Return",
        TokenType::Coma => "Coma",
        TokenType::String => "String",
        TokenType::Struct => "Struct",
        TokenType::OpenBracket => "OpenBracket",
        TokenType::Dot => "Dot",
        TokenType::CloseBracket => "CloseBracket",
        TokenType::Remainder => "Remainder",
        TokenType::Address => "Address",
        TokenType::Access => "Access",
        TokenType::Asm => "Asm",
        TokenType::Func => "Func",
        TokenType::Colon => "Colon",
        TokenType::Import => "Import",
        TokenType::Global => "Global",
        TokenType::SizeOf => "SizeOf",
        TokenType::Enum => "Enum",
        TokenType::As => "As",
        TokenType::Match => "Match",
        TokenType::Other => "Other",
        TokenType::BitOr => "BitOr",
        TokenType::BitXor => "BitXor",
        TokenType::BitNot => "BitNot",
        TokenType::LeftShift => "LeftShift",
        TokenType::RightShift => "RightShift",
        TokenType::ExternFn => "ExternFn",
        TokenType::Semi => "Semi",
        TokenType::I8 => "I8",
        TokenType::I16 => "I16",
        TokenType::I32 => "I32",
        TokenType::I64 => "I64",
        TokenType::U8 => "U8",
        TokenType::U16 => "U16",
        TokenType::U32 => "U32",
        TokenType::U64 => "U64",
    }
}

// ---------------------------------------------------------------------------
// Tokens
// ---------------------------------------------------------------------------

/// A token: its kind and, for names, numbers, strings and some operators,
/// the text it carries.
#[derive(Debug)]
pub struct Token {
    pub token: TokenType,
    pub value: Option<String>,
}

/// The value of a token.
pub struct TokenV {
    pub kind: TokenType,
    pub text: Option<Seq<char>>,
}

pub open spec fn token_v(t: Token) -> TokenV {
    TokenV {
        kind: t.token,
        text: match t.value {
            Some(s) => Some(s@),
            None => None,
        },
    }
}

pub open spec fn tokens_v(ts: Seq<Token>) -> Seq<TokenV> {
    Seq::new(ts.len(), |i: int| token_v(ts[i]))
}

impl View for Token {
    type V = TokenV;

    open spec fn view(&self) -> TokenV {
        token_v(*self)
    }
}

impl Token {
    /// A copy of this token.
    pub fn duplicate(&self) -> (r: Token)
        ensures
            r@ == self@,
    {
        Token {
            token: self.token,
            value: match &self.value {
                Some(s) => Some(s.clone()),
                None => None,
            },
        }
    }
}

pub open spec fn tok(kind: TokenType, text: Option<Seq<char>>) -> TokenV {
    TokenV { kind, text }
}

// ---------------------------------------------------------------------------
// Character classes
// ---------------------------------------------------------------------------

/// Unicode `Alphabetic` property of a character (std's `char::is_alphabetic`).
pub uninterp spec fn char_alphabetic(c: char) -> bool;

/// Unicode numeric property of a character (std's `char::is_numeric`).
pub uninterp spec fn char_numeric(c: char) -> bool;

/// Trusted: calls `char::is_alphabetic` from std; its result is the Unicode
/// `Alphabetic` property of `c`, which depends on `c` alone and is named
/// `char_alphabetic` here. Of ASCII it states what that property gives: the
/// letters `a`-`z` and `A`-`Z` have it, the digits and the space do not.
#[verifier::external_body]
fn is_alphabetic(c: char) -> (r: bool)
    ensures
        r == char_alphabetic(c),
        ('a' <= c && c <= 'z') || ('A' <= c && c <= 'Z') ==> r,
        ('0' <= c && c <= '9') || c == ' ' ==> !r,
{
    c.is_alphabetic()
}

/// Trusted: calls `char::is_numeric` from std; its result is the Unicode
/// numeric property of `c` (general categories Nd, Nl, No), named
/// `char_numeric` here. Of ASCII it states what those categories give: the
/// digits `0`-`9` are numeric, the letters and the space are not.
#[verifier::external_body]
fn is_numeric(c: char) -> (r: bool)
    ensures
        r == char_numeric(c),
        '0' <= c && c <= '9' ==> r,
        ('a' <= c && c <= 'z') || ('A' <= c && c <= 'Z') || c == ' ' ==> !r,
{
    c.is_numeric()
}

/// Letters and digits: std's `char::is_alphanumeric`, which its
/// documentation defines as `is_alphabetic() || is_numeric()`.
fn is_alphanumeric(c: char) -> (r: bool)
    ensures
        r == (char_alphabetic(c) || char_numeric(c)),
{
    is_alphabetic(c) || is_numeric(c)
}

/// Runs of characters that the lexer reads in one go.
#[derive(Clone, Copy)]
pub enum CharClass {
    /// letters, digits and `_` (the rest of a name)
    Word,
    /// letters and digits (the digits of a hexadecimal number)
    AlNum,
    /// digits (the rest of a decimal number)
    Numeric,
    /// anything but `"` (the contents of a string literal)
    NotQuote,
}

pub open spec fn in_class(c: char, cl: CharClass) -> bool {
    match cl {
        CharClass::Word => char_alphabetic(c) || char_numeric(c) || c == '_',
        CharClass::AlNum => char_alphabetic(c) || char_numeric(c),
        CharClass::Numeric => char_numeric(c),
        CharClass::NotQuote => c != '"',
    }
}

/// The end of the run of characters of class `cl` that starts at `k`
/// (`src.len()` when the run reaches the end of the source).
pub open spec fn run_end(src: Seq<char>, k: int, cl: CharClass) -> int
    decreases src.len() - k,
{
    if k < 0 || k >= src.len() {
        src.len() as int
    } else if in_class(src[k], cl) {
        run_end(src, k + 1, cl)
    } else {
        k
    }
}

pub proof fn lemma_run_end(src: Seq<char>, k: int, cl: CharClass)
    requires
        0 <= k <= src.len(),
    ensures
        k <= run_end(src, k, cl) <= src.len(),
        forall|j: int| k <= j < run_end(src, k, cl) ==> in_class(#[trigger] src[j], cl),
        run_end(src, k, cl) < src.len() ==> !in_class(src[run_end(src, k, cl)], cl),
    decreases src.len() - k,
{
    if k < src.len() && in_class(src[k], cl) {
        lemma_run_end(src, k + 1, cl);
    }
}

/// The keyword that a word spells, if any.
pub open spec fn keyword_s(w: Seq<char>) -> Option<TokenType> {
    if w == "int"@ {
        Some(TokenType::IntType)
    } else if w == "short"@ {
        Some(TokenType::ShortType)
    } else if w == "long"@ {
        Some(TokenType::LongType)
    } else if w == "char"@ {
        Some(TokenType::CharType)
    } else if w == "if"@ {
        Some(TokenType::If)
    } else if w == "else"@ {
        Some(TokenType::Else)
    } else if w == "and"@ {
        Some(TokenType::And)
    } else if w == "or"@ {
        Some(TokenType::Or)
    } else if w == "while"@ {
        Some(TokenType::While)
    } else if w == "for"@ {
        Some(TokenType::For)
    } else if w == "void"@ {
        Some(TokenType::Void)
    } else if w == "return"@ {
        Some(TokenType::Return)
    } else if w == "struct"@ {
        Some(TokenType::Struct)
    } else if w == "asm"@ {
        Some(TokenType::Asm)
    } else if w == "fn"@ {
        Some(TokenType::Func)
    } else if w == "import"@ {
        Some(TokenType::Import)
    } else if w == "global"@ {
        Some(TokenType::Global)
    } else if w == "sizeof"@ {
        Some(TokenType::SizeOf)
    } else if w == "enum"@ {
        Some(TokenType::Enum)
    } else if w == "match"@ {
        Some(TokenType::Match)
    } else if w == "as"@ {
        Some(TokenType::As)
    } else if w == "extern"@ {
        Some(TokenType::ExternFn)
    } else {
        None
    }
}

/// A word becomes its keyword, or else a `Var` token carrying the word.
pub open spec fn word_token(w: Seq<char>) -> TokenV {
    match keyword_s(w) {
        Some(k) => tok(k, None),
        None => tok(TokenType::Var, Some(w)),
    }
}

/// The token of a character that forms a token alone (`None` for the
/// characters that the lexer skips).
pub open spec fn single_token(c: char) -> Option<TokenV> {
    if c == '|' { Some(tok(TokenType::BitOr, None)) }
    else if c == '^' { Some(tok(TokenType::BitXor, None)) }
    else if c == '~' { Some(tok(TokenType::BitNot, None)) }
    else if c == ':' { Some(tok(TokenType::Colon, None)) }
    else if c == '%' { Some(tok(TokenType::Remainder, None)) }
    else if c == '.' { Some(tok(TokenType::Dot, None)) }
    else if c == ';' { Some(tok(TokenType::Semi, None)) }
    else if c == '&' { Some(tok(TokenType::Address, None)) }
    else if c == '*' { Some(tok(TokenType::Mul, Some(seq!['*']))) }
    else if c == '/' { Some(tok(TokenType::Div, Some(seq!['/']))) }
    else if c == '(' { Some(tok(TokenType::OpenParen, Some(seq!['(']))) }
    else if c == ')' { Some(tok(TokenType::CloseParen, Some(seq![')']))) }
    else if c == '{' { Some(tok(TokenType::OpenScope, None)) }
    else if c == '}' { Some(tok(TokenType::CloseScope, None)) }
    else if c == '[' { Some(tok(TokenType::OpenBracket, None)) }
    else if c == ']' { Some(tok(TokenType::CloseBracket, None)) }
    else if c == '_' { Some(tok(TokenType::Other, Some(seq!['_']))) }
    else if c == ',' { Some(tok(TokenType::Coma, Some(seq![',']))) }
    else { None }
}

/// Characters whose token depends on the character after them.
pub open spec fn is_pair_lead(c: char) -> bool {
    c == '=' || c == '+' || c == '-' || c == '<' || c == '>' || c == '!'
}

/// The token of `c` (a pair lead) followed by `d`, and whether `d` is part of it.
pub open spec fn pair_token(c: char, d: char) -> (Option<TokenV>, bool) {
    if c == '=' {
        if d == '=' { (Some(tok(TokenType::AsertEq, None)), true) } else { (Some(tok(TokenType::Eq, None)), false) }
    } else if c == '+' {
        if d == '+' { (Some(tok(TokenType::Inc, Some(seq!['+', '+']))), true) }
        else { (Some(tok(TokenType::Add, Some(seq!['+']))), false) }
    } else if c == '-' {
        if d == '>' { (Some(tok(TokenType::Access, None)), true) }
        else if d == '-' { (Some(tok(TokenType::Dec, Some(seq!['-', '-']))), true) }
        else { (Some(tok(TokenType::Sub, Some(seq!['-']))), false) }
    } else if c == '<' {
        if d == '=' { (Some(tok(TokenType::LessThan, None)), true) }
        else if d == '<' { (Some(tok(TokenType::LeftShift, None)), true) }
        else { (Some(tok(TokenType::Less, None)), false) }
    } else if c == '>' {
        if d == '=' { (Some(tok(TokenType::MoreThan, None)), true) }
        else if d == '>' { (Some(tok(TokenType::RightShift, None)), true) }
        else { (Some(tok(TokenType::More, None)), false) }
    } else {
        if d == '=' { (Some(tok(TokenType::NotEq, None)), true) } else { (Some(tok(TokenType::Not, None)), false) }
    }
}

pub open spec fn is_ascii_char(c: char) -> bool {
    (c as u32) < 128
}

/// One step of the lexer at position `i`: the token read (if any) and the
/// position after it; `None` where the lexer runs past the end of the source
/// or meets a non-ASCII character literal.
pub open spec fn lex_step(src: Seq<char>, i: int) -> Option<(Option<TokenV>, int)> {
    let n = src.len() as int;
    let c = src[i];
    if char_alphabetic(c) {
        let e = run_end(src, i + 1, CharClass::Word);
        if e >= n { None } else { Some((Some(word_token(src.subrange(i, e))), e)) }
    } else if char_numeric(c) {
        if i + 1 >= n {
            None
        } else if src[i + 1] == 'x' {
            let e = run_end(src, i + 2, CharClass::AlNum);
            if e >= n { None } else { Some((Some(tok(TokenType::HexNum, Some(src.subrange(i + 2, e)))), e)) }
        } else {
            let e = run_end(src, i + 1, CharClass::Numeric);
            if e >= n { None } else { Some((Some(tok(TokenType::Num, Some(src.subrange(i, e)))), e)) }
        }
    } else {
        let j = i + 1;
        if c == '\'' {
            if j + 1 >= n || !is_ascii_char(src[j]) {
                None
            } else {
                Some((Some(tok(TokenType::CharValue, Some(decimal(src[j] as u32 as nat)))), j + 2))
            }
        } else if c == '"' {
            let e = run_end(src, j, CharClass::NotQuote);
            if e >= n { None } else { Some((Some(tok(TokenType::String, Some(src.subrange(j, e)))), e + 1)) }
        } else if is_pair_lead(c) {
            if j >= n {
                None
            } else {
                let (t, two) = pair_token(c, src[j]);
                Some((t, if two { j + 1 } else { j }))
            }
        } else {
            Some((single_token(c), j))
        }
    }
}

pub open spec fn opt_push_front(t: Option<TokenV>, rest: Seq<TokenV>) -> Seq<TokenV> {
    match t {
        Some(x) => seq![x] + rest,
        None => rest,
    }
}

/// The tokens of `src` from position `i` on.
pub open spec fn lex_from(src: Seq<char>, i: int) -> Option<Seq<TokenV>>
    decreases src.len() - i,
{
    if i < 0 || i >= src.len() {
        Some(Seq::empty())
    } else {
        match lex_step(src, i) {
            None => None,
            Some((t, j)) => if j <= i {
                None
            } else {
                match lex_from(src, j) {
                    None => None,
                    Some(rest) => Some(opt_push_front(t, rest)),
                }
            },
        }
    }
}


/// Each step of the lexer moves forward and stays within the source.
pub proof fn lemma_lex_step_progress(src: Seq<char>, i: int)
    requires
        0 <= i < src.len(),
    ensures
        lex_step(src, i) matches Some((_, j)) ==> i < j <= src.len(),
{
    lemma_run_end(src, i + 1, CharClass::Word);
    lemma_run_end(src, i + 1, CharClass::Numeric);
    lemma_run_end(src, i + 1, CharClass::NotQuote);
    if i + 2 <= src.len() {
        lemma_run_end(src, i + 2, CharClass::AlNum);
    }
}

/// The lexer read one step at a time.
pub proof fn lemma_lex_from_step(src: Seq<char>, i: int)
    requires
        0 <= i < src.len(),
    ensures
        lex_step(src, i) is None ==> lex_from(src, i) is None,
        lex_step(src, i) matches Some((t, j)) ==> lex_from(src, i) == prefix_opt(opt_seq(t), lex_from(src, j)),
{
    lemma_lex_step_progress(src, i);
    if let Some((t, j)) = lex_step(src, i) {
        match lex_from(src, j) {
            Some(rest) => {
                assert(opt_push_front(t, rest) =~= opt_seq(t) + rest);
            },
            None => {},
        }
    }
}

/// The tokens of a source text; `None` for an empty source and where the
/// lexer cannot finish (see `lex_step`).
pub open spec fn lex(src: Seq<char>) -> Option<Seq<TokenV>> {
    if src.len() == 0 {
        None
    } else {
        lex_from(src, 0)
    }
}

/// The keyword that the characters `w` spell, if any.
pub fn keyword(w: &Vec<char>) -> (r: Option<TokenType>)
    ensures
        r == keyword_s(w@),
{
    if is_lit(w, "int") {
        Some(TokenType::IntType)
    } else if is_lit(w, "short") {
        Some(TokenType::ShortType)
    } else if is_lit(w, "long") {
        Some(TokenType::LongType)
    } else if is_lit(w, "char") {
        Some(TokenType::CharType)
    } else if is_lit(w, "if") {
        Some(TokenType::If)
    } else if is_lit(w, "else") {
        Some(TokenType::Else)
    } else if is_lit(w, "and") {
        Some(TokenType::And)
    } else if is_lit(w, "or") {
        Some(TokenType::Or)
    } else if is_lit(w, "while") {
        Some(TokenType::While)
    } else if is_lit(w, "for") {
        Some(TokenType::For)
    } else if is_lit(w, "void") {
        Some(TokenType::Void)
    } else if is_lit(w, "return") {
        Some(TokenType::Return)
    } else if is_lit(w, "struct") {
        Some(TokenType::Struct)
    } else if is_lit(w, "asm") {
        Some(TokenType::Asm)
    } else if is_lit(w, "fn") {
        Some(TokenType::Func)
    } else if is_lit(w, "import") {
        Some(TokenType::Import)
    } else if is_lit(w, "global") {
        Some(TokenType::Global)
    } else if is_lit(w, "sizeof") {
        Some(TokenType::SizeOf)
    } else if is_lit(w, "enum") {
        Some(TokenType::Enum)
    } else if is_lit(w, "match") {
        Some(TokenType::Match)
    } else if is_lit(w, "as") {
        Some(TokenType::As)
    } else if is_lit(w, "extern") {
        Some(TokenType::ExternFn)
    } else {
        None
    }
}

fn in_class_exec(c: char, cl: CharClass) -> (r: bool)
    ensures
        r == in_class(c, cl),
{
    match cl {
        CharClass::Word => is_alphanumeric(c) || c == '_',
        CharClass::AlNum => is_alphanumeric(c),
        CharClass::Numeric => is_numeric(c),
        CharClass::NotQuote => c != '"',
    }
}

fn text_token(kind: TokenType, a: char, b: Option<char>) -> (r: Token)
    ensures
        r@ == tok(kind, Some(match b { Some(x) => seq![a, x], None => seq![a] })),
{
    let mut v = String::new();
    push_char(&mut v, a);
    match b {
        Some(x) => push_char(&mut v, x),
        None => {},
    }
    proof {
        match b {
            Some(x) => assert(v@ =~= seq![a, x]),
            None => assert(v@ =~= seq![a]),
        }
    }
    Token { token: kind, value: Some(v) }
}

fn single_tok(c: char) -> (r: Option<Token>)
    ensures
        match r {
            Some(t) => single_token(c) == Some(t@),
            None => single_token(c) is None,
        },
{
    if c == '|' { Some(Token { token: TokenType::BitOr, value: None }) }
    else if c == '^' { Some(Token { token: TokenType::BitXor, value: None }) }
    else if c == '~' { Some(Token { token: TokenType::BitNot, value: None }) }
    else if c == ':' { Some(Token { token: TokenType::Colon, value: None }) }
    else if c == '%' { Some(Token { token: TokenType::Remainder, value: None }) }
    else if c == '.' { Some(Token { token: TokenType::Dot, value: None }) }
    else if c == ';' { Some(Token { token: TokenType::Semi, value: None }) }
    else if c == '&' { Some(Token { token: TokenType::Address, value: None }) }
    else if c == '*' { Some(text_token(TokenType::Mul, '*', None)) }
    else if c == '/' { Some(text_token(TokenType::Div, '/', None)) }
    else if c == '(' { Some(text_token(TokenType::OpenParen, '(', None)) }
    else if c == ')' { Some(text_token(TokenType::CloseParen, ')', None)) }
    else if c == '{' { Some(Token { token: TokenType::OpenScope, value: None }) }
    else if c == '}' { Some(Token { token: TokenType::CloseScope, value: None }) }
    else if c == '[' { Some(Token { token: TokenType::OpenBracket, value: None }) }
    else if c == ']' { Some(Token { token: TokenType::CloseBracket, value: None }) }
    else if c == '_' { Some(text_token(TokenType::Other, '_', None)) }
    else if c == ',' { Some(text_token(TokenType::Coma, ',', None)) }
    else { None }
}

fn pair_tok(c: char, d: char) -> (r: (Token, bool))
    requires
        is_pair_lead(c),
    ensures
        pair_token(c, d) == (Some(r.0@), r.1),
{
    if c == '=' {
        if d == '=' { (Token { token: TokenType::AsertEq, value: None }, true) }
        else { (Token { token: TokenType::Eq, value: None }, false) }
    } else if c == '+' {
        if d == '+' { (text_token(TokenType::Inc, '+', Some('+')), true) }
        else { (text_token(TokenType::Add, '+', None), false) }
    } else if c == '-' {
        if d == '>' { (Token { token: TokenType::Access, value: None }, true) }
        else if d == '-' { (text_token(TokenType::Dec, '-', Some('-')), true) }
        else { (text_token(TokenType::Sub, '-', None), false) }
    } else if c == '<' {
        if d == '=' { (Token { token: TokenType::LessThan, value: None }, true) }
        else if d == '<' { (Token { token: TokenType::LeftShift, value: None }, true) }
        else { (Token { token: TokenType::Less, value: None }, false) }
    } else if c == '>' {
        if d == '=' { (Token { token: TokenType::MoreThan, value: None }, true) }
        else if d == '>' { (Token { token: TokenType::RightShift, value: None }, true) }
        else { (Token { token: TokenType::More, value: None }, false) }
    } else {
        if d == '=' { (Token { token: TokenType::NotEq, value: None }, true) }
        else { (Token { token: TokenType::Not, value: None }, false) }
    }
}

pub open spec fn opt_seq(t: Option<TokenV>) -> Seq<TokenV> {
    match t {
        Some(x) => seq![x],
        None => Seq::empty(),
    }
}

pub open spec fn prefix_opt(p: Seq<TokenV>, o: Option<Seq<TokenV>>) -> Option<Seq<TokenV>> {
    match o {
        Some(r) => Some(p + r),
        None => None,
    }
}

/// The lexer over a source text.
pub struct Tokenizer {
    m_index: usize,
    m_src: Vec<char>,
    m_buf: Vec<char>,
    pub m_res: Vec<Token>,
}

impl Tokenizer {
    /// The source text.
    pub closed spec fn source(&self) -> Seq<char> {
        self.m_src@
    }

    /// The position of the next character to read.
    pub closed spec fn position(&self) -> int {
        self.m_index as int
    }

    /// The tokens read so far.
    pub closed spec fn produced(&self) -> Seq<TokenV> {
        tokens_v(self.m_res@)
    }

    /// The position lies within the source and no word is half read.
    pub closed spec fn wf(&self) -> bool {
        self.m_index <= self.m_src@.len() && self.m_buf@.len() == 0
    }

    pub fn new(file: String) -> (r: Tokenizer)
        ensures
            r.wf(),
            r.source() == file@,
            r.position() == 0,
            r.produced().len() == 0,
    {
        Tokenizer { m_index: 0, m_src: chars_of(file.as_str()), m_buf: Vec::new(), m_res: Vec::new() }
    }

    fn push_token(&mut self, token: TokenType, value: Option<String>)
        ensures
            final(self).m_index == old(self).m_index,
            final(self).m_src == old(self).m_src,
            final(self).m_buf == old(self).m_buf,
            final(self).m_res@ == old(self).m_res@.push(Token { token, value }),
    {
        let x = Token { token, value };
        self.m_res.push(x);
    }

    fn push_tok(&mut self, t: Token)
        ensures
            final(self).m_index == old(self).m_index,
            final(self).m_src == old(self).m_src,
            final(self).m_buf == old(self).m_buf,
            final(self).m_res@ == old(self).m_res@.push(t),
    {
        self.m_res.push(t);
    }

    fn peek(&self, offset: usize) -> (c: char)
        requires
            self.m_index + offset < self.m_src.len(),
        ensures
            c == self.m_src@[self.m_index + offset],
    {
        let pos: usize = self.m_index + offset;
        self.m_src[pos]
    }

    fn consume(&mut self) -> (c: char)
        requires
            old(self).m_index < old(self).m_src.len(),
        ensures
            c == old(self).m_src@[old(self).m_index as int],
            final(self).m_index == old(self).m_index + 1,
            final(self).m_src == old(self).m_src,
            final(self).m_buf == old(self).m_buf,
            final(self).m_res == old(self).m_res,
    {
        self.m_index += 1;
        self.m_src[self.m_index - 1]
    }

    /// Reads the run of class `cl` at the current position into the buffer;
    /// false when the run reaches the end of the source.
    fn scan(&mut self, cl: CharClass) -> (ok: bool)
        requires
            old(self).m_index <= old(self).m_src@.len(),
        ensures
            final(self).m_src == old(self).m_src,
            final(self).m_res == old(self).m_res,
            ok == (run_end(old(self).m_src@, old(self).m_index as int, cl) < old(self).m_src@.len()),
            ok ==> final(self).m_index == run_end(old(self).m_src@, old(self).m_index as int, cl),
            ok ==> final(self).m_buf@ == old(self).m_buf@ + old(self).m_src@.subrange(old(self).m_index as int, final(self).m_index as int),
            final(self).m_index <= final(self).m_src@.len(),
    {
        let ghost src = self.m_src@;
        let ghost k0 = self.m_index as int;
        let ghost b0 = self.m_buf@;
        proof { lemma_run_end(src, k0, cl); }
        loop
            invariant
                self.m_src@ == src,
                src == old(self).m_src@,
                k0 == old(self).m_index as int,
                b0 == old(self).m_buf@,
                self.m_src == old(self).m_src,
                self.m_res == old(self).m_res,
                k0 <= self.m_index <= src.len(),
                0 <= k0 <= src.len(),
                run_end(src, self.m_index as int, cl) == run_end(src, k0, cl),
                self.m_buf@ == b0 + src.subrange(k0, self.m_index as int),
            decreases src.len() - self.m_index,
        {
            if self.m_index >= self.m_src.len() {
                assert(run_end(src, self.m_index as int, cl) == src.len());
                return false;
            }
            let c = self.peek(0);
            if !in_class_exec(c, cl) {
                assert(run_end(src, self.m_index as int, cl) == self.m_index);
                return true;
            }
            let v = self.consume();
            self.m_buf.push(v);
            assert(self.m_buf@ =~= b0 + src.subrange(k0, self.m_index as int));
        }
    }

    /// Reads one token (or skips one character) at the current position.
    fn lex_one(&mut self) -> (ok: bool)
        requires
            old(self).wf(),
            old(self).m_index < old(self).m_src@.len(),
        ensures
            final(self).m_src == old(self).m_src,
            final(self).wf(),
            ok == (lex_step(old(self).m_src@, old(self).m_index as int) is Some),
            ok ==> final(self).m_index == lex_step(old(self).m_src@, old(self).m_index as int).unwrap().1,
            ok ==> tokens_v(final(self).m_res@) == tokens_v(old(self).m_res@) + opt_seq(lex_step(old(self).m_src@, old(self).m_index as int).unwrap().0),
    {
        let ghost src = self.m_src@;
        let ghost i = self.m_index as int;
        let ghost r0 = self.m_res@;
        let c = self.peek(0);
        if is_alphabetic(c) {
            let v = self.consume();
            self.m_buf.push(v);
            if !self.scan(CharClass::Word) {
                self.m_buf = Vec::new();
                return false;
            }
            proof { lemma_run_end(src, i + 1, CharClass::Word); }
            assert(self.m_buf@ =~= src.subrange(i, self.m_index as int));
            match keyword(&self.m_buf) {
                Some(k) => self.push_token(k, None),
                None => {
                    let w = string_of(&self.m_buf);
                    self.push_token(TokenType::Var, Some(w));
                },
            }
            self.m_buf = Vec::new();
            assert(tokens_v(self.m_res@) =~= tokens_v(r0) + opt_seq(lex_step(src, i).unwrap().0));
            return true;
        } else if is_numeric(c) {
            let v = self.consume();
            self.m_buf.push(v);
            if self.m_index >= self.m_src.len() {
                self.m_buf = Vec::new();
                return false;
            }
            if self.peek(0) == 'x' {
                self.consume();
                self.m_buf = Vec::new();
                if !self.scan(CharClass::AlNum) {
                    self.m_buf = Vec::new();
                    return false;
                }
                proof { lemma_run_end(src, i + 2, CharClass::AlNum); }
                assert(self.m_buf@ =~= src.subrange(i + 2, self.m_index as int));
                let w = string_of(&self.m_buf);
                self.push_token(TokenType::HexNum, Some(w));
                self.m_buf = Vec::new();
                assert(tokens_v(self.m_res@) =~= tokens_v(r0) + opt_seq(lex_step(src, i).unwrap().0));
                return true;
            }
            if !self.scan(CharClass::Numeric) {
                self.m_buf = Vec::new();
                return false;
            }
            proof { lemma_run_end(src, i + 1, CharClass::Numeric); }
            assert(self.m_buf@ =~= src.subrange(i, self.m_index as int));
            let w = string_of(&self.m_buf);
            self.push_token(TokenType::Num, Some(w));
            self.m_buf = Vec::new();
            assert(tokens_v(self.m_res@) =~= tokens_v(r0) + opt_seq(lex_step(src, i).unwrap().0));
            return true;
        } else {
            let smth = self.consume();
            if smth == '\'' {
                if self.m_index >= self.m_src.len() {
                    return false;
                }
                let character = self.consume();
                if !((character as u32) < 128) {
                    return false;
                }
                let w = decimal_string(character as u32 as u64);
                self.push_token(TokenType::CharValue, Some(w));
                if self.m_index >= self.m_src.len() {
                    return false;
                }
                self.consume();
                assert(tokens_v(self.m_res@) =~= tokens_v(r0) + opt_seq(lex_step(src, i).unwrap().0));
                return true;
            } else if smth == '"' {
                if !self.scan(CharClass::NotQuote) {
                    self.m_buf = Vec::new();
                    return false;
                }
                proof { lemma_run_end(src, i + 1, CharClass::NotQuote); }
                assert(self.m_buf@ =~= src.subrange(i + 1, self.m_index as int));
                self.consume();
                let w = string_of(&self.m_buf);
                self.push_token(TokenType::String, Some(w));
                self.m_buf = Vec::new();
                assert(tokens_v(self.m_res@) =~= tokens_v(r0) + opt_seq(lex_step(src, i).unwrap().0));
                return true;
            } else if smth == '=' || smth == '+' || smth == '-' || smth == '<' || smth == '>' || smth == '!' {
                if self.m_index >= self.m_src.len() {
                    return false;
                }
                let d = self.peek(0);
                let (t, two) = pair_tok(smth, d);
                self.push_tok(t);
                if two {
                    self.consume();
                }
                assert(tokens_v(self.m_res@) =~= tokens_v(r0) + opt_seq(lex_step(src, i).unwrap().0));
                return true;
            } else {
                match single_tok(smth) {
                    Some(t) => self.push_tok(t),
                    None => {},
                }
                assert(tokens_v(self.m_res@) =~= tokens_v(r0) + opt_seq(lex_step(src, i).unwrap().0));
                return true;
            }
        }
    }

    /// Reads the whole source from the current position into tokens.
    /// Returns false where the source cannot be read to its end (an empty
    /// source, a name, number, string, character or operator cut off by the
    /// end of the source, a non-ASCII character literal); the tokens read are
    /// then unspecified.
    pub fn tokenize(&mut self) -> (ok: bool)
        requires
            old(self).wf(),
        ensures
            final(self).wf(),
            final(self).source() == old(self).source(),
            ok == (old(self).source().len() > 0 && lex_from(old(self).source(), old(self).position()) is Some),
            ok ==> final(self).produced() == old(self).produced() + lex_from(old(self).source(), old(self).position()).unwrap(),
            ok ==> final(self).position() == final(self).source().len(),
    {
        let ghost src = self.m_src@;
        let ghost i0 = self.m_index as int;
        let ghost r0 = tokens_v(self.m_res@);
        if self.m_src.len() == 0 {
            return false;
        }
        let ghost mut emitted: Seq<TokenV> = Seq::empty();
        assert(prefix_opt(emitted, lex_from(src, i0)) == lex_from(src, i0)) by {
            match lex_from(src, i0) {
                Some(r) => assert(emitted + r =~= r),
                None => {},
            }
        }
        while self.m_index < self.m_src.len()
            invariant
                self.wf(),
                self.m_src@ == src,
                src == old(self).m_src@,
                i0 == old(self).m_index as int,
                r0 == tokens_v(old(self).m_res@),
                i0 <= self.m_index,
                lex_from(src, i0) == prefix_opt(emitted, lex_from(src, self.m_index as int)),
                tokens_v(self.m_res@) == r0 + emitted,
            decreases src.len() - self.m_index,
        {
            let ghost before = self.m_index as int;
            proof {
                lemma_lex_from_step(src, before);
                lemma_lex_step_progress(src, before);
            }
            if !self.lex_one() {
                return false;
            }
            proof {
                let t = lex_step(src, before).unwrap().0;
                match lex_from(src, self.m_index as int) {
                    Some(rest) => {
                        assert(emitted + (opt_seq(t) + rest) =~= (emitted + opt_seq(t)) + rest);
                    },
                    None => {},
                }
                assert(r0 + emitted + opt_seq(t) =~= r0 + (emitted + opt_seq(t)));
                emitted = emitted + opt_seq(t);
            }
        }
        assert(lex_from(src, self.m_index as int) == Some(Seq::<TokenV>::empty()));
        assert(emitted + Seq::<TokenV>::empty() =~= emitted);
        true
    }
}

} // verus!
