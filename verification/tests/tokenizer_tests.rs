use vcompiler::tokenizer::{Token, TokenType, Tokenizer};

fn lex(src: &str) -> Option<Vec<Token>> {
    let mut t = Tokenizer::new(src.to_string());
    if t.tokenize() {
        Some(t.m_res)
    } else {
        None
    }
}

fn kinds(ts: &[Token]) -> Vec<TokenType> {
    ts.iter().map(|t| t.token).collect()
}

#[test]
fn tokenizes_declaration() {
    let ts = lex("int x = 5;\n").unwrap();
    assert_eq!(
        kinds(&ts),
        vec![TokenType::IntType, TokenType::Var, TokenType::Eq, TokenType::Num, TokenType::Semi]
    );
    assert_eq!(ts[1].value.as_deref(), Some("x"));
    assert_eq!(ts[3].value.as_deref(), Some("5"));
    assert_eq!(ts[0].value, None);
}

#[test]
fn words_with_digits_are_one_identifier() {
    let ts = lex("abc123 ").unwrap();
    assert_eq!(kinds(&ts), vec![TokenType::Var]);
    assert_eq!(ts[0].value.as_deref(), Some("abc123"));
}

#[test]
fn keywords_are_recognised() {
    let ts = lex("fn struct enum match extern import global sizeof as return while for if else ").unwrap();
    assert_eq!(
        kinds(&ts),
        vec![
            TokenType::Func,
            TokenType::Struct,
            TokenType::Enum,
            TokenType::Match,
            TokenType::ExternFn,
            TokenType::Import,
            TokenType::Global,
            TokenType::SizeOf,
            TokenType::As,
            TokenType::Return,
            TokenType::While,
            TokenType::For,
            TokenType::If,
            TokenType::Else,
        ]
    );
}

#[test]
fn two_character_operators() {
    let ts = lex("== != <= >= << >> -> ++ -- a\n").unwrap();
    assert_eq!(
        kinds(&ts),
        vec![
            TokenType::AsertEq,
            TokenType::NotEq,
            TokenType::LessThan,
            TokenType::MoreThan,
            TokenType::LeftShift,
            TokenType::RightShift,
            TokenType::Access,
            TokenType::Inc,
            TokenType::Dec,
            TokenType::Var,
        ]
    );
}

#[test]
fn single_character_operators() {
    let ts = lex("= + - < > ! | ^ ~ : % . ; & * / ( ) { } [ ] _ , x\n").unwrap();
    assert_eq!(
        kinds(&ts),
        vec![
            TokenType::Eq,
            TokenType::Add,
            TokenType::Sub,
            TokenType::Less,
            TokenType::More,
            TokenType::Not,
            TokenType::BitOr,
            TokenType::BitXor,
            TokenType::BitNot,
            TokenType::Colon,
            TokenType::Remainder,
            TokenType::Dot,
            TokenType::Semi,
            TokenType::Address,
            TokenType::Mul,
            TokenType::Div,
            TokenType::OpenParen,
            TokenType::CloseParen,
            TokenType::OpenScope,
            TokenType::CloseScope,
            TokenType::OpenBracket,
            TokenType::CloseBracket,
            TokenType::Other,
            TokenType::Coma,
            TokenType::Var,
        ]
    );
}

#[test]
fn hex_numbers_keep_their_digits() {
    let ts = lex("0xff;").unwrap();
    assert_eq!(kinds(&ts), vec![TokenType::HexNum, TokenType::Semi]);
    assert_eq!(ts[0].value.as_deref(), Some("ff"));
}

#[test]
fn char_literal_becomes_its_code() {
    let ts = lex("'A' ").unwrap();
    assert_eq!(kinds(&ts), vec![TokenType::CharValue]);
    assert_eq!(ts[0].value.as_deref(), Some("65"));
}

#[test]
fn string_literal_keeps_its_text() {
    let ts = lex("\"hello world\" ").unwrap();
    assert_eq!(kinds(&ts), vec![TokenType::String]);
    assert_eq!(ts[0].value.as_deref(), Some("hello world"));
}

#[test]
fn unterminated_string_is_refused() {
    assert!(lex("\"abc").is_none());
}

#[test]
fn word_at_end_of_source_is_refused() {
    assert!(lex("abc").is_none());
}

#[test]
fn non_ascii_char_literal_is_refused() {
    assert!(lex("'é' ").is_none());
}

#[test]
fn empty_source_is_refused() {
    assert!(lex("").is_none());
}

#[test]
fn alphabetic_unicode_starts_a_word() {
    let ts = lex("été ").unwrap();
    assert_eq!(kinds(&ts), vec![TokenType::Var]);
    assert_eq!(ts[0].value.as_deref(), Some("été"));
}

#[test]
fn numeric_unicode_starts_a_number() {
    let ts = lex("٣٤ ").unwrap();
    assert_eq!(kinds(&ts), vec![TokenType::Num]);
    assert_eq!(ts[0].value.as_deref(), Some("٣٤"));
}
