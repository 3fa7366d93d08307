use lib::error::Error;
use lib::lexer::Lexer;
use lib::token::{Token, TokenKind};

fn lex(code: &'static str) -> Result<Vec<Token<'static>>, Error> {
    Lexer::new(code).tokenize()
}

fn kinds(code: &'static str) -> Vec<TokenKind<'static>> {
    lex(code).unwrap().iter().map(|t| t.kind).collect()
}

fn places(code: &'static str) -> Vec<(usize, usize)> {
    lex(code).unwrap().iter().map(|t| (t.line, t.col)).collect()
}

#[test]
fn declaration_tokens_and_places() {
    assert_eq!(
        kinds("var x = 42;"),
        vec![
            TokenKind::Var,
            TokenKind::Identifier("x"),
            TokenKind::Assign,
            TokenKind::Number("42"),
            TokenKind::Semicolon,
            TokenKind::Eof,
        ]
    );
    // Words and symbols are placed after themselves, numbers at their start.
    assert_eq!(places("var x = 42;"), vec![(1, 4), (1, 6), (1, 8), (1, 9), (1, 12), (1, 12)]);
}

#[test]
fn empty_text_gives_only_eof() {
    let tokens = lex("").unwrap();
    assert_eq!(tokens.len(), 1);
    assert_eq!(tokens[0].kind, TokenKind::Eof);
    assert_eq!((tokens[0].line, tokens[0].col), (1, 1));
    assert_eq!(kinds(" \t\r\n  "), vec![TokenKind::Eof]);
}

#[test]
fn newline_moves_to_next_line() {
    assert_eq!(places("a\nbc"), vec![(1, 2), (2, 3), (2, 3)]);
}

#[test]
fn keywords_and_type_names() {
    assert_eq!(
        kinds("mut node const state enum method func return yield for in while continue break if else true false pub import"),
        vec![
            TokenKind::Mut,
            TokenKind::Node,
            TokenKind::Const,
            TokenKind::State,
            TokenKind::Enum,
            TokenKind::Method,
            TokenKind::Func,
            TokenKind::Return,
            TokenKind::Yield,
            TokenKind::For,
            TokenKind::In,
            TokenKind::While,
            TokenKind::Continue,
            TokenKind::Break,
            TokenKind::If,
            TokenKind::Else,
            TokenKind::True,
            TokenKind::False,
            TokenKind::Pub,
            TokenKind::Import,
            TokenKind::Eof,
        ]
    );
    assert_eq!(
        kinds("Bool Int8 UInt128 Range8 URange64 Float32 Float64 Str"),
        vec![
            TokenKind::Bool,
            TokenKind::Int8,
            TokenKind::UInt128,
            TokenKind::IntRange8,
            TokenKind::UIntRange64,
            TokenKind::Float32,
            TokenKind::Float64,
            TokenKind::String,
            TokenKind::Eof,
        ]
    );
}

#[test]
fn unlisted_words_are_identifiers() {
    assert_eq!(
        kinds("container alias _x1 aé"),
        vec![
            TokenKind::Identifier("container"),
            TokenKind::Identifier("alias"),
            TokenKind::Identifier("_x1"),
            TokenKind::Identifier("aé"),
            TokenKind::Eof,
        ]
    );
}

#[test]
fn numbers_take_one_dot_before_a_digit() {
    assert_eq!(kinds("3.14"), vec![TokenKind::Number("3.14"), TokenKind::Eof]);
    assert_eq!(
        kinds("1..5"),
        vec![TokenKind::Number("1"), TokenKind::DoubleDot, TokenKind::Number("5"), TokenKind::Eof]
    );
    assert_eq!(
        kinds("1.2.3"),
        vec![TokenKind::Number("1.2"), TokenKind::Dot, TokenKind::Number("3"), TokenKind::Eof]
    );
    assert_eq!(kinds("7."), vec![TokenKind::Number("7"), TokenKind::Dot, TokenKind::Eof]);
}

#[test]
fn two_character_symbols() {
    assert_eq!(
        kinds("== != !| !& !^ <= >= :: || |> && ^^ .. -> = : ! < > & ^ . -"),
        vec![
            TokenKind::Equal,
            TokenKind::NotEqual,
            TokenKind::Nor,
            TokenKind::Nand,
            TokenKind::Xnor,
            TokenKind::LessEqual,
            TokenKind::GreaterEqual,
            TokenKind::DoubleColon,
            TokenKind::Or,
            TokenKind::RPipe,
            TokenKind::And,
            TokenKind::Xor,
            TokenKind::DoubleDot,
            TokenKind::RArrow,
            TokenKind::Assign,
            TokenKind::Colon,
            TokenKind::Not,
            TokenKind::LessThan,
            TokenKind::GreaterThan,
            TokenKind::Amp,
            TokenKind::Pow,
            TokenKind::Dot,
            TokenKind::Minus,
            TokenKind::Eof,
        ]
    );
    // A two-character symbol is placed after its first character.
    assert_eq!(places("=="), vec![(1, 2), (1, 3)]);
}

#[test]
fn one_character_symbols() {
    assert_eq!(
        kinds("()[]{};,+*/@"),
        vec![
            TokenKind::LParen,
            TokenKind::RParen,
            TokenKind::LSquare,
            TokenKind::RSquare,
            TokenKind::LBrace,
            TokenKind::RBrace,
            TokenKind::Semicolon,
            TokenKind::Comma,
            TokenKind::Plus,
            TokenKind::Star,
            TokenKind::Slash,
            TokenKind::At,
            TokenKind::Eof,
        ]
    );
    assert_eq!(places("()"), vec![(1, 2), (1, 3), (1, 3)]);
}

#[test]
fn string_literals_keep_their_escapes() {
    assert_eq!(kinds("\"a\\\"b\""), vec![TokenKind::StringLiteral("a\\\"b"), TokenKind::Eof]);
    assert_eq!(places("  \"hi\" x"), vec![(1, 3), (1, 9), (1, 9)]);
}

#[test]
fn raw_strings_start_with_a_hash() {
    assert_eq!(kinds("#C:\\dir\""), vec![TokenKind::StringLiteral("C:\\dir"), TokenKind::Eof]);
}

#[test]
fn unexpected_character_is_located() {
    assert_eq!(lex("x $").unwrap_err(), Error::Located { line: 1, col: 3, message: "Unexpected token" });
    // A lone `|` is refused after it.
    assert_eq!(lex("|x").unwrap_err(), Error::Located { line: 1, col: 2, message: "Unexpected token" });
}

#[test]
fn unterminated_strings_are_located_at_their_start() {
    assert_eq!(
        lex("a \"abc").unwrap_err(),
        Error::Located { line: 1, col: 3, message: "Unterminated string literal" }
    );
    assert_eq!(
        lex("\n#abc").unwrap_err(),
        Error::Located { line: 2, col: 1, message: "Unterminated string literal" }
    );
    assert_eq!(
        lex("\"ab\\").unwrap_err(),
        Error::Located { line: 1, col: 1, message: "Unterminated string literal" }
    );
}

#[test]
fn lexed_tokens_always_end_with_eof() {
    for code in ["", "x", "var y = (1, 2);", "if a do { b; } else c;", "\n\n"] {
        let tokens = lex(code).unwrap();
        assert!(!tokens.is_empty());
        assert!(tokens.len() <= code.chars().count() + 1);
        assert_eq!(tokens.last().unwrap().kind, TokenKind::Eof);
    }
}

#[test]
fn token_new_keeps_its_fields() {
    let t = Token::new(TokenKind::Comma, 3, 7);
    assert_eq!(t.kind, TokenKind::Comma);
    assert_eq!((t.line, t.col), (3, 7));
}

#[test]
fn eof_is_placed_after_the_last_line() {
    assert_eq!(places("ab\ncd").last(), Some(&(2, 3)));
    assert_eq!(places("").last(), Some(&(1, 1)));
    assert_eq!(places("x\n\n").last(), Some(&(3, 1)));
    assert_eq!(lex("a b").unwrap().iter().filter(|t| t.kind == TokenKind::Eof).count(), 1);
}

#[test]
fn unicode_white_space_and_letters() {
    assert_eq!(kinds("a\u{a0}b"), vec![TokenKind::Identifier("a"), TokenKind::Identifier("b"), TokenKind::Eof]);
    assert_eq!(kinds("a\u{3000}b").len(), 3);
    assert_eq!(kinds("aé"), vec![TokenKind::Identifier("aé"), TokenKind::Eof]);
}

#[test]
fn do_is_the_keyword_before_a_body() {
    assert_eq!(kinds("do x"), vec![TokenKind::Do, TokenKind::Identifier("x"), TokenKind::Eof]);
    assert_eq!(kinds("done"), vec![TokenKind::Identifier("done"), TokenKind::Eof]);
}

#[test]
fn white_space_agrees_with_std() {
    for n in 0u32..=0x10FFFF {
        if let Some(c) = char::from_u32(n) {
            assert_eq!(lib::text::char_is_whitespace(c), c.is_whitespace(), "{:?}", c);
        }
    }
}
