use lib::error::Error;
use lib::scan::token::Token;
use lib::scan::tokenize;

#[test]
fn scans_a_declaration() {
    assert_eq!(
        tokenize("var x = 42;").unwrap(),
        vec![
            Token::Var,
            Token::Identifier("x".to_string()),
            Token::Assign,
            Token::Number("42".to_string()),
            Token::Semicolon,
            Token::EOF,
        ]
    );
}

#[test]
fn empty_text_scans_to_eof() {
    assert_eq!(tokenize("").unwrap(), vec![Token::EOF]);
    assert_eq!(tokenize(" \n\t\r").unwrap(), vec![Token::EOF]);
}

#[test]
fn scans_keywords() {
    assert_eq!(
        tokenize("node const obj func return for while continue break if else true false priv pub").unwrap(),
        vec![
            Token::Node,
            Token::Const,
            Token::Obj,
            Token::Func,
            Token::Return,
            Token::For,
            Token::While,
            Token::Continue,
            Token::Break,
            Token::If,
            Token::Else,
            Token::True,
            Token::False,
            Token::Priv,
            Token::Pub,
            Token::EOF,
        ]
    );
    assert_eq!(
        tokenize("Bool Int8 Int128 Uint8 Uint128 Float32 Float64 Str Ptr UInt8").unwrap(),
        vec![
            Token::Bool,
            Token::Int8,
            Token::Int128,
            Token::Uint8,
            Token::Uint128,
            Token::Float32,
            Token::Float64,
            Token::String,
            Token::Pointer,
            Token::Identifier("UInt8".to_string()),
            Token::EOF,
        ]
    );
}

#[test]
fn scans_symbols() {
    assert_eq!(
        tokenize("== = != !| !& !^ ! <= <| <- < >= > || |> && ^^ ^ -> -").unwrap(),
        vec![
            Token::Equal,
            Token::Assign,
            Token::NotEqual,
            Token::Nor,
            Token::Nand,
            Token::Xnor,
            Token::Not,
            Token::LessEqual,
            Token::LPipe,
            Token::LArrow,
            Token::LessThan,
            Token::GreaterEqual,
            Token::GreaterThan,
            Token::Or,
            Token::RPipe,
            Token::And,
            Token::Xor,
            Token::Pow,
            Token::RArrow,
            Token::Minus,
            Token::EOF,
        ]
    );
    assert_eq!(
        tokenize(":()[]{};,.+*/").unwrap(),
        vec![
            Token::Colon,
            Token::LParen,
            Token::RParen,
            Token::LSquare,
            Token::RSquare,
            Token::LBrace,
            Token::RBrace,
            Token::Semicolon,
            Token::Comma,
            Token::Dot,
            Token::Plus,
            Token::Star,
            Token::Slash,
            Token::EOF,
        ]
    );
}

#[test]
fn scans_numbers() {
    assert_eq!(tokenize("3.25").unwrap(), vec![Token::Number("3.25".to_string()), Token::EOF]);
    assert_eq!(
        tokenize("1.x").unwrap(),
        vec![Token::Number("1".to_string()), Token::Dot, Token::Identifier("x".to_string()), Token::EOF]
    );
}

#[test]
fn strings_take_their_escapes() {
    assert_eq!(
        tokenize("\"a\\nb\\t\\\"\\\\\"").unwrap(),
        vec![Token::StringLiteral("a\nb\t\"\\".to_string()), Token::EOF]
    );
    assert_eq!(
        tokenize("@\"raw\\n\"").unwrap(),
        vec![Token::StringLiteral("raw\\n".to_string()), Token::EOF]
    );
}

#[test]
fn string_errors() {
    assert_eq!(tokenize("\"abc").unwrap_err(), Error::Custom("Unterminated string"));
    assert_eq!(tokenize("\"a\\").unwrap_err(), Error::Custom("Invalid escape"));
    assert_eq!(tokenize("\"a\\q\"").unwrap_err(), Error::Custom("Unknown escape"));
    assert_eq!(tokenize("@x\"").unwrap_err(), Error::Custom("Invalid raw string"));
    assert_eq!(tokenize("@\"abc").unwrap_err(), Error::Custom("Unterminated string"));
}

#[test]
fn unexpected_characters() {
    assert_eq!(tokenize("a $").unwrap_err(), Error::UnexpectedChar('$'));
    assert_eq!(tokenize("|x").unwrap_err(), Error::UnexpectedChar('|'));
    assert_eq!(tokenize("&").unwrap_err(), Error::UnexpectedChar('&'));
}

#[test]
fn joined_texts_scan_to_joined_tokens() {
    let a = tokenize("var x = 1;").unwrap();
    let b = tokenize("x + \"s\"").unwrap();
    let joined = tokenize("var x = 1; x + \"s\"").unwrap();
    let mut expected = a[..a.len() - 1].to_vec();
    expected.extend(b);
    assert_eq!(joined, expected);
}

#[test]
fn plain_text_always_scans_and_ends_with_one_eof() {
    let code = "a_1 := !<>^()[]{};,.+-*/ 9\n\t\r Zz";
    let tokens = tokenize(code).unwrap();
    assert_eq!(tokens.last(), Some(&Token::EOF));
    assert_eq!(tokens.iter().filter(|t| **t == Token::EOF).count(), 1);
}

#[test]
fn identifier_and_number_helpers() {
    let s: Vec<char> = "var x1 12.5.".chars().collect();
    assert_eq!(lib::scan::tokenize_identifier(&s, 0), (Token::Var, 3));
    assert_eq!(lib::scan::tokenize_identifier(&s, 4), (Token::Identifier("x1".to_string()), 6));
    assert_eq!(lib::scan::tokenize_number(&s, 7), (Token::Number("12.5".to_string()), 11));
}
