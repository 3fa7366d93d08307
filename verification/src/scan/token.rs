use vstd::prelude::*;

verus! {

/// A token of the standalone scanner; words, numbers and string literals own
/// their text.
#[derive(Debug, Clone, PartialEq)]
pub enum Token {
    /// A user defined identifier.
    Identifier(String),
    Var,
    Node,
    Const,
    Obj,
    Func,
    Return,
    For,
    While,
    Continue,
    Break,
    If,
    Else,
    True,
    False,
    Priv,
    Pub,
    Bool,
    Int8,
    Int16,
    Int32,
    Int64,
    Int128,
    Uint8,
    Uint16,
    Uint32,
    Uint64,
    Uint128,
    Float32,
    Float64,
    /// The string type `Str`.
    String,
    /// The pointer type `Ptr`.
    Pointer,
    /// The digits (and at most one inner dot) of a number.
    Number(String),
    /// The content of a string literal, escapes resolved.
    StringLiteral(String),
    Assign,
    Equal,
    NotEqual,
    LessThan,
    GreaterThan,
    LessEqual,
    GreaterEqual,
    Not,
    Or,
    And,
    Nor,
    Nand,
    Xor,
    Xnor,
    LParen,
    RParen,
    LSquare,
    RSquare,
    LBrace,
    RBrace,
    Semicolon,
    Colon,
    Comma,
    Dot,
    Plus,
    Minus,
    Star,
    Slash,
    Pow,
    LPipe,
    RPipe,
    LArrow,
    RArrow,
    /// End of input.
    EOF,
}

/// How a keyword or a symbol is written in source: its word, or its
/// characters. Identifiers, numbers, string literals and the end of input
/// have no fixed spelling.
pub open spec fn spelling(t: Token) -> Option<Seq<char>> {
    match t {
        Token::Var => Some("var"@),
        Token::Node => Some("node"@),
        Token::Const => Some("const"@),
        Token::Obj => Some("obj"@),
        Token::Func => Some("func"@),
        Token::Return => Some("return"@),
        Token::For => Some("for"@),
        Token::While => Some("while"@),
        Token::Continue => Some("continue"@),
        Token::Break => Some("break"@),
        Token::If => Some("if"@),
        Token::Else => Some("else"@),
        Token::True => Some("true"@),
        Token::False => Some("false"@),
        Token::Priv => Some("priv"@),
        Token::Pub => Some("pub"@),
        Token::Bool => Some("Bool"@),
        Token::Int8 => Some("Int8"@),
        Token::Int16 => Some("Int16"@),
        Token::Int32 => Some("Int32"@),
        Token::Int64 => Some("Int64"@),
        Token::Int128 => Some("Int128"@),
        Token::Uint8 => Some("Uint8"@),
        Token::Uint16 => Some("Uint16"@),
        Token::Uint32 => Some("Uint32"@),
        Token::Uint64 => Some("Uint64"@),
        Token::Uint128 => Some("Uint128"@),
        Token::Float32 => Some("Float32"@),
        Token::Float64 => Some("Float64"@),
        Token::String => Some("Str"@),
        Token::Pointer => Some("Ptr"@),
        Token::Assign => Some(seq!['=']),
        Token::Equal => Some(seq!['=', '=']),
        Token::NotEqual => Some(seq!['!', '=']),
        Token::LessThan => Some(seq!['<']),
        Token::GreaterThan => Some(seq!['>']),
        Token::LessEqual => Some(seq!['<', '=']),
        Token::GreaterEqual => Some(seq!['>', '=']),
        Token::Not => Some(seq!['!']),
        Token::Or => Some(seq!['|', '|']),
        Token::And => Some(seq!['&', '&']),
        Token::Nor => Some(seq!['!', '|']),
        Token::Nand => Some(seq!['!', '&']),
        Token::Xor => Some(seq!['^', '^']),
        Token::Xnor => Some(seq!['!', '^']),
        Token::LParen => Some(seq!['(']),
        Token::RParen => Some(seq![')']),
        Token::LSquare => Some(seq!['[']),
        Token::RSquare => Some(seq![']']),
        Token::LBrace => Some(seq!['{']),
        Token::RBrace => Some(seq!['}']),
        Token::Semicolon => Some(seq![';']),
        Token::Colon => Some(seq![':']),
        Token::Comma => Some(seq![',']),
        Token::Dot => Some(seq!['.']),
        Token::Plus => Some(seq!['+']),
        Token::Minus => Some(seq!['-']),
        Token::Star => Some(seq!['*']),
        Token::Slash => Some(seq!['/']),
        Token::Pow => Some(seq!['^']),
        Token::LPipe => Some(seq!['<', '|']),
        Token::RPipe => Some(seq!['|', '>']),
        Token::LArrow => Some(seq!['<', '-']),
        Token::RArrow => Some(seq!['-', '>']),
        _ => None,
    }
}

} // verus!
