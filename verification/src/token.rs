use vstd::prelude::*;

verus! {

/// A token with the line and column the lexer gives it.
#[derive(Debug, Clone, Copy)]
pub struct Token<'a> {
    pub kind: TokenKind<'a>,
    pub line: usize,
    pub col: usize,
}

impl<'a> Token<'a> {
    pub fn new(kind: TokenKind<'a>, line: usize, column: usize) -> (r: Self)
        ensures
            r.kind == kind,
            r.line == line,
            r.col == column,
    {
        Self { kind, line, col: column }
    }
}

/// The kinds of token; identifiers, numbers and string literals borrow their
/// text from the source.
#[derive(Debug, Clone, Copy, PartialEq, Eq)]
pub enum TokenKind<'a> {
    Identifier(&'a str),
    /// Variable definition
    Var,
    /// Variable assignment
    Mut,
    /// Constant variable definition
    Const,
    /// Node definition
    Node,
    /// Object state definition block
    State,
    /// Type generic container
    Container,
    /// Sum type definition block
    Enum,
    /// Method implementation block
    Method,
    /// Function definition
    Func,
    /// Exit function with return value
    Return,
    /// Yield a value from the local scope
    Yield,
    /// Used before control flow body
    Do,
    /// For loop
    For,
    /// For loop range
    In,
    /// While loop
    While,
    /// Proceed to next iteration in loop
    Continue,
    /// Break out of loop
    Break,
    /// If block
    If,
    /// Fallback branch of control flow
    Else,
    /// Boolean true
    True,
    /// Boolean false
    False,
    /// Public visibility modifier
    Pub,
    /// Import another module
    Import,
    /// Type alias
    Alias,
    Bool,
    Int8,
    Int16,
    Int32,
    Int64,
    Int128,
    UInt8,
    UInt16,
    UInt32,
    UInt64,
    UInt128,
    IntRange8,
    IntRange16,
    IntRange32,
    IntRange64,
    IntRange128,
    UIntRange8,
    UIntRange16,
    UIntRange32,
    UIntRange64,
    UIntRange128,
    Float32,
    Float64,
    String,
    Number(&'a str),
    StringLiteral(&'a str),
    /// `=`
    Assign,
    /// `==`
    Equal,
    /// `!=`
    NotEqual,
    /// `<`
    LessThan,
    /// `>`
    GreaterThan,
    /// `<=`
    LessEqual,
    /// `>=`
    GreaterEqual,
    /// `!`
    Not,
    /// `||`
    Or,
    /// `&&`
    And,
    /// `!|`
    Nor,
    /// `!&`
    Nand,
    /// `^^`
    Xor,
    /// `!^`
    Xnor,
    /// `(`
    LParen,
    /// `)`
    RParen,
    /// `[`
    LSquare,
    /// `]`
    RSquare,
    /// `{`
    LBrace,
    /// `}`
    RBrace,
    /// `;`
    Semicolon,
    /// `:`
    Colon,
    /// `::`
    DoubleColon,
    /// `,`
    Comma,
    /// `.`
    Dot,
    /// `@`
    At,
    /// `&`
    Amp,
    /// `+`
    Plus,
    /// `-`
    Minus,
    /// `*`
    Star,
    /// `/`
    Slash,
    /// `^`
    Pow,
    /// `|>`
    RPipe,
    /// `->`
    RArrow,
    /// `..`
    DoubleDot,
    /// End of input
    Eof,
}

/// How a keyword or a symbol is written in source: its word, or its
/// characters. Identifiers, numbers, string literals and the end of input
/// have no fixed spelling.
pub open spec fn spelling<'a>(k: TokenKind<'a>) -> Option<Seq<char>> {
    match k {
        TokenKind::Var => Some("var"@),
        TokenKind::Mut => Some("mut"@),
        TokenKind::Do => Some("do"@),
        TokenKind::Node => Some("node"@),
        TokenKind::Const => Some("const"@),
        TokenKind::State => Some("state"@),
        TokenKind::Enum => Some("enum"@),
        TokenKind::Method => Some("method"@),
        TokenKind::Func => Some("func"@),
        TokenKind::Return => Some("return"@),
        TokenKind::Yield => Some("yield"@),
        TokenKind::For => Some("for"@),
        TokenKind::In => Some("in"@),
        TokenKind::While => Some("while"@),
        TokenKind::Continue => Some("continue"@),
        TokenKind::Break => Some("break"@),
        TokenKind::If => Some("if"@),
        TokenKind::Else => Some("else"@),
        TokenKind::True => Some("true"@),
        TokenKind::False => Some("false"@),
        TokenKind::Pub => Some("pub"@),
        TokenKind::Import => Some("import"@),
        TokenKind::Bool => Some("Bool"@),
        TokenKind::Int8 => Some("Int8"@),
        TokenKind::Int16 => Some("Int16"@),
        TokenKind::Int32 => Some("Int32"@),
        TokenKind::Int64 => Some("Int64"@),
        TokenKind::Int128 => Some("Int128"@),
        TokenKind::UInt8 => Some("UInt8"@),
        TokenKind::UInt16 => Some("UInt16"@),
        TokenKind::UInt32 => Some("UInt32"@),
        TokenKind::UInt64 => Some("UInt64"@),
        TokenKind::UInt128 => Some("UInt128"@),
        TokenKind::IntRange8 => Some("Range8"@),
        TokenKind::IntRange16 => Some("Range16"@),
        TokenKind::IntRange32 => Some("Range32"@),
        TokenKind::IntRange64 => Some("Range64"@),
        TokenKind::IntRange128 => Some("Range128"@),
        TokenKind::UIntRange8 => Some("URange8"@),
        TokenKind::UIntRange16 => Some("URange16"@),
        TokenKind::UIntRange32 => Some("URange32"@),
        TokenKind::UIntRange64 => Some("URange64"@),
        TokenKind::UIntRange128 => Some("URange128"@),
        TokenKind::Float32 => Some("Float32"@),
        TokenKind::Float64 => Some("Float64"@),
        TokenKind::String => Some("Str"@),
        TokenKind::Assign => Some(seq!['=']),
        TokenKind::Equal => Some(seq!['=', '=']),
        TokenKind::NotEqual => Some(seq!['!', '=']),
        TokenKind::LessThan => Some(seq!['<']),
        TokenKind::GreaterThan => Some(seq!['>']),
        TokenKind::LessEqual => Some(seq!['<', '=']),
        TokenKind::GreaterEqual => Some(seq!['>', '=']),
        TokenKind::Not => Some(seq!['!']),
        TokenKind::Or => Some(seq!['|', '|']),
        TokenKind::And => Some(seq!['&', '&']),
        TokenKind::Nor => Some(seq!['!', '|']),
        TokenKind::Nand => Some(seq!['!', '&']),
        TokenKind::Xor => Some(seq!['^', '^']),
        TokenKind::Xnor => Some(seq!['!', '^']),
        TokenKind::LParen => Some(seq!['(']),
        TokenKind::RParen => Some(seq![')']),
        TokenKind::LSquare => Some(seq!['[']),
        TokenKind::RSquare => Some(seq![']']),
        TokenKind::LBrace => Some(seq!['{']),
        TokenKind::RBrace => Some(seq!['}']),
        TokenKind::Semicolon => Some(seq![';']),
        TokenKind::Colon => Some(seq![':']),
        TokenKind::DoubleColon => Some(seq![':', ':']),
        TokenKind::Comma => Some(seq![',']),
        TokenKind::Dot => Some(seq!['.']),
        TokenKind::At => Some(seq!['@']),
        TokenKind::Amp => Some(seq!['&']),
        TokenKind::Plus => Some(seq!['+']),
        TokenKind::Minus => Some(seq!['-']),
        TokenKind::Star => Some(seq!['*']),
        TokenKind::Slash => Some(seq!['/']),
        TokenKind::Pow => Some(seq!['^']),
        TokenKind::RPipe => Some(seq!['|', '>']),
        TokenKind::RArrow => Some(seq!['-', '>']),
        TokenKind::DoubleDot => Some(seq!['.', '.']),
        _ => None,
    }
}

} // verus!
