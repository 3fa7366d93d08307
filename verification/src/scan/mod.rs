//! A one pass scanner that turns Erwin source text into owned tokens.
use vstd::prelude::*;

pub mod token;

use crate::error::Error;
use crate::text::{
    char_is_alphanumeric, chars_equal_str, is_ascii_digit, is_word_char, lemma_number_end,
    lemma_word_end, number_end, string_from_chars, to_chars, word_end,
};
use token::Token;

verus! {

/// A piece of source text that becomes one token.
pub enum Lexeme {
    /// An identifier or a keyword.
    Word(Seq<char>),
    /// A number.
    Num(Seq<char>),
    /// A string literal, escapes resolved.
    Text(Seq<char>),
    /// A symbol.
    Sym(Token),
}

pub open spec fn is_word_start(c: char) -> bool {
    ('a' <= c && c <= 'z') || ('A' <= c && c <= 'Z') || c == '_'
}


pub open spec fn is_blank(c: char) -> bool {
    c == ' ' || c == '\n' || c == '\t' || c == '\r'
}



/// The character that the escape `\e` stands for.
pub open spec fn escaped(e: char) -> Option<char> {
    if e == 'n' {
        Some('\n')
    } else if e == 't' {
        Some('\t')
    } else if e == '"' {
        Some('"')
    } else if e == '\\' {
        Some('\\')
    } else {
        None
    }
}

/// The content of a string literal whose body starts at `i`, and the index
/// after its closing quote.
pub open spec fn string_body(s: Seq<char>, i: int) -> Result<(Seq<char>, int), Error>
    decreases s.len() - i,
{
    if i < 0 || i >= s.len() {
        Err(Error::Custom("Unterminated string"))
    } else if s[i] == '"' {
        Ok((Seq::empty(), i + 1))
    } else if s[i] == '\\' {
        if i + 1 >= s.len() {
            Err(Error::Custom("Invalid escape"))
        } else {
            match escaped(s[i + 1]) {
                None => Err(Error::Custom("Unknown escape")),
                Some(ch) => match string_body(s, i + 2) {
                    Ok((rest, j)) => Ok((seq![ch] + rest, j)),
                    Err(e) => Err(e),
                },
            }
        }
    } else {
        match string_body(s, i + 1) {
            Ok((rest, j)) => Ok((seq![s[i]] + rest, j)),
            Err(e) => Err(e),
        }
    }
}

/// The index of the quote that closes a raw string whose body starts at `i`.
pub open spec fn raw_end(s: Seq<char>, i: int) -> Result<int, Error>
    decreases s.len() - i,
{
    if i < 0 || i >= s.len() {
        Err(Error::Custom("Unterminated string"))
    } else if s[i] == '"' {
        Ok(i)
    } else {
        raw_end(s, i + 1)
    }
}

pub open spec fn next_is(s: Seq<char>, i: int, c: char) -> bool {
    0 <= i < s.len() && s[i] == c
}

/// The symbol token that starts at `i`, and the index after it.
pub open spec fn symbol_at(s: Seq<char>, i: int) -> Result<(Token, int), Error> {
    let c = s[i];
    let n = i + 1;
    if c == '=' {
        if next_is(s, n, '=') { Ok((Token::Equal, n + 1)) } else { Ok((Token::Assign, n)) }
    } else if c == ':' {
        Ok((Token::Colon, n))
    } else if c == '!' {
        if next_is(s, n, '=') {
            Ok((Token::NotEqual, n + 1))
        } else if next_is(s, n, '|') {
            Ok((Token::Nor, n + 1))
        } else if next_is(s, n, '&') {
            Ok((Token::Nand, n + 1))
        } else if next_is(s, n, '^') {
            Ok((Token::Xnor, n + 1))
        } else {
            Ok((Token::Not, n))
        }
    } else if c == '<' {
        if next_is(s, n, '=') {
            Ok((Token::LessEqual, n + 1))
        } else if next_is(s, n, '|') {
            Ok((Token::LPipe, n + 1))
        } else if next_is(s, n, '-') {
            Ok((Token::LArrow, n + 1))
        } else {
            Ok((Token::LessThan, n))
        }
    } else if c == '>' {
        if next_is(s, n, '=') { Ok((Token::GreaterEqual, n + 1)) } else { Ok((Token::GreaterThan, n)) }
    } else if c == '|' {
        if next_is(s, n, '|') {
            Ok((Token::Or, n + 1))
        } else if next_is(s, n, '>') {
            Ok((Token::RPipe, n + 1))
        } else {
            Err(Error::UnexpectedChar(c))
        }
    } else if c == '&' {
        if next_is(s, n, '&') { Ok((Token::And, n + 1)) } else { Err(Error::UnexpectedChar(c)) }
    } else if c == '^' {
        if next_is(s, n, '^') { Ok((Token::Xor, n + 1)) } else { Ok((Token::Pow, n)) }
    } else if c == '(' {
        Ok((Token::LParen, n))
    } else if c == ')' {
        Ok((Token::RParen, n))
    } else if c == '[' {
        Ok((Token::LSquare, n))
    } else if c == ']' {
        Ok((Token::RSquare, n))
    } else if c == '{' {
        Ok((Token::LBrace, n))
    } else if c == '}' {
        Ok((Token::RBrace, n))
    } else if c == ';' {
        Ok((Token::Semicolon, n))
    } else if c == ',' {
        Ok((Token::Comma, n))
    } else if c == '.' {
        Ok((Token::Dot, n))
    } else if c == '+' {
        Ok((Token::Plus, n))
    } else if c == '-' {
        if next_is(s, n, '>') { Ok((Token::RArrow, n + 1)) } else { Ok((Token::Minus, n)) }
    } else if c == '*' {
        Ok((Token::Star, n))
    } else if c == '/' {
        Ok((Token::Slash, n))
    } else {
        Err(Error::UnexpectedChar(c))
    }
}

/// The keyword token that the word `w` spells, if any.
pub open spec fn keyword(w: Seq<char>) -> Option<Token> {
    if w == "var"@ {
        Some(Token::Var)
    } else if w == "node"@ {
        Some(Token::Node)
    } else if w == "const"@ {
        Some(Token::Const)
    } else if w == "obj"@ {
        Some(Token::Obj)
    } else if w == "func"@ {
        Some(Token::Func)
    } else if w == "return"@ {
        Some(Token::Return)
    } else if w == "for"@ {
        Some(Token::For)
    } else if w == "while"@ {
        Some(Token::While)
    } else if w == "continue"@ {
        Some(Token::Continue)
    } else if w == "break"@ {
        Some(Token::Break)
    } else if w == "if"@ {
        Some(Token::If)
    } else if w == "else"@ {
        Some(Token::Else)
    } else if w == "true"@ {
        Some(Token::True)
    } else if w == "false"@ {
        Some(Token::False)
    } else if w == "priv"@ {
        Some(Token::Priv)
    } else if w == "pub"@ {
        Some(Token::Pub)
    } else if w == "Bool"@ {
        Some(Token::Bool)
    } else if w == "Int8"@ {
        Some(Token::Int8)
    } else if w == "Int16"@ {
        Some(Token::Int16)
    } else if w == "Int32"@ {
        Some(Token::Int32)
    } else if w == "Int64"@ {
        Some(Token::Int64)
    } else if w == "Int128"@ {
        Some(Token::Int128)
    } else if w == "Uint8"@ {
        Some(Token::Uint8)
    } else if w == "Uint16"@ {
        Some(Token::Uint16)
    } else if w == "Uint32"@ {
        Some(Token::Uint32)
    } else if w == "Uint64"@ {
        Some(Token::Uint64)
    } else if w == "Uint128"@ {
        Some(Token::Uint128)
    } else if w == "Float32"@ {
        Some(Token::Float32)
    } else if w == "Float64"@ {
        Some(Token::Float64)
    } else if w == "Str"@ {
        Some(Token::String)
    } else if w == "Ptr"@ {
        Some(Token::Pointer)
    } else {
        None
    }
}



pub proof fn lemma_string_body(s: Seq<char>, i: int)
    requires
        0 <= i,
    ensures
        string_body(s, i) matches Ok((_, j)) ==> i < j <= s.len(),
    decreases s.len() - i,
{
    if 0 <= i < s.len() && s[i] != '"' {
        if s[i] == '\\' {
            if i + 1 < s.len() {
                lemma_string_body(s, i + 2);
            }
        } else {
            lemma_string_body(s, i + 1);
        }
    }
}

pub proof fn lemma_raw_end(s: Seq<char>, i: int)
    requires
        0 <= i,
    ensures
        raw_end(s, i) matches Ok(j) ==> i <= j < s.len() && s[j] == '"',
    decreases s.len() - i,
{
    if 0 <= i < s.len() && s[i] != '"' {
        lemma_raw_end(s, i + 1);
    }
}

/// Puts `first` in front of the lexemes of `rest`, or passes on its error.
pub open spec fn prepend(first: Lexeme, rest: Result<Seq<Lexeme>, Error>) -> Result<Seq<Lexeme>, Error> {
    match rest {
        Ok(r) => Ok(seq![first] + r),
        Err(e) => Err(e),
    }
}

/// The lexemes of `s` from index `i` on, or the first error met.
pub open spec fn scan_from(s: Seq<char>, i: int) -> Result<Seq<Lexeme>, Error>
    decreases s.len() - i,
{
    if i < 0 || i >= s.len() {
        Ok(Seq::empty())
    } else {
        let c = s[i];
        if is_blank(c) {
            scan_from(s, i + 1)
        } else if is_word_start(c) {
            let j = word_end(s, i + 1);
            proof {
                lemma_word_end(s, i + 1);
            }
            prepend(Lexeme::Word(s.subrange(i, j)), scan_from(s, j))
        } else if is_ascii_digit(c) {
            let j = number_end(s, i + 1, false);
            proof {
                lemma_number_end(s, i + 1, false);
            }
            prepend(Lexeme::Num(s.subrange(i, j)), scan_from(s, j))
        } else if c == '"' {
            proof {
                lemma_string_body(s, i + 1);
            }
            match string_body(s, i + 1) {
                Ok((text, j)) => prepend(Lexeme::Text(text), scan_from(s, j)),
                Err(e) => Err(e),
            }
        } else if c == '@' {
            if !next_is(s, i + 1, '"') {
                Err(Error::Custom("Invalid raw string"))
            } else {
                proof {
                    lemma_raw_end(s, i + 2);
                }
                match raw_end(s, i + 2) {
                    Ok(j) => prepend(Lexeme::Text(s.subrange(i + 2, j)), scan_from(s, j + 1)),
                    Err(e) => Err(e),
                }
            }
        } else {
            match symbol_at(s, i) {
                Ok((t, j)) => {
                    if j > i {
                        prepend(Lexeme::Sym(t), scan_from(s, j))
                    } else {
                        Err(Error::UnexpectedChar(c))
                    }
                },
                Err(e) => Err(e),
            }
        }
    }
}

/// The lexemes of the whole text `s`.
pub open spec fn scan(s: Seq<char>) -> Result<Seq<Lexeme>, Error> {
    scan_from(s, 0)
}

/// Whether `t` is the token that the lexeme `l` becomes.
pub open spec fn token_of(t: Token, l: Lexeme) -> bool {
    match l {
        Lexeme::Word(w) => match keyword(w) {
            Some(k) => t == k,
            None => t matches Token::Identifier(x) && x@ == w,
        },
        Lexeme::Num(d) => t matches Token::Number(x) && x@ == d,
        Lexeme::Text(x) => t matches Token::StringLiteral(y) && y@ == x,
        Lexeme::Sym(k) => t == k,
    }
}

/// Whether `ts` are the tokens of the lexemes `ls`, followed by `EOF`.
pub open spec fn tokens_of(ts: Seq<Token>, ls: Seq<Lexeme>) -> bool {
    &&& ts.len() == ls.len() + 1
    &&& forall|k: int| 0 <= k < ls.len() ==> token_of(#[trigger] ts[k], ls[k])
    &&& ts[ls.len() as int] == Token::EOF
}

/// Puts `done` in front of the lexemes of `rest`, or passes on its error.
pub open spec fn join(done: Seq<Lexeme>, rest: Result<Seq<Lexeme>, Error>) -> Result<Seq<Lexeme>, Error> {
    match rest {
        Ok(r) => Ok(done + r),
        Err(e) => Err(e),
    }
}

/// The keyword token that `word` spells, if any.
fn keyword_of(word: &Vec<char>) -> (r: Option<Token>)
    ensures
        r == keyword(word@),
{
    if chars_equal_str(word, "var") {
        Some(Token::Var)
    } else if chars_equal_str(word, "node") {
        Some(Token::Node)
    } else if chars_equal_str(word, "const") {
        Some(Token::Const)
    } else if chars_equal_str(word, "obj") {
        Some(Token::Obj)
    } else if chars_equal_str(word, "func") {
        Some(Token::Func)
    } else if chars_equal_str(word, "return") {
        Some(Token::Return)
    } else if chars_equal_str(word, "for") {
        Some(Token::For)
    } else if chars_equal_str(word, "while") {
        Some(Token::While)
    } else if chars_equal_str(word, "continue") {
        Some(Token::Continue)
    } else if chars_equal_str(word, "break") {
        Some(Token::Break)
    } else if chars_equal_str(word, "if") {
        Some(Token::If)
    } else if chars_equal_str(word, "else") {
        Some(Token::Else)
    } else if chars_equal_str(word, "true") {
        Some(Token::True)
    } else if chars_equal_str(word, "false") {
        Some(Token::False)
    } else if chars_equal_str(word, "priv") {
        Some(Token::Priv)
    } else if chars_equal_str(word, "pub") {
        Some(Token::Pub)
    } else if chars_equal_str(word, "Bool") {
        Some(Token::Bool)
    } else if chars_equal_str(word, "Int8") {
        Some(Token::Int8)
    } else if chars_equal_str(word, "Int16") {
        Some(Token::Int16)
    } else if chars_equal_str(word, "Int32") {
        Some(Token::Int32)
    } else if chars_equal_str(word, "Int64") {
        Some(Token::Int64)
    } else if chars_equal_str(word, "Int128") {
        Some(Token::Int128)
    } else if chars_equal_str(word, "Uint8") {
        Some(Token::Uint8)
    } else if chars_equal_str(word, "Uint16") {
        Some(Token::Uint16)
    } else if chars_equal_str(word, "Uint32") {
        Some(Token::Uint32)
    } else if chars_equal_str(word, "Uint64") {
        Some(Token::Uint64)
    } else if chars_equal_str(word, "Uint128") {
        Some(Token::Uint128)
    } else if chars_equal_str(word, "Float32") {
        Some(Token::Float32)
    } else if chars_equal_str(word, "Float64") {
        Some(Token::Float64)
    } else if chars_equal_str(word, "Str") {
        Some(Token::String)
    } else if chars_equal_str(word, "Ptr") {
        Some(Token::Pointer)
    } else {
        None
    }
}

/// The symbol token that starts at `i`, and the index after it.
fn scan_symbol(s: &Vec<char>, i: usize) -> (r: Result<(Token, usize), Error>)
    requires
        i < s.len(),
    ensures
        match r {
            Ok((t, j)) => symbol_at(s@, i as int) == Ok::<(Token, int), Error>((t, j as int)),
            Err(e) => symbol_at(s@, i as int) == Err::<(Token, int), Error>(e),
        },
{
    let c = s[i];
    let n = i + 1;
    let nx: Option<char> = if n < s.len() { Some(s[n]) } else { None };
    if c == '=' {
        if nx == Some('=') { Ok((Token::Equal, n + 1)) } else { Ok((Token::Assign, n)) }
    } else if c == ':' {
        Ok((Token::Colon, n))
    } else if c == '!' {
        if nx == Some('=') {
            Ok((Token::NotEqual, n + 1))
        } else if nx == Some('|') {
            Ok((Token::Nor, n + 1))
        } else if nx == Some('&') {
            Ok((Token::Nand, n + 1))
        } else if nx == Some('^') {
            Ok((Token::Xnor, n + 1))
        } else {
            Ok((Token::Not, n))
        }
    } else if c == '<' {
        if nx == Some('=') {
            Ok((Token::LessEqual, n + 1))
        } else if nx == Some('|') {
            Ok((Token::LPipe, n + 1))
        } else if nx == Some('-') {
            Ok((Token::LArrow, n + 1))
        } else {
            Ok((Token::LessThan, n))
        }
    } else if c == '>' {
        if nx == Some('=') { Ok((Token::GreaterEqual, n + 1)) } else { Ok((Token::GreaterThan, n)) }
    } else if c == '|' {
        if nx == Some('|') {
            Ok((Token::Or, n + 1))
        } else if nx == Some('>') {
            Ok((Token::RPipe, n + 1))
        } else {
            Err(Error::UnexpectedChar(c))
        }
    } else if c == '&' {
        if nx == Some('&') { Ok((Token::And, n + 1)) } else { Err(Error::UnexpectedChar(c)) }
    } else if c == '^' {
        if nx == Some('^') { Ok((Token::Xor, n + 1)) } else { Ok((Token::Pow, n)) }
    } else if c == '(' {
        Ok((Token::LParen, n))
    } else if c == ')' {
        Ok((Token::RParen, n))
    } else if c == '[' {
        Ok((Token::LSquare, n))
    } else if c == ']' {
        Ok((Token::RSquare, n))
    } else if c == '{' {
        Ok((Token::LBrace, n))
    } else if c == '}' {
        Ok((Token::RBrace, n))
    } else if c == ';' {
        Ok((Token::Semicolon, n))
    } else if c == ',' {
        Ok((Token::Comma, n))
    } else if c == '.' {
        Ok((Token::Dot, n))
    } else if c == '+' {
        Ok((Token::Plus, n))
    } else if c == '-' {
        if nx == Some('>') { Ok((Token::RArrow, n + 1)) } else { Ok((Token::Minus, n)) }
    } else if c == '*' {
        Ok((Token::Star, n))
    } else if c == '/' {
        Ok((Token::Slash, n))
    } else {
        Err(Error::UnexpectedChar(c))
    }
}


/// The identifier or keyword made of `s[i]` and the word characters after
/// it, and the index after it.
pub fn tokenize_identifier(s: &Vec<char>, i: usize) -> (r: (Token, usize))
    requires
        i < s.len(),
    ensures
        r.1 == word_end(s@, i + 1),
        i < r.1 <= s.len(),
        token_of(r.0, Lexeme::Word(s@.subrange(i as int, r.1 as int))),
{
    let mut word: Vec<char> = Vec::new();
    word.push(s[i]);
    let mut j: usize = i + 1;
    while j < s.len()
        invariant
            i < j <= s.len(),
            word@ == s@.subrange(i as int, j as int),
            word_end(s@, i + 1) == word_end(s@, j as int),
        ensures
            i < j <= s.len(),
            word@ == s@.subrange(i as int, j as int),
            word_end(s@, i + 1) == j,
        decreases s.len() - j,
    {
        let c = s[j];
        if char_is_alphanumeric(c) || c == '_' {
            word.push(c);
            j = j + 1;
        } else {
            break;
        }
    }
    let kw = keyword_of(&word);
    let t = match kw {
        Some(k) => k,
        None => Token::Identifier(string_from_chars(word)),
    };
    (t, j)
}

/// The number made of `s[i]` and the digits (with at most one dot that a
/// digit follows) after it, and the index after it.
pub fn tokenize_number(s: &Vec<char>, i: usize) -> (r: (Token, usize))
    requires
        i < s.len(),
    ensures
        r.1 == number_end(s@, i + 1, false),
        i < r.1 <= s.len(),
        token_of(r.0, Lexeme::Num(s@.subrange(i as int, r.1 as int))),
{
    let mut digits: Vec<char> = Vec::new();
    digits.push(s[i]);
    let mut j: usize = i + 1;
    let mut has_dot = false;
    while j < s.len()
        invariant
            i < j <= s.len(),
            digits@ == s@.subrange(i as int, j as int),
            number_end(s@, i + 1, false) == number_end(s@, j as int, has_dot),
        ensures
            i < j <= s.len(),
            digits@ == s@.subrange(i as int, j as int),
            number_end(s@, i + 1, false) == j,
        decreases s.len() - j,
    {
        let c = s[j];
        if '0' <= c && c <= '9' {
            digits.push(c);
            j = j + 1;
        } else if !has_dot && c == '.' && j + 1 < s.len() && '0' <= s[j + 1] && s[j + 1] <= '9' {
            has_dot = true;
            digits.push(c);
            j = j + 1;
        } else {
            break;
        }
    }
    (Token::Number(string_from_chars(digits)), j)
}

/// Puts `acc` in front of the content of a string body, or passes on its
/// error.
pub open spec fn with_prefix(acc: Seq<char>, r: Result<(Seq<char>, int), Error>) -> Result<(Seq<char>, int), Error> {
    match r {
        Ok((rest, j)) => Ok((acc + rest, j)),
        Err(e) => Err(e),
    }
}

/// The string literal whose opening quote is at `i`, and the index after
/// its closing quote.
pub fn tokenize_string(s: &Vec<char>, i: usize) -> (r: Result<(Token, usize), Error>)
    requires
        i < s.len(),
    ensures
        match r {
            Ok((t, j)) => string_body(s@, i + 1) matches Ok((text, k)) && k == j
                && token_of(t, Lexeme::Text(text)),
            Err(e) => string_body(s@, i + 1) == Err::<(Seq<char>, int), Error>(e),
        },
{
    let mut text: Vec<char> = Vec::new();
    let mut j: usize = i + 1;
    loop
        invariant
            i + 1 <= j <= s.len(),
            string_body(s@, i + 1) == with_prefix(text@, string_body(s@, j as int)),
        decreases s.len() - j,
    {
        if j >= s.len() {
            return Err(Error::Custom("Unterminated string"));
        }
        let c = s[j];
        if c == '"' {
            proof {
                assert(text@ + Seq::<char>::empty() =~= text@);
            }
            return Ok((Token::StringLiteral(string_from_chars(text)), j + 1));
        } else if c == '\\' {
            if j + 1 >= s.len() {
                return Err(Error::Custom("Invalid escape"));
            }
            let e = s[j + 1];
            let ch = if e == 'n' {
                '\n'
            } else if e == 't' {
                '\t'
            } else if e == '"' {
                '"'
            } else if e == '\\' {
                '\\'
            } else {
                return Err(Error::Custom("Unknown escape"));
            };
            let ghost before = text@;
            text.push(ch);
            proof {
                match string_body(s@, j + 2) {
                    Ok((rest, k)) => {
                        assert(before + (seq![ch] + rest) =~= text@ + rest);
                    },
                    Err(_) => {},
                }
            }
            j = j + 2;
        } else {
            let ghost before = text@;
            text.push(c);
            proof {
                match string_body(s@, j + 1) {
                    Ok((rest, k)) => {
                        assert(before + (seq![c] + rest) =~= text@ + rest);
                    },
                    Err(_) => {},
                }
            }
            j = j + 1;
        }
    }
}

/// The raw string literal whose `@` is at `i`, and the index after its
/// closing quote.
pub fn tokenize_raw_string(s: &Vec<char>, i: usize) -> (r: Result<(Token, usize), Error>)
    requires
        i < s.len(),
    ensures
        match r {
            Ok((t, j)) => next_is(s@, i + 1, '"') && raw_end(s@, i + 2) == Ok::<int, Error>(j - 1)
                && token_of(t, Lexeme::Text(s@.subrange(i + 2, j - 1))),
            Err(e) => !next_is(s@, i + 1, '"') && e == Error::Custom("Invalid raw string")
                || next_is(s@, i + 1, '"') && raw_end(s@, i + 2) == Err::<int, Error>(e),
        },
{
    if i + 1 >= s.len() || s[i + 1] != '"' {
        return Err(Error::Custom("Invalid raw string"));
    }
    let mut text: Vec<char> = Vec::new();
    let mut j: usize = i + 2;
    loop
        invariant
            i + 2 <= j <= s.len(),
            next_is(s@, i + 1, '"'),
            text@ == s@.subrange(i + 2, j as int),
            raw_end(s@, i + 2) == raw_end(s@, j as int),
        decreases s.len() - j,
    {
        if j >= s.len() {
            return Err(Error::Custom("Unterminated string"));
        }
        let c = s[j];
        if c == '"' {
            return Ok((Token::StringLiteral(string_from_chars(text)), j + 1));
        }
        text.push(c);
        j = j + 1;
    }
}

/// Splits Erwin source text into tokens, ending with `EOF`.
///
/// Blanks separate tokens. A word is a letter or underscore followed by
/// alphanumeric characters and underscores; keywords become their own
/// tokens. A number is a run of digits with at most one dot between digits.
/// A string literal is enclosed in double quotes and may use the escapes
/// `\n`, `\t`, `\"` and `\\`; a raw string is `@"..."` and takes its content
/// as written. Everything else is a symbol of one or two characters.
pub fn tokenize(code: &str) -> (r: Result<Vec<Token>, Error>)
    ensures
        match r {
            Ok(ts) => scan(code@) matches Ok(ls) && tokens_of(ts@, ls),
            Err(e) => scan(code@) == Err::<Seq<Lexeme>, Error>(e),
        },
{
    let s = to_chars(code);
    let mut tokens: Vec<Token> = Vec::new();
    let ghost mut done: Seq<Lexeme> = Seq::empty();
    let mut i: usize = 0;
    while i < s.len()
        invariant
            s@ == code@,
            i <= s.len(),
            tokens@.len() == done.len(),
            forall|k: int| 0 <= k < done.len() ==> token_of(#[trigger] tokens@[k], done[k]),
            scan(s@) == join(done, scan_from(s@, i as int)),
        decreases s.len() - i,
    {
        let c = s[i];
        if c == ' ' || c == '\n' || c == '\t' || c == '\r' {
            i = i + 1;
        } else {
            let ghost before = done;
            let (t, j) = if ('a' <= c && c <= 'z') || ('A' <= c && c <= 'Z') || c == '_' {
                let (t, j) = tokenize_identifier(&s, i);
                proof {
                    done = done.push(Lexeme::Word(s@.subrange(i as int, j as int)));
                }
                (t, j)
            } else if '0' <= c && c <= '9' {
                let (t, j) = tokenize_number(&s, i);
                proof {
                    done = done.push(Lexeme::Num(s@.subrange(i as int, j as int)));
                }
                (t, j)
            } else if c == '"' {
                proof {
                    lemma_string_body(s@, i + 1);
                }
                match tokenize_string(&s, i) {
                    Ok((t, j)) => {
                        proof {
                            let text = string_body(s@, i + 1)->Ok_0.0;
                            done = done.push(Lexeme::Text(text));
                        }
                        (t, j)
                    },
                    Err(e) => {
                        return Err(e);
                    },
                }
            } else if c == '@' {
                proof {
                    lemma_raw_end(s@, i + 2);
                }
                match tokenize_raw_string(&s, i) {
                    Ok((t, j)) => {
                        proof {
                            done = done.push(Lexeme::Text(s@.subrange(i + 2, j - 1)));
                        }
                        (t, j)
                    },
                    Err(e) => {
                        return Err(e);
                    },
                }
            } else {
                match scan_symbol(&s, i) {
                    Ok((t, j)) => {
                        proof {
                            done = done.push(Lexeme::Sym(t));
                        }
                        (t, j)
                    },
                    Err(e) => {
                        return Err(e);
                    },
                }
            };
            proof {
                let l = done.last();
                assert(scan_from(s@, i as int) == prepend(l, scan_from(s@, j as int)));
                match scan_from(s@, j as int) {
                    Ok(r) => {
                        assert(before + (seq![l] + r) =~= done + r);
                    },
                    Err(_) => {},
                }
            }
            tokens.push(t);
            i = j;
        }
    }
    proof {
        assert(done + Seq::<Lexeme>::empty() =~= done);
    }
    tokens.push(Token::EOF);
    Ok(tokens)
}

/// No lexeme of the scanner is the end of input.
pub proof fn lemma_scan_no_eof(s: Seq<char>, i: int, ls: Seq<Lexeme>)
    requires
        scan_from(s, i) == Ok::<Seq<Lexeme>, Error>(ls),
    ensures
        forall|k: int| 0 <= k < ls.len() ==> !token_of(Token::EOF, #[trigger] ls[k]),
    decreases s.len() - i,
{
    if 0 <= i < s.len() {
        let c = s[i];
        let j = if is_blank(c) {
            i + 1
        } else if is_word_start(c) {
            lemma_word_end(s, i + 1);
            word_end(s, i + 1)
        } else if is_ascii_digit(c) {
            lemma_number_end(s, i + 1, false);
            number_end(s, i + 1, false)
        } else if c == '"' {
            lemma_string_body(s, i + 1);
            string_body(s, i + 1)->Ok_0.1
        } else if c == '@' {
            lemma_raw_end(s, i + 2);
            raw_end(s, i + 2)->Ok_0 + 1
        } else {
            symbol_at(s, i)->Ok_0.1
        };
        let rest = scan_from(s, j)->Ok_0;
        assert(scan_from(s, j) is Ok);
        lemma_scan_no_eof(s, j, rest);
        if !is_blank(c) {
            assert forall|k: int| 0 <= k < ls.len() implies !token_of(Token::EOF, #[trigger] ls[k]) by {
                if k > 0 {
                    assert(ls[k] == rest[k - 1]);
                }
            }
        }
    }
}

/// The tokens of a text end with exactly one `EOF`: the last token is
/// `EOF` and no other is.
pub proof fn lemma_one_eof(code: Seq<char>, ls: Seq<Lexeme>, ts: Seq<Token>)
    requires
        scan(code) == Ok::<Seq<Lexeme>, Error>(ls),
        tokens_of(ts, ls),
    ensures
        ts.len() >= 1,
        ts.last() == Token::EOF,
        forall|k: int| 0 <= k < ts.len() - 1 ==> ts[k] != Token::EOF,
{
    lemma_scan_no_eof(code, 0, ls);
    assert forall|k: int| 0 <= k < ts.len() - 1 implies ts[k] != Token::EOF by {
        assert(token_of(ts[k], ls[k]));
        assert(!token_of(Token::EOF, ls[k]));
    }
}

/// The characters that plain program text is made of: ASCII letters and
/// digits, `_`, blanks, and the symbols `= : ! < > ^ ( ) [ ] { } ; , . + - * /`.
pub open spec fn is_plain(c: char) -> bool {
    ||| is_word_start(c)
    ||| is_ascii_digit(c)
    ||| is_blank(c)
    ||| c == '=' || c == ':' || c == '!' || c == '<' || c == '>' || c == '^'
    ||| c == '(' || c == ')' || c == '[' || c == ']' || c == '{' || c == '}'
    ||| c == ';' || c == ',' || c == '.' || c == '+' || c == '-' || c == '*' || c == '/'
}

/// Plain text always scans, from any index on.
pub proof fn lemma_plain_scans_from(s: Seq<char>, i: int)
    requires
        forall|k: int| 0 <= k < s.len() ==> is_plain(#[trigger] s[k]),
    ensures
        scan_from(s, i) is Ok,
    decreases s.len() - i,
{
    if 0 <= i < s.len() {
        let c = s[i];
        assert(is_plain(c));
        if is_blank(c) {
            lemma_plain_scans_from(s, i + 1);
        } else if is_word_start(c) {
            lemma_word_end(s, i + 1);
            lemma_plain_scans_from(s, word_end(s, i + 1));
        } else if is_ascii_digit(c) {
            lemma_number_end(s, i + 1, false);
            lemma_plain_scans_from(s, number_end(s, i + 1, false));
        } else {
            let j = symbol_at(s, i)->Ok_0.1;
            assert(symbol_at(s, i) is Ok && j > i);
            lemma_plain_scans_from(s, j);
        }
    }
}

/// Text made only of plain characters always scans.
pub proof fn lemma_plain_scans(code: Seq<char>)
    requires
        forall|k: int| 0 <= k < code.len() ==> is_plain(#[trigger] code[k]),
    ensures
        scan(code) is Ok,
{
    lemma_plain_scans_from(code, 0);
}

/// `s` is `a` followed by a space and more text.
pub open spec fn spaced_after(a: Seq<char>, s: Seq<char>) -> bool {
    &&& s.len() > a.len()
    &&& forall|k: int| 0 <= k < a.len() ==> #[trigger] s[k] == a[k]
    &&& s[a.len() as int] == ' '
}

proof fn lemma_word_end_prefix(a: Seq<char>, s: Seq<char>, i: int)
    requires
        spaced_after(a, s),
        0 <= i <= a.len(),
    ensures
        word_end(s, i) == word_end(a, i),
    decreases a.len() - i,
{
    if i < a.len() {
        assert(s[i] == a[i]);
        lemma_word_end_prefix(a, s, i + 1);
    }
}

proof fn lemma_number_end_prefix(a: Seq<char>, s: Seq<char>, i: int, has_dot: bool)
    requires
        spaced_after(a, s),
        0 <= i <= a.len(),
    ensures
        number_end(s, i, has_dot) == number_end(a, i, has_dot),
    decreases a.len() - i,
{
    if i < a.len() {
        assert(s[i] == a[i]);
        if i + 1 < a.len() {
            assert(s[i + 1] == a[i + 1]);
        }
        lemma_number_end_prefix(a, s, i + 1, has_dot);
        lemma_number_end_prefix(a, s, i + 1, true);
    }
}

proof fn lemma_string_body_prefix(a: Seq<char>, s: Seq<char>, i: int)
    requires
        spaced_after(a, s),
        0 <= i,
        string_body(a, i) is Ok,
    ensures
        string_body(s, i) == string_body(a, i),
    decreases a.len() - i,
{
    assert(s[i] == a[i]);
    if a[i] == '\\' {
        assert(s[i + 1] == a[i + 1]);
        lemma_string_body_prefix(a, s, i + 2);
    } else if a[i] != '"' {
        lemma_string_body_prefix(a, s, i + 1);
    }
}

proof fn lemma_raw_end_prefix(a: Seq<char>, s: Seq<char>, i: int)
    requires
        spaced_after(a, s),
        0 <= i,
        raw_end(a, i) is Ok,
    ensures
        raw_end(s, i) == raw_end(a, i),
    decreases a.len() - i,
{
    assert(s[i] == a[i]);
    if a[i] != '"' {
        lemma_raw_end_prefix(a, s, i + 1);
    }
}

proof fn lemma_symbol_at_prefix(a: Seq<char>, s: Seq<char>, i: int)
    requires
        spaced_after(a, s),
        0 <= i < a.len(),
    ensures
        symbol_at(s, i) == symbol_at(a, i),
{
    assert(s[i] == a[i]);
    if i + 1 < a.len() {
        assert(s[i + 1] == a[i + 1]);
    }
}

/// What `a` scans to from `i` on comes first when `a` is followed by a space
/// and more text.
proof fn lemma_scan_prefix(a: Seq<char>, s: Seq<char>, i: int, l: Seq<Lexeme>)
    requires
        spaced_after(a, s),
        0 <= i <= a.len(),
        scan_from(a, i) == Ok::<Seq<Lexeme>, Error>(l),
    ensures
        scan_from(s, i) == join(l, scan_from(s, a.len() + 1int)),
    decreases a.len() - i,
{
    if i == a.len() {
        assert(l =~= Seq::<Lexeme>::empty());
        match scan_from(s, a.len() + 1int) {
            Ok(r) => assert(l + r =~= r),
            Err(_) => {},
        }
    } else {
        let c = a[i];
        assert(s[i] == c);
        let (j, first): (int, Option<Lexeme>) = if is_blank(c) {
            (i + 1, None)
        } else if is_word_start(c) {
            lemma_word_end(a, i + 1);
            lemma_word_end_prefix(a, s, i + 1);
            assert(s.subrange(i, word_end(a, i + 1)) =~= a.subrange(i, word_end(a, i + 1)));
            (word_end(a, i + 1), Some(Lexeme::Word(a.subrange(i, word_end(a, i + 1)))))
        } else if is_ascii_digit(c) {
            lemma_number_end(a, i + 1, false);
            lemma_number_end_prefix(a, s, i + 1, false);
            assert(s.subrange(i, number_end(a, i + 1, false)) =~= a.subrange(i, number_end(a, i + 1, false)));
            (number_end(a, i + 1, false), Some(Lexeme::Num(a.subrange(i, number_end(a, i + 1, false)))))
        } else if c == '"' {
            lemma_string_body(a, i + 1);
            lemma_string_body_prefix(a, s, i + 1);
            (string_body(a, i + 1)->Ok_0.1, Some(Lexeme::Text(string_body(a, i + 1)->Ok_0.0)))
        } else if c == '@' {
            assert(s[i + 1] == a[i + 1]);
            lemma_raw_end(a, i + 2);
            lemma_raw_end_prefix(a, s, i + 2);
            assert(s.subrange(i + 2, raw_end(a, i + 2)->Ok_0) =~= a.subrange(i + 2, raw_end(a, i + 2)->Ok_0));
            (raw_end(a, i + 2)->Ok_0 + 1, Some(Lexeme::Text(a.subrange(i + 2, raw_end(a, i + 2)->Ok_0))))
        } else {
            lemma_symbol_at_prefix(a, s, i);
            (symbol_at(a, i)->Ok_0.1, Some(Lexeme::Sym(symbol_at(a, i)->Ok_0.0)))
        };
        let rest = scan_from(a, j)->Ok_0;
        assert(scan_from(a, j) is Ok);
        lemma_scan_prefix(a, s, j, rest);
        assert(scan_from(s, j) == join(rest, scan_from(s, a.len() + 1int)));
        if let Some(x) = first {
            assert(l == seq![x] + rest);
            assert(scan_from(s, i) == prepend(x, scan_from(s, j)));
            match scan_from(s, a.len() + 1int) {
                Ok(r) => assert(seq![x] + (rest + r) =~= (seq![x] + rest) + r),
                Err(_) => {},
            }
        }
    }
}

proof fn lemma_word_end_shift(p: Seq<char>, b: Seq<char>, j: int)
    requires
        0 <= j,
    ensures
        word_end(p + b, p.len() + j) == p.len() + word_end(b, j),
    decreases b.len() - j,
{
    if j < b.len() {
        assert((p + b)[p.len() + j] == b[j]);
        lemma_word_end_shift(p, b, j + 1);
    }
}

proof fn lemma_number_end_shift(p: Seq<char>, b: Seq<char>, j: int, has_dot: bool)
    requires
        0 <= j,
    ensures
        number_end(p + b, p.len() + j, has_dot) == p.len() + number_end(b, j, has_dot),
    decreases b.len() - j,
{
    if j < b.len() {
        assert((p + b)[p.len() + j] == b[j]);
        if j + 1 < b.len() {
            assert((p + b)[p.len() + j + 1] == b[j + 1]);
        }
        lemma_number_end_shift(p, b, j + 1, has_dot);
        lemma_number_end_shift(p, b, j + 1, true);
    }
}

proof fn lemma_string_body_shift(p: Seq<char>, b: Seq<char>, j: int)
    requires
        0 <= j,
    ensures
        string_body(p + b, p.len() + j) == (match string_body(b, j) {
            Ok((t, e)) => Ok((t, p.len() + e)),
            Err(x) => Err::<(Seq<char>, int), Error>(x),
        }),
    decreases b.len() - j,
{
    if j < b.len() {
        assert((p + b)[p.len() + j] == b[j]);
        lemma_string_body_shift(p, b, j + 1);
        if j + 1 < b.len() {
            assert((p + b)[p.len() + j + 1] == b[j + 1]);
            lemma_string_body_shift(p, b, j + 2);
        }
    }
}

proof fn lemma_raw_end_shift(p: Seq<char>, b: Seq<char>, j: int)
    requires
        0 <= j,
    ensures
        raw_end(p + b, p.len() + j) == (match raw_end(b, j) {
            Ok(e) => Ok(p.len() + e),
            Err(x) => Err::<int, Error>(x),
        }),
    decreases b.len() - j,
{
    if j < b.len() {
        assert((p + b)[p.len() + j] == b[j]);
        lemma_raw_end_shift(p, b, j + 1);
    }
}

proof fn lemma_symbol_at_shift(p: Seq<char>, b: Seq<char>, j: int)
    requires
        0 <= j < b.len(),
    ensures
        symbol_at(p + b, p.len() + j) == (match symbol_at(b, j) {
            Ok((t, e)) => Ok((t, p.len() + e)),
            Err(x) => Err::<(Token, int), Error>(x),
        }),
{
    assert((p + b)[p.len() + j] == b[j]);
    if j + 1 < b.len() {
        assert((p + b)[p.len() + j + 1] == b[j + 1]);
    }
}

/// Text after a prefix scans as it does alone.
proof fn lemma_scan_shift(p: Seq<char>, b: Seq<char>, j: int)
    requires
        0 <= j,
    ensures
        scan_from(p + b, p.len() + j) == scan_from(b, j),
    decreases b.len() - j,
{
    let s = p + b;
    let i = p.len() + j;
    if j < b.len() {
        let c = b[j];
        assert(s[i] == c);
        if is_blank(c) {
            lemma_scan_shift(p, b, j + 1);
        } else if is_word_start(c) {
            lemma_word_end(b, j + 1);
            lemma_word_end_shift(p, b, j + 1);
            let e = word_end(b, j + 1);
            lemma_scan_shift(p, b, e);
            assert(s.subrange(i, p.len() + e) =~= b.subrange(j, e));
        } else if is_ascii_digit(c) {
            lemma_number_end(b, j + 1, false);
            lemma_number_end_shift(p, b, j + 1, false);
            let e = number_end(b, j + 1, false);
            lemma_scan_shift(p, b, e);
            assert(s.subrange(i, p.len() + e) =~= b.subrange(j, e));
        } else if c == '"' {
            lemma_string_body(b, j + 1);
            lemma_string_body_shift(p, b, j + 1);
            if let Ok((_, e)) = string_body(b, j + 1) {
                lemma_scan_shift(p, b, e);
            }
        } else if c == '@' {
            if j + 1 < b.len() {
                assert(s[i + 1] == b[j + 1]);
            }
            lemma_raw_end(b, j + 2);
            lemma_raw_end_shift(p, b, j + 2);
            if let Ok(e) = raw_end(b, j + 2) {
                lemma_scan_shift(p, b, e + 1);
                assert(s.subrange(i + 2, p.len() + e) =~= b.subrange(j + 2, e));
            }
        } else {
            lemma_symbol_at_shift(p, b, j);
            if let Ok((_, e)) = symbol_at(b, j) {
                lemma_scan_shift(p, b, e);
            }
        }
    }
}

/// Two texts that scan, joined by a space, scan to the lexemes of the first
/// followed by those of the second.
pub proof fn lemma_scan_joined(a: Seq<char>, b: Seq<char>, la: Seq<Lexeme>, lb: Seq<Lexeme>)
    requires
        scan(a) == Ok::<Seq<Lexeme>, Error>(la),
        scan(b) == Ok::<Seq<Lexeme>, Error>(lb),
    ensures
        scan(a + seq![' '] + b) == Ok::<Seq<Lexeme>, Error>(la + lb),
{
    let p = a + seq![' '];
    let s = p + b;
    assert(spaced_after(a, s)) by {
        assert forall|k: int| 0 <= k < a.len() implies #[trigger] s[k] == a[k] by {
            assert(p[k] == a[k]);
        }
        assert(p[a.len() as int] == ' ');
    }
    lemma_scan_prefix(a, s, 0, la);
    lemma_scan_shift(p, b, 0);
}

/// Whether `t` and `u` are the same token: of the same kind, carrying the
/// same text where they carry one.
pub open spec fn same_token(t: Token, u: Token) -> bool {
    match (t, u) {
        (Token::Identifier(x), Token::Identifier(y)) => x@ == y@,
        (Token::Number(x), Token::Number(y)) => x@ == y@,
        (Token::StringLiteral(x), Token::StringLiteral(y)) => x@ == y@,
        _ => t == u,
    }
}

proof fn lemma_token_of_same(t: Token, u: Token, l: Lexeme)
    requires
        token_of(t, l),
        token_of(u, l),
    ensures
        same_token(t, u),
{
}

/// Two texts that scan, joined by a space, give the tokens of the first
/// without its `EOF`, followed by the tokens of the second.
pub proof fn lemma_tokens_joined(
    a: Seq<char>,
    b: Seq<char>,
    la: Seq<Lexeme>,
    lb: Seq<Lexeme>,
    lj: Seq<Lexeme>,
    ta: Seq<Token>,
    tb: Seq<Token>,
    tj: Seq<Token>,
)
    requires
        scan(a) == Ok::<Seq<Lexeme>, Error>(la),
        tokens_of(ta, la),
        scan(b) == Ok::<Seq<Lexeme>, Error>(lb),
        tokens_of(tb, lb),
        scan(a + seq![' '] + b) == Ok::<Seq<Lexeme>, Error>(lj),
        tokens_of(tj, lj),
    ensures
        tj.len() == ta.len() - 1 + tb.len(),
        forall|k: int| 0 <= k < ta.len() - 1 ==> same_token(#[trigger] tj[k], ta[k]),
        forall|k: int| 0 <= k < tb.len() ==> same_token(#[trigger] tj[ta.len() - 1 + k], tb[k]),
{
    lemma_scan_joined(a, b, la, lb);
    assert(lj == la + lb);
    assert forall|k: int| 0 <= k < ta.len() - 1 implies same_token(#[trigger] tj[k], ta[k]) by {
        assert(lj[k] == la[k]);
        lemma_token_of_same(tj[k], ta[k], la[k]);
    }
    assert forall|k: int| 0 <= k < tb.len() implies same_token(#[trigger] tj[ta.len() - 1 + k], tb[k]) by {
        if k < lb.len() {
            assert(lj[la.len() + k] == lb[k]);
            lemma_token_of_same(tj[la.len() + k], tb[k], lb[k]);
        }
    }
}

/// A keyword word scans to the token spelled by that word, so no two words
/// give the same keyword.
pub proof fn lemma_keyword_spelling(w: Seq<char>)
    ensures
        keyword(w) matches Some(t) ==> token::spelling(t) == Some(w),
{
}

/// A symbol read by the scanner is the token spelled by the characters it
/// took.
pub proof fn lemma_symbol_spelling(s: Seq<char>, i: int)
    requires
        0 <= i < s.len(),
    ensures
        symbol_at(s, i) matches Ok((t, j)) ==> token::spelling(t) == Some(s.subrange(i, j)),
{
    assert(s.subrange(i, i + 1) =~= seq![s[i]]);
    if i + 1 < s.len() {
        assert(s.subrange(i, i + 2) =~= seq![s[i], s[i + 1]]);
    }
}

} // verus!
