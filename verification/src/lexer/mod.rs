pub mod chars;

use vstd::prelude::*;

use crate::error::Error;
use crate::text::{
    char_is_whitespace, is_ascii_digit, is_whitespace, lemma_number_end, lemma_word_end,
    number_end, to_chars, word_end,
};
use crate::scan::is_word_start;
use crate::token::{spelling, Token, TokenKind};

verus! {

/// Turns Erwin source text into tokens that borrow their text from it.
pub struct Lexer<'a> {
    code: &'a str,
    chars: Vec<char>,
    current: usize,
    line: usize,
    column: usize,
}

/// What a lexeme of the source is: a word, a number, the content of a string
/// literal, or a symbol.
pub enum LexKind {
    Word(Seq<char>),
    Num(Seq<char>),
    Str(Seq<char>),
    Sym(TokenKind<'static>),
}

/// A lexeme with the line and column its token carries.
pub struct LexToken {
    pub kind: LexKind,
    pub line: nat,
    pub col: nat,
}

/// The line and column after reading `c` at line and column `p`.
pub open spec fn step(c: char, p: (nat, nat)) -> (nat, nat) {
    if c == '\n' {
        (p.0 + 1, 1)
    } else {
        (p.0, p.1 + 1)
    }
}

/// The line and column of index `i` of `s`, both counted from 1.
pub open spec fn pos(s: Seq<char>, i: int) -> (nat, nat)
    decreases i,
{
    if i <= 0 {
        (1, 1)
    } else {
        step(s[i - 1], pos(s, i - 1))
    }
}

pub proof fn lemma_pos_bound(s: Seq<char>, i: int)
    requires
        0 <= i,
    ensures
        1 <= pos(s, i).0 <= 1 + i,
        1 <= pos(s, i).1 <= 1 + i,
    decreases i,
{
    if i > 0 {
        lemma_pos_bound(s, i - 1);
    }
}

/// The keyword kind that the word `w` spells, if any.
pub open spec fn keyword_kind(w: Seq<char>) -> Option<TokenKind<'static>> {
    if w == "var"@ {
        Some(TokenKind::Var)
    } else if w == "mut"@ {
        Some(TokenKind::Mut)
    } else if w == "do"@ {
        Some(TokenKind::Do)
    } else if w == "node"@ {
        Some(TokenKind::Node)
    } else if w == "const"@ {
        Some(TokenKind::Const)
    } else if w == "state"@ {
        Some(TokenKind::State)
    } else if w == "enum"@ {
        Some(TokenKind::Enum)
    } else if w == "method"@ {
        Some(TokenKind::Method)
    } else if w == "func"@ {
        Some(TokenKind::Func)
    } else if w == "return"@ {
        Some(TokenKind::Return)
    } else if w == "yield"@ {
        Some(TokenKind::Yield)
    } else if w == "for"@ {
        Some(TokenKind::For)
    } else if w == "in"@ {
        Some(TokenKind::In)
    } else if w == "while"@ {
        Some(TokenKind::While)
    } else if w == "continue"@ {
        Some(TokenKind::Continue)
    } else if w == "break"@ {
        Some(TokenKind::Break)
    } else if w == "if"@ {
        Some(TokenKind::If)
    } else if w == "else"@ {
        Some(TokenKind::Else)
    } else if w == "true"@ {
        Some(TokenKind::True)
    } else if w == "false"@ {
        Some(TokenKind::False)
    } else if w == "pub"@ {
        Some(TokenKind::Pub)
    } else if w == "import"@ {
        Some(TokenKind::Import)
    } else if w == "Bool"@ {
        Some(TokenKind::Bool)
    } else if w == "Int8"@ {
        Some(TokenKind::Int8)
    } else if w == "Int16"@ {
        Some(TokenKind::Int16)
    } else if w == "Int32"@ {
        Some(TokenKind::Int32)
    } else if w == "Int64"@ {
        Some(TokenKind::Int64)
    } else if w == "Int128"@ {
        Some(TokenKind::Int128)
    } else if w == "UInt8"@ {
        Some(TokenKind::UInt8)
    } else if w == "UInt16"@ {
        Some(TokenKind::UInt16)
    } else if w == "UInt32"@ {
        Some(TokenKind::UInt32)
    } else if w == "UInt64"@ {
        Some(TokenKind::UInt64)
    } else if w == "UInt128"@ {
        Some(TokenKind::UInt128)
    } else if w == "Range8"@ {
        Some(TokenKind::IntRange8)
    } else if w == "Range16"@ {
        Some(TokenKind::IntRange16)
    } else if w == "Range32"@ {
        Some(TokenKind::IntRange32)
    } else if w == "Range64"@ {
        Some(TokenKind::IntRange64)
    } else if w == "Range128"@ {
        Some(TokenKind::IntRange128)
    } else if w == "URange8"@ {
        Some(TokenKind::UIntRange8)
    } else if w == "URange16"@ {
        Some(TokenKind::UIntRange16)
    } else if w == "URange32"@ {
        Some(TokenKind::UIntRange32)
    } else if w == "URange64"@ {
        Some(TokenKind::UIntRange64)
    } else if w == "URange128"@ {
        Some(TokenKind::UIntRange128)
    } else if w == "Float32"@ {
        Some(TokenKind::Float32)
    } else if w == "Float64"@ {
        Some(TokenKind::Float64)
    } else if w == "Str"@ {
        Some(TokenKind::String)
    } else {
        None
    }
}

/// Whether `t` is the token kind of the lexeme kind `k`.
pub open spec fn kind_of<'a>(t: TokenKind<'a>, k: LexKind) -> bool {
    match k {
        LexKind::Word(w) => match keyword_kind(w) {
            Some(kw) => t == kw,
            None => t matches TokenKind::Identifier(x) && x@ == w,
        },
        LexKind::Num(d) => t matches TokenKind::Number(x) && x@ == d,
        LexKind::Str(x) => t matches TokenKind::StringLiteral(y) && y@ == x,
        LexKind::Sym(s) => t == s,
    }
}

/// Whether `t` is the token of the lexeme `l`.
pub open spec fn token_of<'a>(t: Token<'a>, l: LexToken) -> bool {
    kind_of(t.kind, l.kind) && t.line == l.line && t.col == l.col
}

/// The lexeme kind `kind` at line and column `p`.
pub open spec fn at(kind: LexKind, p: (nat, nat)) -> LexToken {
    LexToken { kind, line: p.0, col: p.1 }
}

/// The error `msg` at line and column `p`.
pub open spec fn located(p: (nat, nat), msg: &'static str) -> Error {
    Error::Located { line: p.0 as usize, col: p.1 as usize, message: msg }
}

/// The end of the run of white space that starts at `i`.
pub open spec fn ws_end(s: Seq<char>, i: int) -> int
    decreases s.len() - i,
{
    if 0 <= i < s.len() && is_whitespace(s[i]) {
        ws_end(s, i + 1)
    } else {
        i
    }
}

/// The index of the quote that closes a string literal whose body starts at
/// `i`; a backslash makes the lexer pass over the character after it.
pub open spec fn str_end(s: Seq<char>, i: int) -> Option<int>
    decreases s.len() - i,
{
    if i < 0 || i >= s.len() {
        None
    } else if s[i] == '"' {
        Some(i)
    } else if s[i] == '\\' {
        if i + 1 >= s.len() {
            None
        } else {
            str_end(s, i + 2)
        }
    } else {
        str_end(s, i + 1)
    }
}

/// The index of the first quote at or after `i`.
pub open spec fn raw_close(s: Seq<char>, i: int) -> Option<int>
    decreases s.len() - i,
{
    if i < 0 || i >= s.len() {
        None
    } else if s[i] == '"' {
        Some(i)
    } else {
        raw_close(s, i + 1)
    }
}

/// The kind paired with the first entry of `table` for the character `c`.
pub open spec fn first_match(table: Seq<(char, TokenKind<'static>)>, c: char) -> Option<TokenKind<'static>>
    decreases table.len(),
{
    if table.len() == 0 {
        None
    } else if table[0].0 == c {
        Some(table[0].1)
    } else {
        first_match(table.drop_first(), c)
    }
}

/// The symbol that starts with `s[k]`: two characters when the second one is
/// in `table`, else the one character `fallback` names.
pub open spec fn double_at(
    s: Seq<char>,
    k: int,
    fallback: Option<TokenKind<'static>>,
    table: Seq<(char, TokenKind<'static>)>,
) -> Result<(LexToken, int), Error> {
    let p = pos(s, k + 1);
    let m = if k + 1 < s.len() { first_match(table, s[k + 1]) } else { None };
    match m {
        Some(t) => Ok((at(LexKind::Sym(t), p), k + 2)),
        None => match fallback {
            Some(f) => Ok((at(LexKind::Sym(f), p), k + 1)),
            None => Err(located(p, "Unexpected token")),
        },
    }
}

/// The kind of a symbol of one character.
pub open spec fn single_kind(c: char) -> Option<TokenKind<'static>> {
    if c == '(' {
        Some(TokenKind::LParen)
    } else if c == ')' {
        Some(TokenKind::RParen)
    } else if c == '[' {
        Some(TokenKind::LSquare)
    } else if c == ']' {
        Some(TokenKind::RSquare)
    } else if c == '{' {
        Some(TokenKind::LBrace)
    } else if c == '}' {
        Some(TokenKind::RBrace)
    } else if c == ';' {
        Some(TokenKind::Semicolon)
    } else if c == ',' {
        Some(TokenKind::Comma)
    } else if c == '+' {
        Some(TokenKind::Plus)
    } else if c == '*' {
        Some(TokenKind::Star)
    } else if c == '/' {
        Some(TokenKind::Slash)
    } else {
        None
    }
}

/// For a character that may start a symbol of two characters: the kind of
/// the one character symbol, if it is one, and the second characters with
/// the kinds they make.
pub open spec fn double_table(c: char) -> Option<(Option<TokenKind<'static>>, Seq<(char, TokenKind<'static>)>)> {
    if c == '=' {
        Some((Some(TokenKind::Assign), seq![('=', TokenKind::Equal)]))
    } else if c == ':' {
        Some((Some(TokenKind::Colon), seq![(':', TokenKind::DoubleColon)]))
    } else if c == '!' {
        Some((Some(TokenKind::Not), seq![('=', TokenKind::NotEqual), ('|', TokenKind::Nor), ('&', TokenKind::Nand), ('^', TokenKind::Xnor)]))
    } else if c == '<' {
        Some((Some(TokenKind::LessThan), seq![('=', TokenKind::LessEqual)]))
    } else if c == '>' {
        Some((Some(TokenKind::GreaterThan), seq![('=', TokenKind::GreaterEqual)]))
    } else if c == '|' {
        Some((None, seq![('|', TokenKind::Or), ('>', TokenKind::RPipe)]))
    } else if c == '&' {
        Some((Some(TokenKind::Amp), seq![('&', TokenKind::And)]))
    } else if c == '^' {
        Some((Some(TokenKind::Pow), seq![('^', TokenKind::Xor)]))
    } else if c == '.' {
        Some((Some(TokenKind::Dot), seq![('.', TokenKind::DoubleDot)]))
    } else if c == '-' {
        Some((Some(TokenKind::Minus), seq![('>', TokenKind::RArrow)]))
    } else {
        None
    }
}

/// The token that starts at index `k`, and the index after it.
pub open spec fn token_at(s: Seq<char>, k: int) -> Result<(LexToken, int), Error> {
    let c = s[k];
    if is_word_start(c) {
        let j = word_end(s, k + 1);
        Ok((at(LexKind::Word(s.subrange(k, j)), pos(s, j)), j))
    } else if is_ascii_digit(c) {
        let j = number_end(s, k + 1, false);
        Ok((at(LexKind::Num(s.subrange(k, j)), pos(s, k)), j))
    } else if c == '"' {
        match str_end(s, k + 1) {
            Some(e) => Ok((at(LexKind::Str(s.subrange(k + 1, e)), pos(s, k)), e + 1)),
            None => Err(located(pos(s, k), "Unterminated string literal")),
        }
    } else if c == '#' {
        match raw_close(s, k + 1) {
            Some(e) => Ok((at(LexKind::Str(s.subrange(k + 1, e)), pos(s, k)), e + 1)),
            None => Err(located(pos(s, k), "Unterminated string literal")),
        }
    } else if c == '@' {
        Ok((at(LexKind::Sym(TokenKind::At), pos(s, k + 1)), k + 1))
    } else {
        match double_table(c) {
            Some((fallback, table)) => double_at(s, k, fallback, table),
            None => match single_kind(c) {
                Some(t) => Ok((at(LexKind::Sym(t), pos(s, k + 1)), k + 1)),
                None => Err(located(pos(s, k), "Unexpected token")),
            },
        }
    }
}

pub proof fn lemma_ws_end(s: Seq<char>, i: int)
    requires
        0 <= i <= s.len(),
    ensures
        i <= ws_end(s, i) <= s.len(),
    decreases s.len() - i,
{
    if i < s.len() && is_whitespace(s[i]) {
        lemma_ws_end(s, i + 1);
    }
}

pub proof fn lemma_str_end(s: Seq<char>, i: int)
    requires
        0 <= i,
    ensures
        str_end(s, i) matches Some(e) ==> i <= e < s.len() && s[e] == '"',
    decreases s.len() - i,
{
    if 0 <= i < s.len() && s[i] != '"' {
        if s[i] == '\\' {
            if i + 1 < s.len() {
                lemma_str_end(s, i + 2);
            }
        } else {
            lemma_str_end(s, i + 1);
        }
    }
}

pub proof fn lemma_raw_close(s: Seq<char>, i: int)
    requires
        0 <= i,
    ensures
        raw_close(s, i) matches Some(e) ==> i <= e < s.len() && s[e] == '"',
    decreases s.len() - i,
{
    if 0 <= i < s.len() && s[i] != '"' {
        lemma_raw_close(s, i + 1);
    }
}

/// A token read at `k` ends after `k`, within the text.
pub proof fn lemma_token_at(s: Seq<char>, k: int)
    requires
        0 <= k < s.len(),
    ensures
        token_at(s, k) matches Ok((_, j)) ==> k < j <= s.len(),
{
    lemma_word_end(s, k + 1);
    lemma_number_end(s, k + 1, false);
    lemma_str_end(s, k + 1);
    lemma_raw_close(s, k + 1);
}

/// Puts `first` in front of the lexemes of `rest`, or passes on its error.
pub open spec fn prepend(first: LexToken, rest: Result<Seq<LexToken>, Error>) -> Result<Seq<LexToken>, Error> {
    match rest {
        Ok(r) => Ok(seq![first] + r),
        Err(e) => Err(e),
    }
}

/// Puts `done` in front of the lexemes of `rest`, or passes on its error.
pub open spec fn join(done: Seq<LexToken>, rest: Result<Seq<LexToken>, Error>) -> Result<Seq<LexToken>, Error> {
    match rest {
        Ok(r) => Ok(done + r),
        Err(e) => Err(e),
    }
}

/// The lexemes of `s` from index `i` on, or the first error met.
pub open spec fn lex_from(s: Seq<char>, i: int) -> Result<Seq<LexToken>, Error>
    decreases s.len() - i,
{
    if i < 0 || i > s.len() {
        Ok(Seq::empty())
    } else {
        let k = ws_end(s, i);
        proof {
            lemma_ws_end(s, i);
        }
        if k >= s.len() {
            Ok(Seq::empty())
        } else {
            proof {
                lemma_token_at(s, k);
            }
            match token_at(s, k) {
                Ok((t, j)) => prepend(t, lex_from(s, j)),
                Err(e) => Err(e),
            }
        }
    }
}

/// Whether `ts` are the tokens of the lexemes `ls`, followed by the end of
/// input at line and column `end`.
pub open spec fn tokens_of<'a>(ts: Seq<Token<'a>>, ls: Seq<LexToken>, end: (nat, nat)) -> bool {
    &&& ts.len() == ls.len() + 1
    &&& forall|k: int| 0 <= k < ls.len() ==> token_of(#[trigger] ts[k], ls[k])
    &&& ts[ls.len() as int].kind == TokenKind::Eof
    &&& ts[ls.len() as int].line == end.0
    &&& ts[ls.len() as int].col == end.1
}

/// Whether the characters `v[start..end]` are those of `s`.
pub fn range_equals_str(v: &Vec<char>, start: usize, end: usize, s: &str) -> (r: bool)
    requires
        start <= end <= v.len(),
    ensures
        r == (v@.subrange(start as int, end as int) == s@),
{
    let n = s.unicode_len();
    if n != end - start {
        return false;
    }
    let mut i: usize = 0;
    while i < n
        invariant
            n == s@.len(),
            n == end - start,
            start <= end <= v.len(),
            i <= n,
            forall|j: int| 0 <= j < i ==> v@[start + j] == s@[j],
        decreases n - i,
    {
        if v[start + i] != s.get_char(i) {
            return false;
        }
        i = i + 1;
    }
    assert(v@.subrange(start as int, end as int) =~= s@);
    true
}

impl<'a> Lexer<'a> {
    /// The characters of the source.
    pub closed spec fn text(&self) -> Seq<char> {
        self.chars@
    }

    /// The index of the next character to read.
    pub closed spec fn position(&self) -> int {
        self.current as int
    }

    /// The index of the next character is never negative, nor past the end
    /// of the text.
    pub proof fn lemma_position_bounds(&self)
        requires
            self.wf(),
        ensures
            0 <= self.position() <= self.text().len(),
    {
    }

    /// The source, the index, and the line and column agree.
    pub closed spec fn wf(&self) -> bool {
        &&& self.chars@ == self.code@
        &&& self.current <= self.chars.len()
        &&& self.chars.len() < usize::MAX
        &&& (self.line as nat, self.column as nat) == pos(self.chars@, self.current as int)
    }

    /// A lexer at the start of `code`.
    pub fn new(code: &'a str) -> (r: Self)
        requires
            code@.len() < usize::MAX,
        ensures
            r.wf(),
            r.text() == code@,
            r.position() == 0,
    {
        Self { code, chars: to_chars(code), current: 0, line: 1, column: 1 }
    }

    /// The tokens of the text from the current index on, ending with `Eof`
    /// at the line and column after the last character.
    pub fn tokenize(self) -> (r: Result<Vec<Token<'a>>, Error>)
        requires
            self.wf(),
        ensures
            match r {
                Ok(ts) => lex_from(self.text(), self.position()) matches Ok(ls)
                    && tokens_of(ts@, ls, pos(self.text(), self.text().len() as int)),
                Err(e) => lex_from(self.text(), self.position()) == Err::<Seq<LexToken>, Error>(e),
            },
    {
        let ghost s = self.text();
        let ghost start = self.position();
        let mut lexer = self;
        let mut tokens: Vec<Token<'a>> = Vec::new();
        let ghost mut done: Seq<LexToken> = Seq::empty();

        while !lexer.is_at_end()
            invariant
                lexer.wf(),
                lexer.text() == s,
                s == self.text(),
                start == self.position(),
                0 <= lexer.position() <= s.len(),
                tokens@.len() == done.len(),
                forall|k: int| 0 <= k < done.len() ==> token_of(#[trigger] tokens@[k], done[k]),
                lex_from(s, start) == join(done, lex_from(s, lexer.position())),
            ensures
                lexer.wf(),
                lexer.text() == s,
                lexer.position() == s.len(),
                tokens@.len() == done.len(),
                forall|k: int| 0 <= k < done.len() ==> token_of(#[trigger] tokens@[k], done[k]),
                lex_from(s, start) == join(done, lex_from(s, lexer.position())),
            decreases s.len() - lexer.position(),
        {
            let ghost before_ws = lexer.position();
            loop
                invariant
                    lexer.wf(),
                    lexer.text() == s,
                    before_ws <= lexer.position() <= s.len(),
                    lex_from(s, start) == join(done, lex_from(s, lexer.position())),
                ensures
                    lexer.wf(),
                    lexer.text() == s,
                    before_ws <= lexer.position() <= s.len(),
                    lex_from(s, start) == join(done, lex_from(s, lexer.position())),
                    lexer.position() < s.len() ==> !is_whitespace(s[lexer.position()]),
                decreases s.len() - lexer.position(),
            {
                match lexer.peek() {
                    Some(c) => {
                        if char_is_whitespace(c) {
                            lexer.advance();
                        } else {
                            break;
                        }
                    },
                    None => break,
                }
            }

            if lexer.is_at_end() {
                break;
            }

            let ghost k = lexer.position();
            proof {
                lemma_token_at(s, k);
                assert(ws_end(s, k) == k);
            }
            match lexer.tokenize_chars() {
                Ok(t) => {
                    proof {
                        let l = token_at(s, k)->Ok_0.0;
                        let before = done;
                        done = done.push(l);
                        match lex_from(s, lexer.position()) {
                            Ok(r) => {
                                assert(before + (seq![l] + r) =~= done + r);
                            },
                            Err(_) => {},
                        }
                    }
                    tokens.push(t);
                },
                Err(e) => {
                    proof {
                        assert(lex_from(s, k) == Err::<Seq<LexToken>, Error>(e));
                    }
                    return Err(e);
                },
            }
        }

        proof {
            assert(done + Seq::<LexToken>::empty() =~= done);
            assert(lex_from(s, s.len() as int) == Ok::<Seq<LexToken>, Error>(Seq::empty()));
        }
        tokens.push(Token::new(TokenKind::Eof, lexer.line, lexer.column));
        Ok(tokens)
    }

    pub(crate) fn is_at_end(&self) -> (r: bool)
        requires
            self.wf(),
        ensures
            r == (self.position() >= self.text().len()),
    {
        self.current >= self.chars.len()
    }

    /// Moves past the next character, if there is one, and keeps the line and
    /// column up to date.
    pub(crate) fn advance(&mut self)
        requires
            old(self).wf(),
        ensures
            final(self).wf(),
            final(self).text() == old(self).text(),
            final(self).position() == if old(self).position() < old(self).text().len() {
                old(self).position() + 1
            } else {
                old(self).position()
            },
    {
        proof {
            lemma_pos_bound(self.chars@, self.current as int);
        }
        if let Some(c) = self.peek() {
            if c == '\n' {
                self.line += 1;
                self.column = 1;
            } else {
                self.column += 1;
            }
            self.current += 1;
        }
    }

    /// The next character, if any.
    pub(crate) fn peek(&self) -> (r: Option<char>)
        requires
            self.wf(),
        ensures
            r == if self.position() < self.text().len() {
                Some(self.text()[self.position()])
            } else {
                None
            },
    {
        if self.current < self.chars.len() {
            Some(self.chars[self.current])
        } else {
            None
        }
    }

    /// The character after the next one, if any.
    pub(crate) fn peek_next(&self) -> (r: Option<char>)
        requires
            self.wf(),
        ensures
            r == if self.position() + 1 < self.text().len() {
                Some(self.text()[self.position() + 1])
            } else {
                None
            },
    {
        if self.current + 1 < self.chars.len() {
            Some(self.chars[self.current + 1])
        } else {
            None
        }
    }
}

/// The number of line feeds in `s[..i]`.
pub open spec fn newlines(s: Seq<char>, i: int) -> nat
    decreases i,
{
    if i <= 0 {
        0
    } else {
        newlines(s, i - 1) + if s[i - 1] == '\n' {
            1nat
        } else {
            0nat
        }
    }
}

/// The index just after the last line feed in `s[..i]`, or zero.
pub open spec fn line_start(s: Seq<char>, i: int) -> int
    decreases i,
{
    if i <= 0 {
        0
    } else if s[i - 1] == '\n' {
        i
    } else {
        line_start(s, i - 1)
    }
}

/// The line of index `i` is one more than the line feeds before it, and its
/// column one more than the characters since the last of them.
pub proof fn lemma_pos_counts(s: Seq<char>, i: int)
    requires
        0 <= i,
    ensures
        pos(s, i).0 == 1 + newlines(s, i),
        pos(s, i).1 == 1 + i - line_start(s, i),
        line_start(s, i) <= i,
    decreases i,
{
    if i > 0 {
        lemma_pos_counts(s, i - 1);
    }
}

/// The kind that `first_match` finds is one of the table's.
pub proof fn lemma_first_match_in(table: Seq<(char, TokenKind<'static>)>, c: char)
    ensures
        first_match(table, c) matches Some(t) ==> exists|i: int| 0 <= i < table.len() && (#[trigger] table[i]).1 == t,
    decreases table.len(),
{
    if table.len() > 0 {
        lemma_first_match_in(table.drop_first(), c);
        if table[0].0 != c {
            if let Some(t) = first_match(table.drop_first(), c) {
                let i = choose|i: int| 0 <= i < table.len() - 1 && (#[trigger] table.drop_first()[i]).1 == t;
                assert(table[i + 1] == table.drop_first()[i]);
            }
        } else {
            assert(table[0].1 == table[0].1);
        }
    }
}

/// No lexeme read at `k` is the end of input.
pub proof fn lemma_token_not_eof(s: Seq<char>, k: int)
    requires
        0 <= k < s.len(),
    ensures
        token_at(s, k) matches Ok((l, _)) ==> !kind_of(TokenKind::Eof, l.kind),
{
    let c = s[k];
    if let Some((fallback, table)) = double_table(c) {
        if k + 1 < s.len() {
            lemma_first_match_in(table, s[k + 1]);
        }
    }
}

/// No lexeme of the lexer is the end of input.
pub proof fn lemma_lex_no_eof(s: Seq<char>, i: int, ls: Seq<LexToken>)
    requires
        lex_from(s, i) == Ok::<Seq<LexToken>, Error>(ls),
    ensures
        forall|k: int| 0 <= k < ls.len() ==> !kind_of(TokenKind::Eof, #[trigger] ls[k].kind),
    decreases s.len() - i,
{
    if 0 <= i <= s.len() {
        let k = ws_end(s, i);
        lemma_ws_end(s, i);
        if k < s.len() {
            lemma_token_at(s, k);
            lemma_token_not_eof(s, k);
            let j = token_at(s, k)->Ok_0.1;
            let rest = lex_from(s, j)->Ok_0;
            assert(lex_from(s, j) is Ok);
            lemma_lex_no_eof(s, j, rest);
            assert forall|m: int| 0 <= m < ls.len() implies !kind_of(TokenKind::Eof, #[trigger] ls[m].kind) by {
                if m > 0 {
                    assert(ls[m] == rest[m - 1]);
                }
            }
        }
    }
}

/// The tokens of a text end with exactly one `Eof`, whose line is one more
/// than the line feeds of the text and whose column is one more than the
/// characters after the last of them.
pub proof fn lemma_lexed_end<'a>(s: Seq<char>, ls: Seq<LexToken>, ts: Seq<Token<'a>>)
    requires
        lex_from(s, 0) == Ok::<Seq<LexToken>, Error>(ls),
        tokens_of(ts, ls, pos(s, s.len() as int)),
    ensures
        ts.len() >= 1,
        ts.last().kind == TokenKind::Eof,
        forall|k: int| 0 <= k < ts.len() - 1 ==> ts[k].kind != TokenKind::Eof,
        ts.last().line == 1 + newlines(s, s.len() as int),
        ts.last().col == 1 + s.len() - line_start(s, s.len() as int),
{
    lemma_lex_no_eof(s, 0, ls);
    lemma_pos_counts(s, s.len() as int);
    assert forall|k: int| 0 <= k < ts.len() - 1 implies ts[k].kind != TokenKind::Eof by {
        assert(token_of(ts[k], ls[k]));
        assert(!kind_of(TokenKind::Eof, ls[k].kind));
    }
}

/// A keyword word lexes to the token kind spelled by that word, so no two
/// words give the same keyword.
pub proof fn lemma_keyword_spelling(w: Seq<char>)
    ensures
        keyword_kind(w) matches Some(k) ==> spelling(k) == Some(w),
{
}

/// The entry of `table` that `first_match` picks has `c` as its character.
pub proof fn lemma_first_match_entry(table: Seq<(char, TokenKind<'static>)>, c: char)
    ensures
        first_match(table, c) matches Some(t) ==> exists|i: int|
            0 <= i < table.len() && (#[trigger] table[i]).0 == c && table[i].1 == t,
    decreases table.len(),
{
    if table.len() > 0 {
        lemma_first_match_entry(table.drop_first(), c);
        if table[0].0 != c {
            if let Some(t) = first_match(table.drop_first(), c) {
                let i = choose|i: int|
                    0 <= i < table.len() - 1 && (#[trigger] table.drop_first()[i]).0 == c
                        && table.drop_first()[i].1 == t;
                assert(table[i + 1] == table.drop_first()[i]);
            }
        } else {
            assert(table[0].0 == c);
        }
    }
}

/// A symbol read by the lexer is the token spelled by the characters it
/// took.
pub proof fn lemma_symbol_spelling(s: Seq<char>, k: int)
    requires
        0 <= k < s.len(),
    ensures
        token_at(s, k) matches Ok((l, j)) ==> (l.kind matches LexKind::Sym(t) ==> spelling(t) == Some(
            s.subrange(k, j),
        )),
{
    let c = s[k];
    assert(s.subrange(k, k + 1) =~= seq![c]);
    if k + 1 < s.len() {
        assert(s.subrange(k, k + 2) =~= seq![c, s[k + 1]]);
    }
    if let Some((fallback, table)) = double_table(c) {
        if k + 1 < s.len() {
            lemma_first_match_entry(table, s[k + 1]);
        }
    }
}

} // verus!
