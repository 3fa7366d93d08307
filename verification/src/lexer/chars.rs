use vstd::prelude::*;

use super::{
    at, double_at, lemma_token_at, keyword_kind, pos, raw_close, str_end, token_at, token_of, first_match, Lexer,
    LexKind, LexToken, located, range_equals_str,
};
use crate::error::Error;
use crate::scan::is_word_start;
use crate::text::{char_is_alphanumeric, char_is_ascii_digit, is_ascii_digit, number_end, word_end};
use crate::token::{Token, TokenKind};

verus! {

impl<'a> Lexer<'a> {
    /// The token that starts at the next character; at the end of the text,
    /// the error "Unexpected end of file".
    pub(crate) fn tokenize_chars(&mut self) -> (r: Result<Token<'a>, Error>)
        requires
            old(self).wf(),
        ensures
            final(self).wf(),
            final(self).text() == old(self).text(),
            old(self).position() >= old(self).text().len() ==> r == Err::<Token<'a>, Error>(
                Error::Custom("Unexpected end of file"),
            ) && final(self).position() == old(self).position(),
            r is Ok ==> old(self).position() < final(self).position() <= old(self).text().len(),
            old(self).position() < old(self).text().len() ==> match r {
                Ok(t) => token_at(old(self).text(), old(self).position()) matches Ok((l, j))
                    && j == final(self).position() && token_of(t, l),
                Err(e) => token_at(old(self).text(), old(self).position()) == Err::<(LexToken, int), Error>(e),
            },
    {
        if self.current >= self.chars.len() {
            return Err(Error::Custom("Unexpected end of file"));
        }
        proof {
            lemma_token_at(self.text(), self.position());
        }
        let c = self.chars[self.current];
        if ('a' <= c && c <= 'z') || ('A' <= c && c <= 'Z') || c == '_' {
            self.tokenize_identifier()
        } else if '0' <= c && c <= '9' {
            self.tokenize_number()
        } else if c == '"' {
            self.tokenize_string()
        } else if c == '#' {
            self.tokenize_raw_string()
        } else if c == '@' {
            self.advance();
            Ok(Token::new(TokenKind::At, self.line, self.column))
        } else if c == '=' {
            let table: [(char, TokenKind<'static>); 1] = [('=', TokenKind::Equal)];
            proof {
                assert(table@ =~= seq![('=', TokenKind::Equal)]);
            }
            self.tokenize_double_symbol(Some(TokenKind::Assign), &table)
        } else if c == ':' {
            let table: [(char, TokenKind<'static>); 1] = [(':', TokenKind::DoubleColon)];
            proof {
                assert(table@ =~= seq![(':', TokenKind::DoubleColon)]);
            }
            self.tokenize_double_symbol(Some(TokenKind::Colon), &table)
        } else if c == '!' {
            let table: [(char, TokenKind<'static>); 4] = [('=', TokenKind::NotEqual), ('|', TokenKind::Nor), ('&', TokenKind::Nand), ('^', TokenKind::Xnor)];
            proof {
                assert(table@ =~= seq![('=', TokenKind::NotEqual), ('|', TokenKind::Nor), ('&', TokenKind::Nand), ('^', TokenKind::Xnor)]);
            }
            self.tokenize_double_symbol(Some(TokenKind::Not), &table)
        } else if c == '<' {
            let table: [(char, TokenKind<'static>); 1] = [('=', TokenKind::LessEqual)];
            proof {
                assert(table@ =~= seq![('=', TokenKind::LessEqual)]);
            }
            self.tokenize_double_symbol(Some(TokenKind::LessThan), &table)
        } else if c == '>' {
            let table: [(char, TokenKind<'static>); 1] = [('=', TokenKind::GreaterEqual)];
            proof {
                assert(table@ =~= seq![('=', TokenKind::GreaterEqual)]);
            }
            self.tokenize_double_symbol(Some(TokenKind::GreaterThan), &table)
        } else if c == '|' {
            let table: [(char, TokenKind<'static>); 2] = [('|', TokenKind::Or), ('>', TokenKind::RPipe)];
            proof {
                assert(table@ =~= seq![('|', TokenKind::Or), ('>', TokenKind::RPipe)]);
            }
            self.tokenize_double_symbol(None, &table)
        } else if c == '&' {
            let table: [(char, TokenKind<'static>); 1] = [('&', TokenKind::And)];
            proof {
                assert(table@ =~= seq![('&', TokenKind::And)]);
            }
            self.tokenize_double_symbol(Some(TokenKind::Amp), &table)
        } else if c == '^' {
            let table: [(char, TokenKind<'static>); 1] = [('^', TokenKind::Xor)];
            proof {
                assert(table@ =~= seq![('^', TokenKind::Xor)]);
            }
            self.tokenize_double_symbol(Some(TokenKind::Pow), &table)
        } else if c == '.' {
            let table: [(char, TokenKind<'static>); 1] = [('.', TokenKind::DoubleDot)];
            proof {
                assert(table@ =~= seq![('.', TokenKind::DoubleDot)]);
            }
            self.tokenize_double_symbol(Some(TokenKind::Dot), &table)
        } else if c == '-' {
            let table: [(char, TokenKind<'static>); 1] = [('>', TokenKind::RArrow)];
            proof {
                assert(table@ =~= seq![('>', TokenKind::RArrow)]);
            }
            self.tokenize_double_symbol(Some(TokenKind::Minus), &table)
        } else if c == '(' {
            self.advance();
            Ok(Token::new(TokenKind::LParen, self.line, self.column))
        } else if c == ')' {
            self.advance();
            Ok(Token::new(TokenKind::RParen, self.line, self.column))
        } else if c == '[' {
            self.advance();
            Ok(Token::new(TokenKind::LSquare, self.line, self.column))
        } else if c == ']' {
            self.advance();
            Ok(Token::new(TokenKind::RSquare, self.line, self.column))
        } else if c == '{' {
            self.advance();
            Ok(Token::new(TokenKind::LBrace, self.line, self.column))
        } else if c == '}' {
            self.advance();
            Ok(Token::new(TokenKind::RBrace, self.line, self.column))
        } else if c == ';' {
            self.advance();
            Ok(Token::new(TokenKind::Semicolon, self.line, self.column))
        } else if c == ',' {
            self.advance();
            Ok(Token::new(TokenKind::Comma, self.line, self.column))
        } else if c == '+' {
            self.advance();
            Ok(Token::new(TokenKind::Plus, self.line, self.column))
        } else if c == '*' {
            self.advance();
            Ok(Token::new(TokenKind::Star, self.line, self.column))
        } else if c == '/' {
            self.advance();
            Ok(Token::new(TokenKind::Slash, self.line, self.column))
        } else {
            Err(Error::Located { line: self.line, col: self.column, message: "Unexpected token" })
        }
    }

    /// The identifier or keyword made of the word characters from the next
    /// one on; the token carries the line and column after it.
    pub(crate) fn tokenize_identifier(&mut self) -> (r: Result<Token<'a>, Error>)
        requires
            old(self).wf(),
        ensures
            final(self).wf(),
            final(self).text() == old(self).text(),
            final(self).position() == word_end(old(self).text(), old(self).position()),
            r matches Ok(t) && token_of(
                t,
                at(
                    LexKind::Word(old(self).text().subrange(old(self).position(), final(self).position())),
                    pos(old(self).text(), final(self).position()),
                ),
            ),
            old(self).position() < old(self).text().len() && is_word_start(old(self).text()[old(self).position()])
                ==> (r matches Ok(t) && token_at(old(self).text(), old(self).position()) matches Ok((l, j))
                && j == final(self).position() && token_of(t, l)),
    {
        let ghost s = self.text();
        let ghost k = self.position();
        let start = self.current;
        loop
            invariant
                self.wf(),
                self.text() == s,
                start == k,
                0 <= k <= self.position() <= s.len(),
                word_end(s, k) == word_end(s, self.position()),
            ensures
                self.wf(),
                self.text() == s,
                k <= self.position() <= s.len(),
                word_end(s, k) == self.position(),
            decreases s.len() - self.position(),
        {
            match self.peek() {
                Some(ch) => {
                    if char_is_alphanumeric(ch) || ch == '_' {
                        self.advance();
                    } else {
                        break;
                    }
                },
                None => break,
            }
        }
        let end = self.current;
        let kind = match self.keyword_between(start, end) {
            Some(kw) => kw,
            None => TokenKind::Identifier(self.code.substring_char(start, end)),
        };
        Ok(Token::new(kind, self.line, self.column))
    }

    /// The keyword kind that the characters from `start` to `end` spell, if
    /// any.
    fn keyword_between(&self, start: usize, end: usize) -> (r: Option<TokenKind<'static>>)
        requires
            self.wf(),
            start <= end <= self.text().len(),
        ensures
            r == keyword_kind(self.text().subrange(start as int, end as int)),
    {
        if range_equals_str(&self.chars, start, end, "var") {
            Some(TokenKind::Var)
        } else if range_equals_str(&self.chars, start, end, "mut") {
            Some(TokenKind::Mut)
        } else if range_equals_str(&self.chars, start, end, "do") {
            Some(TokenKind::Do)
        } else if range_equals_str(&self.chars, start, end, "node") {
            Some(TokenKind::Node)
        } else if range_equals_str(&self.chars, start, end, "const") {
            Some(TokenKind::Const)
        } else if range_equals_str(&self.chars, start, end, "state") {
            Some(TokenKind::State)
        } else if range_equals_str(&self.chars, start, end, "enum") {
            Some(TokenKind::Enum)
        } else if range_equals_str(&self.chars, start, end, "method") {
            Some(TokenKind::Method)
        } else if range_equals_str(&self.chars, start, end, "func") {
            Some(TokenKind::Func)
        } else if range_equals_str(&self.chars, start, end, "return") {
            Some(TokenKind::Return)
        } else if range_equals_str(&self.chars, start, end, "yield") {
            Some(TokenKind::Yield)
        } else if range_equals_str(&self.chars, start, end, "for") {
            Some(TokenKind::For)
        } else if range_equals_str(&self.chars, start, end, "in") {
            Some(TokenKind::In)
        } else if range_equals_str(&self.chars, start, end, "while") {
            Some(TokenKind::While)
        } else if range_equals_str(&self.chars, start, end, "continue") {
            Some(TokenKind::Continue)
        } else if range_equals_str(&self.chars, start, end, "break") {
            Some(TokenKind::Break)
        } else if range_equals_str(&self.chars, start, end, "if") {
            Some(TokenKind::If)
        } else if range_equals_str(&self.chars, start, end, "else") {
            Some(TokenKind::Else)
        } else if range_equals_str(&self.chars, start, end, "true") {
            Some(TokenKind::True)
        } else if range_equals_str(&self.chars, start, end, "false") {
            Some(TokenKind::False)
        } else if range_equals_str(&self.chars, start, end, "pub") {
            Some(TokenKind::Pub)
        } else if range_equals_str(&self.chars, start, end, "import") {
            Some(TokenKind::Import)
        } else if range_equals_str(&self.chars, start, end, "Bool") {
            Some(TokenKind::Bool)
        } else if range_equals_str(&self.chars, start, end, "Int8") {
            Some(TokenKind::Int8)
        } else if range_equals_str(&self.chars, start, end, "Int16") {
            Some(TokenKind::Int16)
        } else if range_equals_str(&self.chars, start, end, "Int32") {
            Some(TokenKind::Int32)
        } else if range_equals_str(&self.chars, start, end, "Int64") {
            Some(TokenKind::Int64)
        } else if range_equals_str(&self.chars, start, end, "Int128") {
            Some(TokenKind::Int128)
        } else if range_equals_str(&self.chars, start, end, "UInt8") {
            Some(TokenKind::UInt8)
        } else if range_equals_str(&self.chars, start, end, "UInt16") {
            Some(TokenKind::UInt16)
        } else if range_equals_str(&self.chars, start, end, "UInt32") {
            Some(TokenKind::UInt32)
        } else if range_equals_str(&self.chars, start, end, "UInt64") {
            Some(TokenKind::UInt64)
        } else if range_equals_str(&self.chars, start, end, "UInt128") {
            Some(TokenKind::UInt128)
        } else if range_equals_str(&self.chars, start, end, "Range8") {
            Some(TokenKind::IntRange8)
        } else if range_equals_str(&self.chars, start, end, "Range16") {
            Some(TokenKind::IntRange16)
        } else if range_equals_str(&self.chars, start, end, "Range32") {
            Some(TokenKind::IntRange32)
        } else if range_equals_str(&self.chars, start, end, "Range64") {
            Some(TokenKind::IntRange64)
        } else if range_equals_str(&self.chars, start, end, "Range128") {
            Some(TokenKind::IntRange128)
        } else if range_equals_str(&self.chars, start, end, "URange8") {
            Some(TokenKind::UIntRange8)
        } else if range_equals_str(&self.chars, start, end, "URange16") {
            Some(TokenKind::UIntRange16)
        } else if range_equals_str(&self.chars, start, end, "URange32") {
            Some(TokenKind::UIntRange32)
        } else if range_equals_str(&self.chars, start, end, "URange64") {
            Some(TokenKind::UIntRange64)
        } else if range_equals_str(&self.chars, start, end, "URange128") {
            Some(TokenKind::UIntRange128)
        } else if range_equals_str(&self.chars, start, end, "Float32") {
            Some(TokenKind::Float32)
        } else if range_equals_str(&self.chars, start, end, "Float64") {
            Some(TokenKind::Float64)
        } else if range_equals_str(&self.chars, start, end, "Str") {
            Some(TokenKind::String)
        } else {
            None
        }
    }

    /// The number made of the digits from the next character on, with at
    /// most one dot that a digit follows; the token carries the line and
    /// column of its start.
    pub(crate) fn tokenize_number(&mut self) -> (r: Result<Token<'a>, Error>)
        requires
            old(self).wf(),
        ensures
            final(self).wf(),
            final(self).text() == old(self).text(),
            final(self).position() == number_end(old(self).text(), old(self).position(), false),
            r matches Ok(t) && token_of(
                t,
                at(
                    LexKind::Num(old(self).text().subrange(old(self).position(), final(self).position())),
                    pos(old(self).text(), old(self).position()),
                ),
            ),
            old(self).position() < old(self).text().len() && is_ascii_digit(old(self).text()[old(self).position()])
                ==> (r matches Ok(t) && token_at(old(self).text(), old(self).position()) matches Ok((l, j))
                && j == final(self).position() && token_of(t, l)),
    {
        let ghost s = self.text();
        let ghost k = self.position();
        let start_line = self.line;
        let start_col = self.column;
        let start_index = self.current;
        let mut has_dot = false;
        loop
            invariant
                self.wf(),
                self.text() == s,
                start_index == k,
                0 <= k <= self.position() <= s.len(),
                self.position() == k ==> !has_dot,
                number_end(s, k, false) == number_end(s, self.position(), has_dot),
            ensures
                self.wf(),
                self.text() == s,
                k <= self.position() <= s.len(),
                number_end(s, k, false) == self.position(),
            decreases s.len() - self.position(),
        {
            match self.peek() {
                Some(ch) => {
                    if char_is_ascii_digit(ch) {
                        self.advance();
                    } else if !has_dot && ch == '.' {
                        match self.peek_next() {
                            Some(next) => {
                                if !char_is_ascii_digit(next) {
                                    break;
                                }
                                has_dot = true;
                                self.advance();
                            },
                            None => break,
                        }
                    } else {
                        break;
                    }
                },
                None => break,
            }
        }
        Ok(
            Token::new(
                TokenKind::Number(self.code.substring_char(start_index, self.current)),
                start_line,
                start_col,
            ),
        )
    }

    /// The string literal that starts at the next character (its opening
    /// quote, passed over whatever it is); its text is taken as written,
    /// escapes included.
    pub(crate) fn tokenize_string(&mut self) -> (r: Result<Token<'a>, Error>)
        requires
            old(self).wf(),
            old(self).position() < old(self).text().len(),
        ensures
            final(self).wf(),
            final(self).text() == old(self).text(),
            match r {
                Ok(t) => str_end(old(self).text(), old(self).position() + 1) matches Some(e) && final(self).position()
                    == e + 1 && token_of(
                    t,
                    at(
                        LexKind::Str(old(self).text().subrange(old(self).position() + 1, e)),
                        pos(old(self).text(), old(self).position()),
                    ),
                ),
                Err(x) => str_end(old(self).text(), old(self).position() + 1) is None && x == located(
                    pos(old(self).text(), old(self).position()),
                    "Unterminated string literal",
                ),
            },
            old(self).text()[old(self).position()] == '"' ==> match r {
                Ok(t) => token_at(old(self).text(), old(self).position()) matches Ok((l, j))
                    && j == final(self).position() && token_of(t, l),
                Err(e) => token_at(old(self).text(), old(self).position()) == Err::<(LexToken, int), Error>(e),
            },
    {
        let ghost s = self.text();
        let ghost k = self.position();
        let start_line = self.line;
        let start_col = self.column;

        self.advance();

        let start_index = self.current;

        loop
            invariant
                self.wf(),
                self.text() == s,
                start_index == k + 1,
                k + 1 <= self.position() <= s.len(),
                str_end(s, k + 1) == str_end(s, self.position()),
            ensures
                self.wf(),
                self.text() == s,
                k + 1 <= self.position() <= s.len(),
                self.position() < s.len() ==> s[self.position()] == '"' && str_end(s, k + 1) == Some(self.position()),
                self.position() >= s.len() ==> str_end(s, k + 1) is None,
            decreases s.len() - self.position(),
        {
            match self.peek() {
                Some(ch) => {
                    if ch == '"' {
                        break;
                    } else if ch == '\\' {
                        self.advance();
                        if self.peek().is_none() {
                            break;
                        }
                        self.advance();
                    } else {
                        self.advance();
                    }
                },
                None => break,
            }
        }

        if self.is_at_end() {
            return Err(Error::Located { line: start_line, col: start_col, message: "Unterminated string literal" });
        }

        let value = self.code.substring_char(start_index, self.current);
        self.advance();

        Ok(Token::new(TokenKind::StringLiteral(value), start_line, start_col))
    }

    /// The raw string literal that starts at the next character (its `#`,
    /// passed over whatever it is): the text up to the next double quote.
    pub(crate) fn tokenize_raw_string(&mut self) -> (r: Result<Token<'a>, Error>)
        requires
            old(self).wf(),
            old(self).position() < old(self).text().len(),
        ensures
            final(self).wf(),
            final(self).text() == old(self).text(),
            match r {
                Ok(t) => raw_close(old(self).text(), old(self).position() + 1) matches Some(e) && final(self).position()
                    == e + 1 && token_of(
                    t,
                    at(
                        LexKind::Str(old(self).text().subrange(old(self).position() + 1, e)),
                        pos(old(self).text(), old(self).position()),
                    ),
                ),
                Err(x) => raw_close(old(self).text(), old(self).position() + 1) is None && x == located(
                    pos(old(self).text(), old(self).position()),
                    "Unterminated string literal",
                ),
            },
            old(self).text()[old(self).position()] == '#' ==> match r {
                Ok(t) => token_at(old(self).text(), old(self).position()) matches Ok((l, j))
                    && j == final(self).position() && token_of(t, l),
                Err(e) => token_at(old(self).text(), old(self).position()) == Err::<(LexToken, int), Error>(e),
            },
    {
        let ghost s = self.text();
        let ghost k = self.position();
        let start_line = self.line;
        let start_col = self.column;

        self.advance();

        let start_index = self.current;

        loop
            invariant
                self.wf(),
                self.text() == s,
                start_index == k + 1,
                k + 1 <= self.position() <= s.len(),
                raw_close(s, k + 1) == raw_close(s, self.position()),
            ensures
                self.wf(),
                self.text() == s,
                k + 1 <= self.position() <= s.len(),
                self.position() < s.len() ==> raw_close(s, k + 1) == Some(self.position()),
                self.position() >= s.len() ==> raw_close(s, k + 1) is None,
            decreases s.len() - self.position(),
        {
            match self.peek() {
                Some(ch) => {
                    if ch == '"' {
                        break;
                    }
                    self.advance();
                },
                None => break,
            }
        }

        if self.is_at_end() {
            return Err(Error::Located { line: start_line, col: start_col, message: "Unterminated string literal" });
        }

        let value = self.code.substring_char(start_index, self.current);
        self.advance();

        Ok(Token::new(TokenKind::StringLiteral(value), start_line, start_col))
    }

    /// The symbol that starts at the next character: two characters when the
    /// one after it is paired in `table`, else the one character symbol
    /// `fallback`, else an error.
    pub(crate) fn tokenize_double_symbol(
        &mut self,
        fallback: Option<TokenKind<'static>>,
        table: &[(char, TokenKind<'static>)],
    ) -> (r: Result<Token<'a>, Error>)
        requires
            old(self).wf(),
            old(self).position() < old(self).text().len(),
        ensures
            final(self).wf(),
            final(self).text() == old(self).text(),
            match r {
                Ok(t) => double_at(old(self).text(), old(self).position(), fallback, table@) matches Ok((l, j))
                    && j == final(self).position() && token_of(t, l),
                Err(e) => double_at(old(self).text(), old(self).position(), fallback, table@)
                    == Err::<(LexToken, int), Error>(e) && final(self).position() == old(self).position() + 1,
            },
    {
        let ghost s = self.text();
        let ghost k = self.position();
        self.advance();
        let peek = self.peek();
        let start_line = self.line;
        let start_col = self.column;

        let mut i: usize = 0;
        proof {
            assert(table@.subrange(0, table@.len() as int) =~= table@);
        }
        while i < table.len()
            invariant
                self.wf(),
                self.text() == s,
                s == old(self).text(),
                k == old(self).position(),
                self.position() == k + 1,
                peek == if k + 1 < s.len() { Some(s[k + 1]) } else { None },
                start_line == pos(s, k + 1).0,
                start_col == pos(s, k + 1).1,
                i <= table@.len(),
                peek matches Some(c) ==> first_match(table@, c) == first_match(table@.subrange(i as int, table@.len() as int), c),
            decreases table@.len() - i,
        {
            let (c, kind) = table[i];
            if let Some(p) = peek {
                if p == c {
                    proof {
                        let rest = table@.subrange(i as int, table@.len() as int);
                        assert(rest[0] == table@[i as int]);
                    }
                    self.advance();
                    return Ok(Token::new(kind, start_line, start_col));
                }
            }
            proof {
                let rest = table@.subrange(i as int, table@.len() as int);
                assert(rest.drop_first() =~= table@.subrange(i + 1, table@.len() as int));
            }
            i = i + 1;
        }

        match fallback {
            Some(f) => Ok(Token::new(f, start_line, start_col)),
            None => Err(Error::Located { line: self.line, col: self.column, message: "Unexpected token" }),
        }
    }
}

} // verus!
