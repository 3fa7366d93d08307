pub mod expr;
pub mod grammar;
pub mod items;
pub mod statement;
pub mod syntax;
pub mod types;



use vstd::prelude::*;

use crate::error::Error;
use crate::token::{Token, TokenKind};
use grammar::{adv, err_at, tok_at, well_formed_tokens};

verus! {

/// Builds the syntax tree of an Erwin program from its tokens.
pub struct Parser<'a> {
    tokens: Vec<Token<'a>>,
    current: usize,
}

/// The parser went on over the same tokens, to the same index or a later
/// one, and is still well formed.
pub open spec fn went_on<'a>(before: Parser<'a>, now: Parser<'a>) -> bool {
    &&& now.wf()
    &&& now.toks() == before.toks()
    &&& before.pos() <= now.pos()
}

impl<'a> Parser<'a> {
    /// The tokens being parsed.
    pub closed spec fn toks(&self) -> Seq<Token<'a>> {
        self.tokens@
    }

    /// The index of the current token.
    pub closed spec fn pos(&self) -> int {
        self.current as int
    }

    /// The tokens end with `Eof` and the current index is one of theirs.
    pub closed spec fn wf(&self) -> bool {
        &&& well_formed_tokens(self.tokens@)
        &&& self.current < self.tokens.len()
    }

    /// A parser at the first of `tokens`, which end with `Eof` as the lexer's
    /// do.
    pub fn new(tokens: Vec<Token<'a>>) -> (r: Self)
        requires
            well_formed_tokens(tokens@),
        ensures
            r.wf(),
            r.toks() == tokens@,
            r.pos() == 0,
    {
        Self { tokens, current: 0 }
    }

    /// The token `offset` places after the current one; past the end, the
    /// last token.
    pub(crate) fn peek(&self, offset: isize) -> (r: Result<&Token<'a>, Error>)
        requires
            self.wf(),
            self.pos() + offset <= isize::MAX,
        ensures
            self.pos() + offset < 0 ==> r == Err::<&Token<'a>, Error>(
                Error::Custom("Parser looked before start"),
            ),
            self.pos() + offset >= 0 ==> (r matches Ok(t) && *t == tok_at(self.toks(), self.pos() + offset)),
    {
        let index = self.current as isize + offset;

        if index < 0 {
            return Err(Error::Custom("Parser looked before start"));
        }

        if index as usize >= self.tokens.len() {
            return Ok(&self.tokens[self.tokens.len() - 1]);
        }

        Ok(&self.tokens[index as usize])
    }

    /// Moves to the next token, unless the current one is the last.
    pub(crate) fn advance(&mut self) -> (r: Result<(), Error>)
        requires
            old(self).wf(),
        ensures
            final(self).wf(),
            final(self).toks() == old(self).toks(),
            final(self).pos() == adv(old(self).toks(), old(self).pos()),
            r is Ok,
    {
        if self.current < self.tokens.len() - 1 {
            self.current += 1;
        }
        Ok(())
    }

    /// Moves past the current token. The token is not compared with
    /// `_token`, so this never fails and `_err` goes unused.
    pub(crate) fn consume(&mut self, _token: TokenKind<'a>, _err: &'static str) -> (r: Result<(), Error>)
        requires
            old(self).wf(),
        ensures
            final(self).wf(),
            final(self).toks() == old(self).toks(),
            final(self).pos() == adv(old(self).toks(), old(self).pos()),
            r is Ok,
    {
        self.advance()
    }

    /// The error `msg` at the current token.
    pub(crate) fn error<T>(&self, msg: &'static str) -> (r: Result<T, Error>)
        requires
            self.wf(),
        ensures
            r == Err::<T, Error>(err_at(self.toks(), self.pos(), msg)),
    {
        let token = self.peek(0)?;
        self.loc_error(token.line, token.col, msg)
    }

    /// The error `msg` at `line` and `col`.
    pub(crate) fn loc_error<T>(&self, line: usize, col: usize, msg: &'static str) -> (r: Result<T, Error>)
        ensures
            r == Err::<T, Error>(Error::Located { line, col, message: msg }),
    {
        Err(Error::Located { line, col, message: msg })
    }
}

} // verus!
