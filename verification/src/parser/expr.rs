use vstd::prelude::*;

use super::grammar::{adv, after, kind_at, tok_at};
use super::syntax::{
    do_else_read, exprs_read, join, lemma_add_end, lemma_block_stmts, lemma_join_empty, lemma_join_join,
    p_block_stmts, p_ifields, lemma_add_first, lemma_add_next, lemma_and_end,
    lemma_and_first, lemma_and_next, lemma_cmp_end, lemma_cmp_first, lemma_cmp_next, lemma_eq_end,
    lemma_eq_first, lemma_eq_next, lemma_mult_end, lemma_mult_first, lemma_mult_next, lemma_or_end,
    lemma_or_first, lemma_or_next, lemma_pipe_end, lemma_pipe_first, lemma_pipe_next, lemma_xor_end,
    lemma_xor_first, lemma_xor_next, p_add, p_add_tail, p_and, p_and_tail, p_cmp, p_cmp_tail,
    p_control, p_do_else, p_eq, p_eq_tail, p_expr, p_exprs, p_lambda, p_mult, p_mult_tail, p_or,
    p_or_tail, p_params, p_pipe, p_pipe_tail, p_postfix, p_postfix_tail, p_pow, p_primary, p_range,
    p_unary, p_xor, p_xor_tail, params_read, paren_scan, reads_as,
};
use super::{went_on, Parser};
use crate::ast::{
    lemma_view_exprs, lemma_view_stmts_push, view_exprs, view_stmts, BinaryOp, Expr, ExprKind, SpecExpr,
    SpecStatement, Statement, UnaryOp,
};
use crate::error::Error;
use crate::token::TokenKind;

verus! {

impl<'a> Parser<'a> {
    /// An expression.
    pub fn parse_expr(&mut self) -> (r: Result<Expr<'a>, Error>)
        requires
            old(self).wf(),
        ensures
            went_on(*old(self), *final(self)),
            reads_as(r, p_expr(old(self).toks(), old(self).pos()), final(self).pos()),
            r is Ok ==> old(self).pos() < final(self).pos(),
        decreases old(self).toks().len() - old(self).pos(), 50int,
    {
        proof {
            reveal_with_fuel(p_expr, 1);
            reveal_with_fuel(p_lambda, 1);
        }
        self.parse_lambda()
    }

    /// A lambda `(params) -> body`, told from a parenthesised expression by
    /// the `->` after the matching `)`; else a control expression.
    #[verifier::loop_isolation(false)]
    fn parse_lambda(&mut self) -> (r: Result<Expr<'a>, Error>)
        requires
            old(self).wf(),
        ensures
            went_on(*old(self), *final(self)),
            reads_as(r, p_lambda(old(self).toks(), old(self).pos()), final(self).pos()),
            r is Ok ==> old(self).pos() < final(self).pos(),
        decreases old(self).toks().len() - old(self).pos(), 49int,
    {
        proof {
            reveal_with_fuel(p_lambda, 1);
            reveal_with_fuel(p_control, 1);
            reveal_with_fuel(p_params, 1);
        }
        let start_line = self.peek(0)?.line;
        let start_col = self.peek(0)?.col;

        if !matches!(self.peek(0)?.kind, TokenKind::LParen) {
            return self.parse_control();
        }

        let ghost toks = self.toks();
        let ghost start = self.pos();
        let mut i: isize = 1;
        let mut depth: usize = 1;

        while depth > 0
            invariant
                self.wf(),
                self.toks() == toks,
                self.pos() == start,
                1 <= i,
                depth <= i,
                start + i < toks.len(),
                paren_scan(toks, start + 1, 1) == paren_scan(toks, start + i, depth as int),
            decreases toks.len() - (start + i),
        {
            match self.peek(i)?.kind {
                TokenKind::LParen => depth += 1,
                TokenKind::RParen => depth -= 1,
                TokenKind::Eof => break,
                _ => {},
            }

            i += 1;
        }

        if matches!(self.peek(i)?.kind, TokenKind::RArrow) {
            self.consume(TokenKind::LParen, "Expected '('")?;
            let params = self.parse_params()?;
            self.consume(TokenKind::RParen, "Expected ')'")?;
            self.consume(TokenKind::RArrow, "Expected '->'")?;
            let body = self.parse_lambda()?;

            return Ok(
                Expr { kind: ExprKind::Lambda { params, body: Box::new(body) }, line: start_line, col: start_col },
            );
        }

        self.parse_control()
    }

    /// The body after `do`, and the branch after `else` if one follows.
    fn parse_do_else(&mut self) -> (r: Result<(Expr<'a>, Option<Box<Expr<'a>>>), Error>)
        requires
            old(self).wf(),
        ensures
            went_on(*old(self), *final(self)),
            do_else_read(r, p_do_else(old(self).toks(), old(self).pos()), final(self).pos()),
        decreases old(self).toks().len() - old(self).pos(), 51int,
    {
        proof {
            reveal_with_fuel(p_do_else, 1);
            reveal_with_fuel(p_expr, 1);
        }
        self.consume(TokenKind::Do, "Expected 'do'")?;
        let do_body = self.parse_expr()?;

        let mut else_body = None;
        if matches!(self.peek(0)?.kind, TokenKind::Else) {
            self.advance()?;
            else_body = Some(Box::new(self.parse_expr()?));
        }

        Ok((do_body, else_body))
    }

    /// `if`, `for` or `while` with a `do` body and an optional `else`
    /// branch; else a pipe expression.
    fn parse_control(&mut self) -> (r: Result<Expr<'a>, Error>)
        requires
            old(self).wf(),
        ensures
            went_on(*old(self), *final(self)),
            reads_as(r, p_control(old(self).toks(), old(self).pos()), final(self).pos()),
            r is Ok ==> old(self).pos() < final(self).pos(),
        decreases old(self).toks().len() - old(self).pos(), 48int,
    {
        proof {
            reveal_with_fuel(p_control, 1);
            reveal_with_fuel(p_expr, 1);
            reveal_with_fuel(p_do_else, 1);
            reveal_with_fuel(p_pipe, 1);
        }
        let start_line = self.peek(0)?.line;
        let start_col = self.peek(0)?.col;

        match self.peek(0)?.kind {
            TokenKind::If => {
                self.advance()?;
                let condition = Box::new(self.parse_expr()?);
                let (do_body, else_body) = self.parse_do_else()?;

                let kind = ExprKind::If { condition, do_body: Box::new(do_body), else_body };

                Ok(Expr { kind, line: start_line, col: start_col })
            },
            TokenKind::For => {
                self.advance()?;
                let elem = if let ExprKind::Identifier(id) = self.parse_expr()?.kind {
                    id
                } else {
                    return self.error("Expected identifier");
                };

                self.consume(TokenKind::In, "Expected 'in'")?;
                let iter = Box::new(self.parse_expr()?);
                let (do_body, else_body) = self.parse_do_else()?;

                let kind = ExprKind::For { elem, iter, do_body: Box::new(do_body), else_body };

                Ok(Expr { kind, line: start_line, col: start_col })
            },
            TokenKind::While => {
                self.advance()?;
                let condition = Box::new(self.parse_expr()?);
                let (do_body, else_body) = self.parse_do_else()?;

                let kind = ExprKind::While { condition, do_body: Box::new(do_body), else_body };

                Ok(Expr { kind, line: start_line, col: start_col })
            },
            _ => self.parse_pipe(),
        }
    }

    /// `a |> b |> ...`, grouped to the left.
    #[verifier::loop_isolation(false)]
    fn parse_pipe(&mut self) -> (r: Result<Expr<'a>, Error>)
        requires
            old(self).wf(),
        ensures
            went_on(*old(self), *final(self)),
            reads_as(r, p_pipe(old(self).toks(), old(self).pos()), final(self).pos()),
            r is Ok ==> old(self).pos() < final(self).pos(),
        decreases old(self).toks().len() - old(self).pos(), 47int,
    {
        let ghost toks = self.toks();
        let ghost start = self.pos();
        proof {
            lemma_pipe_first(toks, start);
        }
        let start_line = self.peek(0)?.line;
        let start_col = self.peek(0)?.col;

        let mut left = self.parse_or_nor()?;

        loop
            invariant
                self.wf(),
                self.toks() == toks,
                start < self.pos(),
                p_pipe(toks, start) == p_pipe_tail(toks, start, left@, self.pos()),
            decreases toks.len() - self.pos(),
        {
            let ghost k = self.pos();
            let ghost prev = left@;
            if !matches!(self.peek(0)?.kind, TokenKind::RPipe) {
                proof {
                    lemma_pipe_end(toks, start, prev, k);
                }
                break;
            }
            proof {
                lemma_pipe_next(toks, start, prev, k);
            }

            self.advance()?;
            let right = self.parse_or_nor()?;
            let kind = ExprKind::Binary { left: Box::new(left), op: BinaryOp::RPipe, right: Box::new(right) };

            left = Expr { kind, line: start_line, col: start_col };
        }

        Ok(left)
    }

    /// `or` and `nor`, grouped to the left.
    #[verifier::loop_isolation(false)]
    fn parse_or_nor(&mut self) -> (r: Result<Expr<'a>, Error>)
        requires
            old(self).wf(),
        ensures
            went_on(*old(self), *final(self)),
            reads_as(r, p_or(old(self).toks(), old(self).pos()), final(self).pos()),
            r is Ok ==> old(self).pos() < final(self).pos(),
        decreases old(self).toks().len() - old(self).pos(), 45int,
    {
        let ghost toks = self.toks();
        let ghost start = self.pos();
        proof {
            lemma_or_first(toks, start);
        }
        let start_line = self.peek(0)?.line;
        let start_col = self.peek(0)?.col;

        let mut left = self.parse_xor_xnor()?;

        loop
            invariant
                self.wf(),
                self.toks() == toks,
                start < self.pos(),
                p_or(toks, start) == p_or_tail(toks, start, left@, self.pos()),
            decreases toks.len() - self.pos(),
        {
            let ghost k = self.pos();
            let ghost prev = left@;
            if !matches!(self.peek(0)?.kind, TokenKind::Or | TokenKind::Nor) {
                proof {
                    lemma_or_end(toks, start, prev, k);
                }
                break;
            }
            proof {
                lemma_or_next(toks, start, prev, k);
            }
            let op = match self.peek(0)?.kind {
                TokenKind::Or => BinaryOp::Or,
                _ => BinaryOp::Nor,
            };

            self.advance()?;
            let right = self.parse_xor_xnor()?;
            let kind = ExprKind::Binary { left: Box::new(left), op: op, right: Box::new(right) };

            left = Expr { kind, line: start_line, col: start_col };
        }

        Ok(left)
    }

    /// `xor` and `xnor`, grouped to the left.
    #[verifier::loop_isolation(false)]
    fn parse_xor_xnor(&mut self) -> (r: Result<Expr<'a>, Error>)
        requires
            old(self).wf(),
        ensures
            went_on(*old(self), *final(self)),
            reads_as(r, p_xor(old(self).toks(), old(self).pos()), final(self).pos()),
            r is Ok ==> old(self).pos() < final(self).pos(),
        decreases old(self).toks().len() - old(self).pos(), 43int,
    {
        let ghost toks = self.toks();
        let ghost start = self.pos();
        proof {
            lemma_xor_first(toks, start);
        }
        let start_line = self.peek(0)?.line;
        let start_col = self.peek(0)?.col;

        let mut left = self.parse_and_nand()?;

        loop
            invariant
                self.wf(),
                self.toks() == toks,
                start < self.pos(),
                p_xor(toks, start) == p_xor_tail(toks, start, left@, self.pos()),
            decreases toks.len() - self.pos(),
        {
            let ghost k = self.pos();
            let ghost prev = left@;
            if !matches!(self.peek(0)?.kind, TokenKind::Xor | TokenKind::Xnor) {
                proof {
                    lemma_xor_end(toks, start, prev, k);
                }
                break;
            }
            proof {
                lemma_xor_next(toks, start, prev, k);
            }
            let op = match self.peek(0)?.kind {
                TokenKind::Xor => BinaryOp::Xor,
                _ => BinaryOp::Xnor,
            };

            self.advance()?;
            let right = self.parse_and_nand()?;
            let kind = ExprKind::Binary { left: Box::new(left), op: op, right: Box::new(right) };

            left = Expr { kind, line: start_line, col: start_col };
        }

        Ok(left)
    }

    /// `and` and `nand`, grouped to the left.
    #[verifier::loop_isolation(false)]
    fn parse_and_nand(&mut self) -> (r: Result<Expr<'a>, Error>)
        requires
            old(self).wf(),
        ensures
            went_on(*old(self), *final(self)),
            reads_as(r, p_and(old(self).toks(), old(self).pos()), final(self).pos()),
            r is Ok ==> old(self).pos() < final(self).pos(),
        decreases old(self).toks().len() - old(self).pos(), 41int,
    {
        let ghost toks = self.toks();
        let ghost start = self.pos();
        proof {
            lemma_and_first(toks, start);
        }
        let start_line = self.peek(0)?.line;
        let start_col = self.peek(0)?.col;

        let mut left = self.parse_eq()?;

        loop
            invariant
                self.wf(),
                self.toks() == toks,
                start < self.pos(),
                p_and(toks, start) == p_and_tail(toks, start, left@, self.pos()),
            decreases toks.len() - self.pos(),
        {
            let ghost k = self.pos();
            let ghost prev = left@;
            if !matches!(self.peek(0)?.kind, TokenKind::And | TokenKind::Nand) {
                proof {
                    lemma_and_end(toks, start, prev, k);
                }
                break;
            }
            proof {
                lemma_and_next(toks, start, prev, k);
            }
            let op = match self.peek(0)?.kind {
                TokenKind::And => BinaryOp::And,
                _ => BinaryOp::Nand,
            };

            self.advance()?;
            let right = self.parse_eq()?;
            let kind = ExprKind::Binary { left: Box::new(left), op: op, right: Box::new(right) };

            left = Expr { kind, line: start_line, col: start_col };
        }

        Ok(left)
    }

    /// `==` and `!=`, grouped to the left.
    #[verifier::loop_isolation(false)]
    fn parse_eq(&mut self) -> (r: Result<Expr<'a>, Error>)
        requires
            old(self).wf(),
        ensures
            went_on(*old(self), *final(self)),
            reads_as(r, p_eq(old(self).toks(), old(self).pos()), final(self).pos()),
            r is Ok ==> old(self).pos() < final(self).pos(),
        decreases old(self).toks().len() - old(self).pos(), 39int,
    {
        let ghost toks = self.toks();
        let ghost start = self.pos();
        proof {
            lemma_eq_first(toks, start);
        }
        let start_line = self.peek(0)?.line;
        let start_col = self.peek(0)?.col;

        let mut left = self.parse_cmp()?;

        loop
            invariant
                self.wf(),
                self.toks() == toks,
                start < self.pos(),
                p_eq(toks, start) == p_eq_tail(toks, start, left@, self.pos()),
            decreases toks.len() - self.pos(),
        {
            let ghost k = self.pos();
            let ghost prev = left@;
            if !matches!(self.peek(0)?.kind, TokenKind::Equal | TokenKind::NotEqual) {
                proof {
                    lemma_eq_end(toks, start, prev, k);
                }
                break;
            }
            proof {
                lemma_eq_next(toks, start, prev, k);
            }
            let op = match self.peek(0)?.kind {
                TokenKind::Equal => BinaryOp::Equal,
                _ => BinaryOp::NotEqual,
            };

            self.advance()?;
            let right = self.parse_cmp()?;
            let kind = ExprKind::Binary { left: Box::new(left), op: op, right: Box::new(right) };

            left = Expr { kind, line: start_line, col: start_col };
        }

        Ok(left)
    }

    /// `<`, `>`, `<=` and `>=`, grouped to the left.
    #[verifier::loop_isolation(false)]
    fn parse_cmp(&mut self) -> (r: Result<Expr<'a>, Error>)
        requires
            old(self).wf(),
        ensures
            went_on(*old(self), *final(self)),
            reads_as(r, p_cmp(old(self).toks(), old(self).pos()), final(self).pos()),
            r is Ok ==> old(self).pos() < final(self).pos(),
        decreases old(self).toks().len() - old(self).pos(), 37int,
    {
        let ghost toks = self.toks();
        let ghost start = self.pos();
        proof {
            lemma_cmp_first(toks, start);
        }
        let start_line = self.peek(0)?.line;
        let start_col = self.peek(0)?.col;

        let mut left = self.parse_range()?;

        loop
            invariant
                self.wf(),
                self.toks() == toks,
                start < self.pos(),
                p_cmp(toks, start) == p_cmp_tail(toks, start, left@, self.pos()),
            decreases toks.len() - self.pos(),
        {
            let ghost k = self.pos();
            let ghost prev = left@;
            if !matches!(self.peek(0)?.kind, TokenKind::LessThan | TokenKind::GreaterThan | TokenKind::LessEqual | TokenKind::GreaterEqual) {
                proof {
                    lemma_cmp_end(toks, start, prev, k);
                }
                break;
            }
            proof {
                lemma_cmp_next(toks, start, prev, k);
            }
            let op = match self.peek(0)?.kind {
                TokenKind::LessThan => BinaryOp::LessThan,
                TokenKind::GreaterThan => BinaryOp::GreaterThan,
                TokenKind::LessEqual => BinaryOp::LessEqual,
                _ => BinaryOp::GreaterEqual,
            };

            self.advance()?;
            let right = self.parse_range()?;
            let kind = ExprKind::Binary { left: Box::new(left), op: op, right: Box::new(right) };

            left = Expr { kind, line: start_line, col: start_col };
        }

        Ok(left)
    }

    /// A range `a..b`; at most one.
    fn parse_range(&mut self) -> (r: Result<Expr<'a>, Error>)
        requires
            old(self).wf(),
        ensures
            went_on(*old(self), *final(self)),
            reads_as(r, p_range(old(self).toks(), old(self).pos()), final(self).pos()),
            r is Ok ==> old(self).pos() < final(self).pos(),
        decreases old(self).toks().len() - old(self).pos(), 35int,
    {
        proof {
            reveal_with_fuel(p_range, 1);
            reveal_with_fuel(p_add, 1);
        }
        let start_line = self.peek(0)?.line;
        let start_col = self.peek(0)?.col;

        let left = self.parse_add_sub()?;

        if matches!(self.peek(0)?.kind, TokenKind::DoubleDot) {
            self.advance()?;
            let right = self.parse_add_sub()?;

            return Ok(
                Expr {
                    kind: ExprKind::Binary { left: Box::new(left), op: BinaryOp::Range, right: Box::new(right) },
                    line: start_line,
                    col: start_col,
                },
            );
        }

        Ok(left)
    }

    /// `+` and `-`, grouped to the left.
    #[verifier::loop_isolation(false)]
    fn parse_add_sub(&mut self) -> (r: Result<Expr<'a>, Error>)
        requires
            old(self).wf(),
        ensures
            went_on(*old(self), *final(self)),
            reads_as(r, p_add(old(self).toks(), old(self).pos()), final(self).pos()),
            r is Ok ==> old(self).pos() < final(self).pos(),
        decreases old(self).toks().len() - old(self).pos(), 34int,
    {
        let ghost toks = self.toks();
        let ghost start = self.pos();
        proof {
            lemma_add_first(toks, start);
        }
        let start_line = self.peek(0)?.line;
        let start_col = self.peek(0)?.col;

        let mut left = self.parse_mult_div()?;

        loop
            invariant
                self.wf(),
                self.toks() == toks,
                start < self.pos(),
                p_add(toks, start) == p_add_tail(toks, start, left@, self.pos()),
            decreases toks.len() - self.pos(),
        {
            let ghost k = self.pos();
            let ghost prev = left@;
            if !matches!(self.peek(0)?.kind, TokenKind::Plus | TokenKind::Minus) {
                proof {
                    lemma_add_end(toks, start, prev, k);
                }
                break;
            }
            proof {
                lemma_add_next(toks, start, prev, k);
            }
            let op = match self.peek(0)?.kind {
                TokenKind::Plus => BinaryOp::Add,
                _ => BinaryOp::Sub,
            };

            self.advance()?;
            let right = self.parse_mult_div()?;
            let kind = ExprKind::Binary { left: Box::new(left), op: op, right: Box::new(right) };

            left = Expr { kind, line: start_line, col: start_col };
        }

        Ok(left)
    }

    /// `*` and `/`, grouped to the left.
    #[verifier::loop_isolation(false)]
    fn parse_mult_div(&mut self) -> (r: Result<Expr<'a>, Error>)
        requires
            old(self).wf(),
        ensures
            went_on(*old(self), *final(self)),
            reads_as(r, p_mult(old(self).toks(), old(self).pos()), final(self).pos()),
            r is Ok ==> old(self).pos() < final(self).pos(),
        decreases old(self).toks().len() - old(self).pos(), 32int,
    {
        let ghost toks = self.toks();
        let ghost start = self.pos();
        proof {
            lemma_mult_first(toks, start);
        }
        let start_line = self.peek(0)?.line;
        let start_col = self.peek(0)?.col;

        let mut left = self.parse_pow()?;

        loop
            invariant
                self.wf(),
                self.toks() == toks,
                start < self.pos(),
                p_mult(toks, start) == p_mult_tail(toks, start, left@, self.pos()),
            decreases toks.len() - self.pos(),
        {
            let ghost k = self.pos();
            let ghost prev = left@;
            if !matches!(self.peek(0)?.kind, TokenKind::Star | TokenKind::Slash) {
                proof {
                    lemma_mult_end(toks, start, prev, k);
                }
                break;
            }
            proof {
                lemma_mult_next(toks, start, prev, k);
            }
            let op = match self.peek(0)?.kind {
                TokenKind::Star => BinaryOp::Mult,
                _ => BinaryOp::Div,
            };

            self.advance()?;
            let right = self.parse_pow()?;
            let kind = ExprKind::Binary { left: Box::new(left), op: op, right: Box::new(right) };

            left = Expr { kind, line: start_line, col: start_col };
        }

        Ok(left)
    }

    /// `a ** b`, grouped to the right.
    fn parse_pow(&mut self) -> (r: Result<Expr<'a>, Error>)
        requires
            old(self).wf(),
        ensures
            went_on(*old(self), *final(self)),
            reads_as(r, p_pow(old(self).toks(), old(self).pos()), final(self).pos()),
            r is Ok ==> old(self).pos() < final(self).pos(),
        decreases old(self).toks().len() - old(self).pos(), 30int,
    {
        proof {
            reveal_with_fuel(p_pow, 1);
            reveal_with_fuel(p_unary, 1);
        }
        let start_line = self.peek(0)?.line;
        let start_col = self.peek(0)?.col;

        let left = self.parse_unary()?;

        if matches!(self.peek(0)?.kind, TokenKind::Pow) {
            self.advance()?;
            let right = self.parse_pow()?;

            let kind = ExprKind::Binary { left: Box::new(left), op: BinaryOp::Pow, right: Box::new(right) };

            return Ok(Expr { kind, line: start_line, col: start_col });
        }

        Ok(left)
    }

    /// `!`, `-`, `&` or `*` before an operand; else a postfix expression.
    fn parse_unary(&mut self) -> (r: Result<Expr<'a>, Error>)
        requires
            old(self).wf(),
        ensures
            went_on(*old(self), *final(self)),
            reads_as(r, p_unary(old(self).toks(), old(self).pos()), final(self).pos()),
            r is Ok ==> old(self).pos() < final(self).pos(),
        decreases old(self).toks().len() - old(self).pos(), 29int,
    {
        proof {
            reveal_with_fuel(p_unary, 1);
            reveal_with_fuel(p_postfix, 1);
        }
        let start_line = self.peek(0)?.line;
        let start_col = self.peek(0)?.col;

        if matches!(self.peek(0)?.kind, TokenKind::Not | TokenKind::Minus | TokenKind::Amp | TokenKind::Star) {
            let op = match self.peek(0)?.kind {
                TokenKind::Not => UnaryOp::Not,
                TokenKind::Minus => UnaryOp::Minus,
                TokenKind::Amp => UnaryOp::Ref,
                _ => UnaryOp::Deref,
            };

            self.advance()?;
            let right = self.parse_unary()?;
            let kind = ExprKind::Unary { op, right: Box::new(right) };

            return Ok(Expr { kind, line: start_line, col: start_col });
        }

        self.parse_postfix()
    }

    /// A primary expression followed by calls `(args)`, member accesses `.m`
    /// and static accesses `::m`.
    #[verifier::loop_isolation(false)]
    fn parse_postfix(&mut self) -> (r: Result<Expr<'a>, Error>)
        requires
            old(self).wf(),
        ensures
            went_on(*old(self), *final(self)),
            reads_as(r, p_postfix(old(self).toks(), old(self).pos()), final(self).pos()),
            r is Ok ==> old(self).pos() < final(self).pos(),
        decreases old(self).toks().len() - old(self).pos(), 28int,
    {
        proof {
            reveal_with_fuel(p_postfix, 1);
            reveal_with_fuel(p_postfix_tail, 1);
            reveal_with_fuel(p_primary, 1);
            reveal_with_fuel(p_exprs, 1);
        }
        let start_line = self.peek(0)?.line;
        let start_col = self.peek(0)?.col;
        let ghost toks = self.toks();
        let ghost start = self.pos();

        let mut base = self.parse_primary()?;
        let ghost first = base@;
        let ghost mid = self.pos();

        loop
            invariant
                self.wf(),
                self.toks() == toks,
                mid <= self.pos(),
                p_postfix_tail(toks, start, first, mid) == p_postfix_tail(toks, start, base@, self.pos()),
            decreases toks.len() - self.pos(),
        {
            match self.peek(0)?.kind {
                TokenKind::LParen => {
                    self.advance()?;

                    let args = self.parse_exprs()?;
                    self.consume(TokenKind::RParen, "Expected ')'")?;

                    let kind = ExprKind::Call { base: Box::new(base), args };

                    base = Expr { kind, line: start_line, col: start_col };
                },
                TokenKind::Dot => {
                    self.advance()?;

                    let member = if let TokenKind::Identifier(name) = self.peek(0)?.kind {
                        self.advance()?;
                        name
                    } else {
                        return self.error("Expected member name after '.'");
                    };

                    let kind = ExprKind::MemberAccess { target: Box::new(base), member };

                    base = Expr { kind, line: start_line, col: start_col };
                },
                TokenKind::DoubleColon => {
                    self.advance()?;

                    let member = if let TokenKind::Identifier(name) = self.peek(0)?.kind {
                        self.advance()?;
                        name
                    } else {
                        return self.error("Expected static entry name after '::'");
                    };

                    let kind = ExprKind::StaticAccess { target: Box::new(base), member };

                    base = Expr { kind, line: start_line, col: start_col };
                },
                _ => break,
            }
        }

        Ok(base)
    }

    /// A literal, a name, a state instance `Name { field: value, ... }`, a
    /// parenthesised expression or a tuple, an array, a block, `return e`,
    /// `yield e`, `break` or `continue`.
    #[verifier::loop_isolation(false)]
    fn parse_primary(&mut self) -> (r: Result<Expr<'a>, Error>)
        requires
            old(self).wf(),
        ensures
            went_on(*old(self), *final(self)),
            reads_as(r, p_primary(old(self).toks(), old(self).pos()), final(self).pos()),
            r is Ok ==> old(self).pos() < final(self).pos(),
            r is Err && !({
                let k = kind_at(old(self).toks(), old(self).pos());
                k is Identifier || k is LParen || k is LSquare || k is LBrace || k is Return || k is Yield
            }) ==> final(self).pos() == old(self).pos(),
        decreases old(self).toks().len() - old(self).pos(), 26int,
    {
        proof {
            reveal_with_fuel(p_primary, 1);
            reveal_with_fuel(p_expr, 1);
            reveal_with_fuel(p_exprs, 1);
            reveal_with_fuel(p_ifields, 1);
            reveal_with_fuel(p_block_stmts, 1);
        }
        let ghost toks = self.toks();
        let start_line = self.peek(0)?.line;
        let start_col = self.peek(0)?.col;

        match self.peek(0)?.kind {
            TokenKind::Number(num) => {
                self.advance()?;
                let kind = ExprKind::Number(num);

                Ok(Expr { kind, line: start_line, col: start_col })
            },
            TokenKind::StringLiteral(s) => {
                self.advance()?;
                let kind = ExprKind::String(s);

                Ok(Expr { kind, line: start_line, col: start_col })
            },
            TokenKind::True => {
                self.advance()?;
                let kind = ExprKind::Bool(true);

                Ok(Expr { kind, line: start_line, col: start_col })
            },
            TokenKind::False => {
                self.advance()?;
                let kind = ExprKind::Bool(false);

                Ok(Expr { kind, line: start_line, col: start_col })
            },
            TokenKind::Identifier(id) => match self.peek(1)?.kind {
                TokenKind::LBrace => {
                    self.advance()?;
                    self.advance()?;
                    let fields = self.parse_instance_fields()?;
                    self.consume(TokenKind::RBrace, "Expected '}'")?;
                    let kind = ExprKind::StateInstance { id, fields };

                    Ok(Expr { kind, line: start_line, col: start_col })
                },
                _ => {
                    self.advance()?;
                    let kind = ExprKind::Identifier(id);

                    Ok(Expr { kind, line: start_line, col: start_col })
                },
            },
            TokenKind::LParen => {
                self.advance()?;

                let first_expr = self.parse_expr()?;

                if matches!(self.peek(0)?.kind, TokenKind::Comma) {
                    self.advance()?;

                    let mut items = Vec::new();
                    items.push(first_expr);
                    let mut rest = self.parse_exprs()?;
                    proof {
                        lemma_view_exprs(items@);
                        lemma_view_exprs(rest@);
                    }
                    let ghost rest_view = view_exprs(rest@);
                    items.append(&mut rest);
                    proof {
                        lemma_view_exprs(items@);
                        assert(view_exprs(items@) =~= seq![first_expr@] + rest_view);
                    }
                    self.consume(TokenKind::RParen, "Expected ')'")?;
                    let kind = ExprKind::Tuple(items);

                    Ok(Expr { kind, line: start_line, col: start_col })
                } else {
                    self.consume(TokenKind::RParen, "Expected ')'")?;
                    Ok(first_expr)
                }
            },
            TokenKind::LSquare => {
                self.advance()?;

                let items = self.parse_exprs()?;
                self.consume(TokenKind::RSquare, "Expected ']'")?;
                let kind = ExprKind::Array(items);

                Ok(Expr { kind, line: start_line, col: start_col })
            },
            TokenKind::LBrace => {
                let brace_line = self.peek(0)?.line;
                let brace_col = self.peek(0)?.col;
                let mut stmts = Vec::new();
                self.advance()?;
                let ghost first = self.pos();
                proof {
                    assert(view_stmts(stmts@) =~= Seq::empty());
                    lemma_join_empty(p_block_stmts(toks, first));
                }

                loop
                    invariant
                        self.wf(),
                        self.toks() == toks,
                        first <= self.pos(),
                        p_block_stmts(toks, first) == join(view_stmts(stmts@), p_block_stmts(toks, self.pos())),
                    decreases toks.len() - self.pos(),
                {
                    let ghost k = self.pos();
                    let ghost before = stmts@;
                    proof {
                        lemma_block_stmts(toks, k);
                    }
                    if matches!(self.peek(0)?.kind, TokenKind::RBrace | TokenKind::Eof) {
                        proof {
                            assert(view_stmts(before) + Seq::empty() =~= view_stmts(before));
                        }
                        break;
                    }
                    let stmt = self.parse_statement()?;
                    stmts.push(stmt);
                    proof {
                        lemma_view_stmts_push(before, stmt);
                        assert(view_stmts(before) + seq![stmt@] =~= view_stmts(stmts@));
                        lemma_join_join(view_stmts(before), seq![stmt@], p_block_stmts(toks, self.pos()));
                    }
                }

                if matches!(self.peek(0)?.kind, TokenKind::Eof) {
                    return self.loc_error(brace_line, brace_col, "Unterminated block");
                }

                self.advance()?;

                let kind = ExprKind::Block(stmts);

                Ok(Expr { kind, line: start_line, col: start_col })
            },
            TokenKind::Return => {
                self.advance()?;

                let expr = self.parse_expr()?;
                let kind = ExprKind::Return(Box::new(expr));

                Ok(Expr { kind, line: start_line, col: start_col })
            },
            TokenKind::Yield => {
                self.advance()?;

                let expr = self.parse_expr()?;
                let kind = ExprKind::Yield(Box::new(expr));

                Ok(Expr { kind, line: start_line, col: start_col })
            },
            TokenKind::Break => {
                self.advance()?;
                let kind = ExprKind::Break;

                Ok(Expr { kind, line: start_line, col: start_col })
            },
            TokenKind::Continue => {
                self.advance()?;
                let kind = ExprKind::Continue;

                Ok(Expr { kind, line: start_line, col: start_col })
            },
            _ => self.error("Invalid expression"),
        }
    }
}

} // verus!
