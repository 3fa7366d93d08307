use vstd::prelude::*;

use super::grammar::{adv, after, kind_at, tok_at};
use super::syntax::{
    all_funcs, brace_terminated, join_program, lemma_brace_terminated, lemma_all_funcs, lemma_join_program, lemma_program, p_alias, p_assign, p_container, p_enum, p_expr,
    p_exprs, p_fields, p_func, p_import, p_method, p_node, p_params, p_program, p_state,
    p_statement, p_statement_expr, p_var, p_variants, p_visibility, reads_as,
};
use super::{went_on, Parser};
use crate::ast::{
    lemma_view_stmts, lemma_view_stmts_push, view_stmt, view_stmts, Expr, ExprKind, SpecStatement,
    Statement, StatementKind, VarKind, Visibility,
};
use crate::error::Error;
use crate::token::TokenKind;

verus! {

impl<'a> Parser<'a> {
    /// The statements of the program, up to `Eof`.
    #[verifier::loop_isolation(false)]
    pub fn parse(self) -> (r: Result<Vec<Statement<'a>>, Error>)
        requires
            self.wf(),
        ensures
            match r {
                Ok(stmts) => p_program(self.toks(), self.pos()) == Ok::<Seq<SpecStatement<'a>>, Error>(
                    view_stmts(stmts@),
                ),
                Err(e) => p_program(self.toks(), self.pos()) == Err::<Seq<SpecStatement<'a>>, Error>(e),
            },
    {
        let ghost toks = self.toks();
        let ghost start = self.pos();
        let mut parser = self;
        let mut program = Vec::new();
        proof {
            assert(view_stmts(program@) =~= Seq::empty());
            lemma_join_program(Seq::empty(), Seq::empty(), p_program(toks, start));
        }

        loop
            invariant
                parser.wf(),
                parser.toks() == toks,
                start <= parser.pos(),
                p_program(toks, start) == join_program(view_stmts(program@), p_program(toks, parser.pos())),
            decreases toks.len() - parser.pos(),
        {
            let ghost k = parser.pos();
            let ghost before = program@;
            proof {
                lemma_program(toks, k);
            }
            if matches!(parser.peek(0)?.kind, TokenKind::Eof) {
                proof {
                    assert(view_stmts(before) + Seq::empty() =~= view_stmts(before));
                }
                break;
            }
            let stmt = parser.parse_statement()?;
            program.push(stmt);
            proof {
                lemma_view_stmts_push(before, stmt);
                assert(view_stmts(before) + seq![stmt@] =~= view_stmts(program@));
                lemma_join_program(view_stmts(before), seq![stmt@], p_program(toks, parser.pos()));
            }
        }

        Ok(program)
    }

    /// A statement, chosen by its first token.
    pub fn parse_statement(&mut self) -> (r: Result<Statement<'a>, Error>)
        requires
            old(self).wf(),
        ensures
            went_on(*old(self), *final(self)),
            reads_as(r, p_statement(old(self).toks(), old(self).pos()), final(self).pos()),
            r is Ok ==> old(self).pos() < final(self).pos(),
        decreases old(self).toks().len() - old(self).pos(), 61int,
    {
        proof {
            reveal_with_fuel(p_statement, 1);
            reveal_with_fuel(p_visibility, 1);
            reveal_with_fuel(p_import, 1);
            reveal_with_fuel(p_var, 1);
            reveal_with_fuel(p_assign, 1);
            reveal_with_fuel(p_node, 1);
            reveal_with_fuel(p_func, 1);
            reveal_with_fuel(p_state, 1);
            reveal_with_fuel(p_container, 1);
            reveal_with_fuel(p_enum, 1);
            reveal_with_fuel(p_method, 1);
            reveal_with_fuel(p_alias, 1);
            reveal_with_fuel(p_statement_expr, 1);
        }
        match self.peek(0)?.kind {
            TokenKind::Pub => self.parse_visibility(),
            TokenKind::Import => self.parse_import(),
            TokenKind::Var => self.parse_var(VarKind::Var, Visibility::Priv),
            TokenKind::Mut => self.parse_assign(),
            TokenKind::Node => self.parse_node(Visibility::Priv),
            TokenKind::Const => self.parse_var(VarKind::Const, Visibility::Priv),
            TokenKind::Func => self.parse_func(Visibility::Priv),
            TokenKind::State => self.parse_state(Visibility::Priv),
            TokenKind::Container => self.parse_container(Visibility::Priv),
            TokenKind::Enum => self.parse_enum(Visibility::Priv),
            TokenKind::Method => self.parse_method(),
            TokenKind::Alias => self.parse_alias(),
            _ => self.parse_statement_expr(),
        }
    }

    /// `import [alias =] path;`
    fn parse_import(&mut self) -> (r: Result<Statement<'a>, Error>)
        requires
            old(self).wf(),
        ensures
            went_on(*old(self), *final(self)),
            reads_as(r, p_import(old(self).toks(), old(self).pos()), final(self).pos()),
            r is Ok ==> old(self).pos() < final(self).pos(),
        decreases old(self).toks().len() - old(self).pos(), 58int,
    {
        proof {
            reveal_with_fuel(p_import, 1);
            reveal_with_fuel(p_expr, 1);
        }
        let start_line = self.peek(0)?.line;
        let start_col = self.peek(0)?.col;

        self.advance()?;

        let alias = match self.peek(0)?.kind {
            TokenKind::Identifier(name) => if matches!(self.peek(1)?.kind, TokenKind::Assign) {
                self.advance()?;
                self.consume(TokenKind::Assign, "Expected '='")?;
                Some(name)
            } else {
                None
            },
            _ => None,
        };

        let path = self.parse_expr()?;
        self.consume(TokenKind::Semicolon, "Expected ';'")?;

        Ok(Statement { kind: StatementKind::Import { alias, path }, line: start_line, col: start_col })
    }

    /// `var name [: type] = value` or `const ...`; `;` follows unless the
    /// value is a block.
    fn parse_var(&mut self, kind: VarKind, visibility: Visibility) -> (r: Result<Statement<'a>, Error>)
        requires
            old(self).wf(),
        ensures
            went_on(*old(self), *final(self)),
            reads_as(r, p_var(old(self).toks(), old(self).pos(), kind, visibility), final(self).pos()),
            r is Ok ==> old(self).pos() < final(self).pos(),
        decreases old(self).toks().len() - old(self).pos(), 58int,
    {
        proof {
            reveal_with_fuel(p_var, 1);
            reveal_with_fuel(p_expr, 1);
        }
        let start_line = self.peek(0)?.line;
        let start_col = self.peek(0)?.col;

        self.advance()?;

        let id = match self.peek(0)?.kind {
            TokenKind::Identifier(name) => {
                self.advance()?;
                name
            },
            _ => return self.error("Expected variable name"),
        };

        let ty = if matches!(self.peek(0)?.kind, TokenKind::Colon) {
            self.advance()?;
            Some(self.parse_expr()?)
        } else {
            None
        };

        self.consume(TokenKind::Assign, "Expected '='")?;
        let value = self.parse_expr()?;

        if !matches!(value.kind, ExprKind::Block(_)) {
            self.consume(TokenKind::Semicolon, "Expected ';'")?;
        }

        Ok(
            Statement {
                kind: StatementKind::VarDeclare { visibility, kind, id, ty, value },
                line: start_line,
                col: start_col,
            },
        )
    }

    /// `mut target = value`; `;` follows unless the value is a block.
    fn parse_assign(&mut self) -> (r: Result<Statement<'a>, Error>)
        requires
            old(self).wf(),
        ensures
            went_on(*old(self), *final(self)),
            reads_as(r, p_assign(old(self).toks(), old(self).pos()), final(self).pos()),
            r is Ok ==> old(self).pos() < final(self).pos(),
        decreases old(self).toks().len() - old(self).pos(), 58int,
    {
        proof {
            reveal_with_fuel(p_assign, 1);
            reveal_with_fuel(p_expr, 1);
        }
        let start_line = self.peek(0)?.line;
        let start_col = self.peek(0)?.col;

        self.advance()?;

        let var = self.parse_expr()?;

        self.consume(TokenKind::Assign, "Expected '='")?;
        let value = self.parse_expr()?;

        if !matches!(value.kind, ExprKind::Block(_)) {
            self.consume(TokenKind::Semicolon, "Expected ';'")?;
        }

        Ok(Statement { kind: StatementKind::VarAssign { var, value }, line: start_line, col: start_col })
    }

    /// `node name: type = value`; `;` follows unless the value is a block.
    fn parse_node(&mut self, visibility: Visibility) -> (r: Result<Statement<'a>, Error>)
        requires
            old(self).wf(),
        ensures
            went_on(*old(self), *final(self)),
            reads_as(r, p_node(old(self).toks(), old(self).pos(), visibility), final(self).pos()),
            r is Ok ==> old(self).pos() < final(self).pos(),
        decreases old(self).toks().len() - old(self).pos(), 58int,
    {
        proof {
            reveal_with_fuel(p_node, 1);
            reveal_with_fuel(p_expr, 1);
        }
        let start_line = self.peek(0)?.line;
        let start_col = self.peek(0)?.col;

        self.advance()?;

        let id = match self.peek(0)?.kind {
            TokenKind::Identifier(name) => {
                self.advance()?;
                name
            },
            _ => return self.error("Expected node name"),
        };

        self.consume(TokenKind::Colon, "Expected ':'")?;
        let ty = self.parse_expr()?;
        self.consume(TokenKind::Assign, "Expected '='")?;
        let value = self.parse_expr()?;

        if !matches!(value.kind, ExprKind::Block(_)) {
            self.consume(TokenKind::Semicolon, "Expected ';'")?;
        }

        Ok(Statement { kind: StatementKind::Node { visibility, id, ty, value }, line: start_line, col: start_col })
    }

    /// `func name(params) -> type body`; `;` follows unless the body is a
    /// block.
    fn parse_func(&mut self, visibility: Visibility) -> (r: Result<Statement<'a>, Error>)
        requires
            old(self).wf(),
        ensures
            went_on(*old(self), *final(self)),
            reads_as(r, p_func(old(self).toks(), old(self).pos(), visibility), final(self).pos()),
            r is Ok ==> old(self).pos() < final(self).pos(),
        decreases old(self).toks().len() - old(self).pos(), 58int,
    {
        proof {
            reveal_with_fuel(p_func, 1);
            reveal_with_fuel(p_params, 1);
            reveal_with_fuel(p_expr, 1);
        }
        let start_line = self.peek(0)?.line;
        let start_col = self.peek(0)?.col;

        self.advance()?;

        let id = match self.peek(0)?.kind {
            TokenKind::Identifier(name) => {
                self.advance()?;
                name
            },
            _ => return self.error("Expected function name"),
        };

        self.consume(TokenKind::LParen, "Expected '('")?;
        let params = self.parse_params()?;
        self.consume(TokenKind::RParen, "Expected ')'")?;
        self.consume(TokenKind::RArrow, "Expected '->'")?;

        let ty = self.parse_expr()?;
        let body = self.parse_expr()?;

        if !matches!(body.kind, ExprKind::Block(_)) {
            self.consume(TokenKind::Semicolon, "Expected ';'")?;
        }

        Ok(
            Statement {
                kind: StatementKind::Func { visibility, id, params, ty, body },
                line: start_line,
                col: start_col,
            },
        )
    }

    /// `state Name { fields }`
    fn parse_state(&mut self, visibility: Visibility) -> (r: Result<Statement<'a>, Error>)
        requires
            old(self).wf(),
        ensures
            went_on(*old(self), *final(self)),
            reads_as(r, p_state(old(self).toks(), old(self).pos(), visibility), final(self).pos()),
            r is Ok ==> old(self).pos() < final(self).pos(),
        decreases old(self).toks().len() - old(self).pos(), 58int,
    {
        proof {
            reveal_with_fuel(p_state, 1);
            reveal_with_fuel(p_fields, 1);
        }
        let start_line = self.peek(0)?.line;
        let start_col = self.peek(0)?.col;

        self.advance()?;

        let id = match self.peek(0)?.kind {
            TokenKind::Identifier(name) => {
                self.advance()?;
                name
            },
            _ => return self.error("Expected object name"),
        };

        self.consume(TokenKind::LBrace, "Expected '{'")?;
        let fields = self.parse_fields()?;
        self.consume(TokenKind::RBrace, "Expected '}'")?;

        Ok(Statement { kind: StatementKind::State { visibility, id, fields }, line: start_line, col: start_col })
    }

    /// `container Name { types }`
    fn parse_container(&mut self, visibility: Visibility) -> (r: Result<Statement<'a>, Error>)
        requires
            old(self).wf(),
        ensures
            went_on(*old(self), *final(self)),
            reads_as(r, p_container(old(self).toks(), old(self).pos(), visibility), final(self).pos()),
            r is Ok ==> old(self).pos() < final(self).pos(),
        decreases old(self).toks().len() - old(self).pos(), 58int,
    {
        proof {
            reveal_with_fuel(p_container, 1);
            reveal_with_fuel(p_exprs, 1);
        }
        let start_line = self.peek(0)?.line;
        let start_col = self.peek(0)?.col;

        self.advance()?;

        let id = match self.peek(0)?.kind {
            TokenKind::Identifier(name) => {
                self.advance()?;
                name
            },
            _ => return self.error("Expected container name"),
        };

        self.consume(TokenKind::LBrace, "Expected '{'")?;
        let types = self.parse_exprs()?;
        self.consume(TokenKind::RBrace, "Expected '}'")?;

        Ok(Statement { kind: StatementKind::Container { visibility, id, types }, line: start_line, col: start_col })
    }

    /// `enum Name { variants }`
    fn parse_enum(&mut self, visibility: Visibility) -> (r: Result<Statement<'a>, Error>)
        requires
            old(self).wf(),
        ensures
            went_on(*old(self), *final(self)),
            reads_as(r, p_enum(old(self).toks(), old(self).pos(), visibility), final(self).pos()),
            r is Ok ==> old(self).pos() < final(self).pos(),
        decreases old(self).toks().len() - old(self).pos(), 58int,
    {
        proof {
            reveal_with_fuel(p_enum, 1);
            reveal_with_fuel(p_variants, 1);
        }
        let start_line = self.peek(0)?.line;
        let start_col = self.peek(0)?.col;

        self.advance()?;

        let id = match self.peek(0)?.kind {
            TokenKind::Identifier(name) => {
                self.advance()?;
                name
            },
            _ => return self.error("Expected enumeration name"),
        };

        self.consume(TokenKind::LBrace, "Expected '{'")?;
        let variants = self.parse_variants()?;
        self.consume(TokenKind::RBrace, "Expected '}'")?;

        Ok(Statement { kind: StatementKind::Enum { visibility, id, variants }, line: start_line, col: start_col })
    }

    /// `method target { functions }`: the body must be a block whose every
    /// statement is a function.
    #[verifier::loop_isolation(false)]
    fn parse_method(&mut self) -> (r: Result<Statement<'a>, Error>)
        requires
            old(self).wf(),
        ensures
            went_on(*old(self), *final(self)),
            reads_as(r, p_method(old(self).toks(), old(self).pos()), final(self).pos()),
            r is Ok ==> old(self).pos() < final(self).pos(),
        decreases old(self).toks().len() - old(self).pos(), 58int,
    {
        proof {
            reveal_with_fuel(p_method, 1);
            reveal_with_fuel(p_expr, 1);
        }
        let start_line = self.peek(0)?.line;
        let start_col = self.peek(0)?.col;

        self.advance()?;

        let target = self.parse_expr()?;

        let methods_line = self.peek(0)?.line;
        let methods_col = self.peek(0)?.col;
        let methods = self.parse_expr()?;

        if let ExprKind::Block(stmts) = &methods.kind {
            let mut n: usize = 0;
            while n < stmts.len()
                invariant
                    n <= stmts.len(),
                    forall|m: int| 0 <= m < n ==> (#[trigger] stmts@[m]).kind is Func,
                decreases stmts.len() - n,
            {
                if !matches!(stmts[n].kind, StatementKind::Func { .. }) {
                    proof {
                        lemma_all_funcs(stmts@);
                    }
                    return self.loc_error(methods_line, methods_col, "Method statements must be functions");
                }
                n += 1;
            }
            proof {
                lemma_all_funcs(stmts@);
            }
        } else {
            return self.loc_error(methods_line, methods_col, "Method body must be a block expression");
        }

        Ok(Statement { kind: StatementKind::Method { target, methods }, line: start_line, col: start_col })
    }

    /// `alias Name = type;`
    fn parse_alias(&mut self) -> (r: Result<Statement<'a>, Error>)
        requires
            old(self).wf(),
        ensures
            went_on(*old(self), *final(self)),
            reads_as(r, p_alias(old(self).toks(), old(self).pos()), final(self).pos()),
            r is Ok ==> old(self).pos() < final(self).pos(),
        decreases old(self).toks().len() - old(self).pos(), 58int,
    {
        proof {
            reveal_with_fuel(p_alias, 1);
            reveal_with_fuel(p_expr, 1);
        }
        let start_line = self.peek(0)?.line;
        let start_col = self.peek(0)?.col;

        self.advance()?;

        let alias_id = match self.peek(0)?.kind {
            TokenKind::Identifier(alias_id) => alias_id,
            _ => return self.error("Expected type alias"),
        };

        self.advance()?;
        self.consume(TokenKind::Assign, "Expected '='")?;

        let ty = self.parse_expr()?;

        self.consume(TokenKind::Semicolon, "Expected ';'")?;

        Ok(Statement { kind: StatementKind::Alias { alias_id, ty }, line: start_line, col: start_col })
    }

    /// An expression as a statement; `;` follows unless it ends with a block.
    fn parse_statement_expr(&mut self) -> (r: Result<Statement<'a>, Error>)
        requires
            old(self).wf(),
        ensures
            went_on(*old(self), *final(self)),
            reads_as(r, p_statement_expr(old(self).toks(), old(self).pos()), final(self).pos()),
            r is Ok ==> old(self).pos() < final(self).pos(),
        decreases old(self).toks().len() - old(self).pos(), 60int,
    {
        proof {
            reveal_with_fuel(p_statement_expr, 1);
            reveal_with_fuel(p_expr, 1);
        }
        let start_line = self.peek(0)?.line;
        let start_col = self.peek(0)?.col;
        let expr = self.parse_expr()?;

        if !self.is_brace_terminated(&expr) {
            self.consume(TokenKind::Semicolon, "Expected ';'")?;
        }

        Ok(Statement { kind: StatementKind::Expr(expr), line: start_line, col: start_col })
    }

    /// `pub` before a variable, constant, node, function, state or
    /// container.
    fn parse_visibility(&mut self) -> (r: Result<Statement<'a>, Error>)
        requires
            old(self).wf(),
        ensures
            went_on(*old(self), *final(self)),
            reads_as(r, p_visibility(old(self).toks(), old(self).pos()), final(self).pos()),
            r is Ok ==> old(self).pos() < final(self).pos(),
        decreases old(self).toks().len() - old(self).pos(), 59int,
    {
        proof {
            reveal_with_fuel(p_visibility, 1);
            reveal_with_fuel(p_var, 1);
            reveal_with_fuel(p_node, 1);
            reveal_with_fuel(p_func, 1);
            reveal_with_fuel(p_state, 1);
            reveal_with_fuel(p_container, 1);
        }
        self.advance()?;
        match self.peek(0)?.kind {
            TokenKind::Var => self.parse_var(VarKind::Var, Visibility::Pub),
            TokenKind::Node => self.parse_node(Visibility::Pub),
            TokenKind::Const => self.parse_var(VarKind::Const, Visibility::Pub),
            TokenKind::Func => self.parse_func(Visibility::Pub),
            TokenKind::State => self.parse_state(Visibility::Pub),
            TokenKind::Container => self.parse_container(Visibility::Pub),
            TokenKind::Pub => self.error("Repeated visibility modifier"),
            _ => self.error("Invalid visibility modifier"),
        }
    }

    /// Whether `expr` ends with a block, so that it needs no `;` to stand as
    /// a statement.
    pub fn is_brace_terminated(&self, expr: &Expr<'a>) -> (r: bool)
        ensures
            r == brace_terminated(expr@),
        decreases expr,
    {
        proof {
            lemma_brace_terminated(*expr);
        }
        match &expr.kind {
            ExprKind::If { condition: _, do_body, else_body } => {
                if let Some(else_branch) = else_body {
                    self.is_brace_terminated(else_branch)
                } else {
                    self.is_brace_terminated(do_body)
                }
            },
            ExprKind::While { condition: _, do_body, else_body } => {
                if let Some(else_branch) = else_body {
                    self.is_brace_terminated(else_branch)
                } else {
                    self.is_brace_terminated(do_body)
                }
            },
            ExprKind::For { elem: _, iter: _, do_body, else_body } => {
                if let Some(else_branch) = else_body {
                    self.is_brace_terminated(else_branch)
                } else {
                    self.is_brace_terminated(do_body)
                }
            },
            ExprKind::Block(_) => true,
            _ => false,
        }
    }
}

} // verus!
