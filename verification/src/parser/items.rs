use vstd::prelude::*;

use super::grammar::{adv, after, is_closer, kind_at, tok_at};
use super::syntax::{
    exprs_read, fields_read, ifields_read, join, lemma_expr_items, lemma_expr_list,
    lemma_field_items, lemma_field_list, lemma_ifield_items, lemma_ifield_list, lemma_join_join,
    lemma_param_items, lemma_param_list, lemma_variant_items, lemma_variant_list, p_expr,
    p_expr_items, p_exprs, p_field, p_field_items, p_fields, p_ifield, p_ifield_items, p_ifields,
    p_param, p_param_items, p_params, p_variant, p_variant_items, p_variants, params_read,
    reads_as, variants_read,
};
use super::{went_on, Parser};
use crate::ast::{
    lemma_view_exprs_push, lemma_view_fields_push, lemma_view_instance_fields_push,
    lemma_view_params_push, lemma_view_variants_push, view_exprs, view_fields,
    view_instance_fields, view_params, view_variants, Expr, ExprKind, Field, InstanceField, Param,
    Variant, Visibility,
};
use crate::error::Error;
use crate::text::str_equals;
use crate::token::TokenKind;

verus! {

impl<'a> Parser<'a> {
    /// A parameter `name: type`; `self` alone stands for `self: Self`.
    pub(crate) fn parse_param(&mut self) -> (r: Result<Param<'a>, Error>)
        requires
            old(self).wf(),
        ensures
            went_on(*old(self), *final(self)),
            reads_as(r, p_param(old(self).toks(), old(self).pos()), final(self).pos()),
        decreases old(self).toks().len() - old(self).pos(), 55int,
    {
        proof {
            reveal_with_fuel(p_param, 1);
            reveal_with_fuel(p_expr, 1);
        }
        let id = match self.peek(0)?.kind {
            TokenKind::Identifier(id) => id,
            _ => return self.error("Expected parameter identifier"),
        };

        let start_line = self.peek(0)?.line;
        let start_col = self.peek(0)?.col;
        self.advance()?;

        if str_equals(id, "self") {
            return Ok(
                Param { id, ty: Expr { kind: ExprKind::Identifier("Self"), line: start_line, col: start_col } },
            );
        }

        self.consume(TokenKind::Colon, "Expected ':'")?;
        let ty = self.parse_expr()?;

        Ok(Param { id, ty })
    }

    /// A field `[pub] name: type` of a state.
    pub(crate) fn parse_field(&mut self) -> (r: Result<Field<'a>, Error>)
        requires
            old(self).wf(),
        ensures
            went_on(*old(self), *final(self)),
            reads_as(r, p_field(old(self).toks(), old(self).pos()), final(self).pos()),
        decreases old(self).toks().len() - old(self).pos(), 55int,
    {
        proof {
            reveal_with_fuel(p_field, 1);
            reveal_with_fuel(p_expr, 1);
        }
        let visibility = if matches!(self.peek(0)?.kind, TokenKind::Pub) {
            self.advance()?;
            Visibility::Pub
        } else {
            Visibility::Priv
        };

        let id = match self.peek(0)?.kind {
            TokenKind::Identifier(id) => {
                self.advance()?;
                id
            },
            _ => return self.error("Expected field identifier"),
        };

        self.consume(TokenKind::Colon, "Expected ':'")?;
        let ty = self.parse_expr()?;

        Ok(Field { visibility, id, ty })
    }

    /// A field `name: value` of a state instance.
    pub(crate) fn parse_instance_field(&mut self) -> (r: Result<InstanceField<'a>, Error>)
        requires
            old(self).wf(),
        ensures
            went_on(*old(self), *final(self)),
            reads_as(r, p_ifield(old(self).toks(), old(self).pos()), final(self).pos()),
        decreases old(self).toks().len() - old(self).pos(), 55int,
    {
        proof {
            reveal_with_fuel(p_ifield, 1);
            reveal_with_fuel(p_expr, 1);
        }
        let id = match self.peek(0)?.kind {
            TokenKind::Identifier(id) => {
                self.advance()?;
                id
            },
            _ => return self.error("Expected field identifier"),
        };

        self.consume(TokenKind::Colon, "Expected ':'")?;
        let value = self.parse_expr()?;

        Ok(InstanceField { id, value })
    }

    /// A variant `Name` or `Name(type, ...)` of an enumeration.
    pub(crate) fn parse_variant(&mut self) -> (r: Result<Variant<'a>, Error>)
        requires
            old(self).wf(),
        ensures
            went_on(*old(self), *final(self)),
            reads_as(r, p_variant(old(self).toks(), old(self).pos()), final(self).pos()),
        decreases old(self).toks().len() - old(self).pos(), 55int,
    {
        proof {
            reveal_with_fuel(p_variant, 1);
            reveal_with_fuel(p_exprs, 1);
        }
        let id = match self.peek(0)?.kind {
            TokenKind::Identifier(id) => {
                self.advance()?;
                id
            },
            _ => return self.error("Expected variant identifier"),
        };

        let mut data = Vec::new();
        proof {
            assert(view_exprs(data@) =~= Seq::empty());
        }
        if matches!(self.peek(0)?.kind, TokenKind::LParen) {
            self.advance()?;
            data = self.parse_exprs()?;
            self.consume(TokenKind::RParen, "Expected ')'")?;
        }

        Ok(Variant { id, data })
    }

    /// Expressions separated by commas, up to a closing bracket; a comma may
    /// trail.
    #[verifier::loop_isolation(false)]
    pub(crate) fn parse_exprs(&mut self) -> (r: Result<Vec<Expr<'a>>, Error>)
        requires
            old(self).wf(),
        ensures
            went_on(*old(self), *final(self)),
            exprs_read(r, p_exprs(old(self).toks(), old(self).pos()), final(self).pos()),
        decreases old(self).toks().len() - old(self).pos(), 57int,
    {
        let ghost toks = self.toks();
        let ghost start = self.pos();
        proof {
            lemma_expr_list(toks, start);
        }
        let mut items: Vec<Expr<'a>> = Vec::new();
        proof {
            assert(view_exprs(items@) =~= Seq::empty());
        }

        if matches!(self.peek(0)?.kind, TokenKind::RParen | TokenKind::RSquare | TokenKind::RBrace) {
            return Ok(items);
        }

        loop
            invariant
                self.wf(),
                self.toks() == toks,
                start <= self.pos(),
                p_exprs(toks, start) == join(view_exprs(items@), p_expr_items(toks, self.pos())),
            decreases toks.len() - self.pos(),
        {
            let ghost before = items@;
            let ghost k = self.pos();
            proof {
                lemma_expr_items(toks, k);
            }
            let item = self.parse_expr()?;
            items.push(item);
            proof {
                lemma_view_exprs_push(before, item);
                assert(view_exprs(before) + seq![item@] =~= view_exprs(items@));
            }
            if matches!(self.peek(0)?.kind, TokenKind::Comma) {
                self.advance()?;

                if matches!(self.peek(0)?.kind, TokenKind::RParen | TokenKind::RSquare | TokenKind::RBrace) {
                    break;
                }
                proof {
                    lemma_join_join(view_exprs(before), seq![item@], p_expr_items(toks, self.pos()));
                }
            } else {
                break;
            }
        }

        Ok(items)
    }

    /// Parameters separated by commas, up to a closing bracket.
    #[verifier::loop_isolation(false)]
    pub(crate) fn parse_params(&mut self) -> (r: Result<Vec<Param<'a>>, Error>)
        requires
            old(self).wf(),
        ensures
            went_on(*old(self), *final(self)),
            params_read(r, p_params(old(self).toks(), old(self).pos()), final(self).pos()),
        decreases old(self).toks().len() - old(self).pos(), 57int,
    {
        let ghost toks = self.toks();
        let ghost start = self.pos();
        proof {
            lemma_param_list(toks, start);
        }
        let mut items: Vec<Param<'a>> = Vec::new();
        proof {
            assert(view_params(items@) =~= Seq::empty());
        }

        if matches!(self.peek(0)?.kind, TokenKind::RParen | TokenKind::RSquare | TokenKind::RBrace) {
            return Ok(items);
        }

        loop
            invariant
                self.wf(),
                self.toks() == toks,
                start <= self.pos(),
                p_params(toks, start) == join(view_params(items@), p_param_items(toks, self.pos())),
            decreases toks.len() - self.pos(),
        {
            let ghost before = items@;
            let ghost k = self.pos();
            proof {
                lemma_param_items(toks, k);
            }
            let item = self.parse_param()?;
            items.push(item);
            proof {
                lemma_view_params_push(before, item);
                assert(view_params(before) + seq![item@] =~= view_params(items@));
            }
            if matches!(self.peek(0)?.kind, TokenKind::Comma) {
                self.advance()?;

                if matches!(self.peek(0)?.kind, TokenKind::RParen | TokenKind::RSquare | TokenKind::RBrace) {
                    break;
                }
                proof {
                    lemma_join_join(view_params(before), seq![item@], p_param_items(toks, self.pos()));
                }
            } else {
                break;
            }
        }

        Ok(items)
    }

    /// Fields separated by commas, up to a closing bracket.
    #[verifier::loop_isolation(false)]
    pub(crate) fn parse_fields(&mut self) -> (r: Result<Vec<Field<'a>>, Error>)
        requires
            old(self).wf(),
        ensures
            went_on(*old(self), *final(self)),
            fields_read(r, p_fields(old(self).toks(), old(self).pos()), final(self).pos()),
        decreases old(self).toks().len() - old(self).pos(), 57int,
    {
        let ghost toks = self.toks();
        let ghost start = self.pos();
        proof {
            lemma_field_list(toks, start);
        }
        let mut items: Vec<Field<'a>> = Vec::new();
        proof {
            assert(view_fields(items@) =~= Seq::empty());
        }

        if matches!(self.peek(0)?.kind, TokenKind::RParen | TokenKind::RSquare | TokenKind::RBrace) {
            return Ok(items);
        }

        loop
            invariant
                self.wf(),
                self.toks() == toks,
                start <= self.pos(),
                p_fields(toks, start) == join(view_fields(items@), p_field_items(toks, self.pos())),
            decreases toks.len() - self.pos(),
        {
            let ghost before = items@;
            let ghost k = self.pos();
            proof {
                lemma_field_items(toks, k);
            }
            let item = self.parse_field()?;
            items.push(item);
            proof {
                lemma_view_fields_push(before, item);
                assert(view_fields(before) + seq![item@] =~= view_fields(items@));
            }
            if matches!(self.peek(0)?.kind, TokenKind::Comma) {
                self.advance()?;

                if matches!(self.peek(0)?.kind, TokenKind::RParen | TokenKind::RSquare | TokenKind::RBrace) {
                    break;
                }
                proof {
                    lemma_join_join(view_fields(before), seq![item@], p_field_items(toks, self.pos()));
                }
            } else {
                break;
            }
        }

        Ok(items)
    }

    /// Instance fields separated by commas, up to a closing bracket.
    #[verifier::loop_isolation(false)]
    pub(crate) fn parse_instance_fields(&mut self) -> (r: Result<Vec<InstanceField<'a>>, Error>)
        requires
            old(self).wf(),
        ensures
            went_on(*old(self), *final(self)),
            ifields_read(r, p_ifields(old(self).toks(), old(self).pos()), final(self).pos()),
        decreases old(self).toks().len() - old(self).pos(), 57int,
    {
        let ghost toks = self.toks();
        let ghost start = self.pos();
        proof {
            lemma_ifield_list(toks, start);
        }
        let mut items: Vec<InstanceField<'a>> = Vec::new();
        proof {
            assert(view_instance_fields(items@) =~= Seq::empty());
        }

        if matches!(self.peek(0)?.kind, TokenKind::RParen | TokenKind::RSquare | TokenKind::RBrace) {
            return Ok(items);
        }

        loop
            invariant
                self.wf(),
                self.toks() == toks,
                start <= self.pos(),
                p_ifields(toks, start) == join(view_instance_fields(items@), p_ifield_items(toks, self.pos())),
            decreases toks.len() - self.pos(),
        {
            let ghost before = items@;
            let ghost k = self.pos();
            proof {
                lemma_ifield_items(toks, k);
            }
            let item = self.parse_instance_field()?;
            items.push(item);
            proof {
                lemma_view_instance_fields_push(before, item);
                assert(view_instance_fields(before) + seq![item@] =~= view_instance_fields(items@));
            }
            if matches!(self.peek(0)?.kind, TokenKind::Comma) {
                self.advance()?;

                if matches!(self.peek(0)?.kind, TokenKind::RParen | TokenKind::RSquare | TokenKind::RBrace) {
                    break;
                }
                proof {
                    lemma_join_join(view_instance_fields(before), seq![item@], p_ifield_items(toks, self.pos()));
                }
            } else {
                break;
            }
        }

        Ok(items)
    }

    /// Variants separated by commas, up to a closing bracket.
    #[verifier::loop_isolation(false)]
    pub(crate) fn parse_variants(&mut self) -> (r: Result<Vec<Variant<'a>>, Error>)
        requires
            old(self).wf(),
        ensures
            went_on(*old(self), *final(self)),
            variants_read(r, p_variants(old(self).toks(), old(self).pos()), final(self).pos()),
        decreases old(self).toks().len() - old(self).pos(), 57int,
    {
        let ghost toks = self.toks();
        let ghost start = self.pos();
        proof {
            lemma_variant_list(toks, start);
        }
        let mut items: Vec<Variant<'a>> = Vec::new();
        proof {
            assert(view_variants(items@) =~= Seq::empty());
        }

        if matches!(self.peek(0)?.kind, TokenKind::RParen | TokenKind::RSquare | TokenKind::RBrace) {
            return Ok(items);
        }

        loop
            invariant
                self.wf(),
                self.toks() == toks,
                start <= self.pos(),
                p_variants(toks, start) == join(view_variants(items@), p_variant_items(toks, self.pos())),
            decreases toks.len() - self.pos(),
        {
            let ghost before = items@;
            let ghost k = self.pos();
            proof {
                lemma_variant_items(toks, k);
            }
            let item = self.parse_variant()?;
            items.push(item);
            proof {
                lemma_view_variants_push(before, item);
                assert(view_variants(before) + seq![item@] =~= view_variants(items@));
            }
            if matches!(self.peek(0)?.kind, TokenKind::Comma) {
                self.advance()?;

                if matches!(self.peek(0)?.kind, TokenKind::RParen | TokenKind::RSquare | TokenKind::RBrace) {
                    break;
                }
                proof {
                    lemma_join_join(view_variants(before), seq![item@], p_variant_items(toks, self.pos()));
                }
            } else {
                break;
            }
        }

        Ok(items)
    }
}

} // verus!
