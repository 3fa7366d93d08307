use vstd::prelude::*;

use super::grammar::{
    adv, after, is_closer, kind_at, p_array_type, p_base_type, p_tuple_type, p_type,
    p_type_items, p_type_list, p_type_postfix, p_type_prefix,
};
use super::Parser;
use crate::error::Error;
use crate::token::TokenKind;
use crate::types::{
    lemma_view_types, lemma_view_types_push, view_type, view_types, FloatSize, IntSize, Sign,
    SpecType, Type,
};

verus! {

/// Whether `r`, read by a parser that ended at index `end`, is what the
/// grammar gives: the type and that index, or the same error.
pub open spec fn type_read<'a>(
    r: Result<Type<'a>, Error>,
    g: Result<(SpecType<'a>, int), Error>,
    end: int,
) -> bool {
    match r {
        Ok(t) => g == Ok::<(SpecType<'a>, int), Error>((t@, end)),
        Err(e) => g == Err::<(SpecType<'a>, int), Error>(e),
    }
}

/// Whether `r` is what the grammar gives for a list of types.
pub open spec fn types_read<'a>(
    r: Result<Vec<Type<'a>>, Error>,
    g: Result<(Seq<SpecType<'a>>, int), Error>,
    end: int,
) -> bool {
    match r {
        Ok(ts) => g == Ok::<(Seq<SpecType<'a>>, int), Error>((view_types(ts@), end)),
        Err(e) => g == Err::<(Seq<SpecType<'a>>, int), Error>(e),
    }
}

/// Puts `done` in front of the types of `rest`, or passes on its error.
pub open spec fn join_types<'a>(
    done: Seq<SpecType<'a>>,
    rest: Result<(Seq<SpecType<'a>>, int), Error>,
) -> Result<(Seq<SpecType<'a>>, int), Error> {
    match rest {
        Ok((r, j)) => Ok((done + r, j)),
        Err(e) => Err(e),
    }
}

impl<'a> Parser<'a> {
    /// A type.
    pub fn parse_type(&mut self) -> (r: Result<Type<'a>, Error>)
        requires
            old(self).wf(),
        ensures
            final(self).wf(),
            final(self).toks() == old(self).toks(),
            old(self).pos() <= final(self).pos(),
            type_read(r, p_type(old(self).toks(), old(self).pos()), final(self).pos()),
        decreases old(self).toks().len() - old(self).pos(), 6int,
    {
        let mut ty = self.parse_type_prefix()?;
        ty = self.parse_type_postfix(ty)?;
        Ok(ty)
    }

    /// A reference `&T`, a node `@T`, or a base type.
    fn parse_type_prefix(&mut self) -> (r: Result<Type<'a>, Error>)
        requires
            old(self).wf(),
        ensures
            final(self).wf(),
            final(self).toks() == old(self).toks(),
            old(self).pos() <= final(self).pos(),
            type_read(r, p_type_prefix(old(self).toks(), old(self).pos()), final(self).pos()),
        decreases old(self).toks().len() - old(self).pos(), 5int,
    {
        match self.peek(0)?.kind {
            TokenKind::Amp => {
                self.advance()?;
                let inner = self.parse_type()?;
                Ok(Type::Ref(Box::new(inner)))
            },
            TokenKind::At => {
                self.advance()?;
                let inner = self.parse_type()?;
                Ok(Type::Node(Box::new(inner)))
            },
            _ => self.parse_base_type(),
        }
    }

    /// A type keyword, a tuple type, an array type, or a custom type, which
    /// may name its module as `module..Type`.
    fn parse_base_type(&mut self) -> (r: Result<Type<'a>, Error>)
        requires
            old(self).wf(),
        ensures
            final(self).wf(),
            final(self).toks() == old(self).toks(),
            old(self).pos() <= final(self).pos(),
            type_read(r, p_base_type(old(self).toks(), old(self).pos()), final(self).pos()),
            r is Err && !({
                let k = kind_at(old(self).toks(), old(self).pos());
                k is LParen || k is LSquare || k is Identifier
            }) ==> final(self).pos() == old(self).pos(),
        decreases old(self).toks().len() - old(self).pos(), 4int,
    {
        match self.peek(0)?.kind {
            TokenKind::Bool => {
                self.advance()?;
                Ok(Type::Bool)
            },
            TokenKind::Int8 => {
                self.advance()?;
                Ok(Type::Integer { size: IntSize::B8, sign: Sign::Signed })
            },
            TokenKind::Int16 => {
                self.advance()?;
                Ok(Type::Integer { size: IntSize::B16, sign: Sign::Signed })
            },
            TokenKind::Int32 => {
                self.advance()?;
                Ok(Type::Integer { size: IntSize::B32, sign: Sign::Signed })
            },
            TokenKind::Int64 => {
                self.advance()?;
                Ok(Type::Integer { size: IntSize::B64, sign: Sign::Signed })
            },
            TokenKind::Int128 => {
                self.advance()?;
                Ok(Type::Integer { size: IntSize::B128, sign: Sign::Signed })
            },
            TokenKind::UInt8 => {
                self.advance()?;
                Ok(Type::Integer { size: IntSize::B8, sign: Sign::Unsigned })
            },
            TokenKind::UInt16 => {
                self.advance()?;
                Ok(Type::Integer { size: IntSize::B16, sign: Sign::Unsigned })
            },
            TokenKind::UInt32 => {
                self.advance()?;
                Ok(Type::Integer { size: IntSize::B32, sign: Sign::Unsigned })
            },
            TokenKind::UInt64 => {
                self.advance()?;
                Ok(Type::Integer { size: IntSize::B64, sign: Sign::Unsigned })
            },
            TokenKind::UInt128 => {
                self.advance()?;
                Ok(Type::Integer { size: IntSize::B128, sign: Sign::Unsigned })
            },
            TokenKind::IntRange8 => {
                self.advance()?;
                Ok(Type::IntRange { size: IntSize::B8, sign: Sign::Signed })
            },
            TokenKind::IntRange16 => {
                self.advance()?;
                Ok(Type::IntRange { size: IntSize::B16, sign: Sign::Signed })
            },
            TokenKind::IntRange32 => {
                self.advance()?;
                Ok(Type::IntRange { size: IntSize::B32, sign: Sign::Signed })
            },
            TokenKind::IntRange64 => {
                self.advance()?;
                Ok(Type::IntRange { size: IntSize::B64, sign: Sign::Signed })
            },
            TokenKind::IntRange128 => {
                self.advance()?;
                Ok(Type::IntRange { size: IntSize::B128, sign: Sign::Signed })
            },
            TokenKind::UIntRange8 => {
                self.advance()?;
                Ok(Type::IntRange { size: IntSize::B8, sign: Sign::Unsigned })
            },
            TokenKind::UIntRange16 => {
                self.advance()?;
                Ok(Type::IntRange { size: IntSize::B16, sign: Sign::Unsigned })
            },
            TokenKind::UIntRange32 => {
                self.advance()?;
                Ok(Type::IntRange { size: IntSize::B32, sign: Sign::Unsigned })
            },
            TokenKind::UIntRange64 => {
                self.advance()?;
                Ok(Type::IntRange { size: IntSize::B64, sign: Sign::Unsigned })
            },
            TokenKind::UIntRange128 => {
                self.advance()?;
                Ok(Type::IntRange { size: IntSize::B128, sign: Sign::Unsigned })
            },
            TokenKind::Float32 => {
                self.advance()?;
                Ok(Type::Float { size: FloatSize::B32 })
            },
            TokenKind::Float64 => {
                self.advance()?;
                Ok(Type::Float { size: FloatSize::B64 })
            },
            TokenKind::String => {
                self.advance()?;
                Ok(Type::String)
            },
            TokenKind::LParen => self.parse_tuple_type(),
            TokenKind::LSquare => self.parse_array_type(),
            TokenKind::Identifier(left) => {
                self.advance()?;

                if matches!(self.peek(0)?.kind, TokenKind::DoubleDot) {
                    self.advance()?;

                    if let TokenKind::Identifier(right) = self.peek(0)?.kind {
                        self.advance()?;

                        return Ok(Type::Custom { module: Some(left), id: right });
                    }
                }

                Ok(Type::Custom { module: None, id: left })
            },
            _ => self.error("Invalid type"),
        }
    }

    /// The postfixes after a type: `*` for a pointer, `-> R` for a function.
    #[verifier::loop_isolation(false)]
    fn parse_type_postfix(&mut self, base: Type<'a>) -> (r: Result<Type<'a>, Error>)
        requires
            old(self).wf(),
        ensures
            final(self).wf(),
            final(self).toks() == old(self).toks(),
            old(self).pos() <= final(self).pos(),
            type_read(r, p_type_postfix(old(self).toks(), base@, old(self).pos()), final(self).pos()),
        decreases old(self).toks().len() - old(self).pos(), 3int,
    {
        let ghost toks = self.toks();
        let ghost start = self.pos();
        let ghost first = base@;
        let mut base = base;
        loop
            invariant
                self.wf(),
                self.toks() == toks,
                toks == old(self).toks(),
                start == old(self).pos(),
                start <= self.pos(),
                p_type_postfix(toks, first, start) == p_type_postfix(toks, base@, self.pos()),
            decreases toks.len() - self.pos(),
        {
            match self.peek(0)?.kind {
                TokenKind::Star => {
                    self.advance()?;
                    base = Type::Pointer(Box::new(base));
                },
                TokenKind::RArrow => {
                    self.advance()?;
                    let return_ty = self.parse_type()?;
                    let params = match base {
                        Type::Tuple(types) => types,
                        other => {
                            let mut v: Vec<Type<'a>> = Vec::new();
                            v.push(other);
                            proof {
                                lemma_view_types_push(Seq::empty(), v@[0]);
                                assert(Seq::<Type<'a>>::empty().push(v@[0]) =~= v@);
                            }
                            v
                        },
                    };
                    return Ok(Type::Function { params, return_ty: Box::new(return_ty) });
                },
                _ => break,
            }
        }

        Ok(base)
    }

    /// A tuple type `(T, ...)`; a single type in parentheses is that type.
    fn parse_tuple_type(&mut self) -> (r: Result<Type<'a>, Error>)
        requires
            old(self).wf(),
            kind_at(old(self).toks(), old(self).pos()) is LParen,
        ensures
            final(self).wf(),
            final(self).toks() == old(self).toks(),
            old(self).pos() <= final(self).pos(),
            type_read(r, p_tuple_type(old(self).toks(), old(self).pos()), final(self).pos()),
        decreases old(self).toks().len() - old(self).pos(), 2int,
    {
        self.advance()?;

        let mut types = self.parse_type_list()?;
        self.consume(TokenKind::RParen, "Expected ')'")?;

        proof {
            lemma_view_types(types@);
        }
        if types.len() == 1 {
            Ok(types.remove(0))
        } else {
            Ok(Type::Tuple(types))
        }
    }

    /// An array type `[T]`.
    fn parse_array_type(&mut self) -> (r: Result<Type<'a>, Error>)
        requires
            old(self).wf(),
            kind_at(old(self).toks(), old(self).pos()) is LSquare,
        ensures
            final(self).wf(),
            final(self).toks() == old(self).toks(),
            old(self).pos() <= final(self).pos(),
            type_read(r, p_array_type(old(self).toks(), old(self).pos()), final(self).pos()),
        decreases old(self).toks().len() - old(self).pos(), 2int,
    {
        self.advance()?;

        if matches!(self.peek(0)?.kind, TokenKind::RSquare) {
            return self.error("Array must have a type");
        }

        let ty = Box::new(self.parse_type()?);

        self.consume(TokenKind::RSquare, "Expected ']'")?;

        Ok(Type::Array(ty))
    }

    /// Types separated by commas, up to a closing bracket; a comma may trail.
    fn parse_type_list(&mut self) -> (r: Result<Vec<Type<'a>>, Error>)
        requires
            old(self).wf(),
        ensures
            final(self).wf(),
            final(self).toks() == old(self).toks(),
            old(self).pos() <= final(self).pos(),
            types_read(r, p_type_list(old(self).toks(), old(self).pos()), final(self).pos()),
        decreases old(self).toks().len() - old(self).pos(), 8int,
    {
        let ghost toks = self.toks();
        let ghost start = self.pos();
        let mut items: Vec<Type<'a>> = Vec::new();
        proof {
            assert(view_types(items@) =~= Seq::<SpecType<'a>>::empty());
        }

        if matches!(self.peek(0)?.kind, TokenKind::RParen | TokenKind::RSquare | TokenKind::RBrace) {
            return Ok(items);
        }

        loop
            invariant_except_break
                p_type_list(toks, start) == join_types(view_types(items@), p_type_items(toks, self.pos())),
            invariant
                self.wf(),
                self.toks() == toks,
                toks == old(self).toks(),
                start == old(self).pos(),
                start <= self.pos(),
                !is_closer(kind_at(toks, start)),
            ensures
                p_type_list(toks, start) == Ok::<(Seq<SpecType<'a>>, int), Error>((view_types(items@), self.pos())),
            decreases toks.len() - self.pos(),
        {
            let ghost before = items@;
            let item = self.parse_type()?;
            items.push(item);
            proof {
                lemma_view_types_push(before, item);
                assert(view_types(before) + seq![item@] =~= view_types(items@));
            }
            if matches!(self.peek(0)?.kind, TokenKind::Comma) {
                self.advance()?;

                if matches!(self.peek(0)?.kind, TokenKind::RParen | TokenKind::RSquare | TokenKind::RBrace) {
                    break;
                }
                proof {
                    match p_type_items(toks, self.pos()) {
                        Ok((rest, j)) => {
                            assert(view_types(before) + (seq![item@] + rest) =~= view_types(items@) + rest);
                        },
                        Err(_) => {},
                    }
                }
            } else {
                break;
            }
        }

        Ok(items)
    }
}

} // verus!
