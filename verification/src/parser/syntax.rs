//! The grammar of Erwin's expressions and statements. Each function says what
//! the parser reads from the tokens at an index: the tree and the index after
//! it, or the error it meets.
//!
//! Operators bind, from loosest to tightest: lambdas, `if`/`for`/`while`,
//! `|>`, `||`/`!|`, `^^`/`!^`, `&&`/`!&`, `==`/`!=`, comparisons, `..`,
//! `+`/`-`, `*`/`/`, `^` (power, to the right), prefix operators, then calls,
//! member and static access.
use vstd::prelude::*;

use super::grammar::{adv, after, err_at, is_closer, kind_at, tok_at, well_formed_tokens};
use crate::ast::{
    binary_spelling, lemma_view_stmts, unary_spelling, view_stmts, Statement, view_exprs, view_fields, view_instance_fields, view_opt, view_params, view_variants, BinaryOp,
    Expr, ExprKind, Field, InstanceField, Param, SpecExpr, SpecExprKind, SpecField, SpecInstanceField,
    SpecParam, SpecStatement, SpecStatementKind, SpecVariant, UnaryOp, VarKind, Variant,
    Visibility,
};
use crate::error::Error;
use crate::token::{spelling, Token, TokenKind};

verus! {

/// What a part of the parser reads at an index: the tree and the index after
/// it, or the error it meets.
pub type Reads<T> = Result<(T, int), Error>;

/// An expression that starts at the token at `i`.
pub open spec fn expr_at<'a>(toks: Seq<Token<'a>>, i: int, kind: SpecExprKind<'a>) -> SpecExpr<'a> {
    SpecExpr { kind, line: tok_at(toks, i).line, col: tok_at(toks, i).col }
}

/// A statement that starts at the token at `i`.
pub open spec fn stmt_at<'a>(toks: Seq<Token<'a>>, i: int, kind: SpecStatementKind<'a>) -> SpecStatement<'a> {
    SpecStatement { kind, line: tok_at(toks, i).line, col: tok_at(toks, i).col }
}

/// The binary expression `left op right`, placed at the token at `start`.
pub open spec fn binary_at<'a>(
    toks: Seq<Token<'a>>,
    start: int,
    left: SpecExpr<'a>,
    op: BinaryOp,
    right: SpecExpr<'a>,
) -> SpecExpr<'a> {
    expr_at(toks, start, SpecExprKind::Binary { left: Box::new(left), op, right: Box::new(right) })
}

/// Where the look-ahead for a lambda stops: at the token after the `)` that
/// brings the open parentheses to none, or at an `Eof`.
pub open spec fn paren_scan<'a>(toks: Seq<Token<'a>>, k: int, depth: int) -> int
    decreases toks.len() - k,
    when well_formed_tokens(toks) && 0 <= k < toks.len()
{
    if depth <= 0 {
        k
    } else {
        match kind_at(toks, k) {
            TokenKind::LParen => paren_scan(toks, k + 1, depth + 1),
            TokenKind::RParen => paren_scan(toks, k + 1, depth - 1),
            TokenKind::Eof => k,
            _ => paren_scan(toks, k + 1, depth),
        }
    }
}

/// Whether an expression ends with a block: a block, or an `if`, `for` or
/// `while` whose last branch does. Such an expression needs no `;` to stand
/// as a statement.
pub open spec fn brace_terminated<'a>(e: SpecExpr<'a>) -> bool
    decreases e,
{
    match e.kind {
        SpecExprKind::If { condition, do_body, else_body } => match else_body {
            Some(b) => brace_terminated(*b),
            None => brace_terminated(*do_body),
        },
        SpecExprKind::While { condition, do_body, else_body } => match else_body {
            Some(b) => brace_terminated(*b),
            None => brace_terminated(*do_body),
        },
        SpecExprKind::For { elem, iter, do_body, else_body } => match else_body {
            Some(b) => brace_terminated(*b),
            None => brace_terminated(*do_body),
        },
        SpecExprKind::Block(_) => true,
        _ => false,
    }
}

/// Whether every statement is a function.
pub open spec fn all_funcs<'a>(stmts: Seq<SpecStatement<'a>>) -> bool {
    forall|n: int| 0 <= n < stmts.len() ==> (#[trigger] stmts[n]).kind is Func
}

pub open spec fn pipe_op<'a>(k: TokenKind<'a>) -> Option<BinaryOp> {
    match k {
        TokenKind::RPipe => Some(BinaryOp::RPipe),
        _ => None,
    }
}

pub open spec fn range_op<'a>(k: TokenKind<'a>) -> Option<BinaryOp> {
    match k {
        TokenKind::DoubleDot => Some(BinaryOp::Range),
        _ => None,
    }
}

pub open spec fn pow_op<'a>(k: TokenKind<'a>) -> Option<BinaryOp> {
    match k {
        TokenKind::Pow => Some(BinaryOp::Pow),
        _ => None,
    }
}

pub open spec fn or_op<'a>(k: TokenKind<'a>) -> Option<BinaryOp> {
    match k {
        TokenKind::Or => Some(BinaryOp::Or),
        TokenKind::Nor => Some(BinaryOp::Nor),
        _ => None,
    }
}

pub open spec fn xor_op<'a>(k: TokenKind<'a>) -> Option<BinaryOp> {
    match k {
        TokenKind::Xor => Some(BinaryOp::Xor),
        TokenKind::Xnor => Some(BinaryOp::Xnor),
        _ => None,
    }
}

pub open spec fn and_op<'a>(k: TokenKind<'a>) -> Option<BinaryOp> {
    match k {
        TokenKind::And => Some(BinaryOp::And),
        TokenKind::Nand => Some(BinaryOp::Nand),
        _ => None,
    }
}

pub open spec fn eq_op<'a>(k: TokenKind<'a>) -> Option<BinaryOp> {
    match k {
        TokenKind::Equal => Some(BinaryOp::Equal),
        TokenKind::NotEqual => Some(BinaryOp::NotEqual),
        _ => None,
    }
}

pub open spec fn cmp_op<'a>(k: TokenKind<'a>) -> Option<BinaryOp> {
    match k {
        TokenKind::LessThan => Some(BinaryOp::LessThan),
        TokenKind::GreaterThan => Some(BinaryOp::GreaterThan),
        TokenKind::LessEqual => Some(BinaryOp::LessEqual),
        TokenKind::GreaterEqual => Some(BinaryOp::GreaterEqual),
        _ => None,
    }
}

pub open spec fn add_op<'a>(k: TokenKind<'a>) -> Option<BinaryOp> {
    match k {
        TokenKind::Plus => Some(BinaryOp::Add),
        TokenKind::Minus => Some(BinaryOp::Sub),
        _ => None,
    }
}

pub open spec fn mult_op<'a>(k: TokenKind<'a>) -> Option<BinaryOp> {
    match k {
        TokenKind::Star => Some(BinaryOp::Mult),
        TokenKind::Slash => Some(BinaryOp::Div),
        _ => None,
    }
}

pub open spec fn unary_op<'a>(k: TokenKind<'a>) -> Option<UnaryOp> {
    match k {
        TokenKind::Not => Some(UnaryOp::Not),
        TokenKind::Minus => Some(UnaryOp::Minus),
        TokenKind::Amp => Some(UnaryOp::Ref),
        TokenKind::Star => Some(UnaryOp::Deref),
        _ => None,
    }
}

/// An expression.
#[verifier::opaque]
pub open spec fn p_expr<'a>(toks: Seq<Token<'a>>, i: int) -> Reads<SpecExpr<'a>>
    decreases toks.len() - i, 50int,
    when well_formed_tokens(toks) && 0 <= i < toks.len()
{
    p_lambda(toks, i)
}

/// `(params) -> body` when the parenthesis at `i` is closed right before an
/// `->`; else a control expression.
#[verifier::opaque]
pub open spec fn p_lambda<'a>(toks: Seq<Token<'a>>, i: int) -> Reads<SpecExpr<'a>>
    decreases toks.len() - i, 49int,
    when well_formed_tokens(toks) && 0 <= i < toks.len()
{
    if kind_at(toks, i) is LParen && kind_at(toks, paren_scan(toks, i + 1, 1)) is RArrow {
        match p_params(toks, i + 1) {
            Ok((params, j)) => {
                let k = adv(toks, adv(toks, after(toks, i + 1, j)));
                match p_lambda(toks, k) {
                    Ok((body, j2)) => Ok(
                        (expr_at(toks, i, SpecExprKind::Lambda { params, body: Box::new(body) }), j2),
                    ),
                    Err(e) => Err(e),
                }
            },
            Err(e) => Err(e),
        }
    } else {
        p_control(toks, i)
    }
}

/// The body after `do` at `k`, and the branch after `else` if one follows.
#[verifier::opaque]
pub open spec fn p_do_else<'a>(toks: Seq<Token<'a>>, k: int) -> Result<
    (SpecExpr<'a>, Option<Box<SpecExpr<'a>>>, int),
    Error,
>
    decreases toks.len() - k, 51int,
    when well_formed_tokens(toks) && 0 <= k < toks.len()
{
    match p_expr(toks, adv(toks, k)) {
        Ok((body, j)) => {
            let j = after(toks, adv(toks, k), j);
            if kind_at(toks, j) is Else {
                match p_expr(toks, adv(toks, j)) {
                    Ok((other, j2)) => Ok((body, Some(Box::new(other)), j2)),
                    Err(e) => Err(e),
                }
            } else {
                Ok((body, None, j))
            }
        },
        Err(e) => Err(e),
    }
}

/// `if c do e [else e]`, `for x in e do e [else e]`, `while c do e [else e]`,
/// or a pipe expression.
#[verifier::opaque]
pub open spec fn p_control<'a>(toks: Seq<Token<'a>>, i: int) -> Reads<SpecExpr<'a>>
    decreases toks.len() - i, 48int,
    when well_formed_tokens(toks) && 0 <= i < toks.len()
{
    match kind_at(toks, i) {
        TokenKind::If => match p_expr(toks, i + 1) {
            Ok((c, j)) => match p_do_else(toks, after(toks, i + 1, j)) {
                Ok((body, other, j2)) => Ok(
                    (
                        expr_at(
                            toks,
                            i,
                            SpecExprKind::If { condition: Box::new(c), do_body: Box::new(body), else_body: other },
                        ),
                        j2,
                    ),
                ),
                Err(e) => Err(e),
            },
            Err(e) => Err(e),
        },
        TokenKind::For => match p_expr(toks, i + 1) {
            Ok((x, j)) => {
                let j = after(toks, i + 1, j);
                match x.kind {
                    SpecExprKind::Identifier(elem) => match p_expr(toks, adv(toks, j)) {
                        Ok((iter, j2)) => match p_do_else(toks, after(toks, adv(toks, j), j2)) {
                            Ok((body, other, j3)) => Ok(
                                (
                                    expr_at(
                                        toks,
                                        i,
                                        SpecExprKind::For {
                                            elem,
                                            iter: Box::new(iter),
                                            do_body: Box::new(body),
                                            else_body: other,
                                        },
                                    ),
                                    j3,
                                ),
                            ),
                            Err(e) => Err(e),
                        },
                        Err(e) => Err(e),
                    },
                    _ => Err(err_at(toks, j, "Expected identifier")),
                }
            },
            Err(e) => Err(e),
        },
        TokenKind::While => match p_expr(toks, i + 1) {
            Ok((c, j)) => match p_do_else(toks, after(toks, i + 1, j)) {
                Ok((body, other, j2)) => Ok(
                    (
                        expr_at(
                            toks,
                            i,
                            SpecExprKind::While {
                                condition: Box::new(c),
                                do_body: Box::new(body),
                                else_body: other,
                            },
                        ),
                        j2,
                    ),
                ),
                Err(e) => Err(e),
            },
            Err(e) => Err(e),
        },
        _ => p_pipe(toks, i),
    }
}

/// `a |> b |> ...`, grouped to the left.
#[verifier::opaque]
pub open spec fn p_pipe<'a>(toks: Seq<Token<'a>>, i: int) -> Reads<SpecExpr<'a>>
    decreases toks.len() - i, 47int,
    when well_formed_tokens(toks) && 0 <= i < toks.len()
{
    match p_or(toks, i) {
        Ok((left, j)) => p_pipe_tail(toks, i, left, after(toks, i, j)),
        Err(e) => Err(e),
    }
}

#[verifier::opaque]
pub open spec fn p_pipe_tail<'a>(toks: Seq<Token<'a>>, start: int, left: SpecExpr<'a>, k: int) -> Reads<SpecExpr<'a>>
    decreases toks.len() - k, 46int,
    when well_formed_tokens(toks) && 0 <= k < toks.len()
{
    if kind_at(toks, k) is RPipe {
        match p_or(toks, adv(toks, k)) {
            Ok((right, j)) => p_pipe_tail(
                toks,
                start,
                binary_at(toks, start, left, pipe_op(kind_at(toks, k))->0, right),
                after(toks, adv(toks, k), j),
            ),
            Err(e) => Err(e),
        }
    } else {
        Ok((left, k))
    }
}

/// `or` and `nor`, grouped to the left.
#[verifier::opaque]
pub open spec fn p_or<'a>(toks: Seq<Token<'a>>, i: int) -> Reads<SpecExpr<'a>>
    decreases toks.len() - i, 45int,
    when well_formed_tokens(toks) && 0 <= i < toks.len()
{
    match p_xor(toks, i) {
        Ok((left, j)) => p_or_tail(toks, i, left, after(toks, i, j)),
        Err(e) => Err(e),
    }
}

#[verifier::opaque]
pub open spec fn p_or_tail<'a>(toks: Seq<Token<'a>>, start: int, left: SpecExpr<'a>, k: int) -> Reads<SpecExpr<'a>>
    decreases toks.len() - k, 44int,
    when well_formed_tokens(toks) && 0 <= k < toks.len()
{
    match or_op(kind_at(toks, k)) {
        Some(op) => match p_xor(toks, adv(toks, k)) {
            Ok((right, j)) => p_or_tail(toks, start, binary_at(toks, start, left, op, right), after(toks, adv(toks, k), j)),
            Err(e) => Err(e),
        },
        None => Ok((left, k)),
    }
}

/// `xor` and `xnor`, grouped to the left.
#[verifier::opaque]
pub open spec fn p_xor<'a>(toks: Seq<Token<'a>>, i: int) -> Reads<SpecExpr<'a>>
    decreases toks.len() - i, 43int,
    when well_formed_tokens(toks) && 0 <= i < toks.len()
{
    match p_and(toks, i) {
        Ok((left, j)) => p_xor_tail(toks, i, left, after(toks, i, j)),
        Err(e) => Err(e),
    }
}

#[verifier::opaque]
pub open spec fn p_xor_tail<'a>(toks: Seq<Token<'a>>, start: int, left: SpecExpr<'a>, k: int) -> Reads<SpecExpr<'a>>
    decreases toks.len() - k, 42int,
    when well_formed_tokens(toks) && 0 <= k < toks.len()
{
    match xor_op(kind_at(toks, k)) {
        Some(op) => match p_and(toks, adv(toks, k)) {
            Ok((right, j)) => p_xor_tail(toks, start, binary_at(toks, start, left, op, right), after(toks, adv(toks, k), j)),
            Err(e) => Err(e),
        },
        None => Ok((left, k)),
    }
}

/// `and` and `nand`, grouped to the left.
#[verifier::opaque]
pub open spec fn p_and<'a>(toks: Seq<Token<'a>>, i: int) -> Reads<SpecExpr<'a>>
    decreases toks.len() - i, 41int,
    when well_formed_tokens(toks) && 0 <= i < toks.len()
{
    match p_eq(toks, i) {
        Ok((left, j)) => p_and_tail(toks, i, left, after(toks, i, j)),
        Err(e) => Err(e),
    }
}

#[verifier::opaque]
pub open spec fn p_and_tail<'a>(toks: Seq<Token<'a>>, start: int, left: SpecExpr<'a>, k: int) -> Reads<SpecExpr<'a>>
    decreases toks.len() - k, 40int,
    when well_formed_tokens(toks) && 0 <= k < toks.len()
{
    match and_op(kind_at(toks, k)) {
        Some(op) => match p_eq(toks, adv(toks, k)) {
            Ok((right, j)) => p_and_tail(toks, start, binary_at(toks, start, left, op, right), after(toks, adv(toks, k), j)),
            Err(e) => Err(e),
        },
        None => Ok((left, k)),
    }
}

/// `==` and `!=`, grouped to the left.
#[verifier::opaque]
pub open spec fn p_eq<'a>(toks: Seq<Token<'a>>, i: int) -> Reads<SpecExpr<'a>>
    decreases toks.len() - i, 39int,
    when well_formed_tokens(toks) && 0 <= i < toks.len()
{
    match p_cmp(toks, i) {
        Ok((left, j)) => p_eq_tail(toks, i, left, after(toks, i, j)),
        Err(e) => Err(e),
    }
}

#[verifier::opaque]
pub open spec fn p_eq_tail<'a>(toks: Seq<Token<'a>>, start: int, left: SpecExpr<'a>, k: int) -> Reads<SpecExpr<'a>>
    decreases toks.len() - k, 38int,
    when well_formed_tokens(toks) && 0 <= k < toks.len()
{
    match eq_op(kind_at(toks, k)) {
        Some(op) => match p_cmp(toks, adv(toks, k)) {
            Ok((right, j)) => p_eq_tail(toks, start, binary_at(toks, start, left, op, right), after(toks, adv(toks, k), j)),
            Err(e) => Err(e),
        },
        None => Ok((left, k)),
    }
}

/// `<`, `>`, `<=` and `>=`, grouped to the left.
#[verifier::opaque]
pub open spec fn p_cmp<'a>(toks: Seq<Token<'a>>, i: int) -> Reads<SpecExpr<'a>>
    decreases toks.len() - i, 37int,
    when well_formed_tokens(toks) && 0 <= i < toks.len()
{
    match p_range(toks, i) {
        Ok((left, j)) => p_cmp_tail(toks, i, left, after(toks, i, j)),
        Err(e) => Err(e),
    }
}

#[verifier::opaque]
pub open spec fn p_cmp_tail<'a>(toks: Seq<Token<'a>>, start: int, left: SpecExpr<'a>, k: int) -> Reads<SpecExpr<'a>>
    decreases toks.len() - k, 36int,
    when well_formed_tokens(toks) && 0 <= k < toks.len()
{
    match cmp_op(kind_at(toks, k)) {
        Some(op) => match p_range(toks, adv(toks, k)) {
            Ok((right, j)) => p_cmp_tail(toks, start, binary_at(toks, start, left, op, right), after(toks, adv(toks, k), j)),
            Err(e) => Err(e),
        },
        None => Ok((left, k)),
    }
}

/// `a..b`, at most once.
#[verifier::opaque]
pub open spec fn p_range<'a>(toks: Seq<Token<'a>>, i: int) -> Reads<SpecExpr<'a>>
    decreases toks.len() - i, 35int,
    when well_formed_tokens(toks) && 0 <= i < toks.len()
{
    match p_add(toks, i) {
        Ok((left, j)) => {
            let j = after(toks, i, j);
            if kind_at(toks, j) is DoubleDot {
                match p_add(toks, adv(toks, j)) {
                    Ok((right, j2)) => Ok((binary_at(toks, i, left, range_op(kind_at(toks, j))->0, right), j2)),
                    Err(e) => Err(e),
                }
            } else {
                Ok((left, j))
            }
        },
        Err(e) => Err(e),
    }
}

/// `+` and `-`, grouped to the left.
#[verifier::opaque]
pub open spec fn p_add<'a>(toks: Seq<Token<'a>>, i: int) -> Reads<SpecExpr<'a>>
    decreases toks.len() - i, 34int,
    when well_formed_tokens(toks) && 0 <= i < toks.len()
{
    match p_mult(toks, i) {
        Ok((left, j)) => p_add_tail(toks, i, left, after(toks, i, j)),
        Err(e) => Err(e),
    }
}

#[verifier::opaque]
pub open spec fn p_add_tail<'a>(toks: Seq<Token<'a>>, start: int, left: SpecExpr<'a>, k: int) -> Reads<SpecExpr<'a>>
    decreases toks.len() - k, 33int,
    when well_formed_tokens(toks) && 0 <= k < toks.len()
{
    match add_op(kind_at(toks, k)) {
        Some(op) => match p_mult(toks, adv(toks, k)) {
            Ok((right, j)) => p_add_tail(toks, start, binary_at(toks, start, left, op, right), after(toks, adv(toks, k), j)),
            Err(e) => Err(e),
        },
        None => Ok((left, k)),
    }
}

/// `*` and `/`, grouped to the left.
#[verifier::opaque]
pub open spec fn p_mult<'a>(toks: Seq<Token<'a>>, i: int) -> Reads<SpecExpr<'a>>
    decreases toks.len() - i, 32int,
    when well_formed_tokens(toks) && 0 <= i < toks.len()
{
    match p_pow(toks, i) {
        Ok((left, j)) => p_mult_tail(toks, i, left, after(toks, i, j)),
        Err(e) => Err(e),
    }
}

#[verifier::opaque]
pub open spec fn p_mult_tail<'a>(toks: Seq<Token<'a>>, start: int, left: SpecExpr<'a>, k: int) -> Reads<SpecExpr<'a>>
    decreases toks.len() - k, 31int,
    when well_formed_tokens(toks) && 0 <= k < toks.len()
{
    match mult_op(kind_at(toks, k)) {
        Some(op) => match p_pow(toks, adv(toks, k)) {
            Ok((right, j)) => p_mult_tail(toks, start, binary_at(toks, start, left, op, right), after(toks, adv(toks, k), j)),
            Err(e) => Err(e),
        },
        None => Ok((left, k)),
    }
}

/// `a ** b`, grouped to the right.
#[verifier::opaque]
pub open spec fn p_pow<'a>(toks: Seq<Token<'a>>, i: int) -> Reads<SpecExpr<'a>>
    decreases toks.len() - i, 30int,
    when well_formed_tokens(toks) && 0 <= i < toks.len()
{
    match p_unary(toks, i) {
        Ok((left, j)) => {
            let j = after(toks, i, j);
            if kind_at(toks, j) is Pow {
                match p_pow(toks, adv(toks, j)) {
                    Ok((right, j2)) => Ok((binary_at(toks, i, left, pow_op(kind_at(toks, j))->0, right), j2)),
                    Err(e) => Err(e),
                }
            } else {
                Ok((left, j))
            }
        },
        Err(e) => Err(e),
    }
}

/// `!`, `-`, `&` or `*` before an operand, or a postfix expression.
#[verifier::opaque]
pub open spec fn p_unary<'a>(toks: Seq<Token<'a>>, i: int) -> Reads<SpecExpr<'a>>
    decreases toks.len() - i, 29int,
    when well_formed_tokens(toks) && 0 <= i < toks.len()
{
    match unary_op(kind_at(toks, i)) {
        Some(op) => match p_unary(toks, adv(toks, i)) {
            Ok((right, j)) => Ok((expr_at(toks, i, SpecExprKind::Unary { op, right: Box::new(right) }), j)),
            Err(e) => Err(e),
        },
        None => p_postfix(toks, i),
    }
}

/// A primary expression followed by calls `(args)`, members `.m` and static
/// entries `::m`.
#[verifier::opaque]
pub open spec fn p_postfix<'a>(toks: Seq<Token<'a>>, i: int) -> Reads<SpecExpr<'a>>
    decreases toks.len() - i, 28int,
    when well_formed_tokens(toks) && 0 <= i < toks.len()
{
    match p_primary(toks, i) {
        Ok((base, j)) => p_postfix_tail(toks, i, base, after(toks, i, j)),
        Err(e) => Err(e),
    }
}

#[verifier::opaque]
pub open spec fn p_postfix_tail<'a>(toks: Seq<Token<'a>>, start: int, base: SpecExpr<'a>, k: int) -> Reads<SpecExpr<'a>>
    decreases toks.len() - k, 27int,
    when well_formed_tokens(toks) && 0 <= k < toks.len()
{
    match kind_at(toks, k) {
        TokenKind::LParen => match p_exprs(toks, adv(toks, k)) {
            Ok((args, j)) => p_postfix_tail(
                toks,
                start,
                expr_at(toks, start, SpecExprKind::Call { base: Box::new(base), args }),
                adv(toks, after(toks, adv(toks, k), j)),
            ),
            Err(e) => Err(e),
        },
        TokenKind::Dot => {
            let k1 = adv(toks, k);
            match kind_at(toks, k1) {
                TokenKind::Identifier(member) => p_postfix_tail(
                    toks,
                    start,
                    expr_at(toks, start, SpecExprKind::MemberAccess { target: Box::new(base), member }),
                    adv(toks, k1),
                ),
                _ => Err(err_at(toks, k1, "Expected member name after '.'")),
            }
        },
        TokenKind::DoubleColon => {
            let k1 = adv(toks, k);
            match kind_at(toks, k1) {
                TokenKind::Identifier(member) => p_postfix_tail(
                    toks,
                    start,
                    expr_at(toks, start, SpecExprKind::StaticAccess { target: Box::new(base), member }),
                    adv(toks, k1),
                ),
                _ => Err(err_at(toks, k1, "Expected static entry name after '::'")),
            }
        },
        _ => Ok((base, k)),
    }
}

/// A literal, a name, a state instance `Name { f: e, ... }`, a parenthesised
/// expression or tuple, an array, a block, `return e`, `yield e`, `break` or
/// `continue`.
#[verifier::opaque]
pub open spec fn p_primary<'a>(toks: Seq<Token<'a>>, i: int) -> Reads<SpecExpr<'a>>
    decreases toks.len() - i, 26int,
    when well_formed_tokens(toks) && 0 <= i < toks.len()
{
    match kind_at(toks, i) {
        TokenKind::Number(n) => Ok((expr_at(toks, i, SpecExprKind::Number(n)), adv(toks, i))),
        TokenKind::StringLiteral(s) => Ok((expr_at(toks, i, SpecExprKind::String(s)), adv(toks, i))),
        TokenKind::True => Ok((expr_at(toks, i, SpecExprKind::Bool(true)), adv(toks, i))),
        TokenKind::False => Ok((expr_at(toks, i, SpecExprKind::Bool(false)), adv(toks, i))),
        TokenKind::Identifier(id) => if kind_at(toks, i + 1) is LBrace {
            let k = adv(toks, adv(toks, i));
            match p_ifields(toks, k) {
                Ok((fields, j)) => Ok(
                    (expr_at(toks, i, SpecExprKind::StateInstance { id, fields }), adv(toks, after(toks, k, j))),
                ),
                Err(e) => Err(e),
            }
        } else {
            Ok((expr_at(toks, i, SpecExprKind::Identifier(id)), adv(toks, i)))
        },
        TokenKind::LParen => match p_expr(toks, adv(toks, i)) {
            Ok((first, j)) => {
                let j = after(toks, adv(toks, i), j);
                if kind_at(toks, j) is Comma {
                    match p_exprs(toks, adv(toks, j)) {
                        Ok((rest, j2)) => Ok(
                            (
                                expr_at(toks, i, SpecExprKind::Tuple(seq![first] + rest)),
                                adv(toks, after(toks, adv(toks, j), j2)),
                            ),
                        ),
                        Err(e) => Err(e),
                    }
                } else {
                    Ok((first, adv(toks, j)))
                }
            },
            Err(e) => Err(e),
        },
        TokenKind::LSquare => match p_exprs(toks, adv(toks, i)) {
            Ok((items, j)) => Ok(
                (expr_at(toks, i, SpecExprKind::Array(items)), adv(toks, after(toks, adv(toks, i), j))),
            ),
            Err(e) => Err(e),
        },
        TokenKind::LBrace => match p_block_stmts(toks, adv(toks, i)) {
            Ok((stmts, j)) => if kind_at(toks, j) is Eof {
                Err(
                    Error::Located {
                        line: tok_at(toks, i).line,
                        col: tok_at(toks, i).col,
                        message: "Unterminated block",
                    },
                )
            } else {
                Ok((expr_at(toks, i, SpecExprKind::Block(stmts)), adv(toks, j)))
            },
            Err(e) => Err(e),
        },
        TokenKind::Return => match p_expr(toks, adv(toks, i)) {
            Ok((e, j)) => Ok((expr_at(toks, i, SpecExprKind::Return(Box::new(e))), j)),
            Err(e) => Err(e),
        },
        TokenKind::Yield => match p_expr(toks, adv(toks, i)) {
            Ok((e, j)) => Ok((expr_at(toks, i, SpecExprKind::Yield(Box::new(e))), j)),
            Err(e) => Err(e),
        },
        TokenKind::Break => Ok((expr_at(toks, i, SpecExprKind::Break), adv(toks, i))),
        TokenKind::Continue => Ok((expr_at(toks, i, SpecExprKind::Continue), adv(toks, i))),
        _ => Err(err_at(toks, i, "Invalid expression")),
    }
}

/// The statements of a block, up to its `}` or the end of the tokens.
#[verifier::opaque]
pub open spec fn p_block_stmts<'a>(toks: Seq<Token<'a>>, k: int) -> Reads<Seq<SpecStatement<'a>>>
    decreases toks.len() - k, 62int,
    when well_formed_tokens(toks) && 0 <= k < toks.len()
{
    if kind_at(toks, k) is RBrace || kind_at(toks, k) is Eof {
        Ok((Seq::empty(), k))
    } else {
        match p_statement(toks, k) {
            Ok((s, j)) => match p_block_stmts(toks, after(toks, k + 1, j)) {
                Ok((rest, j2)) => Ok((seq![s] + rest, j2)),
                Err(e) => Err(e),
            },
            Err(e) => Err(e),
        }
    }
}

/// Expressions separated by commas, up to a closing bracket; a comma may
/// trail.
#[verifier::opaque]
pub open spec fn p_exprs<'a>(toks: Seq<Token<'a>>, i: int) -> Reads<Seq<SpecExpr<'a>>>
    decreases toks.len() - i, 57int,
    when well_formed_tokens(toks) && 0 <= i < toks.len()
{
    if is_closer(kind_at(toks, i)) {
        Ok((Seq::empty(), i))
    } else {
        p_expr_items(toks, i)
    }
}

#[verifier::opaque]
pub open spec fn p_expr_items<'a>(toks: Seq<Token<'a>>, i: int) -> Reads<Seq<SpecExpr<'a>>>
    decreases toks.len() - i, 56int,
    when well_formed_tokens(toks) && 0 <= i < toks.len()
{
    match p_expr(toks, i) {
        Ok((x, j)) => {
            let j = after(toks, i, j);
            if kind_at(toks, j) is Comma {
                let j2 = adv(toks, j);
                if is_closer(kind_at(toks, j2)) {
                    Ok((seq![x], j2))
                } else {
                    match p_expr_items(toks, j2) {
                        Ok((rest, j3)) => Ok((seq![x] + rest, j3)),
                        Err(e) => Err(e),
                    }
                }
            } else {
                Ok((seq![x], j))
            }
        },
        Err(e) => Err(e),
    }
}

/// A parameter `name: type`; `self` alone stands for `self: Self`.
#[verifier::opaque]
pub open spec fn p_param<'a>(toks: Seq<Token<'a>>, i: int) -> Reads<SpecParam<'a>>
    decreases toks.len() - i, 55int,
    when well_formed_tokens(toks) && 0 <= i < toks.len()
{
    match kind_at(toks, i) {
        TokenKind::Identifier(id) => {
            let k = adv(toks, i);
            if id@ == "self"@ {
                Ok((SpecParam { id, ty: expr_at(toks, i, SpecExprKind::Identifier("Self")) }, k))
            } else {
                match p_expr(toks, adv(toks, k)) {
                    Ok((ty, j)) => Ok((SpecParam { id, ty }, j)),
                    Err(e) => Err(e),
                }
            }
        },
        _ => Err(err_at(toks, i, "Expected parameter identifier")),
    }
}

/// Parameters separated by commas, up to a closing bracket.
#[verifier::opaque]
pub open spec fn p_params<'a>(toks: Seq<Token<'a>>, i: int) -> Reads<Seq<SpecParam<'a>>>
    decreases toks.len() - i, 57int,
    when well_formed_tokens(toks) && 0 <= i < toks.len()
{
    if is_closer(kind_at(toks, i)) {
        Ok((Seq::empty(), i))
    } else {
        p_param_items(toks, i)
    }
}

#[verifier::opaque]
pub open spec fn p_param_items<'a>(toks: Seq<Token<'a>>, i: int) -> Reads<Seq<SpecParam<'a>>>
    decreases toks.len() - i, 56int,
    when well_formed_tokens(toks) && 0 <= i < toks.len()
{
    match p_param(toks, i) {
        Ok((x, j)) => {
            let j = after(toks, i, j);
            if kind_at(toks, j) is Comma {
                let j2 = adv(toks, j);
                if is_closer(kind_at(toks, j2)) {
                    Ok((seq![x], j2))
                } else {
                    match p_param_items(toks, j2) {
                        Ok((rest, j3)) => Ok((seq![x] + rest, j3)),
                        Err(e) => Err(e),
                    }
                }
            } else {
                Ok((seq![x], j))
            }
        },
        Err(e) => Err(e),
    }
}

/// A field `[pub] name: type` of a state.
#[verifier::opaque]
pub open spec fn p_field<'a>(toks: Seq<Token<'a>>, i: int) -> Reads<SpecField<'a>>
    decreases toks.len() - i, 55int,
    when well_formed_tokens(toks) && 0 <= i < toks.len()
{
    let (visibility, k) = if kind_at(toks, i) is Pub {
        (Visibility::Pub, adv(toks, i))
    } else {
        (Visibility::Priv, i)
    };
    match kind_at(toks, k) {
        TokenKind::Identifier(id) => match p_expr(toks, adv(toks, adv(toks, k))) {
            Ok((ty, j)) => Ok((SpecField { visibility, id, ty }, j)),
            Err(e) => Err(e),
        },
        _ => Err(err_at(toks, k, "Expected field identifier")),
    }
}

/// Fields separated by commas, up to a closing bracket.
#[verifier::opaque]
pub open spec fn p_fields<'a>(toks: Seq<Token<'a>>, i: int) -> Reads<Seq<SpecField<'a>>>
    decreases toks.len() - i, 57int,
    when well_formed_tokens(toks) && 0 <= i < toks.len()
{
    if is_closer(kind_at(toks, i)) {
        Ok((Seq::empty(), i))
    } else {
        p_field_items(toks, i)
    }
}

#[verifier::opaque]
pub open spec fn p_field_items<'a>(toks: Seq<Token<'a>>, i: int) -> Reads<Seq<SpecField<'a>>>
    decreases toks.len() - i, 56int,
    when well_formed_tokens(toks) && 0 <= i < toks.len()
{
    match p_field(toks, i) {
        Ok((x, j)) => {
            let j = after(toks, i, j);
            if kind_at(toks, j) is Comma {
                let j2 = adv(toks, j);
                if is_closer(kind_at(toks, j2)) {
                    Ok((seq![x], j2))
                } else {
                    match p_field_items(toks, j2) {
                        Ok((rest, j3)) => Ok((seq![x] + rest, j3)),
                        Err(e) => Err(e),
                    }
                }
            } else {
                Ok((seq![x], j))
            }
        },
        Err(e) => Err(e),
    }
}

/// A field `name: value` of a state instance.
#[verifier::opaque]
pub open spec fn p_ifield<'a>(toks: Seq<Token<'a>>, i: int) -> Reads<SpecInstanceField<'a>>
    decreases toks.len() - i, 55int,
    when well_formed_tokens(toks) && 0 <= i < toks.len()
{
    match kind_at(toks, i) {
        TokenKind::Identifier(id) => match p_expr(toks, adv(toks, adv(toks, i))) {
            Ok((value, j)) => Ok((SpecInstanceField { id, value }, j)),
            Err(e) => Err(e),
        },
        _ => Err(err_at(toks, i, "Expected field identifier")),
    }
}

/// Instance fields separated by commas, up to a closing bracket.
#[verifier::opaque]
pub open spec fn p_ifields<'a>(toks: Seq<Token<'a>>, i: int) -> Reads<Seq<SpecInstanceField<'a>>>
    decreases toks.len() - i, 57int,
    when well_formed_tokens(toks) && 0 <= i < toks.len()
{
    if is_closer(kind_at(toks, i)) {
        Ok((Seq::empty(), i))
    } else {
        p_ifield_items(toks, i)
    }
}

#[verifier::opaque]
pub open spec fn p_ifield_items<'a>(toks: Seq<Token<'a>>, i: int) -> Reads<Seq<SpecInstanceField<'a>>>
    decreases toks.len() - i, 56int,
    when well_formed_tokens(toks) && 0 <= i < toks.len()
{
    match p_ifield(toks, i) {
        Ok((x, j)) => {
            let j = after(toks, i, j);
            if kind_at(toks, j) is Comma {
                let j2 = adv(toks, j);
                if is_closer(kind_at(toks, j2)) {
                    Ok((seq![x], j2))
                } else {
                    match p_ifield_items(toks, j2) {
                        Ok((rest, j3)) => Ok((seq![x] + rest, j3)),
                        Err(e) => Err(e),
                    }
                }
            } else {
                Ok((seq![x], j))
            }
        },
        Err(e) => Err(e),
    }
}

/// A variant `Name` or `Name(type, ...)` of an enumeration.
#[verifier::opaque]
pub open spec fn p_variant<'a>(toks: Seq<Token<'a>>, i: int) -> Reads<SpecVariant<'a>>
    decreases toks.len() - i, 55int,
    when well_formed_tokens(toks) && 0 <= i < toks.len()
{
    match kind_at(toks, i) {
        TokenKind::Identifier(id) => {
            let k = adv(toks, i);
            if kind_at(toks, k) is LParen {
                match p_exprs(toks, adv(toks, k)) {
                    Ok((data, j)) => Ok((SpecVariant { id, data }, adv(toks, after(toks, adv(toks, k), j)))),
                    Err(e) => Err(e),
                }
            } else {
                Ok((SpecVariant { id, data: Seq::empty() }, k))
            }
        },
        _ => Err(err_at(toks, i, "Expected variant identifier")),
    }
}

/// Variants separated by commas, up to a closing bracket.
#[verifier::opaque]
pub open spec fn p_variants<'a>(toks: Seq<Token<'a>>, i: int) -> Reads<Seq<SpecVariant<'a>>>
    decreases toks.len() - i, 57int,
    when well_formed_tokens(toks) && 0 <= i < toks.len()
{
    if is_closer(kind_at(toks, i)) {
        Ok((Seq::empty(), i))
    } else {
        p_variant_items(toks, i)
    }
}

#[verifier::opaque]
pub open spec fn p_variant_items<'a>(toks: Seq<Token<'a>>, i: int) -> Reads<Seq<SpecVariant<'a>>>
    decreases toks.len() - i, 56int,
    when well_formed_tokens(toks) && 0 <= i < toks.len()
{
    match p_variant(toks, i) {
        Ok((x, j)) => {
            let j = after(toks, i, j);
            if kind_at(toks, j) is Comma {
                let j2 = adv(toks, j);
                if is_closer(kind_at(toks, j2)) {
                    Ok((seq![x], j2))
                } else {
                    match p_variant_items(toks, j2) {
                        Ok((rest, j3)) => Ok((seq![x] + rest, j3)),
                        Err(e) => Err(e),
                    }
                }
            } else {
                Ok((seq![x], j))
            }
        },
        Err(e) => Err(e),
    }
}

/// The index after a statement whose last expression is `value` and ends at
/// `j`: a `;` follows unless `value` is a block.
pub open spec fn end_after<'a>(toks: Seq<Token<'a>>, value: SpecExpr<'a>, j: int) -> int {
    if value.kind is Block {
        j
    } else {
        adv(toks, j)
    }
}

/// A statement, chosen by its first token.
#[verifier::opaque]
pub open spec fn p_statement<'a>(toks: Seq<Token<'a>>, i: int) -> Reads<SpecStatement<'a>>
    decreases toks.len() - i, 61int,
    when well_formed_tokens(toks) && 0 <= i < toks.len()
{
    match kind_at(toks, i) {
        TokenKind::Pub => p_visibility(toks, i),
        TokenKind::Import => p_import(toks, i),
        TokenKind::Var => p_var(toks, i, VarKind::Var, Visibility::Priv),
        TokenKind::Mut => p_assign(toks, i),
        TokenKind::Node => p_node(toks, i, Visibility::Priv),
        TokenKind::Const => p_var(toks, i, VarKind::Const, Visibility::Priv),
        TokenKind::Func => p_func(toks, i, Visibility::Priv),
        TokenKind::State => p_state(toks, i, Visibility::Priv),
        TokenKind::Container => p_container(toks, i, Visibility::Priv),
        TokenKind::Enum => p_enum(toks, i, Visibility::Priv),
        TokenKind::Method => p_method(toks, i),
        TokenKind::Alias => p_alias(toks, i),
        _ => p_statement_expr(toks, i),
    }
}

/// `pub` before a variable, constant, node, function, state or container.
#[verifier::opaque]
pub open spec fn p_visibility<'a>(toks: Seq<Token<'a>>, i: int) -> Reads<SpecStatement<'a>>
    decreases toks.len() - i, 59int,
    when well_formed_tokens(toks) && 0 <= i < toks.len()
{
    let k = adv(toks, i);
    match kind_at(toks, k) {
        TokenKind::Var => p_var(toks, k, VarKind::Var, Visibility::Pub),
        TokenKind::Node => p_node(toks, k, Visibility::Pub),
        TokenKind::Const => p_var(toks, k, VarKind::Const, Visibility::Pub),
        TokenKind::Func => p_func(toks, k, Visibility::Pub),
        TokenKind::State => p_state(toks, k, Visibility::Pub),
        TokenKind::Container => p_container(toks, k, Visibility::Pub),
        TokenKind::Pub => Err(err_at(toks, k, "Repeated visibility modifier")),
        _ => Err(err_at(toks, k, "Invalid visibility modifier")),
    }
}

/// `import [alias =] path;`
#[verifier::opaque]
pub open spec fn p_import<'a>(toks: Seq<Token<'a>>, i: int) -> Reads<SpecStatement<'a>>
    decreases toks.len() - i, 58int,
    when well_formed_tokens(toks) && 0 <= i < toks.len()
{
    let k = adv(toks, i);
    let (alias, k1) = match kind_at(toks, k) {
        TokenKind::Identifier(name) => if kind_at(toks, k + 1) is Assign {
            (Some(name), adv(toks, adv(toks, k)))
        } else {
            (None, k)
        },
        _ => (None, k),
    };
    match p_expr(toks, k1) {
        Ok((path, j)) => Ok((stmt_at(toks, i, SpecStatementKind::Import { alias, path }), adv(toks, after(toks, k1, j)))),
        Err(e) => Err(e),
    }
}

/// `var name [: type] = value` or `const ...`; `;` follows unless the value
/// is a block.
#[verifier::opaque]
pub open spec fn p_var<'a>(toks: Seq<Token<'a>>, i: int, kind: VarKind, visibility: Visibility) -> Reads<SpecStatement<'a>>
    decreases toks.len() - i, 58int,
    when well_formed_tokens(toks) && 0 <= i < toks.len()
{
    let k = adv(toks, i);
    match kind_at(toks, k) {
        TokenKind::Identifier(id) => {
            let k1 = adv(toks, k);
            let typed: Result<(Option<SpecExpr<'a>>, int), Error> = if kind_at(toks, k1) is Colon {
                match p_expr(toks, adv(toks, k1)) {
                    Ok((t, j)) => Ok((Some(t), after(toks, adv(toks, k1), j))),
                    Err(e) => Err(e),
                }
            } else {
                Ok((None, k1))
            };
            match typed {
                Ok((ty, k2)) => match p_expr(toks, adv(toks, k2)) {
                    Ok((value, j)) => Ok(
                        (
                            stmt_at(toks, i, SpecStatementKind::VarDeclare { visibility, kind, id, ty, value }),
                            end_after(toks, value, after(toks, adv(toks, k2), j)),
                        ),
                    ),
                    Err(e) => Err(e),
                },
                Err(e) => Err(e),
            }
        },
        _ => Err(err_at(toks, k, "Expected variable name")),
    }
}

/// `mut target = value`; `;` follows unless the value is a block.
#[verifier::opaque]
pub open spec fn p_assign<'a>(toks: Seq<Token<'a>>, i: int) -> Reads<SpecStatement<'a>>
    decreases toks.len() - i, 58int,
    when well_formed_tokens(toks) && 0 <= i < toks.len()
{
    let k = adv(toks, i);
    match p_expr(toks, k) {
        Ok((var, j)) => {
            let k1 = adv(toks, after(toks, k, j));
            match p_expr(toks, k1) {
                Ok((value, j2)) => Ok(
                    (
                        stmt_at(toks, i, SpecStatementKind::VarAssign { var, value }),
                        end_after(toks, value, after(toks, k1, j2)),
                    ),
                ),
                Err(e) => Err(e),
            }
        },
        Err(e) => Err(e),
    }
}

/// `node name: type = value`; `;` follows unless the value is a block.
#[verifier::opaque]
pub open spec fn p_node<'a>(toks: Seq<Token<'a>>, i: int, visibility: Visibility) -> Reads<SpecStatement<'a>>
    decreases toks.len() - i, 58int,
    when well_formed_tokens(toks) && 0 <= i < toks.len()
{
    let k = adv(toks, i);
    match kind_at(toks, k) {
        TokenKind::Identifier(id) => {
            let k1 = adv(toks, adv(toks, k));
            match p_expr(toks, k1) {
                Ok((ty, j)) => {
                    let k2 = adv(toks, after(toks, k1, j));
                    match p_expr(toks, k2) {
                        Ok((value, j2)) => Ok(
                            (
                                stmt_at(toks, i, SpecStatementKind::Node { visibility, id, ty, value }),
                                end_after(toks, value, after(toks, k2, j2)),
                            ),
                        ),
                        Err(e) => Err(e),
                    }
                },
                Err(e) => Err(e),
            }
        },
        _ => Err(err_at(toks, k, "Expected node name")),
    }
}

/// `func name(params) -> type body`; `;` follows unless the body is a
/// block.
#[verifier::opaque]
pub open spec fn p_func<'a>(toks: Seq<Token<'a>>, i: int, visibility: Visibility) -> Reads<SpecStatement<'a>>
    decreases toks.len() - i, 58int,
    when well_formed_tokens(toks) && 0 <= i < toks.len()
{
    let k = adv(toks, i);
    match kind_at(toks, k) {
        TokenKind::Identifier(id) => {
            let k1 = adv(toks, adv(toks, k));
            match p_params(toks, k1) {
                Ok((params, j)) => {
                    let k2 = adv(toks, adv(toks, after(toks, k1, j)));
                    match p_expr(toks, k2) {
                        Ok((ty, j2)) => {
                            let k3 = after(toks, k2, j2);
                            match p_expr(toks, k3) {
                                Ok((body, j3)) => Ok(
                                    (
                                        stmt_at(toks, i, SpecStatementKind::Func { visibility, id, params, ty, body }),
                                        end_after(toks, body, after(toks, k3, j3)),
                                    ),
                                ),
                                Err(e) => Err(e),
                            }
                        },
                        Err(e) => Err(e),
                    }
                },
                Err(e) => Err(e),
            }
        },
        _ => Err(err_at(toks, k, "Expected function name")),
    }
}

/// `state Name { fields }`
#[verifier::opaque]
pub open spec fn p_state<'a>(toks: Seq<Token<'a>>, i: int, visibility: Visibility) -> Reads<SpecStatement<'a>>
    decreases toks.len() - i, 58int,
    when well_formed_tokens(toks) && 0 <= i < toks.len()
{
    let k = adv(toks, i);
    match kind_at(toks, k) {
        TokenKind::Identifier(id) => {
            let k1 = adv(toks, adv(toks, k));
            match p_fields(toks, k1) {
                Ok((fields, j)) => Ok(
                    (stmt_at(toks, i, SpecStatementKind::State { visibility, id, fields }), adv(toks, after(toks, k1, j))),
                ),
                Err(e) => Err(e),
            }
        },
        _ => Err(err_at(toks, k, "Expected object name")),
    }
}

/// `container Name { types }`
#[verifier::opaque]
pub open spec fn p_container<'a>(toks: Seq<Token<'a>>, i: int, visibility: Visibility) -> Reads<SpecStatement<'a>>
    decreases toks.len() - i, 58int,
    when well_formed_tokens(toks) && 0 <= i < toks.len()
{
    let k = adv(toks, i);
    match kind_at(toks, k) {
        TokenKind::Identifier(id) => {
            let k1 = adv(toks, adv(toks, k));
            match p_exprs(toks, k1) {
                Ok((types, j)) => Ok(
                    (stmt_at(toks, i, SpecStatementKind::Container { visibility, id, types }), adv(toks, after(toks, k1, j))),
                ),
                Err(e) => Err(e),
            }
        },
        _ => Err(err_at(toks, k, "Expected container name")),
    }
}

/// `enum Name { variants }`
#[verifier::opaque]
pub open spec fn p_enum<'a>(toks: Seq<Token<'a>>, i: int, visibility: Visibility) -> Reads<SpecStatement<'a>>
    decreases toks.len() - i, 58int,
    when well_formed_tokens(toks) && 0 <= i < toks.len()
{
    let k = adv(toks, i);
    match kind_at(toks, k) {
        TokenKind::Identifier(id) => {
            let k1 = adv(toks, adv(toks, k));
            match p_variants(toks, k1) {
                Ok((variants, j)) => Ok(
                    (stmt_at(toks, i, SpecStatementKind::Enum { visibility, id, variants }), adv(toks, after(toks, k1, j))),
                ),
                Err(e) => Err(e),
            }
        },
        _ => Err(err_at(toks, k, "Expected enumeration name")),
    }
}

/// `method target { functions }`: the body must be a block of functions.
#[verifier::opaque]
pub open spec fn p_method<'a>(toks: Seq<Token<'a>>, i: int) -> Reads<SpecStatement<'a>>
    decreases toks.len() - i, 58int,
    when well_formed_tokens(toks) && 0 <= i < toks.len()
{
    let k = adv(toks, i);
    match p_expr(toks, k) {
        Ok((target, j)) => {
            let k1 = after(toks, k, j);
            match p_expr(toks, k1) {
                Ok((methods, j2)) => match methods.kind {
                    SpecExprKind::Block(stmts) => if all_funcs(stmts) {
                        Ok((stmt_at(toks, i, SpecStatementKind::Method { target, methods }), after(toks, k1, j2)))
                    } else {
                        Err(
                            Error::Located {
                                line: tok_at(toks, k1).line,
                                col: tok_at(toks, k1).col,
                                message: "Method statements must be functions",
                            },
                        )
                    },
                    _ => Err(
                        Error::Located {
                            line: tok_at(toks, k1).line,
                            col: tok_at(toks, k1).col,
                            message: "Method body must be a block expression",
                        },
                    ),
                },
                Err(e) => Err(e),
            }
        },
        Err(e) => Err(e),
    }
}

/// `alias Name = type;`
#[verifier::opaque]
pub open spec fn p_alias<'a>(toks: Seq<Token<'a>>, i: int) -> Reads<SpecStatement<'a>>
    decreases toks.len() - i, 58int,
    when well_formed_tokens(toks) && 0 <= i < toks.len()
{
    let k = adv(toks, i);
    match kind_at(toks, k) {
        TokenKind::Identifier(alias_id) => {
            let k1 = adv(toks, adv(toks, k));
            match p_expr(toks, k1) {
                Ok((ty, j)) => Ok(
                    (stmt_at(toks, i, SpecStatementKind::Alias { alias_id, ty }), adv(toks, after(toks, k1, j))),
                ),
                Err(e) => Err(e),
            }
        },
        _ => Err(err_at(toks, k, "Expected type alias")),
    }
}

/// An expression as a statement; `;` follows unless it ends with a block.
#[verifier::opaque]
pub open spec fn p_statement_expr<'a>(toks: Seq<Token<'a>>, i: int) -> Reads<SpecStatement<'a>>
    decreases toks.len() - i, 60int,
    when well_formed_tokens(toks) && 0 <= i < toks.len()
{
    match p_expr(toks, i) {
        Ok((e, j)) => {
            let j = after(toks, i, j);
            let end = if brace_terminated(e) {
                j
            } else {
                adv(toks, j)
            };
            Ok((stmt_at(toks, i, SpecStatementKind::Expr(e)), end))
        },
        Err(e) => Err(e),
    }
}

/// The statements of a program from index `k` up to `Eof`.
#[verifier::opaque]
pub open spec fn p_program<'a>(toks: Seq<Token<'a>>, k: int) -> Result<Seq<SpecStatement<'a>>, Error>
    decreases toks.len() - k,
    when well_formed_tokens(toks) && 0 <= k < toks.len()
{
    if kind_at(toks, k) is Eof {
        Ok(Seq::empty())
    } else {
        match p_statement(toks, k) {
            Ok((s, j)) => match p_program(toks, after(toks, k + 1, j)) {
                Ok(rest) => Ok(seq![s] + rest),
                Err(e) => Err(e),
            },
            Err(e) => Err(e),
        }
    }
}

/// Whether `r`, from a parser that ended at index `end`, is what the grammar
/// gives in `g`: the model of the tree and that index, or the same error.
pub open spec fn reads_as<T: View>(r: Result<T, Error>, g: Reads<T::V>, end: int) -> bool {
    match r {
        Ok(t) => g == Ok::<(T::V, int), Error>((t@, end)),
        Err(e) => g == Err::<(T::V, int), Error>(e),
    }
}

/// Whether `r` is what the grammar gives for a list of expressions.
pub open spec fn exprs_read<'a>(r: Result<Vec<Expr<'a>>, Error>, g: Reads<Seq<SpecExpr<'a>>>, end: int) -> bool {
    match r {
        Ok(v) => g == Ok::<(Seq<SpecExpr<'a>>, int), Error>((view_exprs(v@), end)),
        Err(e) => g == Err::<(Seq<SpecExpr<'a>>, int), Error>(e),
    }
}

/// Whether `r` is what the grammar gives for a list of parameters.
pub open spec fn params_read<'a>(r: Result<Vec<Param<'a>>, Error>, g: Reads<Seq<SpecParam<'a>>>, end: int) -> bool {
    match r {
        Ok(v) => g == Ok::<(Seq<SpecParam<'a>>, int), Error>((view_params(v@), end)),
        Err(e) => g == Err::<(Seq<SpecParam<'a>>, int), Error>(e),
    }
}

/// Whether `r` is what the grammar gives for a list of fields.
pub open spec fn fields_read<'a>(r: Result<Vec<Field<'a>>, Error>, g: Reads<Seq<SpecField<'a>>>, end: int) -> bool {
    match r {
        Ok(v) => g == Ok::<(Seq<SpecField<'a>>, int), Error>((view_fields(v@), end)),
        Err(e) => g == Err::<(Seq<SpecField<'a>>, int), Error>(e),
    }
}

/// Whether `r` is what the grammar gives for a list of instance fields.
pub open spec fn ifields_read<'a>(
    r: Result<Vec<InstanceField<'a>>, Error>,
    g: Reads<Seq<SpecInstanceField<'a>>>,
    end: int,
) -> bool {
    match r {
        Ok(v) => g == Ok::<(Seq<SpecInstanceField<'a>>, int), Error>((view_instance_fields(v@), end)),
        Err(e) => g == Err::<(Seq<SpecInstanceField<'a>>, int), Error>(e),
    }
}

/// Whether `r` is what the grammar gives for a list of variants.
pub open spec fn variants_read<'a>(r: Result<Vec<Variant<'a>>, Error>, g: Reads<Seq<SpecVariant<'a>>>, end: int) -> bool {
    match r {
        Ok(v) => g == Ok::<(Seq<SpecVariant<'a>>, int), Error>((view_variants(v@), end)),
        Err(e) => g == Err::<(Seq<SpecVariant<'a>>, int), Error>(e),
    }
}

/// Whether `r` is what the grammar gives for a body and its `else` branch.
pub open spec fn do_else_read<'a>(
    r: Result<(Expr<'a>, Option<Box<Expr<'a>>>), Error>,
    g: Result<(SpecExpr<'a>, Option<Box<SpecExpr<'a>>>, int), Error>,
    end: int,
) -> bool {
    match r {
        Ok((body, other)) => g == Ok::<(SpecExpr<'a>, Option<Box<SpecExpr<'a>>>, int), Error>(
            (body@, view_opt(other), end),
        ),
        Err(e) => g == Err::<(SpecExpr<'a>, Option<Box<SpecExpr<'a>>>, int), Error>(e),
    }
}

/// Puts `done` in front of the items of `rest`, or passes on its error.
pub open spec fn join<V>(done: Seq<V>, rest: Reads<Seq<V>>) -> Reads<Seq<V>> {
    match rest {
        Ok((r, j)) => Ok((done + r, j)),
        Err(e) => Err(e),
    }
}

/// A chain of `|>` read from `i` fails with its first operand, or goes on
/// from it.
pub proof fn lemma_pipe_first<'a>(toks: Seq<Token<'a>>, i: int)
    requires
        well_formed_tokens(toks),
        0 <= i < toks.len(),
    ensures
        p_or(toks, i) is Err ==> p_pipe(toks, i) == p_or(toks, i),
        p_or(toks, i) matches Ok((first, j)) ==> (i <= j < toks.len() ==> p_pipe(toks, i) == p_pipe_tail(toks, i, first, j)),
{
    reveal_with_fuel(p_pipe, 1);
    reveal_with_fuel(p_or, 1);
    reveal_with_fuel(p_pipe_tail, 1);
}

/// An operator of the chain at `k` fails with the operand after it, or joins
/// that operand to what was read.
pub proof fn lemma_pipe_next<'a>(toks: Seq<Token<'a>>, start: int, left: SpecExpr<'a>, k: int)
    requires
        well_formed_tokens(toks),
        0 <= k < toks.len(),
        kind_at(toks, k) is RPipe,
    ensures
        p_or(toks, adv(toks, k)) is Err ==> p_pipe_tail(toks, start, left, k) == p_or(toks, adv(toks, k)),
        p_or(toks, adv(toks, k)) matches Ok((right, j)) ==> (adv(toks, k) <= j < toks.len()
            ==> p_pipe_tail(toks, start, left, k) == p_pipe_tail(toks, start, binary_at(toks, start, left, BinaryOp::RPipe, right), j)),
{
    reveal_with_fuel(p_pipe_tail, 1);
    reveal_with_fuel(p_or, 1);
}

/// Without an operator at `k`, the chain ends there.
pub proof fn lemma_pipe_end<'a>(toks: Seq<Token<'a>>, start: int, left: SpecExpr<'a>, k: int)
    requires
        well_formed_tokens(toks),
        0 <= k < toks.len(),
        !(kind_at(toks, k) is RPipe),
    ensures
        p_pipe_tail(toks, start, left, k) == Ok::<(SpecExpr<'a>, int), Error>((left, k)),
{
    reveal_with_fuel(p_pipe_tail, 1);
}

/// A chain of `or` and `nor` read from `i` fails with its first operand, or goes on
/// from it.
pub proof fn lemma_or_first<'a>(toks: Seq<Token<'a>>, i: int)
    requires
        well_formed_tokens(toks),
        0 <= i < toks.len(),
    ensures
        p_xor(toks, i) is Err ==> p_or(toks, i) == p_xor(toks, i),
        p_xor(toks, i) matches Ok((first, j)) ==> (i <= j < toks.len() ==> p_or(toks, i) == p_or_tail(toks, i, first, j)),
{
    reveal_with_fuel(p_or, 1);
    reveal_with_fuel(p_xor, 1);
    reveal_with_fuel(p_or_tail, 1);
}

/// An operator of the chain at `k` fails with the operand after it, or joins
/// that operand to what was read.
pub proof fn lemma_or_next<'a>(toks: Seq<Token<'a>>, start: int, left: SpecExpr<'a>, k: int)
    requires
        well_formed_tokens(toks),
        0 <= k < toks.len(),
        or_op(kind_at(toks, k)) is Some,
    ensures
        p_xor(toks, adv(toks, k)) is Err ==> p_or_tail(toks, start, left, k) == p_xor(toks, adv(toks, k)),
        p_xor(toks, adv(toks, k)) matches Ok((right, j)) ==> (adv(toks, k) <= j < toks.len()
            ==> p_or_tail(toks, start, left, k) == p_or_tail(toks, start, binary_at(toks, start, left, or_op(kind_at(toks, k))->0, right), j)),
{
    reveal_with_fuel(p_or_tail, 1);
    reveal_with_fuel(p_xor, 1);
}

/// Without an operator at `k`, the chain ends there.
pub proof fn lemma_or_end<'a>(toks: Seq<Token<'a>>, start: int, left: SpecExpr<'a>, k: int)
    requires
        well_formed_tokens(toks),
        0 <= k < toks.len(),
        or_op(kind_at(toks, k)) is None,
    ensures
        p_or_tail(toks, start, left, k) == Ok::<(SpecExpr<'a>, int), Error>((left, k)),
{
    reveal_with_fuel(p_or_tail, 1);
}

/// A chain of `xor` and `xnor` read from `i` fails with its first operand, or goes on
/// from it.
pub proof fn lemma_xor_first<'a>(toks: Seq<Token<'a>>, i: int)
    requires
        well_formed_tokens(toks),
        0 <= i < toks.len(),
    ensures
        p_and(toks, i) is Err ==> p_xor(toks, i) == p_and(toks, i),
        p_and(toks, i) matches Ok((first, j)) ==> (i <= j < toks.len() ==> p_xor(toks, i) == p_xor_tail(toks, i, first, j)),
{
    reveal_with_fuel(p_xor, 1);
    reveal_with_fuel(p_and, 1);
    reveal_with_fuel(p_xor_tail, 1);
}

/// An operator of the chain at `k` fails with the operand after it, or joins
/// that operand to what was read.
pub proof fn lemma_xor_next<'a>(toks: Seq<Token<'a>>, start: int, left: SpecExpr<'a>, k: int)
    requires
        well_formed_tokens(toks),
        0 <= k < toks.len(),
        xor_op(kind_at(toks, k)) is Some,
    ensures
        p_and(toks, adv(toks, k)) is Err ==> p_xor_tail(toks, start, left, k) == p_and(toks, adv(toks, k)),
        p_and(toks, adv(toks, k)) matches Ok((right, j)) ==> (adv(toks, k) <= j < toks.len()
            ==> p_xor_tail(toks, start, left, k) == p_xor_tail(toks, start, binary_at(toks, start, left, xor_op(kind_at(toks, k))->0, right), j)),
{
    reveal_with_fuel(p_xor_tail, 1);
    reveal_with_fuel(p_and, 1);
}

/// Without an operator at `k`, the chain ends there.
pub proof fn lemma_xor_end<'a>(toks: Seq<Token<'a>>, start: int, left: SpecExpr<'a>, k: int)
    requires
        well_formed_tokens(toks),
        0 <= k < toks.len(),
        xor_op(kind_at(toks, k)) is None,
    ensures
        p_xor_tail(toks, start, left, k) == Ok::<(SpecExpr<'a>, int), Error>((left, k)),
{
    reveal_with_fuel(p_xor_tail, 1);
}

/// A chain of `and` and `nand` read from `i` fails with its first operand, or goes on
/// from it.
pub proof fn lemma_and_first<'a>(toks: Seq<Token<'a>>, i: int)
    requires
        well_formed_tokens(toks),
        0 <= i < toks.len(),
    ensures
        p_eq(toks, i) is Err ==> p_and(toks, i) == p_eq(toks, i),
        p_eq(toks, i) matches Ok((first, j)) ==> (i <= j < toks.len() ==> p_and(toks, i) == p_and_tail(toks, i, first, j)),
{
    reveal_with_fuel(p_and, 1);
    reveal_with_fuel(p_eq, 1);
    reveal_with_fuel(p_and_tail, 1);
}

/// An operator of the chain at `k` fails with the operand after it, or joins
/// that operand to what was read.
pub proof fn lemma_and_next<'a>(toks: Seq<Token<'a>>, start: int, left: SpecExpr<'a>, k: int)
    requires
        well_formed_tokens(toks),
        0 <= k < toks.len(),
        and_op(kind_at(toks, k)) is Some,
    ensures
        p_eq(toks, adv(toks, k)) is Err ==> p_and_tail(toks, start, left, k) == p_eq(toks, adv(toks, k)),
        p_eq(toks, adv(toks, k)) matches Ok((right, j)) ==> (adv(toks, k) <= j < toks.len()
            ==> p_and_tail(toks, start, left, k) == p_and_tail(toks, start, binary_at(toks, start, left, and_op(kind_at(toks, k))->0, right), j)),
{
    reveal_with_fuel(p_and_tail, 1);
    reveal_with_fuel(p_eq, 1);
}

/// Without an operator at `k`, the chain ends there.
pub proof fn lemma_and_end<'a>(toks: Seq<Token<'a>>, start: int, left: SpecExpr<'a>, k: int)
    requires
        well_formed_tokens(toks),
        0 <= k < toks.len(),
        and_op(kind_at(toks, k)) is None,
    ensures
        p_and_tail(toks, start, left, k) == Ok::<(SpecExpr<'a>, int), Error>((left, k)),
{
    reveal_with_fuel(p_and_tail, 1);
}

/// A chain of `==` and `!=` read from `i` fails with its first operand, or goes on
/// from it.
pub proof fn lemma_eq_first<'a>(toks: Seq<Token<'a>>, i: int)
    requires
        well_formed_tokens(toks),
        0 <= i < toks.len(),
    ensures
        p_cmp(toks, i) is Err ==> p_eq(toks, i) == p_cmp(toks, i),
        p_cmp(toks, i) matches Ok((first, j)) ==> (i <= j < toks.len() ==> p_eq(toks, i) == p_eq_tail(toks, i, first, j)),
{
    reveal_with_fuel(p_eq, 1);
    reveal_with_fuel(p_cmp, 1);
    reveal_with_fuel(p_eq_tail, 1);
}

/// An operator of the chain at `k` fails with the operand after it, or joins
/// that operand to what was read.
pub proof fn lemma_eq_next<'a>(toks: Seq<Token<'a>>, start: int, left: SpecExpr<'a>, k: int)
    requires
        well_formed_tokens(toks),
        0 <= k < toks.len(),
        eq_op(kind_at(toks, k)) is Some,
    ensures
        p_cmp(toks, adv(toks, k)) is Err ==> p_eq_tail(toks, start, left, k) == p_cmp(toks, adv(toks, k)),
        p_cmp(toks, adv(toks, k)) matches Ok((right, j)) ==> (adv(toks, k) <= j < toks.len()
            ==> p_eq_tail(toks, start, left, k) == p_eq_tail(toks, start, binary_at(toks, start, left, eq_op(kind_at(toks, k))->0, right), j)),
{
    reveal_with_fuel(p_eq_tail, 1);
    reveal_with_fuel(p_cmp, 1);
}

/// Without an operator at `k`, the chain ends there.
pub proof fn lemma_eq_end<'a>(toks: Seq<Token<'a>>, start: int, left: SpecExpr<'a>, k: int)
    requires
        well_formed_tokens(toks),
        0 <= k < toks.len(),
        eq_op(kind_at(toks, k)) is None,
    ensures
        p_eq_tail(toks, start, left, k) == Ok::<(SpecExpr<'a>, int), Error>((left, k)),
{
    reveal_with_fuel(p_eq_tail, 1);
}

/// A chain of comparisons read from `i` fails with its first operand, or goes on
/// from it.
pub proof fn lemma_cmp_first<'a>(toks: Seq<Token<'a>>, i: int)
    requires
        well_formed_tokens(toks),
        0 <= i < toks.len(),
    ensures
        p_range(toks, i) is Err ==> p_cmp(toks, i) == p_range(toks, i),
        p_range(toks, i) matches Ok((first, j)) ==> (i <= j < toks.len() ==> p_cmp(toks, i) == p_cmp_tail(toks, i, first, j)),
{
    reveal_with_fuel(p_cmp, 1);
    reveal_with_fuel(p_range, 1);
    reveal_with_fuel(p_cmp_tail, 1);
}

/// An operator of the chain at `k` fails with the operand after it, or joins
/// that operand to what was read.
pub proof fn lemma_cmp_next<'a>(toks: Seq<Token<'a>>, start: int, left: SpecExpr<'a>, k: int)
    requires
        well_formed_tokens(toks),
        0 <= k < toks.len(),
        cmp_op(kind_at(toks, k)) is Some,
    ensures
        p_range(toks, adv(toks, k)) is Err ==> p_cmp_tail(toks, start, left, k) == p_range(toks, adv(toks, k)),
        p_range(toks, adv(toks, k)) matches Ok((right, j)) ==> (adv(toks, k) <= j < toks.len()
            ==> p_cmp_tail(toks, start, left, k) == p_cmp_tail(toks, start, binary_at(toks, start, left, cmp_op(kind_at(toks, k))->0, right), j)),
{
    reveal_with_fuel(p_cmp_tail, 1);
    reveal_with_fuel(p_range, 1);
}

/// Without an operator at `k`, the chain ends there.
pub proof fn lemma_cmp_end<'a>(toks: Seq<Token<'a>>, start: int, left: SpecExpr<'a>, k: int)
    requires
        well_formed_tokens(toks),
        0 <= k < toks.len(),
        cmp_op(kind_at(toks, k)) is None,
    ensures
        p_cmp_tail(toks, start, left, k) == Ok::<(SpecExpr<'a>, int), Error>((left, k)),
{
    reveal_with_fuel(p_cmp_tail, 1);
}

/// A chain of `+` and `-` read from `i` fails with its first operand, or goes on
/// from it.
pub proof fn lemma_add_first<'a>(toks: Seq<Token<'a>>, i: int)
    requires
        well_formed_tokens(toks),
        0 <= i < toks.len(),
    ensures
        p_mult(toks, i) is Err ==> p_add(toks, i) == p_mult(toks, i),
        p_mult(toks, i) matches Ok((first, j)) ==> (i <= j < toks.len() ==> p_add(toks, i) == p_add_tail(toks, i, first, j)),
{
    reveal_with_fuel(p_add, 1);
    reveal_with_fuel(p_mult, 1);
    reveal_with_fuel(p_add_tail, 1);
}

/// An operator of the chain at `k` fails with the operand after it, or joins
/// that operand to what was read.
pub proof fn lemma_add_next<'a>(toks: Seq<Token<'a>>, start: int, left: SpecExpr<'a>, k: int)
    requires
        well_formed_tokens(toks),
        0 <= k < toks.len(),
        add_op(kind_at(toks, k)) is Some,
    ensures
        p_mult(toks, adv(toks, k)) is Err ==> p_add_tail(toks, start, left, k) == p_mult(toks, adv(toks, k)),
        p_mult(toks, adv(toks, k)) matches Ok((right, j)) ==> (adv(toks, k) <= j < toks.len()
            ==> p_add_tail(toks, start, left, k) == p_add_tail(toks, start, binary_at(toks, start, left, add_op(kind_at(toks, k))->0, right), j)),
{
    reveal_with_fuel(p_add_tail, 1);
    reveal_with_fuel(p_mult, 1);
}

/// Without an operator at `k`, the chain ends there.
pub proof fn lemma_add_end<'a>(toks: Seq<Token<'a>>, start: int, left: SpecExpr<'a>, k: int)
    requires
        well_formed_tokens(toks),
        0 <= k < toks.len(),
        add_op(kind_at(toks, k)) is None,
    ensures
        p_add_tail(toks, start, left, k) == Ok::<(SpecExpr<'a>, int), Error>((left, k)),
{
    reveal_with_fuel(p_add_tail, 1);
}

/// A chain of `*` and `/` read from `i` fails with its first operand, or goes on
/// from it.
pub proof fn lemma_mult_first<'a>(toks: Seq<Token<'a>>, i: int)
    requires
        well_formed_tokens(toks),
        0 <= i < toks.len(),
    ensures
        p_pow(toks, i) is Err ==> p_mult(toks, i) == p_pow(toks, i),
        p_pow(toks, i) matches Ok((first, j)) ==> (i <= j < toks.len() ==> p_mult(toks, i) == p_mult_tail(toks, i, first, j)),
{
    reveal_with_fuel(p_mult, 1);
    reveal_with_fuel(p_pow, 1);
    reveal_with_fuel(p_mult_tail, 1);
}

/// An operator of the chain at `k` fails with the operand after it, or joins
/// that operand to what was read.
pub proof fn lemma_mult_next<'a>(toks: Seq<Token<'a>>, start: int, left: SpecExpr<'a>, k: int)
    requires
        well_formed_tokens(toks),
        0 <= k < toks.len(),
        mult_op(kind_at(toks, k)) is Some,
    ensures
        p_pow(toks, adv(toks, k)) is Err ==> p_mult_tail(toks, start, left, k) == p_pow(toks, adv(toks, k)),
        p_pow(toks, adv(toks, k)) matches Ok((right, j)) ==> (adv(toks, k) <= j < toks.len()
            ==> p_mult_tail(toks, start, left, k) == p_mult_tail(toks, start, binary_at(toks, start, left, mult_op(kind_at(toks, k))->0, right), j)),
{
    reveal_with_fuel(p_mult_tail, 1);
    reveal_with_fuel(p_pow, 1);
}

/// Without an operator at `k`, the chain ends there.
pub proof fn lemma_mult_end<'a>(toks: Seq<Token<'a>>, start: int, left: SpecExpr<'a>, k: int)
    requires
        well_formed_tokens(toks),
        0 <= k < toks.len(),
        mult_op(kind_at(toks, k)) is None,
    ensures
        p_mult_tail(toks, start, left, k) == Ok::<(SpecExpr<'a>, int), Error>((left, k)),
{
    reveal_with_fuel(p_mult_tail, 1);
}

/// Items already read, put in front of the items still to read.
pub proof fn lemma_join_join<V>(done: Seq<V>, more: Seq<V>, rest: Reads<Seq<V>>)
    ensures
        join(done, join(more, rest)) == join(done + more, rest),
{
    match rest {
        Ok((r, j)) => {
            assert(done + (more + r) =~= done + more + r);
        },
        Err(_) => {},
    }
}

/// Nothing read in front of a list leaves it as it is.
pub proof fn lemma_join_empty<V>(rest: Reads<Seq<V>>)
    ensures
        join(Seq::<V>::empty(), rest) == rest,
{
    match rest {
        Ok((r, j)) => {
            assert(Seq::<V>::empty() + r =~= r);
        },
        Err(_) => {},
    }
}

/// A list of expressions is empty before a closing bracket, else its items.
pub proof fn lemma_expr_list<'a>(toks: Seq<Token<'a>>, i: int)
    requires
        well_formed_tokens(toks),
        0 <= i < toks.len(),
    ensures
        is_closer(kind_at(toks, i)) ==> p_exprs(toks, i) == Ok::<(Seq<SpecExpr<'a>>, int), Error>((Seq::empty(), i)),
        !is_closer(kind_at(toks, i)) ==> p_exprs(toks, i) == join(Seq::empty(), p_expr_items(toks, i)),
{
    reveal_with_fuel(p_exprs, 1);
    reveal_with_fuel(p_expr_items, 1);
    lemma_join_empty(p_expr_items(toks, i));
}

/// The items of a list of expressions: the first one, then, after a comma, the
/// rest unless a closing bracket follows.
pub proof fn lemma_expr_items<'a>(toks: Seq<Token<'a>>, i: int)
    requires
        well_formed_tokens(toks),
        0 <= i < toks.len(),
    ensures
        p_expr(toks, i) is Err ==> p_expr_items(toks, i) == Err::<(Seq<SpecExpr<'a>>, int), Error>(p_expr(toks, i)->Err_0),
        p_expr(toks, i) matches Ok((x, j)) ==> (i <= j < toks.len() ==> p_expr_items(toks, i) == (if kind_at(toks, j) is Comma {
            if is_closer(kind_at(toks, adv(toks, j))) {
                Ok((seq![x], adv(toks, j)))
            } else {
                join(seq![x], p_expr_items(toks, adv(toks, j)))
            }
        } else {
            Ok((seq![x], j))
        })),
{
    reveal_with_fuel(p_expr_items, 1);
    reveal_with_fuel(p_expr, 1);
}

/// A list of parameters is empty before a closing bracket, else its items.
pub proof fn lemma_param_list<'a>(toks: Seq<Token<'a>>, i: int)
    requires
        well_formed_tokens(toks),
        0 <= i < toks.len(),
    ensures
        is_closer(kind_at(toks, i)) ==> p_params(toks, i) == Ok::<(Seq<SpecParam<'a>>, int), Error>((Seq::empty(), i)),
        !is_closer(kind_at(toks, i)) ==> p_params(toks, i) == join(Seq::empty(), p_param_items(toks, i)),
{
    reveal_with_fuel(p_params, 1);
    reveal_with_fuel(p_param_items, 1);
    lemma_join_empty(p_param_items(toks, i));
}

/// The items of a list of parameters: the first one, then, after a comma, the
/// rest unless a closing bracket follows.
pub proof fn lemma_param_items<'a>(toks: Seq<Token<'a>>, i: int)
    requires
        well_formed_tokens(toks),
        0 <= i < toks.len(),
    ensures
        p_param(toks, i) is Err ==> p_param_items(toks, i) == Err::<(Seq<SpecParam<'a>>, int), Error>(p_param(toks, i)->Err_0),
        p_param(toks, i) matches Ok((x, j)) ==> (i <= j < toks.len() ==> p_param_items(toks, i) == (if kind_at(toks, j) is Comma {
            if is_closer(kind_at(toks, adv(toks, j))) {
                Ok((seq![x], adv(toks, j)))
            } else {
                join(seq![x], p_param_items(toks, adv(toks, j)))
            }
        } else {
            Ok((seq![x], j))
        })),
{
    reveal_with_fuel(p_param_items, 1);
    reveal_with_fuel(p_param, 1);
}

/// A list of fields is empty before a closing bracket, else its items.
pub proof fn lemma_field_list<'a>(toks: Seq<Token<'a>>, i: int)
    requires
        well_formed_tokens(toks),
        0 <= i < toks.len(),
    ensures
        is_closer(kind_at(toks, i)) ==> p_fields(toks, i) == Ok::<(Seq<SpecField<'a>>, int), Error>((Seq::empty(), i)),
        !is_closer(kind_at(toks, i)) ==> p_fields(toks, i) == join(Seq::empty(), p_field_items(toks, i)),
{
    reveal_with_fuel(p_fields, 1);
    reveal_with_fuel(p_field_items, 1);
    lemma_join_empty(p_field_items(toks, i));
}

/// The items of a list of fields: the first one, then, after a comma, the
/// rest unless a closing bracket follows.
pub proof fn lemma_field_items<'a>(toks: Seq<Token<'a>>, i: int)
    requires
        well_formed_tokens(toks),
        0 <= i < toks.len(),
    ensures
        p_field(toks, i) is Err ==> p_field_items(toks, i) == Err::<(Seq<SpecField<'a>>, int), Error>(p_field(toks, i)->Err_0),
        p_field(toks, i) matches Ok((x, j)) ==> (i <= j < toks.len() ==> p_field_items(toks, i) == (if kind_at(toks, j) is Comma {
            if is_closer(kind_at(toks, adv(toks, j))) {
                Ok((seq![x], adv(toks, j)))
            } else {
                join(seq![x], p_field_items(toks, adv(toks, j)))
            }
        } else {
            Ok((seq![x], j))
        })),
{
    reveal_with_fuel(p_field_items, 1);
    reveal_with_fuel(p_field, 1);
}

/// A list of instance fields is empty before a closing bracket, else its items.
pub proof fn lemma_ifield_list<'a>(toks: Seq<Token<'a>>, i: int)
    requires
        well_formed_tokens(toks),
        0 <= i < toks.len(),
    ensures
        is_closer(kind_at(toks, i)) ==> p_ifields(toks, i) == Ok::<(Seq<SpecInstanceField<'a>>, int), Error>((Seq::empty(), i)),
        !is_closer(kind_at(toks, i)) ==> p_ifields(toks, i) == join(Seq::empty(), p_ifield_items(toks, i)),
{
    reveal_with_fuel(p_ifields, 1);
    reveal_with_fuel(p_ifield_items, 1);
    lemma_join_empty(p_ifield_items(toks, i));
}

/// The items of a list of instance fields: the first one, then, after a comma, the
/// rest unless a closing bracket follows.
pub proof fn lemma_ifield_items<'a>(toks: Seq<Token<'a>>, i: int)
    requires
        well_formed_tokens(toks),
        0 <= i < toks.len(),
    ensures
        p_ifield(toks, i) is Err ==> p_ifield_items(toks, i) == Err::<(Seq<SpecInstanceField<'a>>, int), Error>(p_ifield(toks, i)->Err_0),
        p_ifield(toks, i) matches Ok((x, j)) ==> (i <= j < toks.len() ==> p_ifield_items(toks, i) == (if kind_at(toks, j) is Comma {
            if is_closer(kind_at(toks, adv(toks, j))) {
                Ok((seq![x], adv(toks, j)))
            } else {
                join(seq![x], p_ifield_items(toks, adv(toks, j)))
            }
        } else {
            Ok((seq![x], j))
        })),
{
    reveal_with_fuel(p_ifield_items, 1);
    reveal_with_fuel(p_ifield, 1);
}

/// A list of variants is empty before a closing bracket, else its items.
pub proof fn lemma_variant_list<'a>(toks: Seq<Token<'a>>, i: int)
    requires
        well_formed_tokens(toks),
        0 <= i < toks.len(),
    ensures
        is_closer(kind_at(toks, i)) ==> p_variants(toks, i) == Ok::<(Seq<SpecVariant<'a>>, int), Error>((Seq::empty(), i)),
        !is_closer(kind_at(toks, i)) ==> p_variants(toks, i) == join(Seq::empty(), p_variant_items(toks, i)),
{
    reveal_with_fuel(p_variants, 1);
    reveal_with_fuel(p_variant_items, 1);
    lemma_join_empty(p_variant_items(toks, i));
}

/// The items of a list of variants: the first one, then, after a comma, the
/// rest unless a closing bracket follows.
pub proof fn lemma_variant_items<'a>(toks: Seq<Token<'a>>, i: int)
    requires
        well_formed_tokens(toks),
        0 <= i < toks.len(),
    ensures
        p_variant(toks, i) is Err ==> p_variant_items(toks, i) == Err::<(Seq<SpecVariant<'a>>, int), Error>(p_variant(toks, i)->Err_0),
        p_variant(toks, i) matches Ok((x, j)) ==> (i <= j < toks.len() ==> p_variant_items(toks, i) == (if kind_at(toks, j) is Comma {
            if is_closer(kind_at(toks, adv(toks, j))) {
                Ok((seq![x], adv(toks, j)))
            } else {
                join(seq![x], p_variant_items(toks, adv(toks, j)))
            }
        } else {
            Ok((seq![x], j))
        })),
{
    reveal_with_fuel(p_variant_items, 1);
    reveal_with_fuel(p_variant, 1);
}

/// The statements of a block: none before `}` or the end, else a statement
/// and the ones after it.
pub proof fn lemma_block_stmts<'a>(toks: Seq<Token<'a>>, k: int)
    requires
        well_formed_tokens(toks),
        0 <= k < toks.len(),
    ensures
        kind_at(toks, k) is RBrace || kind_at(toks, k) is Eof ==> p_block_stmts(toks, k)
            == Ok::<(Seq<SpecStatement<'a>>, int), Error>((Seq::empty(), k)),
        !(kind_at(toks, k) is RBrace || kind_at(toks, k) is Eof) ==> {
            &&& p_statement(toks, k) is Err ==> p_block_stmts(toks, k) == Err::<(Seq<SpecStatement<'a>>, int), Error>(
                p_statement(toks, k)->Err_0,
            )
            &&& p_statement(toks, k) matches Ok((s, j)) ==> (k < j < toks.len() ==> p_block_stmts(toks, k) == join(
                seq![s],
                p_block_stmts(toks, j),
            ))
        },
{
    reveal_with_fuel(p_block_stmts, 1);
    reveal_with_fuel(p_statement, 1);
}

/// Puts `done` in front of the statements of `rest`, or passes on its error.
pub open spec fn join_program<'a>(
    done: Seq<SpecStatement<'a>>,
    rest: Result<Seq<SpecStatement<'a>>, Error>,
) -> Result<Seq<SpecStatement<'a>>, Error> {
    match rest {
        Ok(r) => Ok(done + r),
        Err(e) => Err(e),
    }
}

/// Statements already read, put in front of the statements still to read.
pub proof fn lemma_join_program<'a>(
    done: Seq<SpecStatement<'a>>,
    more: Seq<SpecStatement<'a>>,
    rest: Result<Seq<SpecStatement<'a>>, Error>,
)
    ensures
        join_program(done, join_program(more, rest)) == join_program(done + more, rest),
        join_program(Seq::empty(), rest) == rest,
{
    match rest {
        Ok(r) => {
            assert(done + (more + r) =~= done + more + r);
            assert(Seq::<SpecStatement<'a>>::empty() + r =~= r);
        },
        Err(_) => {},
    }
}

/// The statements of a program: none at `Eof`, else a statement and the ones
/// after it.
pub proof fn lemma_program<'a>(toks: Seq<Token<'a>>, k: int)
    requires
        well_formed_tokens(toks),
        0 <= k < toks.len(),
    ensures
        kind_at(toks, k) is Eof ==> p_program(toks, k) == Ok::<Seq<SpecStatement<'a>>, Error>(Seq::empty()),
        !(kind_at(toks, k) is Eof) ==> {
            &&& p_statement(toks, k) is Err ==> p_program(toks, k) == Err::<Seq<SpecStatement<'a>>, Error>(
                p_statement(toks, k)->Err_0,
            )
            &&& p_statement(toks, k) matches Ok((s, j)) ==> (k < j < toks.len() ==> p_program(toks, k)
                == join_program(seq![s], p_program(toks, j)))
        },
{
    reveal_with_fuel(p_program, 1);
    reveal_with_fuel(p_statement, 1);
}

/// Every statement is a function exactly when the model of every one is.
pub proof fn lemma_all_funcs<'a>(stmts: Seq<Statement<'a>>)
    ensures
        all_funcs(view_stmts(stmts)) <==> forall|n: int| 0 <= n < stmts.len() ==> (#[trigger] stmts[n]).kind is Func,
{
    lemma_view_stmts(stmts);
    if all_funcs(view_stmts(stmts)) {
        assert forall|n: int| 0 <= n < stmts.len() implies (#[trigger] stmts[n]).kind is Func by {
            assert(view_stmts(stmts)[n].kind is Func);
        }
    }
    if forall|n: int| 0 <= n < stmts.len() ==> (#[trigger] stmts[n]).kind is Func {
        assert forall|n: int| 0 <= n < view_stmts(stmts).len() implies (#[trigger] view_stmts(stmts)[n]).kind is Func by {
            assert(stmts[n].kind is Func);
        }
    }
}

/// Whether an expression ends with a block, read from the expression itself:
/// its last branch for `if`, `for` and `while`.
pub proof fn lemma_brace_terminated<'a>(e: Expr<'a>)
    ensures
        brace_terminated(e@) == match e.kind {
            ExprKind::If { condition, do_body, else_body } => match else_body {
                Some(b) => brace_terminated(b@),
                None => brace_terminated(do_body@),
            },
            ExprKind::While { condition, do_body, else_body } => match else_body {
                Some(b) => brace_terminated(b@),
                None => brace_terminated(do_body@),
            },
            ExprKind::For { elem, iter, do_body, else_body } => match else_body {
                Some(b) => brace_terminated(b@),
                None => brace_terminated(do_body@),
            },
            ExprKind::Block(_) => true,
            _ => false,
        },
{
    match e.kind {
        ExprKind::If { condition, do_body, else_body } => {
            assert(e@.kind == SpecExprKind::If {
                condition: Box::new(condition@),
                do_body: Box::new(do_body@),
                else_body: view_opt(else_body),
            });
        },
        ExprKind::While { condition, do_body, else_body } => {
            assert(e@.kind == SpecExprKind::While {
                condition: Box::new(condition@),
                do_body: Box::new(do_body@),
                else_body: view_opt(else_body),
            });
        },
        ExprKind::For { elem, iter, do_body, else_body } => {
            assert(e@.kind == SpecExprKind::For {
                elem,
                iter: Box::new(iter@),
                do_body: Box::new(do_body@),
                else_body: view_opt(else_body),
            });
        },
        _ => {},
    }
}

/// A token that cannot start a primary expression gives "Invalid
/// expression" at that token.
pub proof fn lemma_primary_refused<'a>(toks: Seq<Token<'a>>, i: int)
    requires
        well_formed_tokens(toks),
        0 <= i < toks.len(),
        !({
            let k = kind_at(toks, i);
            ||| k is Number
            ||| k is StringLiteral
            ||| k is True
            ||| k is False
            ||| k is Identifier
            ||| k is LParen
            ||| k is LSquare
            ||| k is LBrace
            ||| k is Return
            ||| k is Yield
            ||| k is Break
            ||| k is Continue
        }),
    ensures
        p_primary(toks, i) == Err::<(SpecExpr<'a>, int), Error>(err_at(toks, i, "Invalid expression")),
{
    reveal_with_fuel(p_primary, 1);
}

/// Every operator the grammar reads from a token is the operator written
/// with that token's characters: `>=` gives `GreaterEqual`, `-` gives `Sub`
/// between operands and `Minus` in front of one, and so on for each level.
pub proof fn lemma_operators_spelled<'a>(k: TokenKind<'a>)
    ensures
        pipe_op(k) matches Some(op) ==> spelling(k) == Some(binary_spelling(op)),
        range_op(k) matches Some(op) ==> spelling(k) == Some(binary_spelling(op)),
        pow_op(k) matches Some(op) ==> spelling(k) == Some(binary_spelling(op)),
        or_op(k) matches Some(op) ==> spelling(k) == Some(binary_spelling(op)),
        xor_op(k) matches Some(op) ==> spelling(k) == Some(binary_spelling(op)),
        and_op(k) matches Some(op) ==> spelling(k) == Some(binary_spelling(op)),
        eq_op(k) matches Some(op) ==> spelling(k) == Some(binary_spelling(op)),
        cmp_op(k) matches Some(op) ==> spelling(k) == Some(binary_spelling(op)),
        add_op(k) matches Some(op) ==> spelling(k) == Some(binary_spelling(op)),
        mult_op(k) matches Some(op) ==> spelling(k) == Some(binary_spelling(op)),
        unary_op(k) matches Some(op) ==> spelling(k) == Some(unary_spelling(op)),
{
}

} // verus!
