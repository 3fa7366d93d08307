//! The grammar of Erwin, as the functions that say what each part of the
//! parser reads from the tokens at an index: the tree it builds and the index
//! after it, or the error it meets.
use vstd::prelude::*;

use crate::error::Error;
use crate::lexer::{lemma_token_at, lemma_ws_end, lex_from, pos, prepend, token_at, tokens_of, ws_end, LexToken};
use crate::symbols::kind_name;
use crate::token::{spelling, Token, TokenKind};
use crate::types::{symbol_kind_of, FloatSize, IntSize, Sign, SpecType};

verus! {

/// Tokens as the lexer gives them: at least one, ending with `Eof`.
pub open spec fn well_formed_tokens<'a>(toks: Seq<Token<'a>>) -> bool {
    &&& 1 <= toks.len() <= isize::MAX
    &&& toks.last().kind is Eof
}

/// The token at index `i`; past the end, the last one.
pub open spec fn tok_at<'a>(toks: Seq<Token<'a>>, i: int) -> Token<'a> {
    if 0 <= i < toks.len() {
        toks[i]
    } else {
        toks.last()
    }
}

pub open spec fn kind_at<'a>(toks: Seq<Token<'a>>, i: int) -> TokenKind<'a> {
    tok_at(toks, i).kind
}

/// The index after `i`; the last index stays where it is.
pub open spec fn adv<'a>(toks: Seq<Token<'a>>, i: int) -> int {
    if i < toks.len() - 1 {
        i + 1
    } else {
        i
    }
}

/// The error `msg` at the token at index `i`.
pub open spec fn err_at<'a>(toks: Seq<Token<'a>>, i: int, msg: &'static str) -> Error {
    Error::Located { line: tok_at(toks, i).line, col: tok_at(toks, i).col, message: msg }
}

/// The index `j` that a part read from `i` ends at. Such an index is never
/// before `i` nor past the tokens; this bounds it so, for the grammar's
/// recursion to be seen to end.
pub open spec fn after<'a>(toks: Seq<Token<'a>>, i: int, j: int) -> int {
    if i <= j < toks.len() {
        j
    } else {
        i
    }
}

/// Whether the kind closes a list: `)`, `]` or `}`.
pub open spec fn is_closer<'a>(k: TokenKind<'a>) -> bool {
    k is RParen || k is RSquare || k is RBrace
}

/// The type that a type keyword names.
pub open spec fn keyword_type<'a>(k: TokenKind<'a>) -> Option<SpecType<'a>> {
    match k {
        TokenKind::Bool => Some(SpecType::Bool),
        TokenKind::Int8 => Some(SpecType::Integer { size: IntSize::B8, sign: Sign::Signed }),
        TokenKind::Int16 => Some(SpecType::Integer { size: IntSize::B16, sign: Sign::Signed }),
        TokenKind::Int32 => Some(SpecType::Integer { size: IntSize::B32, sign: Sign::Signed }),
        TokenKind::Int64 => Some(SpecType::Integer { size: IntSize::B64, sign: Sign::Signed }),
        TokenKind::Int128 => Some(SpecType::Integer { size: IntSize::B128, sign: Sign::Signed }),
        TokenKind::UInt8 => Some(SpecType::Integer { size: IntSize::B8, sign: Sign::Unsigned }),
        TokenKind::UInt16 => Some(SpecType::Integer { size: IntSize::B16, sign: Sign::Unsigned }),
        TokenKind::UInt32 => Some(SpecType::Integer { size: IntSize::B32, sign: Sign::Unsigned }),
        TokenKind::UInt64 => Some(SpecType::Integer { size: IntSize::B64, sign: Sign::Unsigned }),
        TokenKind::UInt128 => Some(SpecType::Integer { size: IntSize::B128, sign: Sign::Unsigned }),
        TokenKind::IntRange8 => Some(SpecType::IntRange { size: IntSize::B8, sign: Sign::Signed }),
        TokenKind::IntRange16 => Some(SpecType::IntRange { size: IntSize::B16, sign: Sign::Signed }),
        TokenKind::IntRange32 => Some(SpecType::IntRange { size: IntSize::B32, sign: Sign::Signed }),
        TokenKind::IntRange64 => Some(SpecType::IntRange { size: IntSize::B64, sign: Sign::Signed }),
        TokenKind::IntRange128 => Some(SpecType::IntRange { size: IntSize::B128, sign: Sign::Signed }),
        TokenKind::UIntRange8 => Some(SpecType::IntRange { size: IntSize::B8, sign: Sign::Unsigned }),
        TokenKind::UIntRange16 => Some(SpecType::IntRange { size: IntSize::B16, sign: Sign::Unsigned }),
        TokenKind::UIntRange32 => Some(SpecType::IntRange { size: IntSize::B32, sign: Sign::Unsigned }),
        TokenKind::UIntRange64 => Some(SpecType::IntRange { size: IntSize::B64, sign: Sign::Unsigned }),
        TokenKind::UIntRange128 => Some(SpecType::IntRange { size: IntSize::B128, sign: Sign::Unsigned }),
        TokenKind::Float32 => Some(SpecType::Float { size: FloatSize::B32 }),
        TokenKind::Float64 => Some(SpecType::Float { size: FloatSize::B64 }),
        TokenKind::String => Some(SpecType::String),
        _ => None,
    }
}

/// A type: a prefixed or base type, then its postfixes.
pub open spec fn p_type<'a>(toks: Seq<Token<'a>>, i: int) -> Result<(SpecType<'a>, int), Error>
    decreases toks.len() - i, 6int,
    when well_formed_tokens(toks) && 0 <= i < toks.len()
{
    match p_type_prefix(toks, i) {
        Ok((t, j)) => p_type_postfix(toks, t, after(toks, i, j)),
        Err(e) => Err(e),
    }
}

/// `&T` is a reference, `@T` a node, else a base type.
pub open spec fn p_type_prefix<'a>(toks: Seq<Token<'a>>, i: int) -> Result<(SpecType<'a>, int), Error>
    decreases toks.len() - i, 5int,
    when well_formed_tokens(toks) && 0 <= i < toks.len()
{
    match kind_at(toks, i) {
        TokenKind::Amp => match p_type(toks, adv(toks, i)) {
            Ok((t, j)) => Ok((SpecType::Ref(Box::new(t)), j)),
            Err(e) => Err(e),
        },
        TokenKind::At => match p_type(toks, adv(toks, i)) {
            Ok((t, j)) => Ok((SpecType::Node(Box::new(t)), j)),
            Err(e) => Err(e),
        },
        _ => p_base_type(toks, i),
    }
}

/// A type keyword, a tuple type, an array type, or a custom type, which may
/// name its module as `module..Type`.
pub open spec fn p_base_type<'a>(toks: Seq<Token<'a>>, i: int) -> Result<(SpecType<'a>, int), Error>
    decreases toks.len() - i, 4int,
    when well_formed_tokens(toks) && 0 <= i < toks.len()
{
    let k = kind_at(toks, i);
    match keyword_type(k) {
        Some(t) => Ok((t, adv(toks, i))),
        None => match k {
            TokenKind::LParen => p_tuple_type(toks, i),
            TokenKind::LSquare => p_array_type(toks, i),
            TokenKind::Identifier(left) => {
                let j = adv(toks, i);
                if kind_at(toks, j) is DoubleDot {
                    let j1 = adv(toks, j);
                    match kind_at(toks, j1) {
                        TokenKind::Identifier(right) => Ok(
                            (SpecType::Custom { module: Some(left), id: right }, adv(toks, j1)),
                        ),
                        _ => Ok((SpecType::Custom { module: None, id: left }, j1)),
                    }
                } else {
                    Ok((SpecType::Custom { module: None, id: left }, j))
                }
            },
            _ => Err(err_at(toks, i, "Invalid type")),
        },
    }
}

/// After a type: `*` makes a pointer to it, `-> R` a function from it (its
/// members, if it is a tuple) to `R`.
pub open spec fn p_type_postfix<'a>(toks: Seq<Token<'a>>, base: SpecType<'a>, i: int) -> Result<(SpecType<'a>, int), Error>
    decreases toks.len() - i, 3int,
    when well_formed_tokens(toks) && 0 <= i < toks.len()
{
    match kind_at(toks, i) {
        TokenKind::Star => p_type_postfix(toks, SpecType::Pointer(Box::new(base)), adv(toks, i)),
        TokenKind::RArrow => match p_type(toks, adv(toks, i)) {
            Ok((ret, j)) => {
                let params = match base {
                    SpecType::Tuple(types) => types,
                    other => seq![other],
                };
                Ok((SpecType::Function { params, return_ty: Box::new(ret) }, j))
            },
            Err(e) => Err(e),
        },
        _ => Ok((base, i)),
    }
}

/// `(T, ...)`: the one type it holds, or a tuple of the types.
pub open spec fn p_tuple_type<'a>(toks: Seq<Token<'a>>, i: int) -> Result<(SpecType<'a>, int), Error>
    decreases toks.len() - i, 2int,
    when well_formed_tokens(toks) && 0 <= i < toks.len() && kind_at(toks, i) is LParen
{
    match p_type_list(toks, adv(toks, i)) {
        Ok((types, j)) => {
            let end = adv(toks, j);
            if types.len() == 1 {
                Ok((types[0], end))
            } else {
                Ok((SpecType::Tuple(types), end))
            }
        },
        Err(e) => Err(e),
    }
}

/// `[T]`: an array of `T`.
pub open spec fn p_array_type<'a>(toks: Seq<Token<'a>>, i: int) -> Result<(SpecType<'a>, int), Error>
    decreases toks.len() - i, 2int,
    when well_formed_tokens(toks) && 0 <= i < toks.len() && kind_at(toks, i) is LSquare
{
    let j = adv(toks, i);
    if kind_at(toks, j) is RSquare {
        Err(err_at(toks, j, "Array must have a type"))
    } else {
        match p_type(toks, j) {
            Ok((t, j1)) => Ok((SpecType::Array(Box::new(t)), adv(toks, j1))),
            Err(e) => Err(e),
        }
    }
}

/// Types separated by commas, up to a closing bracket; a comma may trail.
pub open spec fn p_type_list<'a>(toks: Seq<Token<'a>>, i: int) -> Result<(Seq<SpecType<'a>>, int), Error>
    decreases toks.len() - i, 8int,
    when well_formed_tokens(toks) && 0 <= i < toks.len()
{
    if is_closer(kind_at(toks, i)) {
        Ok((Seq::empty(), i))
    } else {
        p_type_items(toks, i)
    }
}

/// One or more types separated by commas.
pub open spec fn p_type_items<'a>(toks: Seq<Token<'a>>, i: int) -> Result<(Seq<SpecType<'a>>, int), Error>
    decreases toks.len() - i, 7int,
    when well_formed_tokens(toks) && 0 <= i < toks.len()
{
    match p_type(toks, i) {
        Ok((t, j)) => {
            let j = after(toks, i, j);
            if kind_at(toks, j) is Comma {
                let j2 = adv(toks, j);
                if is_closer(kind_at(toks, j2)) {
                    Ok((seq![t], j2))
                } else {
                    match p_type_items(toks, j2) {
                        Ok((rest, j3)) => Ok((seq![t] + rest, j3)),
                        Err(e) => Err(e),
                    }
                }
            } else {
                Ok((seq![t], j))
            }
        },
        Err(e) => Err(e),
    }
}

/// The lexer reads no more lexemes from index `i` on than there are
/// characters left: each one takes at least one character.
pub proof fn lemma_lex_len(s: Seq<char>, i: int)
    requires
        0 <= i <= s.len(),
    ensures
        lex_from(s, i) matches Ok(ls) ==> ls.len() <= s.len() - i,
    decreases s.len() - i,
{
    let k = ws_end(s, i);
    lemma_ws_end(s, i);
    if k < s.len() {
        lemma_token_at(s, k);
        match token_at(s, k) {
            Ok((t, j)) => {
                lemma_lex_len(s, j);
            },
            Err(_) => {},
        }
    }
}

/// Whatever tokens the lexer gives for a text of fewer than `isize::MAX`
/// characters, the parser takes them: there is at least one, the last is
/// `Eof`, and there are no more than the characters of the text plus one.
pub proof fn lemma_lexed_tokens_parse<'a>(s: Seq<char>, ls: Seq<LexToken>, ts: Seq<Token<'a>>)
    requires
        s.len() < isize::MAX,
        lex_from(s, 0) == Ok::<Seq<LexToken>, Error>(ls),
        tokens_of(ts, ls, pos(s, s.len() as int)),
    ensures
        well_formed_tokens(ts),
        ts.len() <= s.len() + 1,
{
    lemma_lex_len(s, 0);
}

/// A type keyword reads as its type and one token; any other token that
/// cannot start a type (not `(`, `[` or an identifier) gives "Invalid type"
/// at that token.
pub proof fn lemma_base_type_arms<'a>(toks: Seq<Token<'a>>, i: int)
    requires
        well_formed_tokens(toks),
        0 <= i < toks.len(),
    ensures
        keyword_type(kind_at(toks, i)) matches Some(t) ==> p_base_type(toks, i) == Ok::<(SpecType<'a>, int), Error>(
            (t, adv(toks, i)),
        ),
        keyword_type(kind_at(toks, i)) is None && !({
            let k = kind_at(toks, i);
            k is LParen || k is LSquare || k is Identifier
        }) ==> p_base_type(toks, i) == Err::<(SpecType<'a>, int), Error>(err_at(toks, i, "Invalid type")),
{
}

/// A type keyword names its type's type symbol: the type it parses to has
/// the type symbol whose name is the keyword's own spelling (`UInt64` parses
/// to the 64-bit unsigned integer, whose type symbol is `UInt64`).
pub proof fn lemma_type_keyword_names<'a>(tk: TokenKind<'a>)
    ensures
        keyword_type(tk) matches Some(t) ==> (symbol_kind_of(t) matches Some(k) && spelling(tk) == Some(kind_name(k))),
{
}

} // verus!
