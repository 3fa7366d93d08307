//! Resolving expressions against the symbol tables: literals, identifiers,
//! and static and member accesses.
use vstd::prelude::*;

use super::{
    define_scope_in, lemma_define_then_resolve_scope, resolve_container_in, resolve_scope_in, state_wf, resolve_type_in, CheckError, Checker, CheckerState, Container,
    ScopeSymbol, TypeSymbol,
};
use super::entries::{find_entry, lemma_first_index, lookup};
use super::number::{parse_signed, parse_unsigned, signed_value, unsigned_value};
use crate::ast::{Expr, ExprKind, SpecExpr, SpecExprKind};
use crate::symbols::{kind_str, TypeSymbolKind};
use crate::types::{symbol_kind_of, Sign, SpecType, Type};

verus! {

/// A literal value. A floating point literal is held by the bits of its
/// IEEE 754 representation.
#[derive(Debug, Clone, Copy, PartialEq, Eq)]
pub enum Literal<'a> {
    UInt8(u8),
    UInt16(u16),
    UInt32(u32),
    UInt64(u64),
    UInt128(u128),
    Int8(i8),
    Int16(i16),
    Int32(i32),
    Int64(i64),
    Int128(i128),
    Float32(u32),
    Float64(u64),
    Str(&'a str),
    Bool(bool),
}

/// The kind of type symbol that holds the members of a literal's type.
pub open spec fn literal_kind<'a>(l: Literal<'a>) -> TypeSymbolKind<'a> {
    match l {
        Literal::UInt8(_) => TypeSymbolKind::UInt8,
        Literal::UInt16(_) => TypeSymbolKind::UInt16,
        Literal::UInt32(_) => TypeSymbolKind::UInt32,
        Literal::UInt64(_) => TypeSymbolKind::UInt64,
        Literal::UInt128(_) => TypeSymbolKind::UInt128,
        Literal::Int8(_) => TypeSymbolKind::Int8,
        Literal::Int16(_) => TypeSymbolKind::Int16,
        Literal::Int32(_) => TypeSymbolKind::Int32,
        Literal::Int64(_) => TypeSymbolKind::Int64,
        Literal::Int128(_) => TypeSymbolKind::Int128,
        Literal::Float32(_) => TypeSymbolKind::Float32,
        Literal::Float64(_) => TypeSymbolKind::Float64,
        Literal::Str(_) => TypeSymbolKind::Str,
        Literal::Bool(_) => TypeSymbolKind::Bool,
    }
}

impl<'a> Literal<'a> {
    /// The kind of type symbol that holds the members of this literal's type.
    pub fn type_symbol_id(&self) -> (r: TypeSymbolKind<'a>)
        ensures
            r == literal_kind(*self),
    {
        match self {
            Literal::UInt8(_) => TypeSymbolKind::UInt8,
            Literal::UInt16(_) => TypeSymbolKind::UInt16,
            Literal::UInt32(_) => TypeSymbolKind::UInt32,
            Literal::UInt64(_) => TypeSymbolKind::UInt64,
            Literal::UInt128(_) => TypeSymbolKind::UInt128,
            Literal::Int8(_) => TypeSymbolKind::Int8,
            Literal::Int16(_) => TypeSymbolKind::Int16,
            Literal::Int32(_) => TypeSymbolKind::Int32,
            Literal::Int64(_) => TypeSymbolKind::Int64,
            Literal::Int128(_) => TypeSymbolKind::Int128,
            Literal::Float32(_) => TypeSymbolKind::Float32,
            Literal::Float64(_) => TypeSymbolKind::Float64,
            Literal::Str(_) => TypeSymbolKind::Str,
            Literal::Bool(_) => TypeSymbolKind::Bool,
        }
    }
}

/// What an expression resolves to: a type, a symbol, a type symbol or a
/// container of the tables, or a literal.
pub enum ResolvedExpr<'s, 'a> {
    Type(&'s Type<'a>),
    ScopeSymbol(&'s ScopeSymbol<'a>),
    TypeSymbol(&'s TypeSymbol<'a>),
    Container(&'s Container<'a>),
    Literal(Literal<'a>),
}

/// The model of a resolved expression: the value it refers to.
pub enum Resolved<'a> {
    Type(SpecType<'a>),
    ScopeSymbol(ScopeSymbol<'a>),
    TypeSymbol(TypeSymbol<'a>),
    Container(Container<'a>),
    Literal(Literal<'a>),
}

impl<'s, 'a> View for ResolvedExpr<'s, 'a> {
    type V = Resolved<'a>;

    open spec fn view(&self) -> Resolved<'a> {
        match *self {
            ResolvedExpr::Type(t) => Resolved::Type(t@),
            ResolvedExpr::ScopeSymbol(s) => Resolved::ScopeSymbol(*s),
            ResolvedExpr::TypeSymbol(t) => Resolved::TypeSymbol(*t),
            ResolvedExpr::Container(c) => Resolved::Container(*c),
            ResolvedExpr::Literal(l) => Resolved::Literal(l),
        }
    }
}

/// The model of a result of resolving.
pub open spec fn resolved_result<'s, 'a>(r: Result<ResolvedExpr<'s, 'a>, CheckError<'a>>) -> Result<
    Resolved<'a>,
    CheckError<'a>,
> {
    match r {
        Ok(x) => Ok(x@),
        Err(e) => Err(e),
    }
}

/// The literal of an unsigned number: the narrowest unsigned type that holds
/// it.
pub open spec fn unsigned_literal<'a>(v: u128) -> Literal<'a> {
    if v <= u8::MAX {
        Literal::UInt8(v as u8)
    } else if v <= u16::MAX {
        Literal::UInt16(v as u16)
    } else if v <= u32::MAX {
        Literal::UInt32(v as u32)
    } else if v <= u64::MAX {
        Literal::UInt64(v as u64)
    } else {
        Literal::UInt128(v)
    }
}

/// The literal of a signed number: the first signed type whose magnitude
/// bound (that of its least value) is at least the number, the number cast
/// to it.
pub open spec fn signed_literal<'a>(v: i128) -> Literal<'a> {
    if v <= 0x80 {
        Literal::Int8(v as i8)
    } else if v <= 0x8000 {
        Literal::Int16(v as i16)
    } else if v <= 0x8000_0000 {
        Literal::Int32(v as i32)
    } else if v <= 0x8000_0000_0000_0000 {
        Literal::Int64(v as i64)
    } else {
        Literal::Int128(v)
    }
}

/// An unsigned number is held exactly, in the narrowest unsigned type that
/// holds it.
pub proof fn lemma_unsigned_literal_narrowest<'a>(v: u128)
    ensures
        match unsigned_literal::<'a>(v) {
            Literal::UInt8(x) => x == v,
            Literal::UInt16(x) => x == v && v > u8::MAX,
            Literal::UInt32(x) => x == v && v > u16::MAX,
            Literal::UInt64(x) => x == v && v > u32::MAX,
            Literal::UInt128(x) => x == v && v > u64::MAX,
            _ => false,
        },
{
}

/// Reading the integer `num` with the given signedness.
pub open spec fn num_in<'a>(num: Seq<char>, sign: Sign, line: usize, col: usize) -> Result<Literal<'a>, CheckError<'a>> {
    match sign {
        Sign::Unsigned => match unsigned_value(num) {
            Some(v) => Ok(unsigned_literal(v)),
            None => Err(CheckError::OutOfBounds { line, col, signed: false }),
        },
        Sign::Signed => match signed_value(num) {
            Some(v) => Ok(signed_literal(v)),
            None => Err(CheckError::OutOfBounds { line, col, signed: true }),
        },
    }
}

/// The identifier `id` in the module `path`: a symbol, else a type symbol,
/// else a container of that name.
pub open spec fn identifier_in<'a>(st: CheckerState<'a>, line: usize, col: usize, id: &'a str, path: &'a str) -> Result<
    Resolved<'a>,
    CheckError<'a>,
> {
    match resolve_scope_in(st, id, path, line, col) {
        Ok(s) => Ok(Resolved::ScopeSymbol(s)),
        Err(_) => match resolve_type_in(st, id, path, line, col) {
            Ok(t) => Ok(Resolved::TypeSymbol(t)),
            Err(_) => match resolve_container_in(st, id, path, line, col) {
                Ok(c) => Ok(Resolved::Container(c)),
                Err(_) => Err(CheckError::UndefinedIdentifier { line, col, id }),
            },
        },
    }
}

/// The member `member` of the type symbol `t`, reached by a static access
/// (`static_member`) or a member access; it must be static exactly for the
/// former.
pub open spec fn member_of<'a>(t: TypeSymbol<'a>, member: &'a str, static_member: bool, line: usize, col: usize) -> Result<
    Resolved<'a>,
    CheckError<'a>,
> {
    match lookup(t.members@, member@) {
        None => Err(CheckError::NoMember { line, col, member, kind: t.kind }),
        Some(s) => if static_member && !s.is_static_member {
            Err(CheckError::NotStatic { line, col, member, kind: t.kind })
        } else if !static_member && s.is_static_member {
            Err(CheckError::IsStatic { line, col, member, kind: t.kind })
        } else {
            Ok(Resolved::ScopeSymbol(s))
        },
    }
}

/// What checking the expression `e` gives; `None` where checking it does not
/// complete: an expression of another kind, a floating point number, or a
/// member access on a symbol whose type has no type symbol.
pub open spec fn check_in<'a>(st: CheckerState<'a>, e: SpecExpr<'a>) -> Option<Result<Resolved<'a>, CheckError<'a>>>
    decreases e, 0nat,
{
    match e.kind {
        SpecExprKind::Number(n) => if n@.contains('.') {
            None
        } else {
            Some(
                match num_in(n@, Sign::Unsigned, e.line, e.col) {
                    Ok(l) => Ok(Resolved::Literal(l)),
                    Err(x) => Err(x),
                },
            )
        },
        SpecExprKind::String(s) => Some(Ok(Resolved::Literal(Literal::Str(s)))),
        SpecExprKind::Bool(b) => Some(Ok(Resolved::Literal(Literal::Bool(b)))),
        SpecExprKind::Identifier(id) => Some(identifier_in(st, e.line, e.col, id, st.current)),
        SpecExprKind::StaticAccess { target, member } => static_access_in(st, *target, member),
        SpecExprKind::MemberAccess { target, member } => member_access_in(st, *target, member),
        _ => None,
    }
}

/// What the static access `target::member` gives.
pub open spec fn static_access_in<'a>(st: CheckerState<'a>, target: SpecExpr<'a>, member: &'a str) -> Option<
    Result<Resolved<'a>, CheckError<'a>>,
>
    decreases target, 1nat,
{
    match check_in(st, target) {
        None => None,
        Some(Err(x)) => Some(Err(x)),
        Some(Ok(r)) => Some(
            match r {
                Resolved::ScopeSymbol(s) => match s.ty {
                    Type::Module(path) => identifier_in(st, target.line, target.col, member, path),
                    _ => Err(CheckError::NotAModule { line: target.line, col: target.col }),
                },
                Resolved::TypeSymbol(t) => member_of(t, member, true, target.line, target.col),
                _ => Err(CheckError::NoStaticAccess { line: target.line, col: target.col }),
            },
        ),
    }
}

/// What the member access `target.member` gives: the member is looked up in
/// the type symbol, seen from the current module, of the target's type.
pub open spec fn member_access_in<'a>(st: CheckerState<'a>, target: SpecExpr<'a>, member: &'a str) -> Option<
    Result<Resolved<'a>, CheckError<'a>>,
>
    decreases target, 1nat,
{
    match check_in(st, target) {
        None => None,
        Some(Err(x)) => Some(Err(x)),
        Some(Ok(r)) => match r {
            Resolved::ScopeSymbol(s) => match symbol_kind_of(s.ty@) {
                None => None,
                Some(k) => Some(member_in(st, k, member, target.line, target.col)),
            },
            Resolved::Literal(l) => Some(member_in(st, literal_kind(l), member, target.line, target.col)),
            _ => Some(Err(CheckError::NoMemberAccess { line: target.line, col: target.col })),
        },
    }
}

/// The member `member`, not static, of the type symbol of kind `kind` seen
/// from the current module.
pub open spec fn member_in<'a>(st: CheckerState<'a>, kind: TypeSymbolKind<'a>, member: &'a str, line: usize, col: usize) -> Result<
    Resolved<'a>,
    CheckError<'a>,
> {
    match resolve_type_in(st, kind_str(kind), st.current, line, col) {
        Err(x) => Err(x),
        Ok(t) => member_of(t, member, false, line, col),
    }
}

/// An identifier defined as a symbol in the current scope is checked as
/// that symbol.
pub proof fn lemma_defined_identifier_checks<'a>(
    st: CheckerState<'a>,
    id: &'a str,
    symbol: ScopeSymbol<'a>,
    line: usize,
    col: usize,
    e: SpecExpr<'a>,
)
    requires
        state_wf(st),
        define_scope_in(st, id, symbol, line, col) is Ok,
        e.kind == SpecExprKind::Identifier(id),
    ensures
        check_in(define_scope_in(st, id, symbol, line, col)->Ok_0, e) == Some(
            Ok::<Resolved<'a>, CheckError<'a>>(Resolved::ScopeSymbol(symbol)),
        ),
{
    lemma_define_then_resolve_scope(st, id, symbol, line, col, e.line, e.col);
}

/// A static access, arm by arm on what its target resolves to: a type
/// symbol gives its member when that member is static; a module symbol gives
/// the identifier looked up in that module; any other symbol is no module;
/// anything else allows no static access.
pub proof fn lemma_static_access_arms<'a>(st: CheckerState<'a>, target: SpecExpr<'a>, member: &'a str, r: Resolved<'a>)
    requires
        check_in(st, target) == Some(Ok::<Resolved<'a>, CheckError<'a>>(r)),
    ensures
        r matches Resolved::TypeSymbol(t) ==> static_access_in(st, target, member) == Some(
            match lookup(t.members@, member@) {
                Some(s) => if s.is_static_member {
                    Ok(Resolved::ScopeSymbol(s))
                } else {
                    Err(CheckError::NotStatic { line: target.line, col: target.col, member, kind: t.kind })
                },
                None => Err(CheckError::NoMember { line: target.line, col: target.col, member, kind: t.kind }),
            },
        ),
        r matches Resolved::ScopeSymbol(s) ==> static_access_in(st, target, member) == Some(
            match s.ty {
                Type::Module(path) => identifier_in(st, target.line, target.col, member, path),
                _ => Err(CheckError::NotAModule { line: target.line, col: target.col }),
            },
        ),
        !(r is TypeSymbol || r is ScopeSymbol) ==> static_access_in(st, target, member) == Some(
            Err::<Resolved<'a>, CheckError<'a>>(CheckError::NoStaticAccess { line: target.line, col: target.col }),
        ),
{
}

impl<'a> Checker<'a> {
    /// Resolves the expression `expr`.
    pub fn check_expr<'s>(&'s self, expr: &Expr<'a>) -> (r: Result<ResolvedExpr<'s, 'a>, CheckError<'a>>)
        requires
            self.wf(),
            check_in(self.state(), expr@) is Some,
        ensures
            check_in(self.state(), expr@) == Some(resolved_result(r)),
        decreases expr, 0nat,
    {
        match &expr.kind {
            ExprKind::Number(num) => self.check_num(expr, num, Sign::Unsigned),
            ExprKind::String(s) => Ok(ResolvedExpr::Literal(Literal::Str(s))),
            ExprKind::Bool(b) => Ok(ResolvedExpr::Literal(Literal::Bool(*b))),
            ExprKind::Identifier(id) => self.check_identifier(expr, id, self.current_module()),
            ExprKind::StaticAccess { target, member } => self.check_static_access(target, member),
            ExprKind::MemberAccess { target, member } => self.check_member_access(target, member),
            _ => unreached(),
        }
    }

    /// Reads the integer `num`, written at `expr`, as a literal of the
    /// narrowest type of the given signedness that holds it.
    pub fn check_num<'s>(&'s self, expr: &Expr<'a>, num: &'a str, sign: Sign) -> (r: Result<
        ResolvedExpr<'s, 'a>,
        CheckError<'a>,
    >)
        requires
            !num@.contains('.'),
        ensures
            resolved_result(r) == (match num_in(num@, sign, expr.line, expr.col) {
                Ok(l) => Ok(Resolved::Literal(l)),
                Err(x) => Err::<Resolved<'a>, CheckError<'a>>(x),
            }),
    {
        match sign {
            Sign::Unsigned => {
                let val = match parse_unsigned(num) {
                    Some(v) => v,
                    None => return Err(CheckError::OutOfBounds { line: expr.line, col: expr.col, signed: false }),
                };
                let lit = if val <= u8::MAX as u128 {
                    Literal::UInt8(val as u8)
                } else if val <= u16::MAX as u128 {
                    Literal::UInt16(val as u16)
                } else if val <= u32::MAX as u128 {
                    Literal::UInt32(val as u32)
                } else if val <= u64::MAX as u128 {
                    Literal::UInt64(val as u64)
                } else {
                    Literal::UInt128(val)
                };
                Ok(ResolvedExpr::Literal(lit))
            },
            Sign::Signed => {
                let val = match parse_signed(num) {
                    Some(v) => v,
                    None => return Err(CheckError::OutOfBounds { line: expr.line, col: expr.col, signed: true }),
                };
                let lit = if val <= 0x80 {
                    Literal::Int8(val as i8)
                } else if val <= 0x8000 {
                    Literal::Int16(val as i16)
                } else if val <= 0x8000_0000 {
                    Literal::Int32(val as i32)
                } else if val <= 0x8000_0000_0000_0000 {
                    Literal::Int64(val as i64)
                } else {
                    Literal::Int128(val)
                };
                Ok(ResolvedExpr::Literal(lit))
            },
        }
    }

    /// Resolves the identifier `id`, written at `expr`, in the module
    /// `path`: as a symbol, else a type symbol, else a container.
    pub fn check_identifier<'s>(&'s self, expr: &Expr<'a>, id: &'a str, path: &'a str) -> (r: Result<
        ResolvedExpr<'s, 'a>,
        CheckError<'a>,
    >)
        requires
            self.wf(),
        ensures
            resolved_result(r) == identifier_in(self.state(), expr.line, expr.col, id, path),
    {
        if let Ok(symbol) = self.resolve_scope_symbol(id, path, expr.line, expr.col) {
            return Ok(ResolvedExpr::ScopeSymbol(symbol));
        } else if let Ok(type_symbol) = self.resolve_type_symbol(id, path, expr.line, expr.col) {
            return Ok(ResolvedExpr::TypeSymbol(type_symbol));
        } else if let Ok(container) = self.resolve_container(id, path, expr.line, expr.col) {
            return Ok(ResolvedExpr::Container(container));
        }
        Err(CheckError::UndefinedIdentifier { line: expr.line, col: expr.col, id })
    }

    /// The member `member` of the type symbol `t`, which must be static
    /// exactly when `static_member` holds.
    fn find_member<'s>(t: &'s TypeSymbol<'a>, member: &'a str, static_member: bool, line: usize, col: usize) -> (r: Result<
        ResolvedExpr<'s, 'a>,
        CheckError<'a>,
    >)
        ensures
            resolved_result(r) == member_of(*t, member, static_member, line, col),
    {
        let symbol = match find_entry(&t.members, member) {
            Some(k) => {
                proof {
                    lemma_first_index(t.members@, member@, k as int);
                }
                &t.members[k].1
            },
            None => {
                proof {
                    lemma_first_index(t.members@, member@, t.members.len() as int);
                }
                return Err(CheckError::NoMember { line, col, member, kind: t.kind });
            },
        };
        if static_member && !symbol.is_static_member {
            return Err(CheckError::NotStatic { line, col, member, kind: t.kind });
        }
        if !static_member && symbol.is_static_member {
            return Err(CheckError::IsStatic { line, col, member, kind: t.kind });
        }
        Ok(ResolvedExpr::ScopeSymbol(symbol))
    }

    /// Resolves the static access `target::member`: a symbol of a module, or
    /// a static member of a type symbol.
    pub fn check_static_access<'s>(&'s self, target: &Expr<'a>, member: &'a str) -> (r: Result<
        ResolvedExpr<'s, 'a>,
        CheckError<'a>,
    >)
        requires
            self.wf(),
            static_access_in(self.state(), target@, member) is Some,
        ensures
            static_access_in(self.state(), target@, member) == Some(resolved_result(r)),
        decreases target, 1nat,
    {
        let resolved_target = self.check_expr(target)?;
        match resolved_target {
            ResolvedExpr::ScopeSymbol(s) => match &s.ty {
                Type::Module(path) => self.check_identifier(target, member, path),
                _ => Err(CheckError::NotAModule { line: target.line, col: target.col }),
            },
            ResolvedExpr::TypeSymbol(t) => Self::find_member(t, member, true, target.line, target.col),
            _ => Err(CheckError::NoStaticAccess { line: target.line, col: target.col }),
        }
    }

    /// Resolves the member access `target.member`: a member that is not
    /// static, of the type symbol of the target's type.
    pub fn check_member_access<'s>(&'s self, target: &Expr<'a>, member: &'a str) -> (r: Result<
        ResolvedExpr<'s, 'a>,
        CheckError<'a>,
    >)
        requires
            self.wf(),
            member_access_in(self.state(), target@, member) is Some,
        ensures
            member_access_in(self.state(), target@, member) == Some(resolved_result(r)),
        decreases target, 1nat,
    {
        let resolved_target = self.check_expr(target)?;
        let type_symbol_id = match resolved_target {
            ResolvedExpr::ScopeSymbol(s) => s.ty.type_symbol_id().unwrap().as_str(),
            ResolvedExpr::Literal(lit) => lit.type_symbol_id().as_str(),
            _ => {
                return Err(CheckError::NoMemberAccess { line: target.line, col: target.col });
            },
        };
        let type_symbol = self.resolve_type_symbol(type_symbol_id, self.current_module(), target.line, target.col)?;
        Self::find_member(type_symbol, member, false, target.line, target.col)
    }
}

} // verus!
