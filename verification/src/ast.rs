use vstd::prelude::*;

verus! {

/// A statement with the line and column it starts at.
#[derive(Debug)]
pub struct Statement<'a> {
    pub kind: StatementKind<'a>,
    pub line: usize,
    pub col: usize,
}

/// An expression with the line and column it starts at.
#[derive(Debug)]
pub struct Expr<'a> {
    pub kind: ExprKind<'a>,
    pub line: usize,
    pub col: usize,
}

#[derive(Debug)]
pub enum StatementKind<'a> {
    Import { alias: Option<&'a str>, path: Expr<'a> },
    VarDeclare {
        visibility: Visibility,
        kind: VarKind,
        id: &'a str,
        ty: Option<Expr<'a>>,
        value: Expr<'a>,
    },
    VarAssign { var: Expr<'a>, value: Expr<'a> },
    Node { visibility: Visibility, id: &'a str, ty: Expr<'a>, value: Expr<'a> },
    Func {
        visibility: Visibility,
        id: &'a str,
        params: Vec<Param<'a>>,
        ty: Expr<'a>,
        body: Expr<'a>,
    },
    State { visibility: Visibility, id: &'a str, fields: Vec<Field<'a>> },
    Container { visibility: Visibility, id: &'a str, types: Vec<Expr<'a>> },
    Method { target: Expr<'a>, methods: Expr<'a> },
    Enum { visibility: Visibility, id: &'a str, variants: Vec<Variant<'a>> },
    Alias { alias_id: &'a str, ty: Expr<'a> },
    Expr(Expr<'a>),
}

#[derive(Debug, Clone, Copy, PartialEq, Eq)]
pub enum VarKind {
    Const,
    Var,
}

#[derive(Debug, Clone, Copy, PartialEq, Eq)]
pub enum Visibility {
    Pub,
    Priv,
}

/// A parameter; its type is written as an expression.
#[derive(Debug)]
pub struct Param<'a> {
    pub id: &'a str,
    pub ty: Expr<'a>,
}

/// A field of a state block.
#[derive(Debug)]
pub struct Field<'a> {
    pub visibility: Visibility,
    pub id: &'a str,
    pub ty: Expr<'a>,
}

/// A field given a value when a state is instanced.
#[derive(Debug)]
pub struct InstanceField<'a> {
    pub id: &'a str,
    pub value: Expr<'a>,
}

/// A variant of an enumeration, with the types of its data.
#[derive(Debug)]
pub struct Variant<'a> {
    pub id: &'a str,
    pub data: Vec<Expr<'a>>,
}

#[derive(Debug)]
pub enum ExprKind<'a> {
    Number(&'a str),
    String(&'a str),
    Bool(bool),
    Identifier(&'a str),
    StaticAccess { target: Box<Expr<'a>>, member: &'a str },
    MemberAccess { target: Box<Expr<'a>>, member: &'a str },
    Tuple(Vec<Expr<'a>>),
    Array(Vec<Expr<'a>>),
    Block(Vec<Statement<'a>>),
    Return(Box<Expr<'a>>),
    Yield(Box<Expr<'a>>),
    Break,
    Continue,
    StateInstance { id: &'a str, fields: Vec<InstanceField<'a>> },
    Call { base: Box<Expr<'a>>, args: Vec<Expr<'a>> },
    Unary { op: UnaryOp, right: Box<Expr<'a>> },
    Binary { left: Box<Expr<'a>>, op: BinaryOp, right: Box<Expr<'a>> },
    For {
        elem: &'a str,
        iter: Box<Expr<'a>>,
        do_body: Box<Expr<'a>>,
        else_body: Option<Box<Expr<'a>>>,
    },
    While {
        condition: Box<Expr<'a>>,
        do_body: Box<Expr<'a>>,
        else_body: Option<Box<Expr<'a>>>,
    },
    If {
        condition: Box<Expr<'a>>,
        do_body: Box<Expr<'a>>,
        else_body: Option<Box<Expr<'a>>>,
    },
    Lambda { params: Vec<Param<'a>>, body: Box<Expr<'a>> },
}

#[derive(Debug, Clone, Copy, PartialEq, Eq)]
pub enum UnaryOp {
    Not,
    Minus,
    Ref,
    Deref,
}

#[derive(Debug, Clone, Copy, PartialEq, Eq)]
pub enum BinaryOp {
    Pow,
    Mult,
    Div,
    Add,
    Sub,
    Range,
    LessThan,
    GreaterThan,
    LessEqual,
    GreaterEqual,
    Equal,
    NotEqual,
    And,
    Nand,
    Xor,
    Xnor,
    Or,
    Nor,
    RPipe,
}

/// The model of a statement: the same tree, with sequences in place of
/// vectors.
pub struct SpecStatement<'a> {
    pub kind: SpecStatementKind<'a>,
    pub line: usize,
    pub col: usize,
}

/// The model of an expression.
pub struct SpecExpr<'a> {
    pub kind: SpecExprKind<'a>,
    pub line: usize,
    pub col: usize,
}

pub enum SpecStatementKind<'a> {
    Import { alias: Option<&'a str>, path: SpecExpr<'a> },
    VarDeclare {
        visibility: Visibility,
        kind: VarKind,
        id: &'a str,
        ty: Option<SpecExpr<'a>>,
        value: SpecExpr<'a>,
    },
    VarAssign { var: SpecExpr<'a>, value: SpecExpr<'a> },
    Node { visibility: Visibility, id: &'a str, ty: SpecExpr<'a>, value: SpecExpr<'a> },
    Func {
        visibility: Visibility,
        id: &'a str,
        params: Seq<SpecParam<'a>>,
        ty: SpecExpr<'a>,
        body: SpecExpr<'a>,
    },
    State { visibility: Visibility, id: &'a str, fields: Seq<SpecField<'a>> },
    Container { visibility: Visibility, id: &'a str, types: Seq<SpecExpr<'a>> },
    Method { target: SpecExpr<'a>, methods: SpecExpr<'a> },
    Enum { visibility: Visibility, id: &'a str, variants: Seq<SpecVariant<'a>> },
    Alias { alias_id: &'a str, ty: SpecExpr<'a> },
    Expr(SpecExpr<'a>),
}

pub struct SpecParam<'a> {
    pub id: &'a str,
    pub ty: SpecExpr<'a>,
}

pub struct SpecField<'a> {
    pub visibility: Visibility,
    pub id: &'a str,
    pub ty: SpecExpr<'a>,
}

pub struct SpecInstanceField<'a> {
    pub id: &'a str,
    pub value: SpecExpr<'a>,
}

pub struct SpecVariant<'a> {
    pub id: &'a str,
    pub data: Seq<SpecExpr<'a>>,
}

pub enum SpecExprKind<'a> {
    Number(&'a str),
    String(&'a str),
    Bool(bool),
    Identifier(&'a str),
    StaticAccess { target: Box<SpecExpr<'a>>, member: &'a str },
    MemberAccess { target: Box<SpecExpr<'a>>, member: &'a str },
    Tuple(Seq<SpecExpr<'a>>),
    Array(Seq<SpecExpr<'a>>),
    Block(Seq<SpecStatement<'a>>),
    Return(Box<SpecExpr<'a>>),
    Yield(Box<SpecExpr<'a>>),
    Break,
    Continue,
    StateInstance { id: &'a str, fields: Seq<SpecInstanceField<'a>> },
    Call { base: Box<SpecExpr<'a>>, args: Seq<SpecExpr<'a>> },
    Unary { op: UnaryOp, right: Box<SpecExpr<'a>> },
    Binary { left: Box<SpecExpr<'a>>, op: BinaryOp, right: Box<SpecExpr<'a>> },
    For {
        elem: &'a str,
        iter: Box<SpecExpr<'a>>,
        do_body: Box<SpecExpr<'a>>,
        else_body: Option<Box<SpecExpr<'a>>>,
    },
    While {
        condition: Box<SpecExpr<'a>>,
        do_body: Box<SpecExpr<'a>>,
        else_body: Option<Box<SpecExpr<'a>>>,
    },
    If {
        condition: Box<SpecExpr<'a>>,
        do_body: Box<SpecExpr<'a>>,
        else_body: Option<Box<SpecExpr<'a>>>,
    },
    Lambda { params: Seq<SpecParam<'a>>, body: Box<SpecExpr<'a>> },
}

pub open spec fn view_opt<'a>(e: Option<Box<Expr<'a>>>) -> Option<Box<SpecExpr<'a>>>
    decreases e,
{
    match e {
        Some(b) => Some(Box::new(view_expr(*b))),
        None => None,
    }
}

pub open spec fn view_exprs<'a>(s: Seq<Expr<'a>>) -> Seq<SpecExpr<'a>>
    decreases s,
{
    if s.len() == 0 {
        Seq::empty()
    } else {
        seq![view_expr(s[0])] + view_exprs(s.subrange(1, s.len() as int))
    }
}

pub open spec fn view_stmts<'a>(s: Seq<Statement<'a>>) -> Seq<SpecStatement<'a>>
    decreases s,
{
    if s.len() == 0 {
        Seq::empty()
    } else {
        seq![view_stmt(s[0])] + view_stmts(s.subrange(1, s.len() as int))
    }
}

pub open spec fn view_params<'a>(s: Seq<Param<'a>>) -> Seq<SpecParam<'a>>
    decreases s,
{
    if s.len() == 0 {
        Seq::empty()
    } else {
        seq![SpecParam { id: s[0].id, ty: view_expr(s[0].ty) }] + view_params(
            s.subrange(1, s.len() as int),
        )
    }
}

pub open spec fn view_fields<'a>(s: Seq<Field<'a>>) -> Seq<SpecField<'a>>
    decreases s,
{
    if s.len() == 0 {
        Seq::empty()
    } else {
        seq![SpecField { visibility: s[0].visibility, id: s[0].id, ty: view_expr(s[0].ty) }]
            + view_fields(s.subrange(1, s.len() as int))
    }
}

pub open spec fn view_instance_fields<'a>(s: Seq<InstanceField<'a>>) -> Seq<SpecInstanceField<'a>>
    decreases s,
{
    if s.len() == 0 {
        Seq::empty()
    } else {
        seq![SpecInstanceField { id: s[0].id, value: view_expr(s[0].value) }]
            + view_instance_fields(s.subrange(1, s.len() as int))
    }
}

pub open spec fn view_variants<'a>(s: Seq<Variant<'a>>) -> Seq<SpecVariant<'a>>
    decreases s,
{
    if s.len() == 0 {
        Seq::empty()
    } else {
        seq![SpecVariant { id: s[0].id, data: view_exprs(s[0].data@) }] + view_variants(
            s.subrange(1, s.len() as int),
        )
    }
}

pub open spec fn view_expr<'a>(e: Expr<'a>) -> SpecExpr<'a>
    decreases e,
{
    SpecExpr {
        kind: match e.kind {
            ExprKind::Number(n) => SpecExprKind::Number(n),
            ExprKind::String(s) => SpecExprKind::String(s),
            ExprKind::Bool(b) => SpecExprKind::Bool(b),
            ExprKind::Identifier(id) => SpecExprKind::Identifier(id),
            ExprKind::StaticAccess { target, member } => SpecExprKind::StaticAccess {
                target: Box::new(view_expr(*target)),
                member,
            },
            ExprKind::MemberAccess { target, member } => SpecExprKind::MemberAccess {
                target: Box::new(view_expr(*target)),
                member,
            },
            ExprKind::Tuple(v) => SpecExprKind::Tuple(view_exprs(v@)),
            ExprKind::Array(v) => SpecExprKind::Array(view_exprs(v@)),
            ExprKind::Block(v) => SpecExprKind::Block(view_stmts(v@)),
            ExprKind::Return(b) => SpecExprKind::Return(Box::new(view_expr(*b))),
            ExprKind::Yield(b) => SpecExprKind::Yield(Box::new(view_expr(*b))),
            ExprKind::Break => SpecExprKind::Break,
            ExprKind::Continue => SpecExprKind::Continue,
            ExprKind::StateInstance { id, fields } => SpecExprKind::StateInstance {
                id,
                fields: view_instance_fields(fields@),
            },
            ExprKind::Call { base, args } => SpecExprKind::Call {
                base: Box::new(view_expr(*base)),
                args: view_exprs(args@),
            },
            ExprKind::Unary { op, right } => SpecExprKind::Unary {
                op,
                right: Box::new(view_expr(*right)),
            },
            ExprKind::Binary { left, op, right } => SpecExprKind::Binary {
                left: Box::new(view_expr(*left)),
                op,
                right: Box::new(view_expr(*right)),
            },
            ExprKind::For { elem, iter, do_body, else_body } => SpecExprKind::For {
                elem,
                iter: Box::new(view_expr(*iter)),
                do_body: Box::new(view_expr(*do_body)),
                else_body: view_opt(else_body),
            },
            ExprKind::While { condition, do_body, else_body } => SpecExprKind::While {
                condition: Box::new(view_expr(*condition)),
                do_body: Box::new(view_expr(*do_body)),
                else_body: view_opt(else_body),
            },
            ExprKind::If { condition, do_body, else_body } => SpecExprKind::If {
                condition: Box::new(view_expr(*condition)),
                do_body: Box::new(view_expr(*do_body)),
                else_body: view_opt(else_body),
            },
            ExprKind::Lambda { params, body } => SpecExprKind::Lambda {
                params: view_params(params@),
                body: Box::new(view_expr(*body)),
            },
        },
        line: e.line,
        col: e.col,
    }
}

pub open spec fn view_stmt<'a>(s: Statement<'a>) -> SpecStatement<'a>
    decreases s,
{
    SpecStatement {
        kind: match s.kind {
            StatementKind::Import { alias, path } => SpecStatementKind::Import {
                alias,
                path: view_expr(path),
            },
            StatementKind::VarDeclare { visibility, kind, id, ty, value } => SpecStatementKind::VarDeclare {
                visibility,
                kind,
                id,
                ty: match ty {
                    Some(t) => Some(view_expr(t)),
                    None => None,
                },
                value: view_expr(value),
            },
            StatementKind::VarAssign { var, value } => SpecStatementKind::VarAssign {
                var: view_expr(var),
                value: view_expr(value),
            },
            StatementKind::Node { visibility, id, ty, value } => SpecStatementKind::Node {
                visibility,
                id,
                ty: view_expr(ty),
                value: view_expr(value),
            },
            StatementKind::Func { visibility, id, params, ty, body } => SpecStatementKind::Func {
                visibility,
                id,
                params: view_params(params@),
                ty: view_expr(ty),
                body: view_expr(body),
            },
            StatementKind::State { visibility, id, fields } => SpecStatementKind::State {
                visibility,
                id,
                fields: view_fields(fields@),
            },
            StatementKind::Container { visibility, id, types } => SpecStatementKind::Container {
                visibility,
                id,
                types: view_exprs(types@),
            },
            StatementKind::Method { target, methods } => SpecStatementKind::Method {
                target: view_expr(target),
                methods: view_expr(methods),
            },
            StatementKind::Enum { visibility, id, variants } => SpecStatementKind::Enum {
                visibility,
                id,
                variants: view_variants(variants@),
            },
            StatementKind::Alias { alias_id, ty } => SpecStatementKind::Alias {
                alias_id,
                ty: view_expr(ty),
            },
            StatementKind::Expr(e) => SpecStatementKind::Expr(view_expr(e)),
        },
        line: s.line,
        col: s.col,
    }
}

impl<'a> View for Expr<'a> {
    type V = SpecExpr<'a>;

    open spec fn view(&self) -> SpecExpr<'a> {
        view_expr(*self)
    }
}

impl<'a> View for Statement<'a> {
    type V = SpecStatement<'a>;

    open spec fn view(&self) -> SpecStatement<'a> {
        view_stmt(*self)
    }
}

impl<'a> View for Param<'a> {
    type V = SpecParam<'a>;

    open spec fn view(&self) -> SpecParam<'a> {
        SpecParam { id: self.id, ty: self.ty@ }
    }
}

impl<'a> View for Field<'a> {
    type V = SpecField<'a>;

    open spec fn view(&self) -> SpecField<'a> {
        SpecField { visibility: self.visibility, id: self.id, ty: self.ty@ }
    }
}

impl<'a> View for InstanceField<'a> {
    type V = SpecInstanceField<'a>;

    open spec fn view(&self) -> SpecInstanceField<'a> {
        SpecInstanceField { id: self.id, value: self.value@ }
    }
}

impl<'a> View for Variant<'a> {
    type V = SpecVariant<'a>;

    open spec fn view(&self) -> SpecVariant<'a> {
        SpecVariant { id: self.id, data: view_exprs(self.data@) }
    }
}

/// The model of each expression is the model of the item at the same place.
pub proof fn lemma_view_exprs<'a>(s: Seq<Expr<'a>>)
    ensures
        view_exprs(s).len() == s.len(),
        forall|i: int| 0 <= i < s.len() ==> #[trigger] view_exprs(s)[i] == view_expr(s[i]),
    decreases s.len(),
{
    if s.len() > 0 {
        lemma_view_exprs(s.subrange(1, s.len() as int));
        assert forall|i: int| 0 <= i < s.len() implies #[trigger] view_exprs(s)[i] == view_expr(s[i]) by {
            if i > 0 {
                assert(s.subrange(1, s.len() as int)[i - 1] == s[i]);
            }
        }
    }
}

/// The model of a sequence with one more item at its end.
pub proof fn lemma_view_exprs_push<'a>(s: Seq<Expr<'a>>, x: Expr<'a>)
    ensures
        view_exprs(s.push(x)) == view_exprs(s).push(view_expr(x)),
{
    lemma_view_exprs(s.push(x));
    lemma_view_exprs(s);
    assert(view_exprs(s.push(x)) =~= view_exprs(s).push(view_expr(x)));
}

/// The model of each statement is the model of the item at the same place.
pub proof fn lemma_view_stmts<'a>(s: Seq<Statement<'a>>)
    ensures
        view_stmts(s).len() == s.len(),
        forall|i: int| 0 <= i < s.len() ==> #[trigger] view_stmts(s)[i] == view_stmt(s[i]),
    decreases s.len(),
{
    if s.len() > 0 {
        lemma_view_stmts(s.subrange(1, s.len() as int));
        assert forall|i: int| 0 <= i < s.len() implies #[trigger] view_stmts(s)[i] == view_stmt(s[i]) by {
            if i > 0 {
                assert(s.subrange(1, s.len() as int)[i - 1] == s[i]);
            }
        }
    }
}

/// The model of a sequence with one more item at its end.
pub proof fn lemma_view_stmts_push<'a>(s: Seq<Statement<'a>>, x: Statement<'a>)
    ensures
        view_stmts(s.push(x)) == view_stmts(s).push(view_stmt(x)),
{
    lemma_view_stmts(s.push(x));
    lemma_view_stmts(s);
    assert(view_stmts(s.push(x)) =~= view_stmts(s).push(view_stmt(x)));
}

/// The model of each parameter is the model of the item at the same place.
pub proof fn lemma_view_params<'a>(s: Seq<Param<'a>>)
    ensures
        view_params(s).len() == s.len(),
        forall|i: int| 0 <= i < s.len() ==> #[trigger] view_params(s)[i] == (SpecParam { id: s[i].id, ty: view_expr(s[i].ty) }),
    decreases s.len(),
{
    if s.len() > 0 {
        lemma_view_params(s.subrange(1, s.len() as int));
        assert forall|i: int| 0 <= i < s.len() implies #[trigger] view_params(s)[i] == (SpecParam { id: s[i].id, ty: view_expr(s[i].ty) }) by {
            if i > 0 {
                assert(s.subrange(1, s.len() as int)[i - 1] == s[i]);
            }
        }
    }
}

/// The model of a sequence with one more item at its end.
pub proof fn lemma_view_params_push<'a>(s: Seq<Param<'a>>, x: Param<'a>)
    ensures
        view_params(s.push(x)) == view_params(s).push((SpecParam { id: x.id, ty: view_expr(x.ty) })),
{
    lemma_view_params(s.push(x));
    lemma_view_params(s);
    assert(view_params(s.push(x)) =~= view_params(s).push((SpecParam { id: x.id, ty: view_expr(x.ty) })));
}

/// The model of each field is the model of the item at the same place.
pub proof fn lemma_view_fields<'a>(s: Seq<Field<'a>>)
    ensures
        view_fields(s).len() == s.len(),
        forall|i: int| 0 <= i < s.len() ==> #[trigger] view_fields(s)[i] == (SpecField { visibility: s[i].visibility, id: s[i].id, ty: view_expr(s[i].ty) }),
    decreases s.len(),
{
    if s.len() > 0 {
        lemma_view_fields(s.subrange(1, s.len() as int));
        assert forall|i: int| 0 <= i < s.len() implies #[trigger] view_fields(s)[i] == (SpecField { visibility: s[i].visibility, id: s[i].id, ty: view_expr(s[i].ty) }) by {
            if i > 0 {
                assert(s.subrange(1, s.len() as int)[i - 1] == s[i]);
            }
        }
    }
}

/// The model of a sequence with one more item at its end.
pub proof fn lemma_view_fields_push<'a>(s: Seq<Field<'a>>, x: Field<'a>)
    ensures
        view_fields(s.push(x)) == view_fields(s).push((SpecField { visibility: x.visibility, id: x.id, ty: view_expr(x.ty) })),
{
    lemma_view_fields(s.push(x));
    lemma_view_fields(s);
    assert(view_fields(s.push(x)) =~= view_fields(s).push((SpecField { visibility: x.visibility, id: x.id, ty: view_expr(x.ty) })));
}

/// The model of each instance field is the model of the item at the same place.
pub proof fn lemma_view_instance_fields<'a>(s: Seq<InstanceField<'a>>)
    ensures
        view_instance_fields(s).len() == s.len(),
        forall|i: int| 0 <= i < s.len() ==> #[trigger] view_instance_fields(s)[i] == (SpecInstanceField { id: s[i].id, value: view_expr(s[i].value) }),
    decreases s.len(),
{
    if s.len() > 0 {
        lemma_view_instance_fields(s.subrange(1, s.len() as int));
        assert forall|i: int| 0 <= i < s.len() implies #[trigger] view_instance_fields(s)[i] == (SpecInstanceField { id: s[i].id, value: view_expr(s[i].value) }) by {
            if i > 0 {
                assert(s.subrange(1, s.len() as int)[i - 1] == s[i]);
            }
        }
    }
}

/// The model of a sequence with one more item at its end.
pub proof fn lemma_view_instance_fields_push<'a>(s: Seq<InstanceField<'a>>, x: InstanceField<'a>)
    ensures
        view_instance_fields(s.push(x)) == view_instance_fields(s).push((SpecInstanceField { id: x.id, value: view_expr(x.value) })),
{
    lemma_view_instance_fields(s.push(x));
    lemma_view_instance_fields(s);
    assert(view_instance_fields(s.push(x)) =~= view_instance_fields(s).push((SpecInstanceField { id: x.id, value: view_expr(x.value) })));
}

/// The model of each variant is the model of the item at the same place.
pub proof fn lemma_view_variants<'a>(s: Seq<Variant<'a>>)
    ensures
        view_variants(s).len() == s.len(),
        forall|i: int| 0 <= i < s.len() ==> #[trigger] view_variants(s)[i] == (SpecVariant { id: s[i].id, data: view_exprs(s[i].data@) }),
    decreases s.len(),
{
    if s.len() > 0 {
        lemma_view_variants(s.subrange(1, s.len() as int));
        assert forall|i: int| 0 <= i < s.len() implies #[trigger] view_variants(s)[i] == (SpecVariant { id: s[i].id, data: view_exprs(s[i].data@) }) by {
            if i > 0 {
                assert(s.subrange(1, s.len() as int)[i - 1] == s[i]);
            }
        }
    }
}

/// The model of a sequence with one more item at its end.
pub proof fn lemma_view_variants_push<'a>(s: Seq<Variant<'a>>, x: Variant<'a>)
    ensures
        view_variants(s.push(x)) == view_variants(s).push((SpecVariant { id: x.id, data: view_exprs(x.data@) })),
{
    lemma_view_variants(s.push(x));
    lemma_view_variants(s);
    assert(view_variants(s.push(x)) =~= view_variants(s).push((SpecVariant { id: x.id, data: view_exprs(x.data@) })));
}

/// How a binary operator is written in source.
pub open spec fn binary_spelling(op: BinaryOp) -> Seq<char> {
    match op {
        BinaryOp::Pow => seq!['^'],
        BinaryOp::Mult => seq!['*'],
        BinaryOp::Div => seq!['/'],
        BinaryOp::Add => seq!['+'],
        BinaryOp::Sub => seq!['-'],
        BinaryOp::Range => seq!['.', '.'],
        BinaryOp::LessThan => seq!['<'],
        BinaryOp::GreaterThan => seq!['>'],
        BinaryOp::LessEqual => seq!['<', '='],
        BinaryOp::GreaterEqual => seq!['>', '='],
        BinaryOp::Equal => seq!['=', '='],
        BinaryOp::NotEqual => seq!['!', '='],
        BinaryOp::And => seq!['&', '&'],
        BinaryOp::Nand => seq!['!', '&'],
        BinaryOp::Xor => seq!['^', '^'],
        BinaryOp::Xnor => seq!['!', '^'],
        BinaryOp::Or => seq!['|', '|'],
        BinaryOp::Nor => seq!['!', '|'],
        BinaryOp::RPipe => seq!['|', '>'],
    }
}

/// How a unary operator is written in source.
pub open spec fn unary_spelling(op: UnaryOp) -> Seq<char> {
    match op {
        UnaryOp::Not => seq!['!'],
        UnaryOp::Minus => seq!['-'],
        UnaryOp::Ref => seq!['&'],
        UnaryOp::Deref => seq!['*'],
    }
}

} // verus!
