use lib::ast::{BinaryOp, Expr, ExprKind, Statement, StatementKind, UnaryOp, VarKind, Visibility};
use lib::error::Error;
use lib::lexer::Lexer;
use lib::parser::Parser;
use lib::token::{Token, TokenKind};

fn parse(code: &'static str) -> Result<Vec<Statement<'static>>, Error> {
    let tokens = Lexer::new(code).tokenize()?;
    Parser::new(tokens).parse()
}

fn parse_tokens(kinds: Vec<TokenKind<'static>>) -> Result<Vec<Statement<'static>>, Error> {
    let mut tokens: Vec<Token<'static>> = Vec::new();
    for (n, kind) in kinds.into_iter().enumerate() {
        tokens.push(Token::new(kind, 1, n + 1));
    }
    tokens.push(Token::new(TokenKind::Eof, 1, tokens.len() + 1));
    Parser::new(tokens).parse()
}

fn only_expr(code: &'static str) -> Expr<'static> {
    let mut stmts = parse(code).unwrap();
    assert_eq!(stmts.len(), 1);
    match stmts.remove(0).kind {
        StatementKind::Expr(e) => e,
        other => panic!("not an expression statement: {:?}", other),
    }
}

fn is_ident(e: &Expr, name: &str) -> bool {
    matches!(e.kind, ExprKind::Identifier(id) if id == name)
}

fn is_num(e: &Expr, n: &str) -> bool {
    matches!(e.kind, ExprKind::Number(v) if v == n)
}

#[test]
fn declaration_with_precedence() {
    let stmts = parse("var x = 1 + 2 * 3;").unwrap();
    assert_eq!(stmts.len(), 1);
    // The statement is placed at its first token, which the lexer puts after `var`.
    assert_eq!((stmts[0].line, stmts[0].col), (1, 4));
    match &stmts[0].kind {
        StatementKind::VarDeclare { visibility, kind, id, ty, value } => {
            assert_eq!(*visibility, Visibility::Priv);
            assert_eq!(*kind, VarKind::Var);
            assert_eq!(*id, "x");
            assert!(ty.is_none());
            assert_eq!((value.line, value.col), (1, 9));
            match &value.kind {
                ExprKind::Binary { left, op: BinaryOp::Add, right } => {
                    assert!(is_num(left, "1"));
                    assert_eq!((right.line, right.col), (1, 13));
                    match &right.kind {
                        ExprKind::Binary { left, op: BinaryOp::Mult, right } => {
                            assert!(is_num(left, "2"));
                            assert!(is_num(right, "3"));
                        },
                        other => panic!("{:?}", other),
                    }
                },
                other => panic!("{:?}", other),
            }
        },
        other => panic!("{:?}", other),
    }
}

#[test]
fn empty_program() {
    assert_eq!(parse("").unwrap().len(), 0);
    assert_eq!(parse("  \n ").unwrap().len(), 0);
}

#[test]
fn subtraction_groups_to_the_left() {
    let e = only_expr("a - b - c;");
    match &e.kind {
        ExprKind::Binary { left, op: BinaryOp::Sub, right } => {
            assert!(is_ident(right, "c"));
            assert!(matches!(&left.kind, ExprKind::Binary { op: BinaryOp::Sub, .. }));
        },
        other => panic!("{:?}", other),
    }
}

#[test]
fn power_groups_to_the_right() {
    let e = only_expr("2 ^ 3 ^ 4;");
    match &e.kind {
        ExprKind::Binary { left, op: BinaryOp::Pow, right } => {
            assert!(is_num(left, "2"));
            assert!(matches!(&right.kind, ExprKind::Binary { op: BinaryOp::Pow, .. }));
        },
        other => panic!("{:?}", other),
    }
}

#[test]
fn logic_and_comparison_levels() {
    let e = only_expr("a || b && c == d < e;");
    match &e.kind {
        ExprKind::Binary { left, op: BinaryOp::Or, right } => {
            assert!(is_ident(left, "a"));
            match &right.kind {
                ExprKind::Binary { op: BinaryOp::And, right, .. } => match &right.kind {
                    ExprKind::Binary { op: BinaryOp::Equal, right, .. } => {
                        assert!(matches!(&right.kind, ExprKind::Binary { op: BinaryOp::LessThan, .. }));
                    },
                    other => panic!("{:?}", other),
                },
                other => panic!("{:?}", other),
            }
        },
        other => panic!("{:?}", other),
    }
    let e = only_expr("a ^^ b !| c;");
    assert!(matches!(&e.kind, ExprKind::Binary { op: BinaryOp::Nor, .. }));
}

#[test]
fn pipe_and_range() {
    let e = only_expr("0..n |> f;");
    match &e.kind {
        ExprKind::Binary { left, op: BinaryOp::RPipe, right } => {
            assert!(is_ident(right, "f"));
            assert!(matches!(&left.kind, ExprKind::Binary { op: BinaryOp::Range, .. }));
        },
        other => panic!("{:?}", other),
    }
}

#[test]
fn prefix_operators_nest() {
    let e = only_expr("- ! & * x;");
    match &e.kind {
        ExprKind::Unary { op: UnaryOp::Minus, right } => match &right.kind {
            ExprKind::Unary { op: UnaryOp::Not, right } => match &right.kind {
                ExprKind::Unary { op: UnaryOp::Ref, right } => {
                    assert!(matches!(&right.kind, ExprKind::Unary { op: UnaryOp::Deref, .. }));
                },
                other => panic!("{:?}", other),
            },
            other => panic!("{:?}", other),
        },
        other => panic!("{:?}", other),
    }
}

#[test]
fn calls_members_and_static_entries() {
    let e = only_expr("std::io.print(1, 2,);");
    match &e.kind {
        ExprKind::Call { base, args } => {
            assert_eq!(args.len(), 2);
            match &base.kind {
                ExprKind::MemberAccess { target, member } => {
                    assert_eq!(*member, "print");
                    assert!(matches!(&target.kind, ExprKind::StaticAccess { member: "io", .. }));
                },
                other => panic!("{:?}", other),
            }
        },
        other => panic!("{:?}", other),
    }
}

#[test]
fn tuples_arrays_and_parentheses() {
    assert!(matches!(&only_expr("(1, 2, 3);").kind, ExprKind::Tuple(items) if items.len() == 3));
    assert!(is_num(&only_expr("(7);"), "7"));
    assert!(matches!(&only_expr("[];").kind, ExprKind::Array(items) if items.is_empty()));
    assert!(matches!(&only_expr("[\"a\", true, false];").kind, ExprKind::Array(items) if items.len() == 3));
}

#[test]
fn state_instance() {
    let e = only_expr("Point { x: 1, y: 2 };");
    match &e.kind {
        ExprKind::StateInstance { id, fields } => {
            assert_eq!(*id, "Point");
            assert_eq!(fields.len(), 2);
            assert_eq!(fields[1].id, "y");
            assert!(is_num(&fields[1].value, "2"));
        },
        other => panic!("{:?}", other),
    }
}

#[test]
fn lambda_with_parameters() {
    let e = only_expr("(a: T, self) -> a;");
    match &e.kind {
        ExprKind::Lambda { params, body } => {
            assert_eq!(params.len(), 2);
            assert_eq!(params[0].id, "a");
            assert!(is_ident(&params[0].ty, "T"));
            // `self` alone stands for `self: Self`.
            assert_eq!(params[1].id, "self");
            assert!(is_ident(&params[1].ty, "Self"));
            assert!(is_ident(body, "a"));
        },
        other => panic!("{:?}", other),
    }
}

#[test]
fn block_ended_statements_need_no_semicolon() {
    let stmts = parse("if x do { y; } else { z; } w;").unwrap();
    assert_eq!(stmts.len(), 2);
    match &stmts[0].kind {
        StatementKind::Expr(e) => match &e.kind {
            ExprKind::If { condition, do_body, else_body } => {
                assert!(is_ident(condition, "x"));
                assert!(matches!(&do_body.kind, ExprKind::Block(s) if s.len() == 1));
                assert!(matches!(else_body, Some(b) if matches!(&b.kind, ExprKind::Block(_))));
            },
            other => panic!("{:?}", other),
        },
        other => panic!("{:?}", other),
    }
}

#[test]
fn loops() {
    let e = only_expr("for i in 0..10 do { }");
    match &e.kind {
        ExprKind::For { elem, iter, do_body, else_body } => {
            assert_eq!(*elem, "i");
            assert!(matches!(&iter.kind, ExprKind::Binary { op: BinaryOp::Range, .. }));
            assert!(matches!(&do_body.kind, ExprKind::Block(s) if s.is_empty()));
            assert!(else_body.is_none());
        },
        other => panic!("{:?}", other),
    }
    let e = only_expr("while true do break;");
    match &e.kind {
        ExprKind::While { condition, do_body, .. } => {
            assert!(matches!(condition.kind, ExprKind::Bool(true)));
            assert!(matches!(do_body.kind, ExprKind::Break));
        },
        other => panic!("{:?}", other),
    }
}

#[test]
fn function_declaration() {
    let stmts = parse("func id(x: T) -> (T) { return x; }").unwrap();
    assert_eq!(stmts.len(), 1);
    match &stmts[0].kind {
        StatementKind::Func { visibility, id, params, ty, body } => {
            assert_eq!(*visibility, Visibility::Priv);
            assert_eq!(*id, "id");
            assert_eq!(params.len(), 1);
            assert!(is_ident(ty, "T"));
            match &body.kind {
                ExprKind::Block(s) => {
                    assert_eq!(s.len(), 1);
                    assert!(matches!(&s[0].kind, StatementKind::Expr(e) if matches!(&e.kind, ExprKind::Return(_))));
                },
                other => panic!("{:?}", other),
            }
        },
        other => panic!("{:?}", other),
    }
}

#[test]
fn state_enum_node_and_assignment() {
    let stmts = parse("pub state P { pub x: T, y: T } enum C { Red, Rgb(T, T) } node n: N = v; mut a.b = 1;").unwrap();
    assert_eq!(stmts.len(), 4);
    match &stmts[0].kind {
        StatementKind::State { visibility, id, fields } => {
            assert_eq!(*visibility, Visibility::Pub);
            assert_eq!(*id, "P");
            assert_eq!(fields.len(), 2);
            assert_eq!(fields[0].visibility, Visibility::Pub);
            assert_eq!(fields[1].visibility, Visibility::Priv);
        },
        other => panic!("{:?}", other),
    }
    match &stmts[1].kind {
        StatementKind::Enum { id, variants, .. } => {
            assert_eq!(*id, "C");
            assert_eq!(variants.len(), 2);
            assert!(variants[0].data.is_empty());
            assert_eq!(variants[1].data.len(), 2);
        },
        other => panic!("{:?}", other),
    }
    assert!(matches!(&stmts[2].kind, StatementKind::Node { id: "n", .. }));
    assert!(matches!(&stmts[3].kind, StatementKind::VarAssign { .. }));
}

#[test]
fn imports_with_and_without_alias() {
    let stmts = parse("import std::io; import m = a::b; pub const k: T = 1;").unwrap();
    assert_eq!(stmts.len(), 3);
    assert!(matches!(&stmts[0].kind, StatementKind::Import { alias: None, .. }));
    assert!(matches!(&stmts[1].kind, StatementKind::Import { alias: Some("m"), .. }));
    match &stmts[2].kind {
        StatementKind::VarDeclare { visibility, kind, ty, .. } => {
            assert_eq!(*visibility, Visibility::Pub);
            assert_eq!(*kind, VarKind::Const);
            assert!(ty.is_some());
        },
        other => panic!("{:?}", other),
    }
}

#[test]
fn method_block_of_functions() {
    let stmts = parse("method (P) { func f() -> (T) 1; }").unwrap();
    match &stmts[0].kind {
        StatementKind::Method { target, methods } => {
            assert!(is_ident(target, "P"));
            assert!(matches!(&methods.kind, ExprKind::Block(s) if s.len() == 1));
        },
        other => panic!("{:?}", other),
    }
}

#[test]
fn container_and_alias_from_their_tokens() {
    let stmts = parse_tokens(vec![
        TokenKind::Container,
        TokenKind::Identifier("Ints"),
        TokenKind::LBrace,
        TokenKind::Identifier("A"),
        TokenKind::Comma,
        TokenKind::Identifier("B"),
        TokenKind::RBrace,
        TokenKind::Alias,
        TokenKind::Identifier("N"),
        TokenKind::Assign,
        TokenKind::Identifier("M"),
        TokenKind::Semicolon,
    ])
    .unwrap();
    assert_eq!(stmts.len(), 2);
    assert!(matches!(&stmts[0].kind, StatementKind::Container { id: "Ints", types, .. } if types.len() == 2));
    assert!(matches!(&stmts[1].kind, StatementKind::Alias { alias_id: "N", .. }));
}

fn located(line: usize, col: usize, message: &'static str) -> Error {
    Error::Located { line, col, message }
}

#[test]
fn expression_errors() {
    assert_eq!(parse("1 +;").unwrap_err(), located(1, 5, "Invalid expression"));
    assert_eq!(parse("{ 1;").unwrap_err(), located(1, 2, "Unterminated block"));
    assert_eq!(parse("a.1;").unwrap_err(), located(1, 3, "Expected member name after '.'"));
    assert_eq!(parse("a::1;").unwrap_err(), located(1, 4, "Expected static entry name after '::'"));
    assert_eq!(parse("for 1 in x do y;").unwrap_err(), located(1, 9, "Expected identifier"));
    assert_eq!(parse("(x: T, 5) -> x;").unwrap_err(), located(1, 8, "Expected parameter identifier"));
}

#[test]
fn statement_errors() {
    assert_eq!(parse("var = 1;").unwrap_err(), located(1, 6, "Expected variable name"));
    assert_eq!(parse("node 1").unwrap_err(), located(1, 6, "Expected node name"));
    assert_eq!(parse("func 1").unwrap_err(), located(1, 6, "Expected function name"));
    assert_eq!(parse("state 1").unwrap_err(), located(1, 7, "Expected object name"));
    assert_eq!(parse("enum 1").unwrap_err(), located(1, 6, "Expected enumeration name"));
    assert_eq!(parse("state S { 5 }").unwrap_err(), located(1, 11, "Expected field identifier"));
    assert_eq!(parse("enum E { 5 }").unwrap_err(), located(1, 10, "Expected variant identifier"));
    assert_eq!(parse("pub pub").unwrap_err(), located(1, 8, "Repeated visibility modifier"));
    assert_eq!(parse("pub enum").unwrap_err(), located(1, 9, "Invalid visibility modifier"));
    assert_eq!(parse("method (P) { 1; }").unwrap_err(), located(1, 13, "Method statements must be functions"));
    assert_eq!(parse("method (P) 1;").unwrap_err(), located(1, 12, "Method body must be a block expression"));
}

#[test]
fn errors_of_statements_built_from_tokens() {
    assert_eq!(
        parse_tokens(vec![TokenKind::Container, TokenKind::Number("1")]).unwrap_err(),
        located(1, 2, "Expected container name")
    );
    assert_eq!(
        parse_tokens(vec![TokenKind::Alias, TokenKind::Number("1")]).unwrap_err(),
        located(1, 2, "Expected type alias")
    );
}

#[test]
fn lexer_errors_come_first() {
    assert_eq!(parse("x $").unwrap_err(), located(1, 3, "Unexpected token"));
}
