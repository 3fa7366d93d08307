use lib::ast::{Expr, ExprKind, Visibility};
use lib::checker::expr::{Literal, ResolvedExpr};
use lib::checker::number::{parse_signed, parse_unsigned};
use lib::checker::walk::{ModuleSource, ResolvedImport};
use lib::checker::{CheckError, Checker, Container, ScopeSymbol, TypeSymbol};
use lib::symbols::TypeSymbolKind;
use lib::types::{IntSize, Sign, Type};

fn symbol(id: &'static str, module: &'static str, visibility: Visibility, ty: Type<'static>) -> ScopeSymbol<'static> {
    ScopeSymbol { id, module, scope_index: Some(0), visibility, ty, is_static_member: false }
}

fn member(id: &'static str, is_static_member: bool) -> ScopeSymbol<'static> {
    ScopeSymbol {
        id,
        module: "main",
        scope_index: None,
        visibility: Visibility::Pub,
        ty: Type::Integer { size: IntSize::B32, sign: Sign::Signed },
        is_static_member,
    }
}

fn type_symbol(kind: TypeSymbolKind<'static>, visibility: Visibility, members: Vec<(&'static str, ScopeSymbol<'static>)>) -> TypeSymbol<'static> {
    TypeSymbol { module: "main", visibility, kind, members }
}

fn expr(kind: ExprKind<'static>) -> Expr<'static> {
    Expr { kind, line: 3, col: 7 }
}

fn ident(id: &'static str) -> Expr<'static> {
    expr(ExprKind::Identifier(id))
}

fn static_access(target: Expr<'static>, member: &'static str) -> Expr<'static> {
    Expr { kind: ExprKind::StaticAccess { target: Box::new(target), member }, line: 5, col: 9 }
}

fn member_access(target: Expr<'static>, member: &'static str) -> Expr<'static> {
    Expr { kind: ExprKind::MemberAccess { target: Box::new(target), member }, line: 5, col: 9 }
}

fn literal<'s>(r: Result<ResolvedExpr<'s, 'static>, CheckError<'static>>) -> Literal<'static> {
    match r {
        Ok(ResolvedExpr::Literal(l)) => l,
        Ok(_) => panic!("not a literal"),
        Err(e) => panic!("error {:?}", e),
    }
}

fn symbol_id<'s>(r: Result<ResolvedExpr<'s, 'static>, CheckError<'static>>) -> &'static str {
    match r {
        Ok(ResolvedExpr::ScopeSymbol(s)) => s.id,
        Ok(_) => panic!("not a symbol"),
        Err(e) => panic!("error {:?}", e),
    }
}

fn error<'s>(r: Result<ResolvedExpr<'s, 'static>, CheckError<'static>>) -> CheckError<'static> {
    match r {
        Err(e) => e,
        Ok(_) => panic!("no error"),
    }
}

/// A checker inside "main", after "lib" was checked with a public and a
/// private symbol.
fn two_modules() -> Checker<'static> {
    let mut c = Checker::new("main");
    assert_eq!(c.begin_module("lib", 1, 1), Ok(Some("main")));
    c.define_scope_symbol("shared", symbol("shared", "lib", Visibility::Pub, Type::Bool), 1, 1).unwrap();
    c.define_scope_symbol("hidden", symbol("hidden", "lib", Visibility::Priv, Type::Bool), 1, 1).unwrap();
    c.end_module("main");
    assert_eq!(c.begin_module("main", 1, 1), Ok(Some("main")));
    c
}

#[test]
fn begin_module_refuses_only_a_cycle() {
    let mut c = Checker::new("main");
    assert_eq!(c.begin_module("main", 1, 1), Ok(Some("main")));
    assert_eq!(c.begin_module("lib", 2, 4), Ok(Some("main")));
    assert_eq!(c.current_module(), "lib");
    assert_eq!(
        c.begin_module("main", 6, 2),
        Err(CheckError::CircularImport { line: 6, col: 2, from: "lib", to: "main" })
    );
    assert_eq!(
        c.begin_module("lib", 7, 2),
        Err(CheckError::CircularImport { line: 7, col: 2, from: "lib", to: "lib" })
    );
    c.end_module("main");
    assert_eq!(c.current_module(), "main");
    assert_eq!(c.begin_module("lib", 8, 1), Ok(None));
    assert_eq!(c.current_module(), "main");
}

#[test]
fn a_module_imported_twice_is_checked_once() {
    let mut c = Checker::new("main");
    assert_eq!(c.begin_module("main", 0, 0), Ok(Some("main")));
    assert_eq!(c.begin_module("a", 1, 1), Ok(Some("main")));
    assert_eq!(c.begin_module("c", 1, 1), Ok(Some("a")));
    c.define_scope_symbol("k", symbol("k", "c", Visibility::Pub, Type::Bool), 1, 1).unwrap();
    c.end_module("a");
    c.end_module("main");
    assert_eq!(c.begin_module("b", 2, 1), Ok(Some("main")));
    assert_eq!(c.begin_module("c", 1, 1), Ok(None));
    assert_eq!(c.current_module(), "b");
    assert_eq!(c.resolve_scope_symbol("k", "c", 1, 1).unwrap().ty, Type::Bool);
    assert_eq!(
        c.begin_module("main", 3, 3),
        Err(CheckError::CircularImport { line: 3, col: 3, from: "b", to: "main" })
    );
}

#[test]
fn defining_needs_a_table() {
    let mut c = Checker::new("main");
    assert_eq!(
        c.define_scope_symbol("x", symbol("x", "main", Visibility::Pub, Type::Bool), 2, 3),
        Err(CheckError::ModuleNotFound { line: 2, col: 3, module: "main" })
    );
    assert_eq!(
        c.define_type_symbol("T", type_symbol(TypeSymbolKind::Custom("T"), Visibility::Pub, vec![]), 2, 3),
        Err(CheckError::ModuleNotFound { line: 2, col: 3, module: "main" })
    );
    assert!(c.resolve_module_table("main", 4, 5).is_err());
}

#[test]
fn defined_symbols_are_found_again() {
    let mut c = Checker::new("main");
    c.begin_module("main", 1, 1).unwrap();
    c.define_scope_symbol("x", symbol("x", "main", Visibility::Priv, Type::Bool), 1, 1).unwrap();
    c.define_scope_symbol("y", symbol("y", "main", Visibility::Pub, Type::String), 1, 1).unwrap();
    assert_eq!(c.resolve_scope_symbol("x", "main", 1, 1).unwrap().ty, Type::Bool);
    assert_eq!(c.resolve_scope_symbol("y", "main", 1, 1).unwrap().ty, Type::String);
    c.define_scope_symbol("x", symbol("x", "main", Visibility::Priv, Type::Unit), 1, 1).unwrap();
    assert_eq!(c.resolve_scope_symbol("x", "main", 1, 1).unwrap().ty, Type::Unit);
    assert_eq!(c.resolve_module_table("main", 1, 1).unwrap().scopes[0].scope_symbols.len(), 2);
    assert_eq!(
        c.resolve_scope_symbol("z", "main", 4, 2).err(),
        Some(CheckError::LocalSymbolNotFound { line: 4, col: 2, id: "z" })
    );
    assert_eq!(
        c.resolve_scope_symbol("x", "other", 4, 2).err(),
        Some(CheckError::ModuleNotFound { line: 4, col: 2, module: "other" })
    );
}

#[test]
fn other_modules_see_only_public_symbols() {
    let c = two_modules();
    assert_eq!(c.resolve_scope_symbol("shared", "lib", 1, 1).unwrap().id, "shared");
    assert_eq!(
        c.resolve_scope_symbol("hidden", "lib", 2, 2).err(),
        Some(CheckError::PrivateSymbol { line: 2, col: 2, id: "hidden" })
    );
    assert_eq!(
        c.resolve_scope_symbol("missing", "lib", 2, 2).err(),
        Some(CheckError::GlobalSymbolNotFound { line: 2, col: 2, id: "missing", module: "lib" })
    );
}

#[test]
fn type_symbols_and_containers() {
    let mut c = Checker::new("main");
    c.begin_module("lib", 1, 1).unwrap();
    c.define_type_symbol("Open", type_symbol(TypeSymbolKind::Custom("Open"), Visibility::Pub, vec![]), 1, 1).unwrap();
    c.define_type_symbol("Closed", type_symbol(TypeSymbolKind::Custom("Closed"), Visibility::Priv, vec![]), 1, 1)
        .unwrap();
    let container = Container { id: "Group", module: "lib", visibility: Visibility::Priv, type_symbols: vec!["Open"] };
    c.define_container("Group", container, 1, 1).unwrap();
    assert_eq!(c.resolve_type_symbol("Closed", "lib", 1, 1).unwrap().kind, TypeSymbolKind::Custom("Closed"));
    assert_eq!(c.resolve_container("Group", "lib", 1, 1).unwrap().type_symbols, vec!["Open"]);
    c.end_module("main");
    c.begin_module("main", 1, 1).unwrap();
    assert_eq!(c.resolve_type_symbol("Open", "lib", 1, 1).unwrap().kind, TypeSymbolKind::Custom("Open"));
    assert_eq!(
        c.resolve_type_symbol("Closed", "lib", 3, 4).err(),
        Some(CheckError::PrivateSymbol { line: 3, col: 4, id: "Closed" })
    );
    assert_eq!(
        c.resolve_type_symbol("None", "lib", 3, 4).err(),
        Some(CheckError::TypeSymbolNotFound { line: 3, col: 4, id: "None", module: "lib" })
    );
    assert_eq!(
        c.resolve_container("Group", "lib", 3, 4).err(),
        Some(CheckError::PrivateContainer { line: 3, col: 4, id: "Group" })
    );
    assert_eq!(
        c.resolve_container("Other", "lib", 3, 4).err(),
        Some(CheckError::ContainerNotFound { line: 3, col: 4, id: "Other", module: "lib" })
    );
}

#[test]
fn reads_numbers_as_std_does() {
    assert_eq!(parse_unsigned("0"), Some(0));
    assert_eq!(parse_unsigned("+42"), Some(42));
    assert_eq!(parse_unsigned("340282366920938463463374607431768211455"), Some(u128::MAX));
    assert_eq!(parse_unsigned("340282366920938463463374607431768211456"), None);
    assert_eq!(parse_unsigned("-1"), None);
    assert_eq!(parse_unsigned(""), None);
    assert_eq!(parse_unsigned("+"), None);
    assert_eq!(parse_unsigned("12a"), None);
    assert_eq!(parse_signed("-170141183460469231731687303715884105728"), Some(i128::MIN));
    assert_eq!(parse_signed("170141183460469231731687303715884105727"), Some(i128::MAX));
    assert_eq!(parse_signed("170141183460469231731687303715884105728"), None);
    assert_eq!(parse_signed("-"), None);
    assert_eq!(parse_signed("-15"), Some(-15));
}

#[test]
fn unsigned_numbers_take_the_narrowest_type() {
    let c = Checker::new("main");
    let e = expr(ExprKind::Number("0"));
    assert_eq!(literal(c.check_num(&e, "255", Sign::Unsigned)), Literal::UInt8(255));
    assert_eq!(literal(c.check_num(&e, "256", Sign::Unsigned)), Literal::UInt16(256));
    assert_eq!(literal(c.check_num(&e, "65536", Sign::Unsigned)), Literal::UInt32(65536));
    assert_eq!(literal(c.check_num(&e, "4294967296", Sign::Unsigned)), Literal::UInt64(4294967296));
    assert_eq!(
        literal(c.check_num(&e, "18446744073709551616", Sign::Unsigned)),
        Literal::UInt128(18446744073709551616)
    );
    assert_eq!(
        error(c.check_num(&e, "340282366920938463463374607431768211456", Sign::Unsigned)),
        CheckError::OutOfBounds { line: 3, col: 7, signed: false }
    );
}

#[test]
fn signed_numbers_are_cast_to_the_first_type_whose_bound_holds_them() {
    let c = Checker::new("main");
    let e = expr(ExprKind::Number("0"));
    assert_eq!(literal(c.check_num(&e, "127", Sign::Signed)), Literal::Int8(127));
    assert_eq!(literal(c.check_num(&e, "128", Sign::Signed)), Literal::Int8(-128));
    assert_eq!(literal(c.check_num(&e, "-1000", Sign::Signed)), Literal::Int8(24));
    assert_eq!(literal(c.check_num(&e, "129", Sign::Signed)), Literal::Int16(129));
    assert_eq!(literal(c.check_num(&e, "40000", Sign::Signed)), Literal::Int32(40000));
    assert_eq!(literal(c.check_num(&e, "3000000000", Sign::Signed)), Literal::Int64(3000000000));
    assert_eq!(
        literal(c.check_num(&e, "10000000000000000000", Sign::Signed)),
        Literal::Int128(10000000000000000000)
    );
    assert_eq!(
        error(c.check_num(&e, "170141183460469231731687303715884105728", Sign::Signed)),
        CheckError::OutOfBounds { line: 3, col: 7, signed: true }
    );
}

#[test]
fn literals_check_as_themselves() {
    let c = Checker::new("main");
    assert_eq!(literal(c.check_expr(&expr(ExprKind::Number("300")))), Literal::UInt16(300));
    assert_eq!(literal(c.check_expr(&expr(ExprKind::String("hi")))), Literal::Str("hi"));
    assert_eq!(literal(c.check_expr(&expr(ExprKind::Bool(true)))), Literal::Bool(true));
    assert_eq!(Literal::UInt16(300).type_symbol_id(), TypeSymbolKind::UInt16);
    assert_eq!(Literal::Float64(0).type_symbol_id(), TypeSymbolKind::Float64);
    assert_eq!(Literal::Str("s").type_symbol_id(), TypeSymbolKind::Str);
}

#[test]
fn identifiers_are_symbols_then_type_symbols_then_containers() {
    let mut c = Checker::new("main");
    c.begin_module("main", 1, 1).unwrap();
    c.define_scope_symbol("x", symbol("x", "main", Visibility::Priv, Type::Bool), 1, 1).unwrap();
    c.define_type_symbol("x", type_symbol(TypeSymbolKind::Custom("x"), Visibility::Pub, vec![]), 1, 1).unwrap();
    c.define_type_symbol("T", type_symbol(TypeSymbolKind::Custom("T"), Visibility::Pub, vec![]), 1, 1).unwrap();
    let group = Container { id: "G", module: "main", visibility: Visibility::Pub, type_symbols: vec![] };
    c.define_container("G", group, 1, 1).unwrap();
    assert_eq!(symbol_id(c.check_expr(&ident("x"))), "x");
    match c.check_expr(&ident("T")) {
        Ok(ResolvedExpr::TypeSymbol(t)) => assert_eq!(t.kind, TypeSymbolKind::Custom("T")),
        _ => panic!("not a type symbol"),
    }
    match c.check_expr(&ident("G")) {
        Ok(ResolvedExpr::Container(g)) => assert_eq!(g.id, "G"),
        _ => panic!("not a container"),
    }
    assert_eq!(error(c.check_expr(&ident("nope"))), CheckError::UndefinedIdentifier { line: 3, col: 7, id: "nope" });
}

#[test]
fn static_access_reaches_modules_and_static_members() {
    let mut c = two_modules();
    c.define_scope_symbol("lib", symbol("lib", "main", Visibility::Priv, Type::Module("lib")), 1, 1).unwrap();
    c.define_scope_symbol("flag", symbol("flag", "main", Visibility::Priv, Type::Bool), 1, 1).unwrap();
    let members = vec![("new", member("new", true)), ("len", member("len", false))];
    c.define_type_symbol("List", type_symbol(TypeSymbolKind::Custom("List"), Visibility::Pub, members), 1, 1)
        .unwrap();
    assert_eq!(symbol_id(c.check_expr(&static_access(ident("lib"), "shared"))), "shared");
    assert_eq!(
        error(c.check_expr(&static_access(ident("lib"), "hidden"))),
        CheckError::UndefinedIdentifier { line: 3, col: 7, id: "hidden" }
    );
    assert_eq!(symbol_id(c.check_expr(&static_access(ident("List"), "new"))), "new");
    assert_eq!(
        error(c.check_expr(&static_access(ident("List"), "len"))),
        CheckError::NotStatic { line: 3, col: 7, member: "len", kind: TypeSymbolKind::Custom("List") }
    );
    assert_eq!(
        error(c.check_expr(&static_access(ident("List"), "pop"))),
        CheckError::NoMember { line: 3, col: 7, member: "pop", kind: TypeSymbolKind::Custom("List") }
    );
    assert_eq!(
        error(c.check_expr(&static_access(ident("flag"), "x"))),
        CheckError::NotAModule { line: 3, col: 7 }
    );
    assert_eq!(
        error(c.check_expr(&static_access(expr(ExprKind::Bool(true)), "x"))),
        CheckError::NoStaticAccess { line: 3, col: 7 }
    );
    assert_eq!(
        error(c.check_expr(&static_access(ident("absent"), "x"))),
        CheckError::UndefinedIdentifier { line: 3, col: 7, id: "absent" }
    );
}

#[test]
fn member_access_looks_in_the_type_symbol_of_the_target() {
    let mut c = Checker::new("main");
    c.begin_module("main", 1, 1).unwrap();
    let int_members = vec![("abs", member("abs", false)), ("max", member("max", true))];
    c.define_type_symbol("UInt8", type_symbol(TypeSymbolKind::UInt8, Visibility::Pub, int_members), 1, 1).unwrap();
    c.define_type_symbol("Int32", type_symbol(TypeSymbolKind::Int32, Visibility::Pub, vec![("abs", member("abs", false))]), 1, 1)
        .unwrap();
    let n = symbol("n", "main", Visibility::Priv, Type::Integer { size: IntSize::B32, sign: Sign::Signed });
    c.define_scope_symbol("n", n, 1, 1).unwrap();
    let group = Container { id: "G", module: "main", visibility: Visibility::Pub, type_symbols: vec![] };
    c.define_container("G", group, 1, 1).unwrap();
    assert_eq!(symbol_id(c.check_expr(&member_access(expr(ExprKind::Number("7")), "abs"))), "abs");
    assert_eq!(symbol_id(c.check_expr(&member_access(ident("n"), "abs"))), "abs");
    assert_eq!(
        error(c.check_expr(&member_access(expr(ExprKind::Number("7")), "max"))),
        CheckError::IsStatic { line: 3, col: 7, member: "max", kind: TypeSymbolKind::UInt8 }
    );
    assert_eq!(
        error(c.check_expr(&member_access(expr(ExprKind::Number("7")), "min"))),
        CheckError::NoMember { line: 3, col: 7, member: "min", kind: TypeSymbolKind::UInt8 }
    );
    assert_eq!(
        error(c.check_expr(&member_access(expr(ExprKind::String("s")), "len"))),
        CheckError::TypeSymbolNotFound { line: 3, col: 7, id: "Str", module: "main" }
    );
    assert_eq!(
        error(c.check_expr(&member_access(ident("G"), "x"))),
        CheckError::NoMemberAccess { line: 3, col: 7 }
    );
}

#[test]
fn defining_a_name_keeps_the_others() {
    let mut c = Checker::new("main");
    c.begin_module("main", 1, 1).unwrap();
    c.define_type_symbol("A", type_symbol(TypeSymbolKind::Custom("A"), Visibility::Pub, vec![]), 1, 1).unwrap();
    c.define_type_symbol("B", type_symbol(TypeSymbolKind::Custom("B"), Visibility::Pub, vec![]), 1, 1).unwrap();
    assert_eq!(c.resolve_type_symbol("A", "main", 1, 1).unwrap().kind, TypeSymbolKind::Custom("A"));
    let first = Container { id: "F", module: "main", visibility: Visibility::Pub, type_symbols: vec!["A"] };
    let second = Container { id: "S", module: "main", visibility: Visibility::Pub, type_symbols: vec!["B"] };
    c.define_container("F", first, 1, 1).unwrap();
    c.define_container("S", second, 1, 1).unwrap();
    assert_eq!(c.resolve_container("F", "main", 1, 1).unwrap().type_symbols, vec!["A"]);
    c.define_scope_symbol("v", symbol("v", "main", Visibility::Pub, Type::Bool), 1, 1).unwrap();
    c.end_module("main");
    c.begin_module("other", 1, 1).unwrap();
    assert_eq!(c.resolve_type_symbol("B", "main", 1, 1).unwrap().kind, TypeSymbolKind::Custom("B"));
    assert_eq!(c.resolve_scope_symbol("v", "main", 1, 1).unwrap().ty, Type::Bool);
    assert_eq!(c.resolve_module_table("other", 1, 1).unwrap().type_symbols.len(), 0);
}

fn import(module: &'static str, line: usize) -> (lib::ast::Statement<'static>, Option<ResolvedImport<'static>>) {
    let stmt = lib::ast::Statement {
        kind: lib::ast::StatementKind::Import { alias: None, path: ident(module) },
        line,
        col: 1,
    };
    (stmt, Some(ResolvedImport { module, stem: module }))
}

fn source(entries: Vec<(lib::ast::Statement<'static>, Option<ResolvedImport<'static>>)>) -> ModuleSource<'static> {
    let mut statements = Vec::new();
    let mut imports = Vec::new();
    for (s, i) in entries {
        statements.push(s);
        imports.push(i);
    }
    ModuleSource { statements, imports }
}

#[test]
fn the_walk_checks_a_shared_import_once() {
    let registry = vec![
        ("main", source(vec![import("a", 1), import("b", 2)])),
        ("a", source(vec![import("c", 1)])),
        ("b", source(vec![import("c", 1)])),
        ("c", source(vec![])),
    ];
    let mut c = Checker::new("main");
    assert_eq!(c.check_module(&registry, "main", 0, 0), Ok(()));
    assert_eq!(c.current_module(), "main");
    assert_eq!(c.resolve_scope_symbol("a", "main", 1, 1).unwrap().ty, Type::Module("a"));
    assert_eq!(c.resolve_scope_symbol("b", "main", 1, 1).unwrap().ty, Type::Module("b"));
    assert!(c.resolve_module_table("c", 1, 1).is_ok());
    assert_eq!(c.begin_module("c", 1, 1), Ok(None));
    assert_eq!(c.check_module(&registry, "a", 4, 4), Ok(()));
}

#[test]
fn the_walk_refuses_cycles_and_missing_modules() {
    let registry = vec![
        ("main", source(vec![import("a", 1)])),
        ("a", source(vec![import("main", 3)])),
    ];
    let mut c = Checker::new("main");
    assert_eq!(
        c.check_module(&registry, "main", 0, 0),
        Err(CheckError::CircularImport { line: 3, col: 1, from: "a", to: "main" })
    );
    let missing = vec![("main", source(vec![import("gone", 2)]))];
    let mut d = Checker::new("main");
    assert_eq!(
        d.check_module(&missing, "main", 0, 0),
        Err(CheckError::ModuleNotInRegistry { line: 2, col: 1, module: "gone" })
    );
    let mut e = Checker::new("main");
    assert_eq!(e.check(&missing).map(|l| l.len()), Ok(0));
    assert_eq!(e.current_module(), "main");
    assert!(e.resolve_module_table("main", 1, 1).is_ok());
}
