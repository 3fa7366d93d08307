use lib::ast::StatementKind;
use lib::error::Error;
use lib::lexer::Lexer;
use lib::parser::Parser;
use lib::resolver::{flatten_path, import_root, ImportRoot};

fn import_parts(code: &'static str) -> Result<Vec<&'static str>, Error> {
    let tokens = Lexer::new(code).tokenize()?;
    let stmts = Parser::new(tokens).parse()?;
    match &stmts[0].kind {
        StatementKind::Import { path, .. } => flatten_path(path),
        other => panic!("not an import: {:?}", other),
    }
}

#[test]
fn flattens_module_paths() {
    assert_eq!(import_parts("import a;").unwrap(), vec!["a"]);
    assert_eq!(import_parts("import a::b::c;").unwrap(), vec!["a", "b", "c"]);
    assert_eq!(import_parts("import m = std::io;").unwrap(), vec!["std", "io"]);
}

#[test]
fn refuses_other_import_expressions() {
    let message = "Invalid import path: expected identifier or static access expression";
    assert_eq!(import_parts("import 5;").unwrap_err(), Error::Located { line: 1, col: 8, message });
    assert_eq!(import_parts("import a.b;").unwrap_err(), Error::Located { line: 1, col: 9, message });
}

#[test]
fn standard_library_paths_start_with_std() {
    assert_eq!(import_root(&vec!["std", "io"]), ImportRoot::Std);
    assert_eq!(import_root(&vec!["std"]), ImportRoot::Std);
    assert_eq!(import_root(&vec!["app", "std"]), ImportRoot::Main);
    assert_eq!(import_root(&vec!["stdx"]), ImportRoot::Main);
    assert_eq!(import_root(&vec![]), ImportRoot::Main);
}

#[test]
fn a_module_is_loaded_once() {
    let mut loaded: Vec<&'static str> = Vec::new();
    assert!(lib::resolver::enter_module(&mut loaded, "/a.erw"));
    assert!(lib::resolver::enter_module(&mut loaded, "/b.erw"));
    assert!(!lib::resolver::enter_module(&mut loaded, "/a.erw"));
    assert_eq!(loaded, vec!["/a.erw", "/b.erw"]);
}
