use lib::error::Error;
use lib::lexer::Lexer;
use lib::parser::Parser;
use lib::symbols::TypeSymbolKind;
use lib::types::{FloatSize, IntSize, Sign, Type};

fn parse_type(code: &'static str) -> Result<Type<'static>, Error> {
    let tokens = Lexer::new(code).tokenize()?;
    Parser::new(tokens).parse_type()
}

fn integer(size: IntSize, sign: Sign) -> Type<'static> {
    Type::Integer { size, sign }
}

#[test]
fn keyword_types() {
    assert_eq!(parse_type("Bool").unwrap(), Type::Bool);
    assert_eq!(parse_type("Int32").unwrap(), integer(IntSize::B32, Sign::Signed));
    assert_eq!(parse_type("UInt128").unwrap(), integer(IntSize::B128, Sign::Unsigned));
    assert_eq!(parse_type("Range8").unwrap(), Type::IntRange { size: IntSize::B8, sign: Sign::Signed });
    assert_eq!(parse_type("URange16").unwrap(), Type::IntRange { size: IntSize::B16, sign: Sign::Unsigned });
    assert_eq!(parse_type("Float64").unwrap(), Type::Float { size: FloatSize::B64 });
    assert_eq!(parse_type("Str").unwrap(), Type::String);
}

#[test]
fn prefixes_and_postfixes() {
    assert_eq!(
        parse_type("&Int32*").unwrap(),
        Type::Ref(Box::new(Type::Pointer(Box::new(integer(IntSize::B32, Sign::Signed)))))
    );
    assert_eq!(
        parse_type("Int8**").unwrap(),
        Type::Pointer(Box::new(Type::Pointer(Box::new(integer(IntSize::B8, Sign::Signed)))))
    );
    assert_eq!(parse_type("@Bool").unwrap(), Type::Node(Box::new(Type::Bool)));
    assert_eq!(parse_type("[UInt8]").unwrap(), Type::Array(Box::new(integer(IntSize::B8, Sign::Unsigned))));
}

#[test]
fn function_types_take_tuple_members_as_parameters() {
    assert_eq!(
        parse_type("(Int8, Bool) -> Str").unwrap(),
        Type::Function { params: vec![integer(IntSize::B8, Sign::Signed), Type::Bool], return_ty: Box::new(Type::String) }
    );
    assert_eq!(
        parse_type("Bool -> Bool").unwrap(),
        Type::Function { params: vec![Type::Bool], return_ty: Box::new(Type::Bool) }
    );
}

#[test]
fn tuples_of_one_and_none() {
    assert_eq!(parse_type("(Int8)").unwrap(), integer(IntSize::B8, Sign::Signed));
    assert_eq!(parse_type("()").unwrap(), Type::Tuple(vec![]));
    assert_eq!(parse_type("(Bool, Str,)").unwrap(), Type::Tuple(vec![Type::Bool, Type::String]));
}

#[test]
fn custom_types_may_name_their_module() {
    assert_eq!(parse_type("P").unwrap(), Type::Custom { module: None, id: "P" });
    assert_eq!(parse_type("m..T").unwrap(), Type::Custom { module: Some("m"), id: "T" });
    assert_eq!(parse_type("m..5").unwrap(), Type::Custom { module: None, id: "m" });
}

#[test]
fn type_errors() {
    assert_eq!(parse_type("[]").unwrap_err(), Error::Located { line: 1, col: 3, message: "Array must have a type" });
    assert_eq!(parse_type("5").unwrap_err(), Error::Located { line: 1, col: 1, message: "Invalid type" });
}

#[test]
fn symbol_kinds_of_types() {
    assert_eq!(Type::Bool.type_symbol_id(), Some(TypeSymbolKind::Bool));
    assert_eq!(integer(IntSize::B32, Sign::Signed).type_symbol_id(), Some(TypeSymbolKind::Int32));
    assert_eq!(integer(IntSize::B64, Sign::Unsigned).type_symbol_id(), Some(TypeSymbolKind::UInt64));
    assert_eq!(
        Type::IntRange { size: IntSize::B8, sign: Sign::Unsigned }.type_symbol_id(),
        Some(TypeSymbolKind::URange8)
    );
    assert_eq!(
        Type::IntRange { size: IntSize::B128, sign: Sign::Signed }.type_symbol_id(),
        Some(TypeSymbolKind::Range128)
    );
    assert_eq!(Type::Float { size: FloatSize::B32 }.type_symbol_id(), Some(TypeSymbolKind::Float32));
    assert_eq!(Type::String.type_symbol_id(), Some(TypeSymbolKind::Str));
    assert_eq!(Type::Pointer(Box::new(Type::Bool)).type_symbol_id(), Some(TypeSymbolKind::Ptr));
    assert_eq!(Type::Tuple(vec![]).type_symbol_id(), Some(TypeSymbolKind::Tuple));
    assert_eq!(Type::Array(Box::new(Type::Bool)).type_symbol_id(), Some(TypeSymbolKind::Array));
    assert_eq!(
        Type::Function { params: vec![], return_ty: Box::new(Type::Unit) }.type_symbol_id(),
        Some(TypeSymbolKind::Func)
    );
    assert_eq!(Type::Node(Box::new(Type::Bool)).type_symbol_id(), Some(TypeSymbolKind::Node));
    assert_eq!(Type::Custom { module: Some("m"), id: "P" }.type_symbol_id(), Some(TypeSymbolKind::Custom("P")));
    // References, modules and the special types have no symbol of their own.
    assert_eq!(Type::Ref(Box::new(Type::Bool)).type_symbol_id(), None);
    assert_eq!(Type::Module("std::io").type_symbol_id(), None);
    assert_eq!(Type::Unknown.type_symbol_id(), None);
    assert_eq!(Type::Unit.type_symbol_id(), None);
    assert_eq!(Type::Done.type_symbol_id(), None);
}

#[test]
fn element_types() {
    assert_eq!(
        Type::IntRange { size: IntSize::B16, sign: Sign::Unsigned }.elem_type(),
        Some(integer(IntSize::B16, Sign::Unsigned))
    );
    assert_eq!(Type::Array(Box::new(Type::Bool)).elem_type(), Some(Type::Bool));
    assert_eq!(Type::String.elem_type(), Some(integer(IntSize::B8, Sign::Unsigned)));
    assert_eq!(
        Type::Ref(Box::new(Type::Array(Box::new(Type::Bool)))).elem_type(),
        Some(Type::Ref(Box::new(Type::Bool)))
    );
    assert_eq!(
        Type::Pointer(Box::new(Type::String)).elem_type(),
        Some(Type::Ref(Box::new(integer(IntSize::B8, Sign::Unsigned))))
    );
    assert_eq!(Type::Ref(Box::new(Type::Bool)).elem_type(), None);
    assert_eq!(Type::Bool.elem_type(), None);
    assert_eq!(integer(IntSize::B8, Sign::Signed).elem_type(), None);
}

#[test]
fn duplicates_are_equal() {
    let t = Type::Function {
        params: vec![Type::Tuple(vec![Type::Bool, Type::Custom { module: None, id: "X" }])],
        return_ty: Box::new(Type::Array(Box::new(Type::String))),
    };
    assert_eq!(t.duplicate(), t);
    let v = vec![Type::Unknown, Type::Module("m")];
    assert_eq!(Type::duplicate_all(&v), v);
}

#[test]
fn symbol_names_round_trip() {
    let names = [
        "Bool", "UInt8", "UInt16", "UInt32", "UInt64", "UInt128", "Int8", "Int16", "Int32", "Int64", "Int128",
        "URange8", "URange16", "URange32", "URange64", "URange128", "Range8", "Range16", "Range32", "Range64",
        "Range128", "Float32", "Float64", "Str", "Ptr", "Ref", "Tuple", "Array", "Func", "Node", "Point",
    ];
    for name in names {
        assert_eq!(TypeSymbolKind::from_str(name).as_str(), name);
    }
    assert_eq!(TypeSymbolKind::from_str("UInt8"), TypeSymbolKind::UInt8);
    assert_eq!(TypeSymbolKind::from_str("Point"), TypeSymbolKind::Custom("Point"));
    assert_eq!(TypeSymbolKind::Range16.as_str(), "Range16");
    assert_eq!(TypeSymbolKind::Custom("Node").as_str(), "Node");
    assert_eq!(TypeSymbolKind::from_str(TypeSymbolKind::Custom("Node").as_str()), TypeSymbolKind::Node);
    assert_eq!(TypeSymbolKind::from_str(TypeSymbolKind::Func.as_str()), TypeSymbolKind::Func);
}
