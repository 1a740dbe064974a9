//! Parser tests: grammar coverage and the shapes of parsed queries.

use roogle::parse::{parse_query, parse_type};
use roogle::query::{Argument, FnRetTy, GenericArg, GenericArgs, PrimitiveType, Query, QueryKind, Type};

fn parsed(s: &str) -> (Query, usize) {
    parse_query(s).expect("query must parse")
}

#[test]
fn parses_name_only_query() {
    let (q, used) = parsed("fn foo");
    assert_eq!(used, 6);
    assert_eq!(q.name, Some("foo".to_string()));
    assert!(q.kind.is_none());
}

#[test]
fn parses_full_signature() {
    let (q, used) = parsed("fn add(a: usize, b: usize) -> usize");
    assert_eq!(used, 35);
    assert_eq!(q.name, Some("add".to_string()));
    let QueryKind::FunctionQuery(f) = q.kind.expect("kind");
    let inputs = f.decl.inputs.expect("inputs");
    assert_eq!(inputs.len(), 2);
    assert_eq!(inputs[0].name, Some("a".to_string()));
    assert_eq!(inputs[0].ty, Some(Type::Primitive(PrimitiveType::Usize)));
    assert_eq!(inputs[1].name, Some("b".to_string()));
    assert_eq!(
        f.decl.output,
        Some(FnRetTy::Return(Type::Primitive(PrimitiveType::Usize)))
    );
}

#[test]
fn empty_parens_mean_zero_arguments() {
    let (q, _) = parsed("fn foo()");
    let QueryKind::FunctionQuery(f) = q.kind.expect("kind");
    assert_eq!(f.decl.inputs, Some(vec![]));
    assert_eq!(f.decl.output, Some(FnRetTy::DefaultReturn));
}

#[test]
fn dotdot_means_any_arguments() {
    let (q, _) = parsed("fn foo(..)");
    let QueryKind::FunctionQuery(f) = q.kind.expect("kind");
    assert!(f.decl.inputs.is_none());
    assert_eq!(f.decl.output, Some(FnRetTy::DefaultReturn));
}

#[test]
fn anonymous_query_has_no_name() {
    let (q, _) = parsed("fn (&mut Vec<T>, T)");
    assert!(q.name.is_none());
    let QueryKind::FunctionQuery(f) = q.kind.expect("kind");
    let inputs = f.decl.inputs.expect("inputs");
    assert_eq!(inputs.len(), 2);
    assert_eq!(
        inputs[0].ty,
        Some(Type::BorrowedRef {
            mutable: true,
            type_: Box::new(Type::UnresolvedPath {
                name: "Vec".to_string(),
                args: Some(Box::new(GenericArgs::AngleBracketed {
                    args: vec![Some(GenericArg::Type(Type::Generic("T".to_string())))],
                })),
            }),
        })
    );
    assert_eq!(inputs[1].ty, Some(Type::Generic("T".to_string())));
}

#[test]
fn wildcard_arguments_parse_to_none() {
    let (q, _) = parsed("fn f(_, x: _, [_])");
    let QueryKind::FunctionQuery(f) = q.kind.expect("kind");
    let inputs = f.decl.inputs.expect("inputs");
    assert_eq!(inputs[0], Argument { ty: None, name: None });
    assert_eq!(inputs[1], Argument { ty: None, name: Some("x".to_string()) });
    assert_eq!(inputs[2], Argument { ty: Some(Type::Slice(None)), name: None });
}

#[test]
fn uppercase_heads_are_generics_unless_a_word_follows() {
    let (t, _) = parse_type("T", 0).expect("type");
    assert_eq!(t, Type::Generic("T".to_string()));
    let (t, _) = parse_type("TU", 0).expect("type");
    assert_eq!(t, Type::Generic("TU".to_string()));
    let (t, _) = parse_type("Vec", 0).expect("type");
    assert_eq!(
        t,
        Type::UnresolvedPath { name: "Vec".to_string(), args: None }
    );
}

#[test]
fn pointers_and_never_parse() {
    let (t, _) = parse_type("*const u8", 0).expect("type");
    assert_eq!(
        t,
        Type::RawPointer {
            mutable: false,
            type_: Box::new(Type::Primitive(PrimitiveType::U8)),
        }
    );
    let (t, _) = parse_type("!", 0).expect("type");
    assert_eq!(t, Type::Never);
    let (t, _) = parse_type("(i32, _)", 0).expect("type");
    assert_eq!(
        t,
        Type::Tuple(vec![Some(Type::Primitive(PrimitiveType::I32)), None])
    );
}

#[test]
fn whitespace_around_commas_is_tolerated() {
    let (q, _) = parsed("fn f(a: u8 , b: u8)");
    let QueryKind::FunctionQuery(f) = q.kind.expect("kind");
    assert_eq!(f.decl.inputs.expect("inputs").len(), 2);
}

#[test]
fn queries_must_open_with_fn_and_whitespace() {
    assert!(parse_query("fn f").is_ok());
    assert!(parse_query("fnf").is_err());
    assert!(parse_query("fn").is_err());
    assert!(parse_query("gn f").is_err());
    let err = parse_query("gn f").unwrap_err();
    assert_eq!(err.position, 0);
}

#[test]
fn trailing_garbage_is_left_unconsumed() {
    let (q, used) = parsed("fn foo(..) and more");
    assert_eq!(q.name, Some("foo".to_string()));
    // `(..)` parses, but the tail does not belong to the query.
    assert!(used < "fn foo(..) and more".len());
}

#[test]
fn wildcard_named_arguments_drop_the_name() {
    // `_: T` is an argument whose name is the wildcard: the type is kept,
    // the name is not. An identifier merely starting with an underscore
    // stays a name.
    let (q, _) = parsed("fn f(_: u32, _x: u32)");
    let QueryKind::FunctionQuery(f) = q.kind.expect("kind");
    let inputs = f.decl.inputs.expect("inputs");
    assert_eq!(inputs.len(), 2);
    assert_eq!(inputs[0], Argument { ty: Some(Type::Primitive(PrimitiveType::U32)), name: None });
    assert_eq!(
        inputs[1],
        Argument { ty: Some(Type::Primitive(PrimitiveType::U32)), name: Some("_x".to_string()) }
    );
}

#[test]
fn malformed_colon_forms_are_not_arguments() {
    // A bare `: T` has no identifier, and `x:` has no type: neither is a
    // named argument, so the declaration fails to parse and the query
    // keeps only its name.
    let (q, _) = parsed("fn f(: u32)");
    assert_eq!(q.name, Some("f".to_string()));
    assert!(q.kind.is_none());
    let (q2, _) = parsed("fn g(x:)");
    assert_eq!(q2.name, Some("g".to_string()));
    assert!(q2.kind.is_none());
}
