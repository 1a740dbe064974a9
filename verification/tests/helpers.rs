//! Tests of the smaller public helpers: query accessors, copies,
//! tree-shaking, and similarity edge cases.

use roogle::compare::{cmp_symbol, DiscreteSimilarity, Similarity, Substs};
use roogle::corpus::{
    Crate, FnDecl as DocFnDecl, FnRetTy as DocFnRetTy, Function as DocFunction, Arguments,
    Generics, Id, Item, ItemEnum, ItemKind, ItemSummary, Module, Type as DocType, Typedef,
    Visibility,
};
use roogle::query::{
    clone_arguments, clone_type, type_eq, Argument, FnDecl, FnRetTy, Function, PrimitiveType,
    Query, QueryKind, Type,
};
use roogle::shake::{shake, shake_index, shake_paths};

#[test]
fn args_returns_the_declared_patterns() {
    let q = Query {
        name: None,
        kind: Some(QueryKind::FunctionQuery(Function {
            decl: FnDecl {
                inputs: Some(vec![Argument {
                    ty: Some(Type::Primitive(PrimitiveType::U8)),
                    name: Some("x".to_string()),
                }]),
                output: None,
            },
        })),
    };
    let args = q.args().expect("constrained inputs");
    assert_eq!(args.len(), 1);
    assert_eq!(args[0].name, Some("x".to_string()));
    assert_eq!(args[0].ty, Some(Type::Primitive(PrimitiveType::U8)));

    let unconstrained = Query { name: Some("f".to_string()), kind: None };
    assert!(unconstrained.args().is_none());
}

#[test]
fn inner_type_peels_wrappers() {
    let t = Type::BorrowedRef {
        mutable: false,
        type_: Box::new(Type::RawPointer {
            mutable: true,
            type_: Box::new(Type::Primitive(PrimitiveType::Str)),
        }),
    };
    assert_eq!(t.inner_type(), &Type::Primitive(PrimitiveType::Str));
    let plain = Type::Generic("T".to_string());
    assert_eq!(plain.inner_type(), &plain);
}

#[test]
fn primitive_spellings() {
    assert_eq!(PrimitiveType::Usize.as_str(), "usize");
    assert_eq!(PrimitiveType::I128.as_str(), "i128");
    assert_eq!(PrimitiveType::Unit.as_str(), "unit");
    assert_eq!(PrimitiveType::Never.as_str(), "never");
}

#[test]
fn copies_are_structurally_equal() {
    let t = Type::Tuple(vec![
        Some(Type::UnresolvedPath { name: "Vec".to_string(), args: None }),
        None,
        Some(Type::Slice(Some(Box::new(Type::Primitive(PrimitiveType::Bool))))),
    ]);
    let copy = clone_type(&t);
    assert!(type_eq(&t, &copy));
    assert_eq!(t, copy);

    let args = vec![Argument { ty: Some(Type::Never), name: None }];
    assert_eq!(clone_arguments(&args), args);
}

#[test]
fn empty_names_compare_without_a_zero_denominator() {
    let sim = cmp_symbol("", "");
    assert_eq!(sim, Similarity::Continuous { num: 0, den: 1 });
    assert_eq!(sim.score(), 0);
}

#[test]
fn name_distance_is_normalized() {
    assert_eq!(cmp_symbol("foo", "foo"), Similarity::Continuous { num: 0, den: 3 });
    assert_eq!(cmp_symbol("foo", "food"), Similarity::Continuous { num: 1, den: 4 });
    assert_eq!(cmp_symbol("abc", "xyz"), Similarity::Continuous { num: 3, den: 3 });
}

#[test]
fn shaking_keeps_only_searchable_kinds() {
    fn sample_index() -> Vec<(Id, Item)> {
        let func = Item {
            id: Id("1".to_string()),
            name: Some("f".to_string()),
            visibility: Visibility::Public,
            docs: None,
            inner: ItemEnum::Function(DocFunction {
                decl: DocFnDecl {
                    inputs: Arguments { values: vec![] },
                    output: DocFnRetTy::DefaultReturn,
                    c_variadic: false,
                },
                generics: Generics { params: vec![], where_predicates: vec![] },
            }),
        };
        let module = Item {
            id: Id("2".to_string()),
            name: Some("m".to_string()),
            visibility: Visibility::Public,
            docs: None,
            inner: ItemEnum::Module(Module { is_crate: false, items: vec![] }),
        };
        let alias = Item {
            id: Id("3".to_string()),
            name: Some("A".to_string()),
            visibility: Visibility::Public,
            docs: None,
            inner: ItemEnum::Typedef(Typedef {
                type_: DocType::Never,
                generics: Generics { params: vec![], where_predicates: vec![] },
            }),
        };
        vec![
            (Id("1".to_string()), func),
            (Id("2".to_string()), module),
            (Id("3".to_string()), alias),
        ]
    }
    fn sample_paths() -> Vec<(Id, ItemSummary)> {
        vec![
            (
                Id("1".to_string()),
                ItemSummary { path: vec!["c".to_string()], kind: ItemKind::Function },
            ),
            (
                Id("2".to_string()),
                ItemSummary { path: vec!["c".to_string()], kind: ItemKind::Module },
            ),
        ]
    }
    assert_eq!(shake_index(sample_index()).len(), 2);
    assert_eq!(shake_paths(sample_paths()).len(), 1);
    let krate = Crate {
        root: Id("0".to_string()),
        crate_version: None,
        index: sample_index(),
        paths: sample_paths(),
        format_version: 7,
    };
    let shaken = shake(krate);
    assert_eq!(shaken.index.len(), 2);
    assert_eq!(shaken.paths.len(), 1);
}

#[test]
fn substitution_table_records_bindings() {
    let mut substs = Substs::new();
    let krate = Crate {
        root: Id("0".to_string()),
        crate_version: None,
        index: vec![],
        paths: vec![],
        format_version: 7,
    };
    let q1 = Type::Primitive(PrimitiveType::U8);
    let sims1 = q1.compare(&DocType::Generic("T".to_string()), &krate, None, &mut substs);
    assert_eq!(sims1, vec![Similarity::Discrete(DiscreteSimilarity::Subequal)]);
    // The same binding again is equivalent; a different one conflicts.
    let sims2 = q1.compare(&DocType::Generic("T".to_string()), &krate, None, &mut substs);
    assert_eq!(sims2, vec![Similarity::Discrete(DiscreteSimilarity::Equivalent)]);
    let q2 = Type::Primitive(PrimitiveType::U16);
    let sims3 = q2.compare(&DocType::Generic("T".to_string()), &krate, None, &mut substs);
    assert_eq!(sims3, vec![Similarity::Discrete(DiscreteSimilarity::Different)]);
}

#[test]
fn ref_tolerance_costs_one_subequal() {
    let krate = Crate {
        root: Id("0".to_string()),
        crate_version: None,
        index: vec![],
        paths: vec![],
        format_version: 7,
    };
    let q = Type::Primitive(PrimitiveType::U8);
    let candidate = DocType::BorrowedRef {
        mutable: false,
        type_: Box::new(DocType::Primitive("u8".to_string())),
    };
    let mut substs = Substs::new();
    let sims = q.compare(&candidate, &krate, None, &mut substs);
    assert_eq!(
        sims,
        vec![
            Similarity::Discrete(DiscreteSimilarity::Equivalent),
            Similarity::Discrete(DiscreteSimilarity::Subequal)
        ]
    );
    // And symmetrically, a reference on the query side.
    let q_ref = Type::BorrowedRef {
        mutable: false,
        type_: Box::new(Type::Primitive(PrimitiveType::U8)),
    };
    let candidate_plain = DocType::Primitive("u8".to_string());
    let mut substs2 = Substs::new();
    let sims2 = q_ref.compare(&candidate_plain, &krate, None, &mut substs2);
    assert_eq!(
        sims2,
        vec![
            Similarity::Discrete(DiscreteSimilarity::Equivalent),
            Similarity::Discrete(DiscreteSimilarity::Subequal)
        ]
    );
}
