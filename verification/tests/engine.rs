//! Comparator and search tests over a small hand-built corpus.

use roogle::compare::{DiscreteSimilarity, Similarities, Similarity, Substs};
use roogle::corpus::{
    Argument, Arguments, Crate, FnDecl, FnRetTy, Function, GenericArg, GenericArgs, Generics, Id,
    Impl, Item, ItemEnum, ItemKind, ItemSummary, Method, Type, Visibility,
};
use roogle::query;
use roogle::search::{Scope, SearchError};
use roogle::Index;

fn empty_generics() -> Generics {
    Generics { params: vec![], where_predicates: vec![] }
}

fn mk_item(id: &str, name: Option<&str>, inner: ItemEnum) -> (Id, Item) {
    (
        Id(id.to_string()),
        Item {
            id: Id(id.to_string()),
            name: name.map(|s| s.to_string()),
            visibility: Visibility::Public,
            docs: None,
            inner,
        },
    )
}

fn no_args_fn() -> Function {
    Function {
        decl: FnDecl {
            inputs: Arguments { values: vec![] },
            output: FnRetTy::DefaultReturn,
            c_variadic: false,
        },
        generics: empty_generics(),
    }
}

fn usize_ty() -> Type {
    Type::Primitive("usize".to_string())
}

fn arg(name: &str, ty: Type) -> Argument {
    Argument { name: name.to_string(), type_: ty }
}

fn option_of(inner: Type) -> Type {
    Type::ResolvedPath {
        name: "Option".to_string(),
        id: Id("0:7".to_string()),
        args: Some(Box::new(GenericArgs::AngleBracketed {
            args: vec![GenericArg::Type(inner)],
            bindings: vec![],
        })),
    }
}

fn summary(path: &[&str], kind: ItemKind) -> ItemSummary {
    ItemSummary { path: path.iter().map(|s| s.to_string()).collect(), kind }
}

/// The corpus of the end-to-end scenarios: `fn foo()`,
/// `fn add(a: usize, b: usize) -> usize`, `impl Vec<T> { fn push(&mut self,
/// value: T) }`, and `fn map<T, U>(x: Option<T>, f: F) -> Option<U>`.
fn scenario_crate() -> Crate {
    let foo = mk_item("0:1", Some("foo"), ItemEnum::Function(no_args_fn()));
    let add = mk_item(
        "0:2",
        Some("add"),
        ItemEnum::Function(Function {
            decl: FnDecl {
                inputs: Arguments { values: vec![arg("a", usize_ty()), arg("b", usize_ty())] },
                output: FnRetTy::Return(usize_ty()),
                c_variadic: false,
            },
            generics: empty_generics(),
        }),
    );
    let vec_impl = mk_item(
        "0:4",
        None,
        ItemEnum::Impl(Impl {
            generics: empty_generics(),
            trait_: None,
            for_: Type::ResolvedPath {
                name: "Vec".to_string(),
                id: Id("0:3".to_string()),
                args: Some(Box::new(GenericArgs::AngleBracketed {
                    args: vec![GenericArg::Type(Type::Generic("T".to_string()))],
                    bindings: vec![],
                })),
            },
            items: vec![Id("0:5".to_string())],
            negative_polarity: false,
            synthetic: false,
            blanket_impl: None,
        }),
    );
    let push = mk_item(
        "0:5",
        Some("push"),
        ItemEnum::Method(Method {
            decl: FnDecl {
                inputs: Arguments {
                    values: vec![
                        arg(
                            "self",
                            Type::BorrowedRef {
                                mutable: true,
                                type_: Box::new(Type::Generic("Self".to_string())),
                            },
                        ),
                        arg("value", Type::Generic("T".to_string())),
                    ],
                },
                output: FnRetTy::DefaultReturn,
                c_variadic: false,
            },
            generics: empty_generics(),
            has_body: true,
        }),
    );
    let map = mk_item(
        "0:6",
        Some("map"),
        ItemEnum::Function(Function {
            decl: FnDecl {
                inputs: Arguments {
                    values: vec![
                        arg("x", option_of(Type::Generic("T".to_string()))),
                        arg("f", Type::Generic("F".to_string())),
                    ],
                },
                output: FnRetTy::Return(option_of(Type::Generic("U".to_string()))),
                c_variadic: false,
            },
            generics: empty_generics(),
        }),
    );
    Crate {
        root: Id("0:0".to_string()),
        crate_version: None,
        index: vec![foo, add, vec_impl, push, map],
        paths: vec![
            (Id("0:1".to_string()), summary(&["corpus", "foo"], ItemKind::Function)),
            (Id("0:2".to_string()), summary(&["corpus", "add"], ItemKind::Function)),
            (Id("0:3".to_string()), summary(&["corpus", "Vec"], ItemKind::Struct)),
            (Id("0:6".to_string()), summary(&["corpus", "map"], ItemKind::Function)),
        ],
        format_version: 7,
    }
}

fn scenario_index() -> Index {
    Index { crates: vec![("corpus".to_string(), scenario_crate())] }
}

fn parse(s: &str) -> query::Query {
    roogle::parse::parse_query(s).expect("query must parse").0
}

#[test]
fn compare_symbol() {
    let query = query::Query { name: Some("foo".to_string()), kind: None };

    let item = mk_item("0:1", Some("foo"), ItemEnum::Function(no_args_fn())).1;
    let krate = Crate {
        root: Id("0:0".to_string()),
        crate_version: Some("0.0.0".to_string()),
        index: vec![],
        paths: vec![],
        format_version: 0,
    };
    let mut substs = Substs::new();

    assert_eq!(
        query.compare(&item, &krate, None, &mut substs),
        vec![Similarity::Continuous { num: 0, den: 3 }]
    )
}

#[test]
fn compare_function() {
    let q = query::Function {
        decl: query::FnDecl { inputs: Some(vec![]), output: Some(query::FnRetTy::DefaultReturn) },
    };

    let i = no_args_fn();

    let krate = Crate {
        root: Id("0:0".to_string()),
        crate_version: Some("0.0.0".to_string()),
        index: vec![],
        paths: vec![],
        format_version: 0,
    };
    let mut substs = Substs::new();

    assert_eq!(
        q.compare(&i, &krate, None, &mut substs),
        vec![
            Similarity::Discrete(DiscreteSimilarity::Equivalent),
            Similarity::Discrete(DiscreteSimilarity::Equivalent)
        ]
    )
}

#[test]
fn name_only_query_finds_foo() {
    let index = scenario_index();
    let q = parse("fn foo");
    let hits = index.search(&q, Scope::Crate("corpus".to_string()), 400_000_000).unwrap();
    assert_eq!(hits.len(), 1);
    assert_eq!(hits[0].name, "foo");
    assert_eq!(hits[0].similarities.score(), 0);
    assert_eq!(hits[0].path, vec!["corpus".to_string(), "foo".to_string()]);
    assert_eq!(hits[0].link, vec!["corpus".to_string(), "fn.foo.html".to_string()]);
}

#[test]
fn exact_signature_is_a_perfect_match() {
    let index = scenario_index();
    let q = parse("fn add(a: usize, b: usize) -> usize");
    let hits = index.search(&q, Scope::Crate("corpus".to_string()), 400_000_000).unwrap();
    assert!(!hits.is_empty());
    assert_eq!(hits[0].name, "add");
    assert_eq!(hits[0].similarities.score(), 0);
}

#[test]
fn method_receiver_matches_self() {
    let index = scenario_index();
    let q = parse("fn (&mut Vec<T>, T)");
    let hits = index.search(&q, Scope::Crate("corpus".to_string()), 400_000_000).unwrap();
    assert_eq!(hits.len(), 1);
    assert_eq!(hits[0].name, "push");
    // Binding `T` costs a quarter over three atoms: well under 0.1.
    assert!(hits[0].similarities.score() < 100_000_000);
    assert_eq!(
        hits[0].path,
        vec!["corpus".to_string(), "Vec".to_string(), "push".to_string()]
    );
    assert_eq!(
        hits[0].link,
        vec!["corpus".to_string(), "struct.Vec.html#method.push".to_string()]
    );
}

#[test]
fn wildcards_match_the_receiver() {
    let index = scenario_index();
    // `-> _` parses as a path named `_`, which no candidate returns; the
    // receiver still matches, so `push` costs (0 + 250 + 1000) / 3.
    let q = parse("fn (Vec<_>, _) -> _");
    let hits = index.search(&q, Scope::Crate("corpus".to_string()), 500_000_000).unwrap();
    assert_eq!(hits.len(), 1);
    assert_eq!(hits[0].name, "push");
    let sims = &hits[0].similarities.0;
    assert!(sims.contains(&Similarity::Discrete(DiscreteSimilarity::Subequal)));
}

#[test]
fn generics_bind_coherently() {
    let index = scenario_index();
    let q = parse("fn (Option<T>) -> Option<U>");
    let hits = index.search(&q, Scope::Crate("corpus".to_string()), 400_000_000).unwrap();
    assert_eq!(hits.len(), 1);
    assert_eq!(hits[0].name, "map");
}

/// A corpus holding `map` and an identity-preserving alternative
/// `fn keep<T>(x: Option<T>) -> Option<T>`.
fn generic_crate() -> Crate {
    let map = mk_item(
        "2:1",
        Some("map"),
        ItemEnum::Function(Function {
            decl: FnDecl {
                inputs: Arguments {
                    values: vec![
                        arg("x", option_of(Type::Generic("T".to_string()))),
                        arg("f", Type::Generic("F".to_string())),
                    ],
                },
                output: FnRetTy::Return(option_of(Type::Generic("U".to_string()))),
                c_variadic: false,
            },
            generics: empty_generics(),
        }),
    );
    let keep = mk_item(
        "2:2",
        Some("keep"),
        ItemEnum::Function(Function {
            decl: FnDecl {
                inputs: Arguments {
                    values: vec![arg("x", option_of(Type::Generic("T".to_string())))],
                },
                output: FnRetTy::Return(option_of(Type::Generic("T".to_string()))),
                c_variadic: false,
            },
            generics: empty_generics(),
        }),
    );
    Crate {
        root: Id("2:0".to_string()),
        crate_version: None,
        index: vec![map, keep],
        paths: vec![
            (Id("2:1".to_string()), summary(&["gen", "map"], ItemKind::Function)),
            (Id("2:2".to_string()), summary(&["gen", "keep"], ItemKind::Function)),
        ],
        format_version: 7,
    }
}

#[test]
fn conflicting_generics_score_worse() {
    // Against `keep`, whose parameter `T` appears in input and output, a
    // query that returns a different generic conflicts with the recorded
    // binding and picks up a `Different`.
    let q_same = parse("fn (Option<T>) -> Option<T>");
    let q_free = parse("fn (Option<T>) -> Option<U>");
    let krate = generic_crate();
    let keep_item = &krate.index[1].1;
    let mut substs_same = Substs::new();
    let sims_same = Similarities(q_same.compare(keep_item, &krate, None, &mut substs_same));
    let mut substs_free = Substs::new();
    let sims_free = Similarities(q_free.compare(keep_item, &krate, None, &mut substs_free));
    assert!(sims_same.score() < sims_free.score());
    assert!(sims_free.0.contains(&Similarity::Discrete(DiscreteSimilarity::Different)));
    assert!(!sims_same.0.contains(&Similarity::Discrete(DiscreteSimilarity::Different)));
}

#[test]
fn identity_preserving_candidate_outranks_map() {
    let index = Index { crates: vec![("gen".to_string(), generic_crate())] };
    let q = parse("fn (Option<T>) -> Option<T>");
    let hits = index.search(&q, Scope::Crate("gen".to_string()), 400_000_000).unwrap();
    assert!(hits.len() >= 2);
    assert_eq!(hits[0].name, "keep");
    assert_eq!(hits[1].name, "map");
    assert!(hits[0].similarities.score() < hits[1].similarities.score());
}

#[test]
fn results_sort_ascending_by_score() {
    let index = scenario_index();
    // A name close to several candidates: every candidate gets a score.
    let q = parse("fn ad");
    let hits = index.search(&q, Scope::Crate("corpus".to_string()), 1_000_000_000).unwrap();
    assert!(hits.len() >= 2);
    for w in hits.windows(2) {
        assert!(w[0].similarities.score() <= w[1].similarities.score());
    }
    assert_eq!(hits[0].name, "add");
}

#[test]
fn unknown_crate_is_reported() {
    let index = scenario_index();
    let q = parse("fn foo");
    let err = index
        .search(&q, Scope::Crate("missing".to_string()), 400_000_000)
        .unwrap_err();
    match &err {
        SearchError::CrateNotFound(name) => assert_eq!(name, "missing"),
        other => panic!("unexpected error: {:?}", other),
    }
    assert_eq!(err.message(), "crate `missing` is not present in the index");
}

#[test]
fn dangling_impl_item_is_reported() {
    let mut krate = scenario_crate();
    if let ItemEnum::Impl(im) = &mut krate.index[2].1.inner {
        im.items.push(Id("9:9".to_string()));
    } else {
        panic!("expected the impl entry");
    }
    let index = Index { crates: vec![("corpus".to_string(), krate)] };
    let q = parse("fn foo");
    let err = index
        .search(&q, Scope::Crate("corpus".to_string()), 400_000_000)
        .unwrap_err();
    match &err {
        SearchError::ItemNotFound(id, name) => {
            assert_eq!(id, "9:9");
            assert_eq!(name, "corpus");
        },
        other => panic!("unexpected error: {:?}", other),
    }
}

#[test]
fn scope_of_many_crates_searches_all() {
    let index = Index {
        crates: vec![
            ("corpus".to_string(), scenario_crate()),
            ("extra".to_string(), scenario_crate()),
        ],
    };
    let q = parse("fn foo");
    let hits = index
        .search(
            &q,
            Scope::Crates(vec!["corpus".to_string(), "extra".to_string()]),
            400_000_000,
        )
        .unwrap();
    assert_eq!(hits.len(), 2);
}

#[test]
fn scope_flattens_to_its_names() {
    assert_eq!(Scope::Crate("a".to_string()).flatten(), vec!["a".to_string()]);
    assert_eq!(
        Scope::Crates(vec!["a".to_string(), "b".to_string()]).flatten(),
        vec!["a".to_string(), "b".to_string()]
    );
}

#[test]
fn typedef_unfolding_prefers_the_cheaper_side() {
    // `type Pair = (usize, usize)` in the corpus; querying the alias by its
    // underlying shape must match through the alias.
    let pair_alias = mk_item(
        "1:1",
        Some("Pair"),
        ItemEnum::Typedef(roogle::corpus::Typedef {
            type_: Type::Tuple(vec![usize_ty(), usize_ty()]),
            generics: empty_generics(),
        }),
    );
    let uses_pair = mk_item(
        "1:2",
        Some("sum"),
        ItemEnum::Function(Function {
            decl: FnDecl {
                inputs: Arguments {
                    values: vec![arg(
                        "p",
                        Type::ResolvedPath {
                            name: "Pair".to_string(),
                            id: Id("1:1".to_string()),
                            args: None,
                        },
                    )],
                },
                output: FnRetTy::Return(usize_ty()),
                c_variadic: false,
            },
            generics: empty_generics(),
        }),
    );
    let krate = Crate {
        root: Id("1:0".to_string()),
        crate_version: None,
        index: vec![pair_alias, uses_pair],
        paths: vec![(Id("1:2".to_string()), summary(&["alias", "sum"], ItemKind::Function))],
        format_version: 7,
    };
    let index = Index { crates: vec![("alias".to_string(), krate)] };
    let q = parse("fn ((usize, usize)) -> usize");
    let hits = index.search(&q, Scope::Crate("alias".to_string()), 400_000_000).unwrap();
    assert_eq!(hits.len(), 1);
    assert_eq!(hits[0].name, "sum");
    // The tuple shape matches only through the unfolded alias.
    assert!(hits[0].similarities.score() < 400_000_000);
}

#[test]
fn similarity_scores_by_cost() {
    assert_eq!(Similarity::Discrete(DiscreteSimilarity::Equivalent).score(), 0);
    assert_eq!(Similarity::Discrete(DiscreteSimilarity::Subequal).score(), 250_000_000);
    assert_eq!(Similarity::Discrete(DiscreteSimilarity::Different).score(), 1_000_000_000);
    assert_eq!(Similarity::Continuous { num: 1, den: 2 }.score(), 500_000_000);
    let sims = Similarities(vec![
        Similarity::Discrete(DiscreteSimilarity::Equivalent),
        Similarity::Discrete(DiscreteSimilarity::Different),
    ]);
    assert_eq!(sims.score(), 500_000_000);
}

#[test]
fn equal_scores_keep_enumeration_order() {
    // Two candidates with identical declarations and equally distant
    // names: their scores tie, and the index order decides.
    let twin = |id: &str, name: &str| {
        mk_item(id, Some(name), ItemEnum::Function(no_args_fn()))
    };
    let krate = Crate {
        root: Id("3:0".to_string()),
        crate_version: None,
        index: vec![twin("3:1", "fop"), twin("3:2", "foq")],
        paths: vec![
            (Id("3:1".to_string()), summary(&["twin", "fop"], ItemKind::Function)),
            (Id("3:2".to_string()), summary(&["twin", "foq"], ItemKind::Function)),
        ],
        format_version: 7,
    };
    let index = Index { crates: vec![("twin".to_string(), krate)] };
    let q = parse("fn foo");
    let hits = index.search(&q, Scope::Crate("twin".to_string()), 1_000_000_000).unwrap();
    assert_eq!(hits.len(), 2);
    assert_eq!(hits[0].similarities.score(), hits[1].similarities.score());
    assert_eq!(hits[0].name, "fop");
    assert_eq!(hits[1].name, "foq");
}

#[test]
fn empty_scope_and_empty_crate_yield_no_hits() {
    let empty_crate = Crate {
        root: Id("4:0".to_string()),
        crate_version: None,
        index: vec![],
        paths: vec![],
        format_version: 7,
    };
    let index = Index { crates: vec![("empty".to_string(), empty_crate)] };
    let q = parse("fn foo");
    let hits = index.search(&q, Scope::Crate("empty".to_string()), 1_000_000_000).unwrap();
    assert!(hits.is_empty());
    let none = index.search(&q, Scope::Crates(vec![]), 1_000_000_000).unwrap();
    assert!(none.is_empty());
}

#[test]
fn duplicate_crate_names_resolve_to_the_first_entry() {
    let index = Index {
        crates: vec![
            ("corpus".to_string(), scenario_crate()),
            (
                "corpus".to_string(),
                Crate {
                    root: Id("5:0".to_string()),
                    crate_version: None,
                    index: vec![],
                    paths: vec![],
                    format_version: 7,
                },
            ),
        ],
    };
    let q = parse("fn foo");
    let hits = index.search(&q, Scope::Crate("corpus".to_string()), 400_000_000).unwrap();
    assert_eq!(hits.len(), 1);
    assert_eq!(hits[0].name, "foo");
}
