//! Tests of the earlier-generation executor and its corpus partitioning.

use roogle::corpus::{
    Argument, Arguments, Crate as DocCrate, FnDecl, FnRetTy, Function, GenericArg, GenericArgs,
    Generics, Id, Impl, Item, ItemEnum, ItemKind, ItemSummary, Method, Module, Type, Visibility,
};
use roogle::approx::Similarity;
use roogle::exec::{score, Crates, QueryExecutor};
use roogle::parse::parse_query;

fn empty_generics() -> Generics {
    Generics { params: vec![], where_predicates: vec![] }
}

fn mk_item(id: &str, name: Option<&str>, inner: ItemEnum) -> (Id, Item) {
    (
        Id(id.to_string()),
        Item {
            id: Id(id.to_string()),
            name: name.map(|s| s.to_string()),
            visibility: Visibility::Public,
            docs: None,
            inner,
        },
    )
}

fn arg(name: &str, ty: Type) -> Argument {
    Argument { name: name.to_string(), type_: ty }
}

fn summary(path: &[&str], kind: ItemKind) -> ItemSummary {
    ItemSummary { path: path.iter().map(|s| s.to_string()).collect(), kind }
}

fn doc_crate() -> DocCrate {
    let root = mk_item(
        "0:0",
        Some("corpus"),
        ItemEnum::Module(Module { is_crate: true, items: vec![] }),
    );
    let foo = mk_item(
        "0:1",
        Some("foo"),
        ItemEnum::Function(Function {
            decl: FnDecl {
                inputs: Arguments { values: vec![] },
                output: FnRetTy::DefaultReturn,
                c_variadic: false,
            },
            generics: empty_generics(),
        }),
    );
    let add = mk_item(
        "0:2",
        Some("add"),
        ItemEnum::Function(Function {
            decl: FnDecl {
                inputs: Arguments {
                    values: vec![
                        arg("a", Type::Primitive("usize".to_string())),
                        arg("b", Type::Primitive("usize".to_string())),
                    ],
                },
                output: FnRetTy::Return(Type::Primitive("usize".to_string())),
                c_variadic: false,
            },
            generics: empty_generics(),
        }),
    );
    let vec_impl = mk_item(
        "0:4",
        None,
        ItemEnum::Impl(Impl {
            generics: empty_generics(),
            trait_: None,
            for_: Type::ResolvedPath {
                name: "Vec".to_string(),
                id: Id("0:3".to_string()),
                args: Some(Box::new(GenericArgs::AngleBracketed {
                    args: vec![GenericArg::Type(Type::Generic("T".to_string()))],
                    bindings: vec![],
                })),
            },
            items: vec![Id("0:5".to_string())],
            negative_polarity: false,
            synthetic: false,
            blanket_impl: None,
        }),
    );
    let push = mk_item(
        "0:5",
        Some("push"),
        ItemEnum::Method(Method {
            decl: FnDecl {
                inputs: Arguments {
                    values: vec![
                        arg(
                            "self",
                            Type::BorrowedRef {
                                mutable: true,
                                type_: Box::new(Type::Generic("Self".to_string())),
                            },
                        ),
                        arg("value", Type::Generic("T".to_string())),
                    ],
                },
                output: FnRetTy::DefaultReturn,
                c_variadic: false,
            },
            generics: empty_generics(),
            has_body: true,
        }),
    );
    DocCrate {
        root: Id("0:0".to_string()),
        crate_version: None,
        index: vec![root, foo, add, vec_impl, push],
        paths: vec![
            (Id("0:1".to_string()), summary(&["corpus", "foo"], ItemKind::Function)),
            (Id("0:2".to_string()), summary(&["corpus", "add"], ItemKind::Function)),
            (Id("0:3".to_string()), summary(&["corpus", "Vec"], ItemKind::Struct)),
        ],
        format_version: 7,
    }
}

#[test]
fn partitioning_splits_by_kind() {
    let crates = Crates::from_docs(vec![doc_crate()]);
    assert_eq!(crates.krates.len(), 1);
    let (name, krate) = &crates.krates[0];
    assert_eq!(name, "corpus");
    assert_eq!(krate.functions.len(), 2);
    assert_eq!(krate.impls.len(), 1);
    assert_eq!(krate.methods.len(), 1);
    assert_eq!(krate.paths.len(), 3);
    // Every path's last segment points back at the crate.
    let keys: Vec<&str> = crates.adts.iter().map(|p| p.0.as_str()).collect();
    assert!(keys.contains(&"foo"));
    assert!(keys.contains(&"add"));
    assert!(keys.contains(&"Vec"));
    for (_, names) in &crates.adts {
        assert_eq!(names, &vec!["corpus".to_string()]);
    }
}

#[test]
fn executor_ranks_by_weight_share() {
    let qe = QueryExecutor::new(Crates::from_docs(vec![doc_crate()]));
    let q = parse_query("fn (Vec<T>, T)").unwrap().0;
    let results = qe.exec(&q);
    // The receiver match wins, the zero-argument function keeps a partial
    // match on its default return, the mismatched function drops out.
    assert_eq!(results.len(), 2);
    assert_eq!(
        results[0].path,
        vec!["corpus".to_string(), "Vec".to_string(), "push".to_string()]
    );
    assert_eq!(
        results[0].link,
        vec!["corpus".to_string(), "struct.Vec.html#method.push".to_string()]
    );
    assert_eq!(results[1].path, vec!["corpus".to_string(), "foo".to_string()]);
}

#[test]
fn name_only_query_prefers_the_named_function() {
    let qe = QueryExecutor::new(Crates::from_docs(vec![doc_crate()]));
    let q = parse_query("fn foo").unwrap().0;
    let results = qe.exec(&q);
    // Inherent methods always keep their priority judgement, so `push`
    // stays in the list, behind the exact name match.
    assert_eq!(results.len(), 2);
    assert_eq!(results[0].path, vec!["corpus".to_string(), "foo".to_string()]);
    assert_eq!(results[0].link, vec!["corpus".to_string(), "fn.foo.html".to_string()]);
    assert_eq!(
        results[1].path,
        vec!["corpus".to_string(), "Vec".to_string(), "push".to_string()]
    );
}

#[test]
fn weight_share_is_a_percentage() {
    assert_eq!(score(&vec![Similarity::Equivalent]), 100);
    assert_eq!(score(&vec![Similarity::Different, Similarity::Equivalent]), 50);
    assert_eq!(score(&vec![Similarity::Subequal, Similarity::Subequal]), 50);
    assert_eq!(score(&vec![Similarity::Different]), 0);
}
