//! Laws of the comparator, stated and proved over its specification.
//!
//! The comparison of a query against one candidate is pinned down by
//! [`crate::compare::spec_cmp_query`]; these proof functions state the
//! properties that callers rely on: coherent treatment of bound generic
//! parameters, and symmetric tolerance of reference and pointer wrappers.

use vstd::prelude::*;

use crate::compare::{
    spec_cmp_type, spec_typedef_target, substs_get, DiscreteSimilarity, Similarity, SubstEntry,
};
use crate::corpus;
use crate::query;
use crate::query::qtype_eq;

verus! {

/// Substitution coherence, first occurrence: comparing any query type
/// against an unbound generic parameter binds it and costs one
/// `Subequal`.
pub proof fn lemma_substs_first_binding(
    q: query::Type,
    g: String,
    krate: corpus::Crate,
    self_ty: Option<corpus::Type>,
    substs: Seq<SubstEntry>,
    fuel: nat,
)
    requires
        g@ != "Self"@,
        substs_get(substs, g@) is None,
    ensures
        spec_cmp_type(q, corpus::Type::Generic(g), krate, self_ty, substs, fuel).0 == seq![
            Similarity::Discrete(DiscreteSimilarity::Subequal),
        ],
        spec_cmp_type(q, corpus::Type::Generic(g), krate, self_ty, substs, fuel).1
            == substs.push((g, q)),
{
}

/// Substitution coherence, later occurrences: once the parameter is bound
/// to `bound`, a structurally equal query type is `Equivalent` and leaves
/// the table unchanged.
pub proof fn lemma_substs_equal_rebinding(
    q: query::Type,
    g: String,
    bound: query::Type,
    krate: corpus::Crate,
    self_ty: Option<corpus::Type>,
    substs: Seq<SubstEntry>,
    fuel: nat,
)
    requires
        g@ != "Self"@,
        substs_get(substs, g@) == Some(bound),
        qtype_eq(q, bound),
    ensures
        spec_cmp_type(q, corpus::Type::Generic(g), krate, self_ty, substs, fuel).0 == seq![
            Similarity::Discrete(DiscreteSimilarity::Equivalent),
        ],
        spec_cmp_type(q, corpus::Type::Generic(g), krate, self_ty, substs, fuel).1 == substs,
{
}

/// Substitution coherence, conflicting occurrences: once the parameter is
/// bound to `bound`, any structurally different query type contributes a
/// `Different`, and the binding stays as it was.
pub proof fn lemma_substs_conflict(
    q: query::Type,
    g: String,
    bound: query::Type,
    krate: corpus::Crate,
    self_ty: Option<corpus::Type>,
    substs: Seq<SubstEntry>,
    fuel: nat,
)
    requires
        g@ != "Self"@,
        substs_get(substs, g@) == Some(bound),
        !qtype_eq(q, bound),
    ensures
        spec_cmp_type(q, corpus::Type::Generic(g), krate, self_ty, substs, fuel).0 == seq![
            Similarity::Discrete(DiscreteSimilarity::Different),
        ],
        spec_cmp_type(q, corpus::Type::Generic(g), krate, self_ty, substs, fuel).1 == substs,
{
}

/// Whether the candidate type is a path the comparator would unfold.
pub open spec fn unfoldable(i: corpus::Type, krate: corpus::Crate, fuel: nat) -> bool {
    fuel > 0 && match i {
        corpus::Type::ResolvedPath { id, .. } => spec_typedef_target(krate, id) is Some,
        _ => false,
    }
}

/// Reference and pointer tolerance, candidate side: a candidate wrapped
/// in a reference or pointer that the query does not have compares as the
/// unwrapped candidate plus exactly one `Subequal`.
pub proof fn lemma_ref_tolerance_candidate(
    q: query::Type,
    i: corpus::Type,
    krate: corpus::Crate,
    self_ty: Option<corpus::Type>,
    substs: Seq<SubstEntry>,
    fuel: nat,
)
    requires
        i is RawPointer || i is BorrowedRef,
        !(q is RawPointer),
        !(q is BorrowedRef),
    ensures
        i matches corpus::Type::RawPointer { type_: inner, .. } ==> spec_cmp_type(
            q,
            i,
            krate,
            self_ty,
            substs,
            fuel,
        ) == {
            let base = spec_cmp_type(q, *inner, krate, self_ty, substs, fuel);
            (base.0 + seq![Similarity::Discrete(DiscreteSimilarity::Subequal)], base.1)
        },
        i matches corpus::Type::BorrowedRef { type_: inner, .. } ==> spec_cmp_type(
            q,
            i,
            krate,
            self_ty,
            substs,
            fuel,
        ) == {
            let base = spec_cmp_type(q, *inner, krate, self_ty, substs, fuel);
            (base.0 + seq![Similarity::Discrete(DiscreteSimilarity::Subequal)], base.1)
        },
{
    reveal_with_fuel(spec_cmp_type, 2);
    reveal_with_fuel(crate::compare::spec_cmp_rest, 2);
}

/// Reference and pointer tolerance, query side: a query wrapped in a
/// reference or pointer that the candidate does not have compares as the
/// unwrapped query plus exactly one `Subequal`.
pub proof fn lemma_ref_tolerance_query(
    q: query::Type,
    i: corpus::Type,
    krate: corpus::Crate,
    self_ty: Option<corpus::Type>,
    substs: Seq<SubstEntry>,
    fuel: nat,
)
    requires
        q is RawPointer || q is BorrowedRef,
        !(i is RawPointer),
        !(i is BorrowedRef),
        !(i is Generic),
        !unfoldable(i, krate, fuel),
    ensures
        q matches query::Type::RawPointer { type_: inner, .. } ==> spec_cmp_type(
            q,
            i,
            krate,
            self_ty,
            substs,
            fuel,
        ) == {
            let base = spec_cmp_type(*inner, i, krate, self_ty, substs, fuel);
            (base.0 + seq![Similarity::Discrete(DiscreteSimilarity::Subequal)], base.1)
        },
        q matches query::Type::BorrowedRef { type_: inner, .. } ==> spec_cmp_type(
            q,
            i,
            krate,
            self_ty,
            substs,
            fuel,
        ) == {
            let base = spec_cmp_type(*inner, i, krate, self_ty, substs, fuel);
            (base.0 + seq![Similarity::Discrete(DiscreteSimilarity::Subequal)], base.1)
        },
{
    reveal_with_fuel(spec_cmp_type, 2);
    reveal_with_fuel(crate::compare::spec_cmp_rest, 2);
}

/// Reference and pointer tolerance, matched pointers: when both sides are
/// raw pointers of the same mutability, only the wrapped types are
/// compared; nothing is added.
pub proof fn lemma_pointer_match(
    q: query::Type,
    i: corpus::Type,
    krate: corpus::Crate,
    self_ty: Option<corpus::Type>,
    substs: Seq<SubstEntry>,
    fuel: nat,
)
    requires
        q is RawPointer,
        i is RawPointer,
        q->RawPointer_mutable == i->RawPointer_mutable,
    ensures
        spec_cmp_type(q, i, krate, self_ty, substs, fuel) == spec_cmp_type(
            *q->RawPointer_type_,
            *i->RawPointer_type_,
            krate,
            self_ty,
            substs,
            fuel,
        ),
{
    reveal_with_fuel(spec_cmp_type, 2);
    reveal_with_fuel(crate::compare::spec_cmp_rest, 2);
}

/// Reference and pointer tolerance, matched references: when both sides
/// are references of the same mutability, only the wrapped types are
/// compared; nothing is added.
pub proof fn lemma_ref_match(
    q: query::Type,
    i: corpus::Type,
    krate: corpus::Crate,
    self_ty: Option<corpus::Type>,
    substs: Seq<SubstEntry>,
    fuel: nat,
)
    requires
        q is BorrowedRef,
        i is BorrowedRef,
        q->BorrowedRef_mutable == i->BorrowedRef_mutable,
    ensures
        spec_cmp_type(q, i, krate, self_ty, substs, fuel) == spec_cmp_type(
            *q->BorrowedRef_type_,
            *i->BorrowedRef_type_,
            krate,
            self_ty,
            substs,
            fuel,
        ),
{
    reveal_with_fuel(spec_cmp_type, 2);
    reveal_with_fuel(crate::compare::spec_cmp_rest, 2);
}


/// A query that constrains anything: a name, a return type, an argument
/// count, or at least one argument's name or type.
pub open spec fn query_informative(q: query::Query) -> bool {
    ||| q.name is Some
    ||| match q.kind {
        Some(query::QueryKind::FunctionQuery(f)) => decl_informative(f.decl),
        None => false,
    }
}

/// A declaration pattern that constrains anything.
pub open spec fn decl_informative(d: query::FnDecl) -> bool {
    ||| d.output is Some
    ||| match d.inputs {
        Some(args) => args@.len() == 0 || (exists|k: int|
            0 <= k < args@.len() && arg_informative(#[trigger] args@[k])),
        None => false,
    }
}

/// An argument pattern that constrains anything.
pub open spec fn arg_informative(a: query::Argument) -> bool {
    a.name is Some || a.ty is Some
}

/// Comparing two types always judges something: the vector is never
/// empty.
pub proof fn lemma_cmp_type_nonempty(
    q: query::Type,
    i: corpus::Type,
    krate: corpus::Crate,
    self_ty: Option<corpus::Type>,
    substs: Seq<SubstEntry>,
    fuel: nat,
)
    ensures
        spec_cmp_type(q, i, krate, self_ty, substs, fuel).0.len() > 0,
    decreases fuel, q, crate::compare::wrap_depth(i), 2int,
{
    match i {
        corpus::Type::Generic(g) => {
            if g@ == "Self"@ && fuel > 0 && self_ty is Some {
                lemma_cmp_type_nonempty(q, self_ty->0, krate, self_ty, substs, (fuel - 1) as nat);
            }
        },
        corpus::Type::ResolvedPath { id, .. } => {
            if fuel > 0 && spec_typedef_target(krate, id) is Some {
                let target = spec_typedef_target(krate, id)->0;
                let folded = crate::compare::spec_cmp_rest(q, i, krate, self_ty, substs, fuel);
                lemma_cmp_rest_nonempty(q, i, krate, self_ty, substs, fuel);
                lemma_cmp_type_nonempty(q, target, krate, self_ty, folded.1, (fuel - 1) as nat);
            } else {
                lemma_cmp_rest_nonempty(q, i, krate, self_ty, substs, fuel);
            }
        },
        _ => {
            lemma_cmp_rest_nonempty(q, i, krate, self_ty, substs, fuel);
        },
    }
}

/// The shape-directed cases always judge something.
pub proof fn lemma_cmp_rest_nonempty(
    q: query::Type,
    i: corpus::Type,
    krate: corpus::Crate,
    self_ty: Option<corpus::Type>,
    substs: Seq<SubstEntry>,
    fuel: nat,
)
    ensures
        crate::compare::spec_cmp_rest(q, i, krate, self_ty, substs, fuel).0.len() > 0,
    decreases fuel, q, crate::compare::wrap_depth(i), 1int,
{
    match (q, i) {
        (query::Type::Tuple(qs), corpus::Type::Tuple(is_)) => {},
        (query::Type::Slice(qo), corpus::Type::Slice(it)) => {},
        (
            query::Type::RawPointer { mutable: qm, type_: qt },
            corpus::Type::RawPointer { mutable: im, type_: it },
        ) => {
            lemma_cmp_type_nonempty(*qt, *it, krate, self_ty, substs, fuel);
        },
        (
            query::Type::BorrowedRef { mutable: qm, type_: qt },
            corpus::Type::BorrowedRef { mutable: im, type_: it },
        ) => {
            lemma_cmp_type_nonempty(*qt, *it, krate, self_ty, substs, fuel);
        },
        (_, corpus::Type::RawPointer { type_: it, .. }) => {
            lemma_cmp_type_nonempty(q, *it, krate, self_ty, substs, fuel);
        },
        (_, corpus::Type::BorrowedRef { type_: it, .. }) => {
            lemma_cmp_type_nonempty(q, *it, krate, self_ty, substs, fuel);
        },
        (query::Type::RawPointer { type_: qt, .. }, _) => {
            lemma_cmp_type_nonempty(*qt, i, krate, self_ty, substs, fuel);
        },
        (query::Type::BorrowedRef { type_: qt, .. }, _) => {
            lemma_cmp_type_nonempty(*qt, i, krate, self_ty, substs, fuel);
        },
        _ => {},
    }
}

/// Pairwise argument comparison judges something as soon as one compared
/// position constrains anything.
pub proof fn lemma_cmp_args_nonempty(
    qs: Seq<query::Argument>,
    is_: Seq<corpus::Argument>,
    k: int,
    t: int,
    krate: corpus::Crate,
    self_ty: Option<corpus::Type>,
    substs: Seq<SubstEntry>,
    fuel: nat,
)
    requires
        0 <= k <= t < qs.len(),
        t < is_.len(),
        arg_informative(qs[t]),
    ensures
        crate::compare::spec_cmp_args(qs, is_, k, krate, self_ty, substs, fuel).0.len() > 0,
    decreases t - k,
{
    let head = crate::compare::spec_cmp_arg(qs[k], is_[k], krate, self_ty, substs, fuel);
    if k == t {
        if qs[k].name is Some {
        } else {
            let ty = qs[k].ty->0;
            lemma_cmp_type_nonempty(ty, is_[k].type_, krate, self_ty, substs, fuel);
        }
    } else {
        lemma_cmp_args_nonempty(qs, is_, k + 1, t, krate, self_ty, head.1, fuel);
    }
}

/// An informative query never produces an empty similarity vector,
/// whatever the candidate.
pub proof fn lemma_compare_nonempty(
    q: query::Query,
    item: corpus::Item,
    krate: corpus::Crate,
    self_ty: Option<corpus::Type>,
    substs: Seq<SubstEntry>,
    fuel: nat,
)
    requires
        query_informative(q),
    ensures
        crate::compare::spec_cmp_query(q, item, krate, self_ty, substs, fuel).0.len() > 0,
{
    if q.name is Some {
    } else {
        let qk = q.kind->0;
        let query::QueryKind::FunctionQuery(f) = qk;
        match item.inner {
            corpus::ItemEnum::Function(fi) => {
                lemma_cmp_decl_nonempty(f.decl, fi.decl, krate, self_ty, substs, fuel);
            },
            corpus::ItemEnum::Method(m) => {
                lemma_cmp_decl_nonempty(f.decl, m.decl, krate, self_ty, substs, fuel);
            },
            _ => {},
        }
    }
}

/// An informative declaration pattern never produces an empty vector.
pub proof fn lemma_cmp_decl_nonempty(
    qd: query::FnDecl,
    id: corpus::FnDecl,
    krate: corpus::Crate,
    self_ty: Option<corpus::Type>,
    substs: Seq<SubstEntry>,
    fuel: nat,
)
    requires
        decl_informative(qd),
    ensures
        crate::compare::spec_cmp_decl(qd, id, krate, self_ty, substs, fuel).0.len() > 0,
{
    let inputs_part = match qd.inputs {
        Some(qargs) => {
            let pairs = crate::compare::spec_cmp_args(
                qargs@,
                id.inputs.values@,
                0,
                krate,
                self_ty,
                substs,
                fuel,
            );
            if qargs@.len() != id.inputs.values@.len() {
                (
                    pairs.0 + crate::compare::repeat_diff(
                        crate::compare::abs_diff(qargs@.len(), id.inputs.values@.len()),
                    ),
                    pairs.1,
                )
            } else if qargs@.len() == 0 {
                (pairs.0 + seq![Similarity::Discrete(DiscreteSimilarity::Equivalent)], pairs.1)
            } else {
                pairs
            }
        },
        None => (Seq::<Similarity>::empty(), substs),
    };
    if qd.output is Some {
        let qr = qd.output->0;
        let out = crate::compare::spec_cmp_ret(qr, id.output, krate, self_ty, inputs_part.1, fuel);
        assert(out.0.len() > 0) by {
            match (qr, id.output) {
                (query::FnRetTy::Return(qt), corpus::FnRetTy::Return(it)) => {
                    lemma_cmp_type_nonempty(qt, it, krate, self_ty, inputs_part.1, fuel);
                },
                _ => {},
            }
        }
    } else {
        let qargs = qd.inputs->0;
        if qargs@.len() == id.inputs.values@.len() && qargs@.len() > 0 {
            let t = choose|t: int|
                0 <= t < qargs@.len() && arg_informative(#[trigger] qargs@[t]);
            lemma_cmp_args_nonempty(
                qargs@,
                id.inputs.values@,
                0,
                t,
                krate,
                self_ty,
                substs,
                fuel,
            );
        }
    }
}


/// A candidate type that spells the same shape as the query type: equal
/// path names, primitives, arities, wrappers, and mutability, with query
/// wildcards free. Such a candidate is what parsing the candidate's own
/// signature back as a query produces.
pub open spec fn reflects_ty(q: query::Type, i: corpus::Type) -> bool
    decreases q, 0int, 0int,
{
    match (q, i) {
        (
            query::Type::UnresolvedPath { name: qn, args: qa },
            corpus::Type::ResolvedPath { name: in_, args: ia, .. },
        ) => qn@ == in_@ && (match (qa, ia) {
            (None, _) => true,
            (Some(qb), Some(ib)) => reflects_gargs(*qb, *ib),
            (Some(_), None) => false,
        }),
        (query::Type::Primitive(p), corpus::Type::Primitive(s)) => p.spec_as_str() == s@,
        (query::Type::Tuple(qs), corpus::Type::Tuple(is_)) => qs@.len() == is_@.len() && (forall|
            k: int,
        |
            0 <= k < qs@.len() ==> (match #[trigger] qs@[k] {
                Some(t) => reflects_ty(t, is_@[k]),
                None => true,
            })),
        (query::Type::Slice(qo), corpus::Type::Slice(ii)) => match qo {
            Some(qi) => reflects_ty(*qi, *ii),
            None => true,
        },
        (
            query::Type::RawPointer { mutable: qm, type_: qt },
            corpus::Type::RawPointer { mutable: im, type_: it },
        ) => qm == im && reflects_ty(*qt, *it),
        (
            query::Type::BorrowedRef { mutable: qm, type_: qt },
            corpus::Type::BorrowedRef { mutable: im, type_: it },
        ) => qm == im && reflects_ty(*qt, *it),
        _ => false,
    }
}

/// Pairwise reflection of generic arguments, over the shorter list.
pub open spec fn reflects_gargs(qa: query::GenericArgs, ia: corpus::GenericArgs) -> bool
    decreases qa, 0int, 0int,
{
    match (qa, ia) {
        (
            query::GenericArgs::AngleBracketed { args: qs },
            corpus::GenericArgs::AngleBracketed { args: is_, .. },
        ) => forall|k: int|
            0 <= k < qs@.len() && k < is_@.len() ==> reflects_garg_elem(
                #[trigger] qs@[k],
                is_@[k],
            ),
        _ => true,
    }
}

/// Reflection of one generic-argument pair.
pub open spec fn reflects_garg_elem(qe: Option<query::GenericArg>, ie: corpus::GenericArg) -> bool
    decreases qe, 0int, 0int,
{
    match qe {
        Some(query::GenericArg::Type(t)) => ie is Type && reflects_ty(t, ie->Type_0),
        None => true,
    }
}

/// Comparing a type against a reflecting candidate costs nothing.
pub proof fn lemma_reflects_ty_zero(
    q: query::Type,
    i: corpus::Type,
    krate: corpus::Crate,
    self_ty: Option<corpus::Type>,
    substs: Seq<SubstEntry>,
    fuel: nat,
)
    requires
        reflects_ty(q, i),
    ensures
        crate::compare::total_cost(spec_cmp_type(q, i, krate, self_ty, substs, fuel).0) == 0,
    decreases fuel, q, crate::compare::wrap_depth(i), 2int,
{
    match i {
        corpus::Type::ResolvedPath { id, .. } => {
            lemma_reflects_rest_zero(q, i, krate, self_ty, substs, fuel);
            if fuel > 0 && spec_typedef_target(krate, id) is Some {
                let target = spec_typedef_target(krate, id)->0;
                let folded = crate::compare::spec_cmp_rest(q, i, krate, self_ty, substs, fuel);
                let unfolded = spec_cmp_type(q, target, krate, self_ty, folded.1, (fuel - 1) as nat);
                crate::compare::lemma_total_cost_nonneg(unfolded.0);
            }
        },
        _ => {
            lemma_reflects_rest_zero(q, i, krate, self_ty, substs, fuel);
        },
    }
}

/// The shape-directed cases of [`lemma_reflects_ty_zero`].
pub proof fn lemma_reflects_rest_zero(
    q: query::Type,
    i: corpus::Type,
    krate: corpus::Crate,
    self_ty: Option<corpus::Type>,
    substs: Seq<SubstEntry>,
    fuel: nat,
)
    requires
        reflects_ty(q, i),
    ensures
        crate::compare::total_cost(
            crate::compare::spec_cmp_rest(q, i, krate, self_ty, substs, fuel).0,
        ) == 0,
    decreases fuel, q, crate::compare::wrap_depth(i), 1int,
{
    match (q, i) {
        (query::Type::UnresolvedPath { name: qn, args: qa }, corpus::Type::ResolvedPath { .. }) => {
            lemma_reflects_path_zero(q, i, krate, self_ty, substs, fuel);
        },
        (query::Type::Primitive(p), corpus::Type::Primitive(s2)) => {
            let r = crate::compare::spec_cmp_rest(q, i, krate, self_ty, substs, fuel);
            assert(r.0 =~= seq![Similarity::Discrete(DiscreteSimilarity::Equivalent)]);
            crate::compare::lemma_total_cost_single(
                Similarity::Discrete(DiscreteSimilarity::Equivalent),
            );
        },
        (query::Type::Tuple(qs), corpus::Type::Tuple(is_)) => {
            lemma_reflects_tuple_zero(qs@, is_@, 0, krate, self_ty, substs, fuel);
            let elems = crate::compare::spec_cmp_tuple(qs@, is_@, 0, krate, self_ty, substs, fuel);
            crate::compare::lemma_total_cost_app(
                elems.0,
                seq![Similarity::Discrete(DiscreteSimilarity::Equivalent)],
            );
            crate::compare::lemma_total_cost_app(
                elems.0 + seq![Similarity::Discrete(DiscreteSimilarity::Equivalent)],
                crate::compare::repeat_diff(crate::compare::abs_diff(qs@.len(), is_@.len())),
            );
            assert(crate::compare::abs_diff(qs@.len(), is_@.len()) == 0);
            assert(crate::compare::repeat_diff(0) =~= Seq::<Similarity>::empty());
            crate::compare::lemma_total_cost_single(
                Similarity::Discrete(DiscreteSimilarity::Equivalent),
            );
            assert(crate::compare::total_cost(Seq::<Similarity>::empty()) == 0);
        },
        (query::Type::Slice(qo), corpus::Type::Slice(it)) => {
            match qo {
                Some(qi) => {
                    lemma_reflects_ty_zero(*qi, *it, krate, self_ty, substs, fuel);
                    let inner = spec_cmp_type(*qi, *it, krate, self_ty, substs, fuel);
                    crate::compare::lemma_total_cost_app(
                        seq![Similarity::Discrete(DiscreteSimilarity::Equivalent)],
                        inner.0,
                    );
                    crate::compare::lemma_total_cost_single(
                        Similarity::Discrete(DiscreteSimilarity::Equivalent),
                    );
                },
                None => {
                    let r = crate::compare::spec_cmp_rest(q, i, krate, self_ty, substs, fuel);
                    assert(r.0 =~= seq![Similarity::Discrete(DiscreteSimilarity::Equivalent)]);
                    crate::compare::lemma_total_cost_single(
                        Similarity::Discrete(DiscreteSimilarity::Equivalent),
                    );
                },
            }
        },
        (
            query::Type::RawPointer { mutable: qm, type_: qt },
            corpus::Type::RawPointer { mutable: im, type_: it },
        ) => {
            lemma_reflects_ty_zero(*qt, *it, krate, self_ty, substs, fuel);
        },
        (
            query::Type::BorrowedRef { mutable: qm, type_: qt },
            corpus::Type::BorrowedRef { mutable: im, type_: it },
        ) => {
            lemma_reflects_ty_zero(*qt, *it, krate, self_ty, substs, fuel);
        },
        _ => {},
    }
}

/// The path case of [`lemma_reflects_ty_zero`]: equal names cost nothing,
/// and reflected generic arguments cost nothing.
pub proof fn lemma_reflects_path_zero(
    q: query::Type,
    i: corpus::Type,
    krate: corpus::Crate,
    self_ty: Option<corpus::Type>,
    substs: Seq<SubstEntry>,
    fuel: nat,
)
    requires
        reflects_ty(q, i),
        q is UnresolvedPath,
        i is ResolvedPath,
    ensures
        crate::compare::total_cost(
            crate::compare::spec_cmp_path(q, i, krate, self_ty, substs, fuel).0,
        ) == 0,
    decreases fuel, q, crate::compare::wrap_depth(i), 0int,
{
    let qn = q->UnresolvedPath_name;
    let qa = q->UnresolvedPath_args;
    let in_ = i->ResolvedPath_name;
    let ia = i->ResolvedPath_args;
    let name_sim = crate::compare::spec_cmp_symbol(qn@, in_@);
    crate::distance::lemma_edit_dist_self(qn@);
    assert(name_sim.spec_cost() == 0);
    crate::compare::lemma_total_cost_single(name_sim);
    match (qa, ia) {
        (Some(qb), Some(ib)) => {
            match (*qb, *ib) {
                (
                    query::GenericArgs::AngleBracketed { args: qs },
                    corpus::GenericArgs::AngleBracketed { args: is2, .. },
                ) => {
                    assert(reflects_gargs(*qb, *ib));
                    assert(forall|t: int|
                        0 <= t < qs@.len() && t < is2@.len() ==> reflects_garg_elem(
                            #[trigger] qs@[t],
                            is2@[t],
                        ));
                    lemma_reflects_gargs_zero(qs@, is2@, 0, krate, self_ty, substs, fuel);
                    let rest = crate::compare::spec_cmp_gargs(
                        qs@,
                        is2@,
                        0,
                        krate,
                        self_ty,
                        substs,
                        fuel,
                    );
                    crate::compare::lemma_total_cost_app(seq![name_sim], rest.0);
                },
                _ => {},
            }
        },
        (None, _) => {},
        _ => {},
    }
}

/// Reflected tuple elements cost nothing, from position `k` on.
pub proof fn lemma_reflects_tuple_zero(
    qs: Seq<Option<query::Type>>,
    is_: Seq<corpus::Type>,
    k: int,
    krate: corpus::Crate,
    self_ty: Option<corpus::Type>,
    substs: Seq<SubstEntry>,
    fuel: nat,
)
    requires
        qs.len() == is_.len(),
        forall|t: int|
            0 <= t < qs.len() ==> (match #[trigger] qs[t] {
                Some(ty) => reflects_ty(ty, is_[t]),
                None => true,
            }),
    ensures
        crate::compare::total_cost(
            crate::compare::spec_cmp_tuple(qs, is_, k, krate, self_ty, substs, fuel).0,
        ) == 0,
    decreases fuel, qs, qs.len() - k, 0int,
{
    if k < 0 || k >= qs.len() {
    } else {
        match qs[k] {
            Some(qt) => {
                lemma_reflects_ty_zero(qt, is_[k], krate, self_ty, substs, fuel);
                let head = spec_cmp_type(qt, is_[k], krate, self_ty, substs, fuel);
                lemma_reflects_tuple_zero(qs, is_, k + 1, krate, self_ty, head.1, fuel);
                let tail = crate::compare::spec_cmp_tuple(
                    qs,
                    is_,
                    k + 1,
                    krate,
                    self_ty,
                    head.1,
                    fuel,
                );
                crate::compare::lemma_total_cost_app(head.0, tail.0);
            },
            None => {
                lemma_reflects_tuple_zero(qs, is_, k + 1, krate, self_ty, substs, fuel);
            },
        }
    }
}

/// Reflected generic arguments cost nothing, from position `k` on.
pub proof fn lemma_reflects_gargs_zero(
    qs: Seq<Option<query::GenericArg>>,
    is_: Seq<corpus::GenericArg>,
    k: int,
    krate: corpus::Crate,
    self_ty: Option<corpus::Type>,
    substs: Seq<SubstEntry>,
    fuel: nat,
)
    requires
        forall|t: int|
            0 <= t < qs.len() && t < is_.len() ==> reflects_garg_elem(#[trigger] qs[t], is_[t]),
    ensures
        crate::compare::total_cost(
            crate::compare::spec_cmp_gargs(qs, is_, k, krate, self_ty, substs, fuel).0,
        ) == 0,
    decreases fuel, qs, qs.len() - k, 0int,
{
    if k < 0 || k >= qs.len() || k >= is_.len() {
    } else {
        match qs[k] {
            Some(query::GenericArg::Type(qt)) => {
                assert(reflects_garg_elem(qs[k], is_[k]));
                assert(is_[k] is Type && reflects_ty(qt, is_[k]->Type_0));
                lemma_reflects_ty_zero(qt, is_[k]->Type_0, krate, self_ty, substs, fuel);
                let head = spec_cmp_type(qt, is_[k]->Type_0, krate, self_ty, substs, fuel);
                lemma_reflects_gargs_zero(qs, is_, k + 1, krate, self_ty, head.1, fuel);
                let tail = crate::compare::spec_cmp_gargs(
                    qs,
                    is_,
                    k + 1,
                    krate,
                    self_ty,
                    head.1,
                    fuel,
                );
                crate::compare::lemma_total_cost_app(head.0, tail.0);
            },
            None => {
                lemma_reflects_gargs_zero(qs, is_, k + 1, krate, self_ty, substs, fuel);
            },
        }
    }
}


/// An argument pattern that reflects a declared argument: the name, if
/// spelled, is the declared name, and the type, if spelled, reflects the
/// declared type.
pub open spec fn reflects_arg(qa: query::Argument, ia: corpus::Argument) -> bool {
    &&& match qa.name {
        Some(n) => n@ == ia.name@,
        None => true,
    }
    &&& match qa.ty {
        Some(t) => reflects_ty(t, ia.type_),
        None => true,
    }
}

/// A declaration pattern that reflects a declaration: as many argument
/// patterns as there are arguments, each reflecting its argument, and a
/// return pattern, if spelled, that reflects the return type.
pub open spec fn reflects_decl(qd: query::FnDecl, id: corpus::FnDecl) -> bool {
    &&& match qd.inputs {
        Some(qargs) => qargs@.len() == id.inputs.values@.len() && (forall|k: int|
            0 <= k < qargs@.len() ==> reflects_arg(#[trigger] qargs@[k], id.inputs.values@[k])),
        None => true,
    }
    &&& match qd.output {
        Some(query::FnRetTy::Return(t)) => id.output matches corpus::FnRetTy::Return(it)
            && reflects_ty(t, it),
        Some(query::FnRetTy::DefaultReturn) => id.output is DefaultReturn,
        None => true,
    }
}

/// A query that reflects a candidate item: the name, if spelled, is the
/// candidate's name, and the declaration pattern, if present, reflects the
/// candidate's declaration. This is the shape parsing the candidate's own
/// signature back as a query produces.
pub open spec fn reflects_query(q: query::Query, item: corpus::Item) -> bool {
    &&& match q.name {
        Some(n) => item.name matches Some(in_) && n@ == in_@,
        None => true,
    }
    &&& match q.kind {
        Some(query::QueryKind::FunctionQuery(f)) => match item.inner {
            corpus::ItemEnum::Function(fi) => reflects_decl(f.decl, fi.decl),
            corpus::ItemEnum::Method(m) => reflects_decl(f.decl, m.decl),
            _ => false,
        },
        None => true,
    }
}

/// Reflected arguments cost nothing.
pub proof fn lemma_reflects_arg_zero(
    qa: query::Argument,
    ia: corpus::Argument,
    krate: corpus::Crate,
    self_ty: Option<corpus::Type>,
    substs: Seq<SubstEntry>,
    fuel: nat,
)
    requires
        reflects_arg(qa, ia),
    ensures
        crate::compare::total_cost(
            crate::compare::spec_cmp_arg(qa, ia, krate, self_ty, substs, fuel).0,
        ) == 0,
{
    let name_part = match qa.name {
        Some(n) => seq![crate::compare::spec_cmp_symbol(n@, ia.name@)],
        None => Seq::<Similarity>::empty(),
    };
    if let Some(n) = qa.name {
        crate::distance::lemma_edit_dist_self(n@);
        crate::compare::lemma_total_cost_single(crate::compare::spec_cmp_symbol(n@, ia.name@));
    }
    assert(crate::compare::total_cost(name_part) == 0);
    match qa.ty {
        Some(t) => {
            lemma_reflects_ty_zero(t, ia.type_, krate, self_ty, substs, fuel);
            let rest = spec_cmp_type(t, ia.type_, krate, self_ty, substs, fuel);
            crate::compare::lemma_total_cost_app(name_part, rest.0);
        },
        None => {},
    }
}

/// Reflected argument lists cost nothing, from position `k` on.
pub proof fn lemma_reflects_args_zero(
    qs: Seq<query::Argument>,
    is_: Seq<corpus::Argument>,
    k: int,
    krate: corpus::Crate,
    self_ty: Option<corpus::Type>,
    substs: Seq<SubstEntry>,
    fuel: nat,
)
    requires
        forall|t: int| 0 <= t < qs.len() && t < is_.len() ==> reflects_arg(
            #[trigger] qs[t],
            is_[t],
        ),
    ensures
        crate::compare::total_cost(
            crate::compare::spec_cmp_args(qs, is_, k, krate, self_ty, substs, fuel).0,
        ) == 0,
    decreases qs.len() - k,
{
    if k < 0 || k >= qs.len() || k >= is_.len() {
    } else {
        assert(reflects_arg(qs[k], is_[k]));
        lemma_reflects_arg_zero(qs[k], is_[k], krate, self_ty, substs, fuel);
        let head = crate::compare::spec_cmp_arg(qs[k], is_[k], krate, self_ty, substs, fuel);
        lemma_reflects_args_zero(qs, is_, k + 1, krate, self_ty, head.1, fuel);
        let tail = crate::compare::spec_cmp_args(qs, is_, k + 1, krate, self_ty, head.1, fuel);
        crate::compare::lemma_total_cost_app(head.0, tail.0);
    }
}

/// Reflected declarations cost nothing.
pub proof fn lemma_reflects_decl_zero(
    qd: query::FnDecl,
    id: corpus::FnDecl,
    krate: corpus::Crate,
    self_ty: Option<corpus::Type>,
    substs: Seq<SubstEntry>,
    fuel: nat,
)
    requires
        reflects_decl(qd, id),
    ensures
        crate::compare::total_cost(
            crate::compare::spec_cmp_decl(qd, id, krate, self_ty, substs, fuel).0,
        ) == 0,
{
    let inputs_part = match qd.inputs {
        Some(qargs) => {
            let pairs = crate::compare::spec_cmp_args(
                qargs@,
                id.inputs.values@,
                0,
                krate,
                self_ty,
                substs,
                fuel,
            );
            if qargs@.len() != id.inputs.values@.len() {
                (
                    pairs.0 + crate::compare::repeat_diff(
                        crate::compare::abs_diff(qargs@.len(), id.inputs.values@.len()),
                    ),
                    pairs.1,
                )
            } else if qargs@.len() == 0 {
                (pairs.0 + seq![Similarity::Discrete(DiscreteSimilarity::Equivalent)], pairs.1)
            } else {
                pairs
            }
        },
        None => (Seq::<Similarity>::empty(), substs),
    };
    if let Some(qargs) = qd.inputs {
        lemma_reflects_args_zero(qargs@, id.inputs.values@, 0, krate, self_ty, substs, fuel);
        let pairs = crate::compare::spec_cmp_args(
            qargs@,
            id.inputs.values@,
            0,
            krate,
            self_ty,
            substs,
            fuel,
        );
        if qargs@.len() == 0 {
            crate::compare::lemma_total_cost_app(
                pairs.0,
                seq![Similarity::Discrete(DiscreteSimilarity::Equivalent)],
            );
            crate::compare::lemma_total_cost_single(
                Similarity::Discrete(DiscreteSimilarity::Equivalent),
            );
        }
    }
    assert(crate::compare::total_cost(inputs_part.0) == 0);
    match qd.output {
        Some(qr) => {
            let out = crate::compare::spec_cmp_ret(qr, id.output, krate, self_ty, inputs_part.1, fuel);
            assert(crate::compare::total_cost(out.0) == 0) by {
                match (qr, id.output) {
                    (query::FnRetTy::Return(qt), corpus::FnRetTy::Return(it)) => {
                        lemma_reflects_ty_zero(qt, it, krate, self_ty, inputs_part.1, fuel);
                    },
                    (query::FnRetTy::DefaultReturn, corpus::FnRetTy::DefaultReturn) => {
                        crate::compare::lemma_total_cost_single(
                            Similarity::Discrete(DiscreteSimilarity::Equivalent),
                        );
                    },
                    _ => {},
                }
            }
            crate::compare::lemma_total_cost_app(inputs_part.0, out.0);
        },
        None => {},
    }
}

/// Reflexivity: a query that spells a candidate's own signature matches it
/// perfectly. The whole similarity vector costs nothing, and when it is
/// not empty the candidate's score is zero, the best score there is.
pub proof fn lemma_reflexivity(
    q: query::Query,
    item: corpus::Item,
    krate: corpus::Crate,
    self_ty: Option<corpus::Type>,
    substs: Seq<SubstEntry>,
    fuel: nat,
)
    requires
        reflects_query(q, item),
    ensures
        crate::compare::total_cost(
            crate::compare::spec_cmp_query(q, item, krate, self_ty, substs, fuel).0,
        ) == 0,
        ({
            let sims = crate::compare::spec_cmp_query(q, item, krate, self_ty, substs, fuel).0;
            sims.len() > 0 ==> (crate::compare::total_cost(sims) * 1000000 / (sims.len() as int))
                == 0
        }),
{
    let name_part = match (q.name, item.name) {
        (Some(qn), Some(in_)) => seq![crate::compare::spec_cmp_symbol(qn@, in_@)],
        (Some(qn), None) => seq![Similarity::Discrete(DiscreteSimilarity::Different)],
        _ => Seq::<Similarity>::empty(),
    };
    if let Some(qn) = q.name {
        let in_ = item.name->0;
        crate::distance::lemma_edit_dist_self(qn@);
        crate::compare::lemma_total_cost_single(crate::compare::spec_cmp_symbol(qn@, in_@));
    }
    assert(crate::compare::total_cost(name_part) == 0);
    match q.kind {
        Some(k) => {
            let query::QueryKind::FunctionQuery(f) = k;
            let rest = crate::compare::spec_cmp_kind(k, item.inner, krate, self_ty, substs, fuel);
            assert(crate::compare::total_cost(rest.0) == 0) by {
                match item.inner {
                    corpus::ItemEnum::Function(fi) => {
                        lemma_reflects_decl_zero(f.decl, fi.decl, krate, self_ty, substs, fuel);
                    },
                    corpus::ItemEnum::Method(m) => {
                        lemma_reflects_decl_zero(f.decl, m.decl, krate, self_ty, substs, fuel);
                    },
                    _ => {},
                }
            }
            crate::compare::lemma_total_cost_app(name_part, rest.0);
        },
        None => {},
    }
}


/// Wildcard neutrality, name position: dropping the query's name filter
/// never increases the total cost, whatever the candidate.
pub proof fn lemma_wildcard_name(
    q: query::Query,
    item: corpus::Item,
    krate: corpus::Crate,
    self_ty: Option<corpus::Type>,
    substs: Seq<SubstEntry>,
    fuel: nat,
)
    ensures
        crate::compare::total_cost(
            crate::compare::spec_cmp_query(
                query::Query { name: None, kind: q.kind },
                item,
                krate,
                self_ty,
                substs,
                fuel,
            ).0,
        ) <= crate::compare::total_cost(
            crate::compare::spec_cmp_query(q, item, krate, self_ty, substs, fuel).0,
        ),
{
    let q2 = query::Query { name: None, kind: q.kind };
    let name_part = match (q.name, item.name) {
        (Some(qn), Some(in_)) => seq![crate::compare::spec_cmp_symbol(qn@, in_@)],
        (Some(qn), None) => seq![Similarity::Discrete(DiscreteSimilarity::Different)],
        _ => Seq::<Similarity>::empty(),
    };
    crate::compare::lemma_total_cost_nonneg(name_part);
    if let Some(qn) = q.name {
        if let Some(in_) = item.name {
            crate::compare::lemma_total_cost_single(crate::compare::spec_cmp_symbol(qn@, in_@));
            crate::distance::lemma_edit_dist_le_max(qn@, in_@);
        } else {
            crate::compare::lemma_total_cost_single(
                Similarity::Discrete(DiscreteSimilarity::Different),
            );
        }
    }
    match q.kind {
        Some(k) => {
            let rest = crate::compare::spec_cmp_kind(k, item.inner, krate, self_ty, substs, fuel);
            crate::compare::lemma_total_cost_app(name_part, rest.0);
            assert(crate::compare::spec_cmp_query(q2, item, krate, self_ty, substs, fuel).0
                =~= Seq::<Similarity>::empty() + rest.0);
            crate::compare::lemma_total_cost_app(Seq::<Similarity>::empty(), rest.0);
        },
        None => {
            assert(crate::compare::spec_cmp_query(q2, item, krate, self_ty, substs, fuel).0
                =~= Seq::<Similarity>::empty());
        },
    }
}

/// Wildcard neutrality, return position: dropping the return pattern
/// never increases the total cost, whatever the candidate.
pub proof fn lemma_wildcard_output(
    qd: query::FnDecl,
    id: corpus::FnDecl,
    krate: corpus::Crate,
    self_ty: Option<corpus::Type>,
    substs: Seq<SubstEntry>,
    fuel: nat,
)
    ensures
        crate::compare::total_cost(
            crate::compare::spec_cmp_decl(
                query::FnDecl { inputs: qd.inputs, output: None },
                id,
                krate,
                self_ty,
                substs,
                fuel,
            ).0,
        ) <= crate::compare::total_cost(
            crate::compare::spec_cmp_decl(qd, id, krate, self_ty, substs, fuel).0,
        ),
{
    let qd2 = query::FnDecl { inputs: qd.inputs, output: None };
    let inputs_part = crate::compare::spec_cmp_decl(qd2, id, krate, self_ty, substs, fuel);
    match qd.output {
        Some(qr) => {
            let out = crate::compare::spec_cmp_ret(
                qr,
                id.output,
                krate,
                self_ty,
                inputs_part.1,
                fuel,
            );
            crate::compare::lemma_total_cost_app(inputs_part.0, out.0);
            crate::compare::lemma_total_cost_nonneg(out.0);
        },
        None => {},
    }
}

/// Wildcard neutrality, argument names: replacing the name of one
/// argument pattern with a wildcard never increases the total cost and
/// leaves the substitution table's evolution unchanged.
pub proof fn lemma_wildcard_arg_name(
    qs: Seq<query::Argument>,
    is_: Seq<corpus::Argument>,
    k: int,
    t: int,
    krate: corpus::Crate,
    self_ty: Option<corpus::Type>,
    substs: Seq<SubstEntry>,
    fuel: nat,
)
    requires
        0 <= t < qs.len(),
    ensures
        ({
            let qs2 = qs.update(t, query::Argument { ty: qs[t].ty, name: None });
            let with = crate::compare::spec_cmp_args(qs, is_, k, krate, self_ty, substs, fuel);
            let without = crate::compare::spec_cmp_args(qs2, is_, k, krate, self_ty, substs, fuel);
            crate::compare::total_cost(without.0) <= crate::compare::total_cost(with.0)
                && without.1 == with.1
        }),
    decreases qs.len() - k,
{
    let qs2 = qs.update(t, query::Argument { ty: qs[t].ty, name: None });
    assert(qs2.len() == qs.len());
    if k < 0 || k >= qs.len() || k >= is_.len() {
    } else {
        let head = crate::compare::spec_cmp_arg(qs[k], is_[k], krate, self_ty, substs, fuel);
        let head2 = crate::compare::spec_cmp_arg(qs2[k], is_[k], krate, self_ty, substs, fuel);
        if k == t {
            assert(qs2[k] == query::Argument { ty: qs[t].ty, name: None });
            let name_part = match qs[k].name {
                Some(n) => seq![crate::compare::spec_cmp_symbol(n@, is_[k].name@)],
                None => Seq::<Similarity>::empty(),
            };
            crate::compare::lemma_total_cost_nonneg(name_part);
            if let Some(n) = qs[k].name {
                crate::compare::lemma_total_cost_single(
                    crate::compare::spec_cmp_symbol(n@, is_[k].name@),
                );
                crate::distance::lemma_edit_dist_le_max(n@, is_[k].name@);
            }
            match qs[k].ty {
                Some(ty) => {
                    let rest = crate::compare::spec_cmp_type(
                        ty,
                        is_[k].type_,
                        krate,
                        self_ty,
                        substs,
                        fuel,
                    );
                    crate::compare::lemma_total_cost_app(name_part, rest.0);
                    assert(head2.0 =~= Seq::<Similarity>::empty() + rest.0);
                    crate::compare::lemma_total_cost_app(Seq::<Similarity>::empty(), rest.0);
                    assert(head2.1 == head.1);
                },
                None => {
                    assert(head2.0 =~= Seq::<Similarity>::empty());
                    assert(head2.1 == head.1);
                },
            }
            lemma_cmp_args_same(qs, qs2, is_, k + 1, krate, self_ty, head.1, fuel, t);
            let tail = crate::compare::spec_cmp_args(qs, is_, k + 1, krate, self_ty, head.1, fuel);
            let tail2 = crate::compare::spec_cmp_args(
                qs2,
                is_,
                k + 1,
                krate,
                self_ty,
                head.1,
                fuel,
            );
            crate::compare::lemma_total_cost_app(head.0, tail.0);
            crate::compare::lemma_total_cost_app(head2.0, tail2.0);
        } else {
            assert(qs2[k] == qs[k]);
            lemma_wildcard_arg_name(qs, is_, k + 1, t, krate, self_ty, head.1, fuel);
            let tail = crate::compare::spec_cmp_args(qs, is_, k + 1, krate, self_ty, head.1, fuel);
            let tail2 = crate::compare::spec_cmp_args(
                qs2,
                is_,
                k + 1,
                krate,
                self_ty,
                head.1,
                fuel,
            );
            crate::compare::lemma_total_cost_app(head.0, tail.0);
            crate::compare::lemma_total_cost_app(head.0, tail2.0);
        }
    }
}

/// Beyond the changed position, the two argument lists compare alike.
proof fn lemma_cmp_args_same(
    qs: Seq<query::Argument>,
    qs2: Seq<query::Argument>,
    is_: Seq<corpus::Argument>,
    k: int,
    krate: corpus::Crate,
    self_ty: Option<corpus::Type>,
    substs: Seq<SubstEntry>,
    fuel: nat,
    t: int,
)
    requires
        qs2.len() == qs.len(),
        0 <= t < k,
        forall|j: int| k <= j < qs.len() ==> #[trigger] qs2[j] == qs[j],
    ensures
        crate::compare::spec_cmp_args(qs2, is_, k, krate, self_ty, substs, fuel)
            == crate::compare::spec_cmp_args(qs, is_, k, krate, self_ty, substs, fuel),
    decreases qs.len() - k,
{
    if k < 0 || k >= qs.len() || k >= is_.len() {
    } else {
        assert(qs2[k] == qs[k]);
        let head = crate::compare::spec_cmp_arg(qs[k], is_[k], krate, self_ty, substs, fuel);
        lemma_cmp_args_same(qs, qs2, is_, k + 1, krate, self_ty, head.1, fuel, t);
    }
}


/// A candidate type with nothing generic about it: no type parameter
/// anywhere the comparator descends, and no path that unfolds to a type
/// alias.
pub open spec fn concrete_ty(i: corpus::Type, krate: corpus::Crate) -> bool
    decreases i,
{
    match i {
        corpus::Type::Generic(_) => false,
        corpus::Type::ResolvedPath { id, args, .. } => spec_typedef_target(krate, id) is None
            && (match args {
            Some(a) => concrete_gargs(*a, krate),
            None => true,
        }),
        corpus::Type::Tuple(ts) => forall|k: int|
            0 <= k < ts@.len() ==> concrete_ty(#[trigger] ts@[k], krate),
        corpus::Type::Slice(t) => concrete_ty(*t, krate),
        corpus::Type::RawPointer { type_, .. } => concrete_ty(*type_, krate),
        corpus::Type::BorrowedRef { type_, .. } => concrete_ty(*type_, krate),
        _ => true,
    }
}

/// Concreteness of a path's generic arguments.
pub open spec fn concrete_gargs(a: corpus::GenericArgs, krate: corpus::Crate) -> bool
    decreases a,
{
    match a {
        corpus::GenericArgs::AngleBracketed { args, .. } => forall|k: int|
            0 <= k < args@.len() ==> concrete_garg(#[trigger] args@[k], krate),
        _ => true,
    }
}

/// Concreteness of one generic argument.
pub open spec fn concrete_garg(a: corpus::GenericArg, krate: corpus::Crate) -> bool
    decreases a,
{
    match a {
        corpus::GenericArg::Type(t) => concrete_ty(t, krate),
        _ => true,
    }
}

/// Against a fully concrete candidate type, a comparison reads and writes
/// no bindings: the substitution table comes back unchanged.
pub proof fn lemma_concrete_substs(
    q: query::Type,
    i: corpus::Type,
    krate: corpus::Crate,
    self_ty: Option<corpus::Type>,
    substs: Seq<SubstEntry>,
    fuel: nat,
)
    requires
        concrete_ty(i, krate),
    ensures
        spec_cmp_type(q, i, krate, self_ty, substs, fuel).1 == substs,
    decreases fuel, q, crate::compare::wrap_depth(i), 2int,
{
    // A concrete candidate is neither a generic parameter nor an alias
    // path, so the comparison goes straight to the shape-directed cases.
    lemma_concrete_substs_rest(q, i, krate, self_ty, substs, fuel);
}

/// The shape-directed cases of [`lemma_concrete_substs`].
pub proof fn lemma_concrete_substs_rest(
    q: query::Type,
    i: corpus::Type,
    krate: corpus::Crate,
    self_ty: Option<corpus::Type>,
    substs: Seq<SubstEntry>,
    fuel: nat,
)
    requires
        concrete_ty(i, krate),
    ensures
        crate::compare::spec_cmp_rest(q, i, krate, self_ty, substs, fuel).1 == substs,
    decreases fuel, q, crate::compare::wrap_depth(i), 1int,
{
    match (q, i) {
        (query::Type::Tuple(qs), corpus::Type::Tuple(is_)) => {
            lemma_concrete_substs_tuple(qs@, is_@, 0, krate, self_ty, substs, fuel);
        },
        (query::Type::Slice(qo), corpus::Type::Slice(it)) => {
            if let Some(qi) = qo {
                lemma_concrete_substs(*qi, *it, krate, self_ty, substs, fuel);
            }
        },
        (
            query::Type::RawPointer { type_: qt, .. },
            corpus::Type::RawPointer { type_: it, .. },
        ) => {
            lemma_concrete_substs(*qt, *it, krate, self_ty, substs, fuel);
        },
        (
            query::Type::BorrowedRef { type_: qt, .. },
            corpus::Type::BorrowedRef { type_: it, .. },
        ) => {
            lemma_concrete_substs(*qt, *it, krate, self_ty, substs, fuel);
        },
        (_, corpus::Type::RawPointer { type_: it, .. }) => {
            lemma_concrete_substs(q, *it, krate, self_ty, substs, fuel);
        },
        (_, corpus::Type::BorrowedRef { type_: it, .. }) => {
            lemma_concrete_substs(q, *it, krate, self_ty, substs, fuel);
        },
        (query::Type::RawPointer { type_: qt, .. }, _) => {
            lemma_concrete_substs(*qt, i, krate, self_ty, substs, fuel);
        },
        (query::Type::BorrowedRef { type_: qt, .. }, _) => {
            lemma_concrete_substs(*qt, i, krate, self_ty, substs, fuel);
        },
        (query::Type::UnresolvedPath { .. }, corpus::Type::ResolvedPath { .. }) => {
            lemma_concrete_substs_path(q, i, krate, self_ty, substs, fuel);
        },
        _ => {},
    }
}

/// The path case of [`lemma_concrete_substs`].
pub proof fn lemma_concrete_substs_path(
    q: query::Type,
    i: corpus::Type,
    krate: corpus::Crate,
    self_ty: Option<corpus::Type>,
    substs: Seq<SubstEntry>,
    fuel: nat,
)
    requires
        concrete_ty(i, krate),
        q is UnresolvedPath,
        i is ResolvedPath,
    ensures
        crate::compare::spec_cmp_path(q, i, krate, self_ty, substs, fuel).1 == substs,
    decreases fuel, q, crate::compare::wrap_depth(i), 0int,
{
    let qa = q->UnresolvedPath_args;
    let ia = i->ResolvedPath_args;
    match (qa, ia) {
        (Some(qb), Some(ib)) => {
            match (*qb, *ib) {
                (
                    query::GenericArgs::AngleBracketed { args: qs },
                    corpus::GenericArgs::AngleBracketed { args: is2, .. },
                ) => {
                    assert(concrete_gargs(*ib, krate));
                    lemma_concrete_substs_gargs(qs@, is2@, 0, krate, self_ty, substs, fuel);
                },
                _ => {},
            }
        },
        _ => {},
    }
}

/// The generic-argument case of [`lemma_concrete_substs`].
pub proof fn lemma_concrete_substs_gargs(
    qs: Seq<Option<query::GenericArg>>,
    is_: Seq<corpus::GenericArg>,
    k: int,
    krate: corpus::Crate,
    self_ty: Option<corpus::Type>,
    substs: Seq<SubstEntry>,
    fuel: nat,
)
    requires
        forall|t: int| 0 <= t < is_.len() ==> concrete_garg(#[trigger] is_[t], krate),
    ensures
        crate::compare::spec_cmp_gargs(qs, is_, k, krate, self_ty, substs, fuel).1 == substs,
    decreases fuel, qs, qs.len() - k, 0int,
{
    if k < 0 || k >= qs.len() || k >= is_.len() {
    } else {
        match qs[k] {
            Some(query::GenericArg::Type(qt)) => match is_[k] {
                corpus::GenericArg::Type(it) => {
                    assert(concrete_garg(is_[k], krate));
                    lemma_concrete_substs(qt, it, krate, self_ty, substs, fuel);
                    let head = spec_cmp_type(qt, it, krate, self_ty, substs, fuel);
                    lemma_concrete_substs_gargs(qs, is_, k + 1, krate, self_ty, head.1, fuel);
                },
                _ => {
                    lemma_concrete_substs_gargs(qs, is_, k + 1, krate, self_ty, substs, fuel);
                },
            },
            None => {
                lemma_concrete_substs_gargs(qs, is_, k + 1, krate, self_ty, substs, fuel);
            },
        }
    }
}

/// The tuple case of [`lemma_concrete_substs`].
pub proof fn lemma_concrete_substs_tuple(
    qs: Seq<Option<query::Type>>,
    is_: Seq<corpus::Type>,
    k: int,
    krate: corpus::Crate,
    self_ty: Option<corpus::Type>,
    substs: Seq<SubstEntry>,
    fuel: nat,
)
    requires
        forall|t: int| 0 <= t < is_.len() ==> concrete_ty(#[trigger] is_[t], krate),
    ensures
        crate::compare::spec_cmp_tuple(qs, is_, k, krate, self_ty, substs, fuel).1 == substs,
    decreases fuel, qs, qs.len() - k, 0int,
{
    if k < 0 || k >= qs.len() || k >= is_.len() {
    } else {
        match qs[k] {
            Some(qt) => {
                assert(concrete_ty(is_[k], krate));
                lemma_concrete_substs(qt, is_[k], krate, self_ty, substs, fuel);
                let head = spec_cmp_type(qt, is_[k], krate, self_ty, substs, fuel);
                lemma_concrete_substs_tuple(qs, is_, k + 1, krate, self_ty, head.1, fuel);
            },
            None => {
                lemma_concrete_substs_tuple(qs, is_, k + 1, krate, self_ty, substs, fuel);
            },
        }
    }
}


/// The bridge from parsing to comparison: a query parsed from its whole
/// input constrains something as soon as it has a name or a kind — with
/// nothing left to read, a declaration's missing return clause can only
/// have been the default return, which constrains the candidate.
///
/// Together with [`lemma_compare_nonempty`], every such query yields a
/// non-empty similarity vector against every candidate.
pub proof fn lemma_full_parse_informative(s: Seq<char>, q: query::Query, end: int)
    requires
        crate::parse::spec_parse_query(s) == Some((crate::parse::query_desc(q), end)),
        end == s.len(),
        q.name is Some || q.kind is Some,
    ensures
        query_informative(q),
{
    reveal_strlit("fn");
    reveal_strlit("..");
    reveal_strlit("->");
    if q.name is Some {
    } else {
        let qd = crate::parse::query_desc(q);
        assert(qd.kind is Some);
        let e_fn = crate::parse::spec_lit(s, 0, "fn"@)->0;
        let w = crate::parse::spec_skip_ws(s, e_fn);
        let head = match crate::parse::spec_parse_symbol(s, w) {
            Some((sym, e)) => (Some(sym), e),
            None => (Option::<Seq<char>>::None, w),
        };
        let dd = crate::parse::spec_parse_decl(s, head.1);
        assert(dd is Some);
        let d = dd->0;
        assert(d.1 == end);
        // Unfold the declaration: if its return clause were absent, the
        // position after the closing parenthesis would be the end of the
        // input, where the output parser succeeds with the default
        // return — a contradiction.
        let query::QueryKind::FunctionQuery(f) = q.kind->0;
        if f.decl.output is None {
            assert(d.0.output is None);
            let start = head.1 + 1;
            let inner = match crate::parse::spec_lit(s, start, ".."@) {
                Some(e1) => (Option::<Seq<crate::parse::ArgDesc>>::None, e1),
                None => {
                    let a = crate::parse::spec_parse_arguments(s, start);
                    (Some(a.0), a.1)
                },
            };
            let after = inner.1 + 1;
            assert(crate::parse::spec_parse_output(s, after) is None);
            assert(after == end);
            assert(crate::parse::spec_skip_ws(s, after) == after);
            assert(false);
        }
        assert(f.decl.output is Some);
    }
}

} // verus!
