//! A coarser comparator retained from an earlier generation of the
//! engine.
//!
//! It judges each pair of nodes as equivalent, subequal, or different —
//! names by plain equality rather than edit distance — and tolerates a
//! reference wrapper on the candidate side without cost. The executor in
//! [`crate::exec`] drives it.

use vstd::prelude::*;

use crate::compare::{substs_get, wrap_depth, SubstEntry, Substs};
use crate::corpus;
use crate::query;
use crate::query::qtype_eq;

verus! {

/// A coarse similarity judgement. The order is meaningful: later is more
/// similar.
#[derive(Clone, Copy, Debug, PartialEq, Eq, PartialOrd, Ord, Structural)]
pub enum Similarity {
    Different,
    Subequal,
    Equivalent,
}

/// The weight of one judgement: two per equivalent node, one per subequal
/// node.
pub open spec fn spec_weight(s: Similarity) -> int {
    match s {
        Similarity::Different => 0,
        Similarity::Subequal => 1,
        Similarity::Equivalent => 2,
    }
}

/// The summed weight of a judgement vector.
pub open spec fn total_weight(v: Seq<Similarity>) -> int
    decreases v.len(),
{
    if v.len() == 0 {
        0
    } else {
        total_weight(v.drop_last()) + spec_weight(v.last())
    }
}

/// Weights stay between zero and two per judgement.
pub proof fn lemma_total_weight_bounds(v: Seq<Similarity>)
    ensures
        0 <= total_weight(v) <= 2 * v.len(),
    decreases v.len(),
{
    if v.len() > 0 {
        lemma_total_weight_bounds(v.drop_last());
    }
}

/// Compares a query type against a candidate type, coarsely; see the
/// comparison rules in the arms below.
pub open spec fn spec_ax_type(
    q: query::Type,
    i: corpus::Type,
    self_ty: Option<corpus::Type>,
    substs: Seq<SubstEntry>,
    fuel: nat,
) -> (Seq<Similarity>, Seq<SubstEntry>)
    decreases fuel, q, wrap_depth(i), 1int,
{
    match i {
        corpus::Type::Generic(g) => {
            if g@ == "Self"@ && self_ty is Some {
                // The synthetic `Self` parameter resolves to the receiver.
                if fuel > 0 {
                    spec_ax_type(q, self_ty->0, self_ty, substs, (fuel - 1) as nat)
                } else {
                    (seq![Similarity::Different], substs)
                }
            } else {
                // Any other generic parameter: consult the table; even a
                // repeated match stays subequal here.
                match substs_get(substs, g@) {
                    Some(bound) => if qtype_eq(q, bound) {
                        (seq![Similarity::Subequal], substs)
                    } else {
                        (seq![Similarity::Different], substs)
                    },
                    None => (seq![Similarity::Subequal], substs.push((g, q))),
                }
            }
        },
        corpus::Type::BorrowedRef { type_: it, .. } => {
            // A reference on the candidate side costs nothing here.
            spec_ax_type(q, *it, self_ty, substs, fuel)
        },
        corpus::Type::ResolvedPath { name: in_, args: ia, .. } => {
            match q {
                query::Type::UnresolvedPath { name: qn, args: qa } => {
                    if qn@ == in_@ {
                        let args_part = match (qa, ia) {
                            (Some(qb), Some(ib)) => match (*qb, *ib) {
                                (
                                    query::GenericArgs::AngleBracketed { args: qs },
                                    corpus::GenericArgs::AngleBracketed { args: is2, .. },
                                ) => spec_ax_gargs(qs@, is2@, 0, 0, self_ty, substs, fuel),
                                _ => (Seq::<Similarity>::empty(), substs),
                            },
                            (Some(_), None) => (seq![Similarity::Different], substs),
                            (None, _) => (Seq::<Similarity>::empty(), substs),
                        };
                        (seq![Similarity::Equivalent] + args_part.0, args_part.1)
                    } else {
                        (seq![Similarity::Different], substs)
                    }
                },
                _ => (seq![Similarity::Different], substs),
            }
        },
        corpus::Type::Primitive(s2) => match q {
            query::Type::Primitive(p) => if p.spec_as_str() == s2@ {
                (seq![Similarity::Equivalent], substs)
            } else {
                (seq![Similarity::Different], substs)
            },
            _ => (seq![Similarity::Different], substs),
        },
        _ => (seq![Similarity::Different], substs),
    }
}

/// Pairs query generic arguments with the candidate's type arguments,
/// skipping candidate lifetimes and constants, up to the shorter side.
pub open spec fn spec_ax_gargs(
    qs: Seq<Option<query::GenericArg>>,
    is_: Seq<corpus::GenericArg>,
    k: int,
    j: int,
    self_ty: Option<corpus::Type>,
    substs: Seq<SubstEntry>,
    fuel: nat,
) -> (Seq<Similarity>, Seq<SubstEntry>)
    decreases fuel, qs, qs.len() - k + is_.len() - j, 0int,
{
    if k < 0 || j < 0 || k >= qs.len() || j >= is_.len() {
        (Seq::<Similarity>::empty(), substs)
    } else {
        match is_[j] {
            corpus::GenericArg::Type(it) => match qs[k] {
                Some(query::GenericArg::Type(qt)) => {
                    let head = spec_ax_type(qt, it, self_ty, substs, fuel);
                    let tail = spec_ax_gargs(qs, is_, k + 1, j + 1, self_ty, head.1, fuel);
                    (head.0 + tail.0, tail.1)
                },
                None => spec_ax_gargs(qs, is_, k + 1, j + 1, self_ty, substs, fuel),
            },
            _ => spec_ax_gargs(qs, is_, k, j + 1, self_ty, substs, fuel),
        }
    }
}

/// Names compare by plain equality here.
pub open spec fn spec_ax_symbol(a: Seq<char>, b: Seq<char>) -> Similarity {
    if a == b {
        Similarity::Equivalent
    } else {
        Similarity::Different
    }
}

/// One argument: the type first, then the name.
pub open spec fn spec_ax_arg(
    qa: query::Argument,
    ia: corpus::Argument,
    self_ty: Option<corpus::Type>,
    substs: Seq<SubstEntry>,
    fuel: nat,
) -> (Seq<Similarity>, Seq<SubstEntry>) {
    let ty_part = match qa.ty {
        Some(t) => spec_ax_type(t, ia.type_, self_ty, substs, fuel),
        None => (Seq::<Similarity>::empty(), substs),
    };
    let name_part = match qa.name {
        Some(n) => seq![spec_ax_symbol(n@, ia.name@)],
        None => Seq::<Similarity>::empty(),
    };
    (ty_part.0 + name_part, ty_part.1)
}

/// Argument patterns pairwise; a pattern past the candidate's arity is one
/// `Different`.
pub open spec fn spec_ax_args(
    qs: Seq<query::Argument>,
    is_: Seq<corpus::Argument>,
    k: int,
    self_ty: Option<corpus::Type>,
    substs: Seq<SubstEntry>,
    fuel: nat,
) -> (Seq<Similarity>, Seq<SubstEntry>)
    decreases qs.len() - k,
{
    if k < 0 || k >= qs.len() {
        (Seq::<Similarity>::empty(), substs)
    } else if k >= is_.len() {
        let tail = spec_ax_args(qs, is_, k + 1, self_ty, substs, fuel);
        (seq![Similarity::Different] + tail.0, tail.1)
    } else {
        let head = spec_ax_arg(qs[k], is_[k], self_ty, substs, fuel);
        let tail = spec_ax_args(qs, is_, k + 1, self_ty, head.1, fuel);
        (head.0 + tail.0, tail.1)
    }
}

/// The return patterns.
pub open spec fn spec_ax_ret(
    qr: query::FnRetTy,
    ir: corpus::FnRetTy,
    self_ty: Option<corpus::Type>,
    substs: Seq<SubstEntry>,
    fuel: nat,
) -> (Seq<Similarity>, Seq<SubstEntry>) {
    match (qr, ir) {
        (query::FnRetTy::Return(qt), corpus::FnRetTy::Return(it)) => spec_ax_type(
            qt,
            it,
            self_ty,
            substs,
            fuel,
        ),
        (query::FnRetTy::DefaultReturn, corpus::FnRetTy::DefaultReturn) => (
            seq![Similarity::Equivalent],
            substs,
        ),
        _ => (seq![Similarity::Different], substs),
    }
}

/// A declaration pattern against a declaration: specified inputs
/// positionally, extra candidate arguments as `Different`, then the
/// output.
pub open spec fn spec_ax_decl(
    qd: query::FnDecl,
    id: corpus::FnDecl,
    self_ty: Option<corpus::Type>,
    substs: Seq<SubstEntry>,
    fuel: nat,
) -> (Seq<Similarity>, Seq<SubstEntry>) {
    let inputs_part = match qd.inputs {
        Some(qargs) => {
            let pairs = spec_ax_args(qargs@, id.inputs.values@, 0, self_ty, substs, fuel);
            if id.inputs.values@.len() > qargs@.len() {
                (
                    pairs.0 + Seq::new(
                        (id.inputs.values@.len() - qargs@.len()) as nat,
                        |x: int| Similarity::Different,
                    ),
                    pairs.1,
                )
            } else {
                pairs
            }
        },
        None => (Seq::<Similarity>::empty(), substs),
    };
    match qd.output {
        Some(qr) => {
            let out = spec_ax_ret(qr, id.output, self_ty, inputs_part.1, fuel);
            (inputs_part.0 + out.0, out.1)
        },
        None => inputs_part,
    }
}

/// A query kind against an item payload.
pub open spec fn spec_ax_kind(
    qk: query::QueryKind,
    inner: corpus::ItemEnum,
    self_ty: Option<corpus::Type>,
    substs: Seq<SubstEntry>,
    fuel: nat,
) -> (Seq<Similarity>, Seq<SubstEntry>) {
    match (qk, inner) {
        (query::QueryKind::FunctionQuery(f), corpus::ItemEnum::Function(i)) => spec_ax_decl(
            f.decl,
            i.decl,
            self_ty,
            substs,
            fuel,
        ),
        (query::QueryKind::FunctionQuery(f), corpus::ItemEnum::Method(m)) => spec_ax_decl(
            f.decl,
            m.decl,
            self_ty,
            substs,
            fuel,
        ),
        _ => (seq![Similarity::Different], substs),
    }
}

/// A whole query against a candidate item.
pub open spec fn spec_ax_query(
    q: query::Query,
    item: corpus::Item,
    self_ty: Option<corpus::Type>,
    substs: Seq<SubstEntry>,
    fuel: nat,
) -> (Seq<Similarity>, Seq<SubstEntry>) {
    let name_part = match (q.name, item.name) {
        (Some(qn), Some(in_)) => seq![spec_ax_symbol(qn@, in_@)],
        (Some(qn), None) => seq![Similarity::Different],
        _ => Seq::<Similarity>::empty(),
    };
    match q.kind {
        Some(k) => {
            let rest = spec_ax_kind(k, item.inner, self_ty, substs, fuel);
            (name_part + rest.0, rest.1)
        },
        None => (name_part, substs),
    }
}


/// The coarse judgement for two names.
fn ax_symbol(a: &str, b: &str) -> (r: Similarity)
    ensures
        r == spec_ax_symbol(a@, b@),
{
    if crate::corpus::str_eq(a, b) {
        Similarity::Equivalent
    } else {
        Similarity::Different
    }
}

/// Compares a query type coarsely; see [`spec_ax_type`].
pub(crate) fn ax_type(
    q: &query::Type,
    i: &corpus::Type,
    self_ty: Option<&corpus::Type>,
    substs: &mut Substs,
    fuel: u64,
) -> (r: Vec<Similarity>)
    requires
        old(substs).wf(),
    ensures
        final(substs).wf(),
        r@ == spec_ax_type(*q, *i, crate::compare::opt_ty(self_ty), old(substs)@, fuel as nat).0,
        final(substs)@ == spec_ax_type(
            *q,
            *i,
            crate::compare::opt_ty(self_ty),
            old(substs)@,
            fuel as nat,
        ).1,
    decreases fuel, *q, wrap_depth(*i), 1int,
{
    match i {
        corpus::Type::Generic(g) => {
            if crate::corpus::str_eq(g.as_str(), "Self") && self_ty.is_some() {
                if fuel > 0 {
                    if let Some(t) = self_ty {
                        return ax_type(q, t, self_ty, substs, fuel - 1);
                    }
                }
                let r = vec![Similarity::Different];
                proof {
                    assert(r@ =~= seq![Similarity::Different]);
                }
                return r;
            }
            let p = substs.probe(g, q);
            match p {
                crate::compare::Probe::Matches => {
                    let r = vec![Similarity::Subequal];
                    proof {
                        assert(r@ =~= seq![Similarity::Subequal]);
                    }
                    r
                },
                crate::compare::Probe::Differs => {
                    let r = vec![Similarity::Different];
                    proof {
                        assert(r@ =~= seq![Similarity::Different]);
                    }
                    r
                },
                crate::compare::Probe::Unbound => {
                    substs.bind(g, q);
                    let r = vec![Similarity::Subequal];
                    proof {
                        assert(r@ =~= seq![Similarity::Subequal]);
                    }
                    r
                },
            }
        },
        corpus::Type::BorrowedRef { type_: it, .. } => ax_type(q, it, self_ty, substs, fuel),
        corpus::Type::ResolvedPath { name: in_, args: ia, .. } => match q {
            query::Type::UnresolvedPath { name: qn, args: qa } => {
                if crate::corpus::str_eq(qn.as_str(), in_.as_str()) {
                    let mut sims = vec![Similarity::Equivalent];
                    proof {
                        assert(sims@ =~= seq![Similarity::Equivalent]);
                    }
                    match (qa, ia) {
                        (Some(qb), Some(ib)) => match (&**qb, &**ib) {
                            (
                                query::GenericArgs::AngleBracketed { args: qs },
                                corpus::GenericArgs::AngleBracketed { args: is2, .. },
                            ) => {
                                let mut rest = ax_gargs(qs, is2, 0, 0, self_ty, substs, fuel);
                                sims.append(&mut rest);
                                sims
                            },
                            _ => sims,
                        },
                        (Some(_), None) => {
                            sims.push(Similarity::Different);
                            proof {
                                assert(sims@ =~= seq![Similarity::Equivalent] + seq![
                                    Similarity::Different,
                                ]);
                            }
                            sims
                        },
                        (None, _) => sims,
                    }
                } else {
                    let r = vec![Similarity::Different];
                    proof {
                        assert(r@ =~= seq![Similarity::Different]);
                    }
                    r
                }
            },
            _ => {
                let r = vec![Similarity::Different];
                proof {
                    assert(r@ =~= seq![Similarity::Different]);
                }
                r
            },
        },
        corpus::Type::Primitive(s2) => match q {
            query::Type::Primitive(p) => {
                let r = if crate::corpus::str_eq(p.as_str(), s2.as_str()) {
                    vec![Similarity::Equivalent]
                } else {
                    vec![Similarity::Different]
                };
                proof {
                    assert(r@ =~= spec_ax_type(
                        *q,
                        *i,
                        crate::compare::opt_ty(self_ty),
                        old(substs)@,
                        fuel as nat,
                    ).0);
                }
                r
            },
            _ => {
                let r = vec![Similarity::Different];
                proof {
                    assert(r@ =~= seq![Similarity::Different]);
                }
                r
            },
        },
        _ => {
            let r = vec![Similarity::Different];
            proof {
                assert(r@ =~= seq![Similarity::Different]);
            }
            r
        },
    }
}

/// Pairs generic arguments coarsely; see [`spec_ax_gargs`].
pub(crate) fn ax_gargs(
    qs: &Vec<Option<query::GenericArg>>,
    is_: &Vec<corpus::GenericArg>,
    k: usize,
    j: usize,
    self_ty: Option<&corpus::Type>,
    substs: &mut Substs,
    fuel: u64,
) -> (r: Vec<Similarity>)
    requires
        old(substs).wf(),
    ensures
        final(substs).wf(),
        r@ == spec_ax_gargs(
            qs@,
            is_@,
            k as int,
            j as int,
            crate::compare::opt_ty(self_ty),
            old(substs)@,
            fuel as nat,
        ).0,
        final(substs)@ == spec_ax_gargs(
            qs@,
            is_@,
            k as int,
            j as int,
            crate::compare::opt_ty(self_ty),
            old(substs)@,
            fuel as nat,
        ).1,
    decreases fuel, qs@, qs@.len() - k + is_@.len() - j, 0int,
{
    if k >= qs.len() || j >= is_.len() {
        return Vec::new();
    }
    match &is_[j] {
        corpus::GenericArg::Type(it) => match &qs[k] {
            Some(query::GenericArg::Type(qt)) => {
                let mut head = ax_type(qt, it, self_ty, substs, fuel);
                let mut tail = ax_gargs(qs, is_, k + 1, j + 1, self_ty, substs, fuel);
                head.append(&mut tail);
                head
            },
            None => ax_gargs(qs, is_, k + 1, j + 1, self_ty, substs, fuel),
        },
        _ => ax_gargs(qs, is_, k, j + 1, self_ty, substs, fuel),
    }
}

/// One argument coarsely; see [`spec_ax_arg`].
pub(crate) fn ax_arg(
    qa: &query::Argument,
    ia: &corpus::Argument,
    self_ty: Option<&corpus::Type>,
    substs: &mut Substs,
    fuel: u64,
) -> (r: Vec<Similarity>)
    requires
        old(substs).wf(),
    ensures
        final(substs).wf(),
        r@ == spec_ax_arg(*qa, *ia, crate::compare::opt_ty(self_ty), old(substs)@, fuel as nat).0,
        final(substs)@ == spec_ax_arg(
            *qa,
            *ia,
            crate::compare::opt_ty(self_ty),
            old(substs)@,
            fuel as nat,
        ).1,
{
    let mut sims: Vec<Similarity> = Vec::new();
    if let Some(t) = &qa.ty {
        let mut ty_part = ax_type(t, &ia.type_, self_ty, substs, fuel);
        sims.append(&mut ty_part);
    }
    if let Some(n) = &qa.name {
        sims.push(ax_symbol(n.as_str(), ia.name.as_str()));
    }
    proof {
        assert(sims@ =~= spec_ax_arg(
            *qa,
            *ia,
            crate::compare::opt_ty(self_ty),
            old(substs)@,
            fuel as nat,
        ).0);
    }
    sims
}

/// Argument patterns pairwise; see [`spec_ax_args`].
pub(crate) fn ax_args(
    qs: &Vec<query::Argument>,
    is_: &Vec<corpus::Argument>,
    k: usize,
    self_ty: Option<&corpus::Type>,
    substs: &mut Substs,
    fuel: u64,
) -> (r: Vec<Similarity>)
    requires
        old(substs).wf(),
    ensures
        final(substs).wf(),
        r@ == spec_ax_args(
            qs@,
            is_@,
            k as int,
            crate::compare::opt_ty(self_ty),
            old(substs)@,
            fuel as nat,
        ).0,
        final(substs)@ == spec_ax_args(
            qs@,
            is_@,
            k as int,
            crate::compare::opt_ty(self_ty),
            old(substs)@,
            fuel as nat,
        ).1,
    decreases qs@.len() - k,
{
    if k >= qs.len() {
        return Vec::new();
    }
    if k >= is_.len() {
        let mut head = vec![Similarity::Different];
        proof {
            assert(head@ =~= seq![Similarity::Different]);
        }
        let mut tail = ax_args(qs, is_, k + 1, self_ty, substs, fuel);
        head.append(&mut tail);
        head
    } else {
        let mut head = ax_arg(&qs[k], &is_[k], self_ty, substs, fuel);
        let mut tail = ax_args(qs, is_, k + 1, self_ty, substs, fuel);
        head.append(&mut tail);
        head
    }
}

/// The return patterns; see [`spec_ax_ret`].
pub(crate) fn ax_ret(
    qr: &query::FnRetTy,
    ir: &corpus::FnRetTy,
    self_ty: Option<&corpus::Type>,
    substs: &mut Substs,
    fuel: u64,
) -> (r: Vec<Similarity>)
    requires
        old(substs).wf(),
    ensures
        final(substs).wf(),
        r@ == spec_ax_ret(*qr, *ir, crate::compare::opt_ty(self_ty), old(substs)@, fuel as nat).0,
        final(substs)@ == spec_ax_ret(
            *qr,
            *ir,
            crate::compare::opt_ty(self_ty),
            old(substs)@,
            fuel as nat,
        ).1,
{
    match (qr, ir) {
        (query::FnRetTy::Return(qt), corpus::FnRetTy::Return(it)) => ax_type(
            qt,
            it,
            self_ty,
            substs,
            fuel,
        ),
        (query::FnRetTy::DefaultReturn, corpus::FnRetTy::DefaultReturn) => {
            let r = vec![Similarity::Equivalent];
            proof {
                assert(r@ =~= seq![Similarity::Equivalent]);
            }
            r
        },
        _ => {
            let r = vec![Similarity::Different];
            proof {
                assert(r@ =~= seq![Similarity::Different]);
            }
            r
        },
    }
}

/// A declaration pattern; see [`spec_ax_decl`].
pub(crate) fn ax_decl(
    qd: &query::FnDecl,
    id: &corpus::FnDecl,
    self_ty: Option<&corpus::Type>,
    substs: &mut Substs,
    fuel: u64,
) -> (r: Vec<Similarity>)
    requires
        old(substs).wf(),
    ensures
        final(substs).wf(),
        r@ == spec_ax_decl(*qd, *id, crate::compare::opt_ty(self_ty), old(substs)@, fuel as nat).0,
        final(substs)@ == spec_ax_decl(
            *qd,
            *id,
            crate::compare::opt_ty(self_ty),
            old(substs)@,
            fuel as nat,
        ).1,
{
    let mut sims: Vec<Similarity> = Vec::new();
    if let Some(qargs) = &qd.inputs {
        let mut pairs = ax_args(qargs, &id.inputs.values, 0, self_ty, substs, fuel);
        sims.append(&mut pairs);
        if id.inputs.values.len() > qargs.len() {
            let extra = id.inputs.values.len() - qargs.len();
            let ghost pre = sims@;
            let mut x: usize = 0;
            while x < extra
                invariant
                    x <= extra,
                    sims@ == pre + Seq::new(x as nat, |t: int| Similarity::Different),
                decreases extra - x,
            {
                sims.push(Similarity::Different);
                proof {
                    assert(pre + Seq::new(x as nat + 1, |t: int| Similarity::Different) =~= (pre
                        + Seq::new(x as nat, |t: int| Similarity::Different)).push(
                        Similarity::Different,
                    ));
                }
                x = x + 1;
            }
        }
    }
    if let Some(qr) = &qd.output {
        let mut out = ax_ret(qr, &id.output, self_ty, substs, fuel);
        sims.append(&mut out);
    }
    sims
}

/// A query kind; see [`spec_ax_kind`].
pub(crate) fn ax_kind(
    qk: &query::QueryKind,
    inner: &corpus::ItemEnum,
    self_ty: Option<&corpus::Type>,
    substs: &mut Substs,
    fuel: u64,
) -> (r: Vec<Similarity>)
    requires
        old(substs).wf(),
    ensures
        final(substs).wf(),
        r@ == spec_ax_kind(
            *qk,
            *inner,
            crate::compare::opt_ty(self_ty),
            old(substs)@,
            fuel as nat,
        ).0,
        final(substs)@ == spec_ax_kind(
            *qk,
            *inner,
            crate::compare::opt_ty(self_ty),
            old(substs)@,
            fuel as nat,
        ).1,
{
    match (qk, inner) {
        (query::QueryKind::FunctionQuery(f), corpus::ItemEnum::Function(i)) => ax_decl(
            &f.decl,
            &i.decl,
            self_ty,
            substs,
            fuel,
        ),
        (query::QueryKind::FunctionQuery(f), corpus::ItemEnum::Method(m)) => ax_decl(
            &f.decl,
            &m.decl,
            self_ty,
            substs,
            fuel,
        ),
        _ => {
            let r = vec![Similarity::Different];
            proof {
                assert(r@ =~= seq![Similarity::Different]);
            }
            r
        },
    }
}

impl query::Query {
    /// Compares this query against a candidate item with the coarse
    /// judgement; see [`spec_ax_query`].
    pub fn approx(
        &self,
        item: &corpus::Item,
        self_ty: Option<&corpus::Type>,
        substs: &mut Substs,
    ) -> (r: Vec<Similarity>)
        requires
            old(substs).wf(),
        ensures
            final(substs).wf(),
            r@ == spec_ax_query(
                *self,
                *item,
                crate::compare::opt_ty(self_ty),
                old(substs)@,
                crate::compare::UNFOLD_FUEL as nat,
            ).0,
            final(substs)@ == spec_ax_query(
                *self,
                *item,
                crate::compare::opt_ty(self_ty),
                old(substs)@,
                crate::compare::UNFOLD_FUEL as nat,
            ).1,
    {
        let mut sims: Vec<Similarity> = Vec::new();
        match (&self.name, &item.name) {
            (Some(qn), Some(in_)) => {
                sims.push(ax_symbol(qn.as_str(), in_.as_str()));
                proof {
                    assert(sims@ =~= seq![spec_ax_symbol(qn@, in_@)]);
                }
            },
            (Some(qn), None) => {
                sims.push(Similarity::Different);
                proof {
                    assert(sims@ =~= seq![Similarity::Different]);
                }
            },
            _ => {
                proof {
                    assert(sims@ =~= Seq::<Similarity>::empty());
                }
            },
        }
        if let Some(k) = &self.kind {
            let mut rest = ax_kind(k, &item.inner, self_ty, substs, crate::compare::UNFOLD_FUEL);
            sims.append(&mut rest);
        }
        sims
    }
}

} // verus!
