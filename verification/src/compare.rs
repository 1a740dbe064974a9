//! The structural comparator and the scorer.
//!
//! Comparing a query against a candidate yields a vector of similarity
//! atoms. Each atom carries a cost: `Equivalent` costs nothing, `Subequal`
//! a quarter, `Different` the full unit, and a `Continuous` atom carries a
//! normalized edit distance between two names. Costs are measured in
//! thousandths of the unit; scores in [`Similarities::score`] are the mean
//! cost in billionths, so that `0` is a perfect match and `1_000_000_000`
//! the worst possible one.

use vstd::prelude::*;
use vstd::string::StrSliceExecFns;

use crate::corpus;
use crate::corpus::str_eq;
use crate::distance::{edit_dist, edit_distance, spec_max, lemma_edit_dist_le_max};
use crate::query;
use crate::query::{
    clone_string, clone_type, lemma_qtype_eq_sym, lemma_qtype_eq_trans, qtype_eq, type_eq,
};

use crate::compare::DiscreteSimilarity::{Different, Equivalent, Subequal};

verus! {

/// One unit of cost, in thousandths.
pub const COST_UNIT: u64 = 1000;

/// The scale of scores: a score of `SCORE_UNIT` means every atom was fully
/// different.
pub const SCORE_UNIT: u64 = 1000000000;

/// How many times the comparator is willing to resolve `Self` or unfold a
/// type alias along one path of a comparison.
pub const UNFOLD_FUEL: u64 = 64;

/// A clear-cut comparison outcome.
#[derive(Clone, Copy, Debug, PartialEq, Eq, PartialOrd, Ord, Structural)]
pub enum DiscreteSimilarity {
    /// The two sides are the same.
    Equivalent,
    /// The two sides agree only partially, as when an unbound generic
    /// parameter is bound to a concrete type, or a reference wrapper is
    /// tolerated.
    Subequal,
    /// The two sides do not match.
    Different,
}

/// One atomic similarity judgement.
#[derive(Clone, Copy, Debug, PartialEq, Eq, Structural)]
pub enum Similarity {
    Discrete(DiscreteSimilarity),
    /// A graded judgement: `num / den` is the normalized edit distance
    /// between two names, so `num == 0` means the names are equal.
    Continuous { num: usize, den: usize },
}

impl Similarity {
    /// A continuous atom must be a fraction in [0, 1].
    pub open spec fn wf(self) -> bool {
        match self {
            Similarity::Continuous { num, den } => 0 < den && num <= den,
            Similarity::Discrete(_) => true,
        }
    }

    /// The atom's cost in thousandths of the unit.
    pub open spec fn spec_cost(self) -> int {
        match self {
            Similarity::Discrete(Equivalent) => 0,
            Similarity::Discrete(Subequal) => 250,
            Similarity::Discrete(Different) => 1000,
            Similarity::Continuous { num, den } => if den > 0 {
                num * 1000 / den as int
            } else {
                0
            },
        }
    }

    /// The atom's cost in thousandths of the unit.
    pub fn cost(&self) -> (c: u64)
        requires
            self.wf(),
        ensures
            c == self.spec_cost(),
            c <= 1000,
    {
        match self {
            Similarity::Discrete(Equivalent) => 0,
            Similarity::Discrete(Subequal) => 250,
            Similarity::Discrete(Different) => 1000,
            Similarity::Continuous { num, den } => {
                let c128 = (*num as u128) * 1000 / (*den as u128);
                proof {
                    assert((*num as int) * 1000 / (*den as int) <= 1000) by (nonlinear_arith)
                        requires
                            0 < *den && *num <= *den,
                    ;
                }
                c128 as u64
            },
        }
    }

    /// The atom's score in billionths of the unit.
    pub fn score(&self) -> (s: u64)
        requires
            self.wf(),
        ensures
            s == self.spec_cost() * 1000000,
            s <= 1000000000,
    {
        self.cost() * 1000000
    }
}

/// Every atom of the sequence is well formed.
pub open spec fn wf_sims(v: Seq<Similarity>) -> bool {
    forall|i: int| 0 <= i < v.len() ==> v[i].wf()
}

/// The summed cost of a similarity vector, in thousandths.
pub open spec fn total_cost(v: Seq<Similarity>) -> int
    decreases v.len(),
{
    if v.len() == 0 {
        0
    } else {
        total_cost(v.drop_last()) + v.last().spec_cost()
    }
}

/// Costs are never negative.
pub proof fn lemma_total_cost_nonneg(v: Seq<Similarity>)
    ensures
        0 <= total_cost(v),
    decreases v.len(),
{
    if v.len() > 0 {
        lemma_total_cost_nonneg(v.drop_last());
    }
}

/// A well-formed vector's cost is at most one unit per atom.
pub proof fn lemma_total_cost_le(v: Seq<Similarity>)
    requires
        wf_sims(v),
    ensures
        total_cost(v) <= 1000 * v.len(),
    decreases v.len(),
{
    if v.len() > 0 {
        assert(wf_sims(v.drop_last()));
        lemma_total_cost_le(v.drop_last());
        assert(v.last().wf());
        if let Similarity::Continuous { num, den } = v.last() {
            assert(num * 1000 / den as int <= 1000) by (nonlinear_arith)
                requires
                    0 < den && num <= den,
            ;
        }
    }
}

/// The cost of a single atom.
pub proof fn lemma_total_cost_single(x: Similarity)
    ensures
        total_cost(seq![x]) == x.spec_cost(),
{
    assert(seq![x].drop_last() =~= Seq::<Similarity>::empty());
    assert(seq![x].last() == x);
    assert(total_cost(Seq::<Similarity>::empty()) == 0);
}

/// Cost distributes over concatenation.
pub proof fn lemma_total_cost_app(a: Seq<Similarity>, b: Seq<Similarity>)
    ensures
        total_cost(a + b) == total_cost(a) + total_cost(b),
    decreases b.len(),
{
    if b.len() == 0 {
        assert(a + b =~= a);
    } else {
        lemma_total_cost_app(a, b.drop_last());
        assert((a + b).drop_last() =~= a + b.drop_last());
        assert((a + b).last() == b.last());
    }
}

/// The summed cost of a similarity vector, in thousandths.
pub fn sum_cost(v: &Vec<Similarity>) -> (r: u128)
    requires
        wf_sims(v@),
    ensures
        r == total_cost(v@),
{
    let mut sum: u128 = 0;
    let mut i: usize = 0;
    while i < v.len()
        invariant
            i <= v.len(),
            wf_sims(v@),
            sum == total_cost(v@.take(i as int)),
            sum <= 1000 * i,
        decreases v.len() - i,
    {
        proof {
            assert(v@.take(i as int + 1).drop_last() =~= v@.take(i as int));
            assert(v@.take(i as int + 1).last() == v@[i as int]);
        }
        sum = sum + v[i].cost() as u128;
        i = i + 1;
    }
    proof {
        assert(v@.take(v@.len() as int) =~= v@);
    }
    sum
}

/// The similarity vector of one candidate.
#[derive(Clone, Debug, PartialEq)]
pub struct Similarities(pub Vec<Similarity>);

impl Similarities {
    /// All atoms are well formed.
    pub open spec fn wf(self) -> bool {
        wf_sims(self.0@)
    }

    /// The mean cost of the atoms, in billionths of the unit.
    pub open spec fn spec_score(self) -> int {
        total_cost(self.0@) * 1000000 / self.0@.len() as int
    }

    /// The mean cost of the atoms, in billionths of the unit.
    ///
    /// Lower is better; `0` is a perfect match.
    pub fn score(&self) -> (s: u64)
        requires
            self.wf(),
            self.0@.len() > 0,
        ensures
            s == self.spec_score(),
            s <= 1000000000,
    {
        let sum = sum_cost(&self.0);
        let len = self.0.len();
        proof {
            lemma_total_cost_nonneg(self.0@);
            lemma_total_cost_le(self.0@);
            assert((sum as int) * 1000000 / (len as int) <= 1000000000) by (nonlinear_arith)
                requires
                    0 < len && 0 <= sum <= 1000 * len,
            ;
        }
        let s128 = sum * 1000000 / (len as u128);
        s128 as u64
    }
}

/// One binding of the substitution table, as specifications see it.
pub type SubstEntry = (String, query::Type);

/// The generic-parameter substitution table of one comparison.
///
/// Bindings are added only for names that are not bound yet, so the first
/// match is the only match. Each stored type keeps, alongside the value the
/// comparator works with, the exact bound query type in ghost form; the two
/// are structurally equal.
pub struct Substs {
    entries: Vec<(String, query::Type, Ghost<query::Type>)>,
}

impl View for Substs {
    type V = Seq<SubstEntry>;

    closed spec fn view(&self) -> Seq<SubstEntry> {
        self.entries@.map_values(|e: (String, query::Type, Ghost<query::Type>)| (e.0, e.2@))
    }
}

/// What a lookup in the substitution table found.
#[derive(Clone, Copy, Debug, PartialEq, Eq, Structural)]
pub enum Probe {
    /// The name is not bound.
    Unbound,
    /// The name is bound to a type structurally equal to the probed one.
    Matches,
    /// The name is bound to a different type.
    Differs,
}

/// The type bound to `name`, if any.
pub open spec fn substs_get(s: Seq<SubstEntry>, name: Seq<char>) -> Option<query::Type>
    decreases s.len(),
{
    if s.len() == 0 {
        None
    } else if s[0].0@ == name {
        Some(s[0].1)
    } else {
        substs_get(s.drop_first(), name)
    }
}

impl Substs {
    /// The stored comparison types track the ghost bindings.
    pub closed spec fn wf(&self) -> bool {
        forall|k: int|
            0 <= k < self.entries@.len() ==> qtype_eq(
                (#[trigger] self.entries@[k]).1,
                self.entries@[k].2@,
            )
    }

    /// An empty substitution table.
    pub fn new() -> (s: Substs)
        ensures
            s@ =~= Seq::<SubstEntry>::empty(),
            s.wf(),
    {
        let s = Substs { entries: Vec::new() };
        proof {
            assert(s@.len() == 0);
        }
        s
    }

    /// Looks `name` up and compares the bound type, if any, against `q`.
    pub fn probe(&self, name: &String, q: &query::Type) -> (r: Probe)
        requires
            self.wf(),
        ensures
            match substs_get(self@, name@) {
                None => r == Probe::Unbound,
                Some(t) => r == if qtype_eq(*q, t) {
                    Probe::Matches
                } else {
                    Probe::Differs
                },
            },
    {
        let mut k: usize = 0;
        proof {
            assert(self@.skip(0) =~= self@);
        }
        while k < self.entries.len()
            invariant
                k <= self.entries.len(),
                self.wf(),
                substs_get(self@.skip(k as int), name@) == substs_get(self@, name@),
            decreases self.entries.len() - k,
        {
            proof {
                assert(self@.len() == self.entries@.len());
                assert(self@.skip(k as int)[0] == self@[k as int]);
                assert(self@.skip(k as int).drop_first() =~= self@.skip(k as int + 1));
                assert(self@[k as int] == (self.entries@[k as int].0, self.entries@[k as int].2@));
            }
            if str_eq(self.entries[k].0.as_str(), name.as_str()) {
                let stored = &self.entries[k].1;
                let eq = type_eq(q, stored);
                proof {
                    let ghost_ty = self.entries@[k as int].2@;
                    assert(qtype_eq(*stored, ghost_ty));
                    if qtype_eq(*q, *stored) {
                        lemma_qtype_eq_trans(*q, *stored, ghost_ty);
                    } else if qtype_eq(*q, ghost_ty) {
                        lemma_qtype_eq_sym(*stored, ghost_ty);
                        lemma_qtype_eq_trans(*q, ghost_ty, *stored);
                    }
                }
                if eq {
                    return Probe::Matches;
                } else {
                    return Probe::Differs;
                }
            }
            k = k + 1;
        }
        proof {
            assert(self@.skip(k as int) =~= Seq::<SubstEntry>::empty());
        }
        Probe::Unbound
    }

    /// Binds `name` to `q`.
    pub fn bind(&mut self, name: &String, q: &query::Type)
        requires
            old(self).wf(),
        ensures
            final(self).wf(),
            final(self)@ =~= old(self)@.push((*name, *q)),
    {
        let stored_name = clone_string(name);
        let stored_ty = clone_type(q);
        let ghost_ty: Ghost<query::Type> = Ghost(*q);
        self.entries.push((stored_name, stored_ty, ghost_ty));
    }
}

/// The owned form of an optional borrowed type.
pub open spec fn opt_ty(t: Option<&corpus::Type>) -> Option<corpus::Type> {
    match t {
        Some(x) => Some(*x),
        None => None,
    }
}

/// `n` atoms that all say `Different`.
pub open spec fn repeat_diff(n: nat) -> Seq<Similarity> {
    Seq::new(n, |k: int| Similarity::Discrete(Different))
}

/// How far apart two lengths are.
pub open spec fn abs_diff(a: nat, b: nat) -> nat {
    if a >= b {
        (a - b) as nat
    } else {
        (b - a) as nat
    }
}

/// The type a path candidate unfolds to, when the path names a type alias
/// of the crate.
pub open spec fn spec_typedef_target(krate: corpus::Crate, id: corpus::Id) -> Option<corpus::Type> {
    match krate.spec_item(id) {
        Some(item) => match item.inner {
            corpus::ItemEnum::Typedef(td) => Some(td.type_),
            _ => None,
        },
        None => None,
    }
}

/// How deeply a candidate type is wrapped in pointers and references.
pub open spec fn wrap_depth(t: corpus::Type) -> nat
    decreases t,
{
    match t {
        corpus::Type::RawPointer { type_, .. } => 1 + wrap_depth(*type_),
        corpus::Type::BorrowedRef { type_, .. } => 1 + wrap_depth(*type_),
        _ => 0,
    }
}

/// The similarity atom for two names: their edit distance, normalized by
/// the longer length.
pub open spec fn spec_cmp_symbol(q: Seq<char>, i: Seq<char>) -> Similarity {
    let m = spec_max(q.len() as int, i.len() as int);
    let den = if m == 0 {
        1int
    } else {
        m
    };
    Similarity::Continuous { num: edit_dist(q, i) as usize, den: den as usize }
}

/// Compares a query type against a candidate type.
///
/// The result is the emitted similarity vector and the substitution table
/// after the comparison. `fuel` bounds how many times `Self` is resolved
/// and how many type aliases are unfolded along one path.
pub open spec fn spec_cmp_type(
    q: query::Type,
    i: corpus::Type,
    krate: corpus::Crate,
    self_ty: Option<corpus::Type>,
    substs: Seq<SubstEntry>,
    fuel: nat,
) -> (Seq<Similarity>, Seq<SubstEntry>)
    decreases fuel, q, wrap_depth(i), 2int,
{
    match i {
        corpus::Type::Generic(g) => {
            if g@ == "Self"@ {
                // The synthetic `Self` parameter: resolve it to the
                // receiver type.
                if fuel > 0 && self_ty is Some {
                    spec_cmp_type(q, self_ty->0, krate, self_ty, substs, (fuel - 1) as nat)
                } else {
                    (seq![Similarity::Discrete(Different)], substs)
                }
            } else {
                // A generic parameter: consult the substitution table.
                match substs_get(substs, g@) {
                    Some(bound) => if qtype_eq(q, bound) {
                        (seq![Similarity::Discrete(Equivalent)], substs)
                    } else {
                        (seq![Similarity::Discrete(Different)], substs)
                    },
                    None => (seq![Similarity::Discrete(Subequal)], substs.push((g, q))),
                }
            }
        },
        corpus::Type::ResolvedPath { id, .. } => {
            if fuel > 0 && spec_typedef_target(krate, id) is Some {
                // A path to a type alias: compare both against the alias
                // itself and against the aliased type, and keep the cheaper
                // vector. Both comparisons feed the substitution table, in
                // this order.
                let target = spec_typedef_target(krate, id)->0;
                let folded = spec_cmp_rest(q, i, krate, self_ty, substs, fuel);
                let unfolded = spec_cmp_type(
                    q,
                    target,
                    krate,
                    self_ty,
                    folded.1,
                    (fuel - 1) as nat,
                );
                if total_cost(unfolded.0) < total_cost(folded.0) {
                    (unfolded.0, unfolded.1)
                } else {
                    (folded.0, unfolded.1)
                }
            } else {
                spec_cmp_rest(q, i, krate, self_ty, substs, fuel)
            }
        },
        _ => spec_cmp_rest(q, i, krate, self_ty, substs, fuel),
    }
}

/// The shape-directed comparison cases: everything but generics and alias
/// unfolding.
pub open spec fn spec_cmp_rest(
    q: query::Type,
    i: corpus::Type,
    krate: corpus::Crate,
    self_ty: Option<corpus::Type>,
    substs: Seq<SubstEntry>,
    fuel: nat,
) -> (Seq<Similarity>, Seq<SubstEntry>)
    decreases fuel, q, wrap_depth(i), 1int,
{
    match (q, i) {
        (query::Type::Tuple(qs), corpus::Type::Tuple(is_)) => {
            let elems = spec_cmp_tuple(qs@, is_@, 0, krate, self_ty, substs, fuel);
            (
                elems.0 + seq![Similarity::Discrete(Equivalent)] + repeat_diff(
                    abs_diff(qs@.len(), is_@.len()),
                ),
                elems.1,
            )
        },
        (query::Type::Slice(qo), corpus::Type::Slice(it)) => match qo {
            Some(qi) => {
                let inner = spec_cmp_type(*qi, *it, krate, self_ty, substs, fuel);
                (seq![Similarity::Discrete(Equivalent)] + inner.0, inner.1)
            },
            None => (seq![Similarity::Discrete(Equivalent)], substs),
        },
        (
            query::Type::RawPointer { mutable: qm, type_: qt },
            corpus::Type::RawPointer { mutable: im, type_: it },
        ) => {
            let inner = spec_cmp_type(*qt, *it, krate, self_ty, substs, fuel);
            if qm == im {
                inner
            } else {
                (inner.0 + seq![Similarity::Discrete(Subequal)], inner.1)
            }
        },
        (
            query::Type::BorrowedRef { mutable: qm, type_: qt },
            corpus::Type::BorrowedRef { mutable: im, type_: it },
        ) => {
            let inner = spec_cmp_type(*qt, *it, krate, self_ty, substs, fuel);
            if qm == im {
                inner
            } else {
                (inner.0 + seq![Similarity::Discrete(Subequal)], inner.1)
            }
        },
        (_, corpus::Type::RawPointer { type_: it, .. }) => {
            let inner = spec_cmp_type(q, *it, krate, self_ty, substs, fuel);
            (inner.0 + seq![Similarity::Discrete(Subequal)], inner.1)
        },
        (_, corpus::Type::BorrowedRef { type_: it, .. }) => {
            let inner = spec_cmp_type(q, *it, krate, self_ty, substs, fuel);
            (inner.0 + seq![Similarity::Discrete(Subequal)], inner.1)
        },
        (query::Type::RawPointer { type_: qt, .. }, _) => {
            let inner = spec_cmp_type(*qt, i, krate, self_ty, substs, fuel);
            (inner.0 + seq![Similarity::Discrete(Subequal)], inner.1)
        },
        (query::Type::BorrowedRef { type_: qt, .. }, _) => {
            let inner = spec_cmp_type(*qt, i, krate, self_ty, substs, fuel);
            (inner.0 + seq![Similarity::Discrete(Subequal)], inner.1)
        },
        (query::Type::UnresolvedPath { .. }, corpus::Type::ResolvedPath { .. }) => spec_cmp_path(
            q,
            i,
            krate,
            self_ty,
            substs,
            fuel,
        ),
        (query::Type::Primitive(p), corpus::Type::Primitive(s)) => {
            if p.spec_as_str() == s@ {
                (seq![Similarity::Discrete(Equivalent)], substs)
            } else {
                (seq![Similarity::Discrete(Different)], substs)
            }
        },
        _ => (seq![Similarity::Discrete(Different)], substs),
    }
}

/// Compares a named query path against a resolved candidate path: first the
/// names, then the generic arguments pairwise.
pub open spec fn spec_cmp_path(
    q: query::Type,
    i: corpus::Type,
    krate: corpus::Crate,
    self_ty: Option<corpus::Type>,
    substs: Seq<SubstEntry>,
    fuel: nat,
) -> (Seq<Similarity>, Seq<SubstEntry>)
    decreases fuel, q, wrap_depth(i), 0int,
{
    match (q, i) {
        (
            query::Type::UnresolvedPath { name: qn, args: qa },
            corpus::Type::ResolvedPath { name: in_, args: ia, .. },
        ) => {
            let name_sim = spec_cmp_symbol(qn@, in_@);
            match (qa, ia) {
                (Some(qb), Some(ib)) => match (*qb, *ib) {
                    (
                        query::GenericArgs::AngleBracketed { args: qs },
                        corpus::GenericArgs::AngleBracketed { args: is2, .. },
                    ) => {
                        let rest = spec_cmp_gargs(qs@, is2@, 0, krate, self_ty, substs, fuel);
                        (seq![name_sim] + rest.0, rest.1)
                    },
                    _ => (seq![name_sim], substs),
                },
                (Some(qb), None) => {
                    let query::GenericArgs::AngleBracketed { args: qs } = *qb;
                    (seq![name_sim] + repeat_diff(qs@.len()), substs)
                },
                (None, _) => (seq![name_sim], substs),
            }
        },
        _ => (seq![Similarity::Discrete(Different)], substs),
    }
}

/// Pairwise comparison of tuple elements from position `k` on; query
/// wildcards are skipped.
pub open spec fn spec_cmp_tuple(
    qs: Seq<Option<query::Type>>,
    is_: Seq<corpus::Type>,
    k: int,
    krate: corpus::Crate,
    self_ty: Option<corpus::Type>,
    substs: Seq<SubstEntry>,
    fuel: nat,
) -> (Seq<Similarity>, Seq<SubstEntry>)
    decreases fuel, qs, qs.len() - k, 0int,
{
    if k < 0 || k >= qs.len() || k >= is_.len() {
        (Seq::<Similarity>::empty(), substs)
    } else {
        match qs[k] {
            Some(qt) => {
                let head = spec_cmp_type(qt, is_[k], krate, self_ty, substs, fuel);
                let tail = spec_cmp_tuple(qs, is_, k + 1, krate, self_ty, head.1, fuel);
                (head.0 + tail.0, tail.1)
            },
            None => spec_cmp_tuple(qs, is_, k + 1, krate, self_ty, substs, fuel),
        }
    }
}

/// Pairwise comparison of generic arguments from position `k` on; query
/// wildcards are skipped, and a candidate argument that is not a type
/// counts as `Different` against a concrete query argument.
pub open spec fn spec_cmp_gargs(
    qs: Seq<Option<query::GenericArg>>,
    is_: Seq<corpus::GenericArg>,
    k: int,
    krate: corpus::Crate,
    self_ty: Option<corpus::Type>,
    substs: Seq<SubstEntry>,
    fuel: nat,
) -> (Seq<Similarity>, Seq<SubstEntry>)
    decreases fuel, qs, qs.len() - k, 0int,
{
    if k < 0 || k >= qs.len() || k >= is_.len() {
        (Seq::<Similarity>::empty(), substs)
    } else {
        match qs[k] {
            Some(query::GenericArg::Type(qt)) => match is_[k] {
                corpus::GenericArg::Type(it) => {
                    let head = spec_cmp_type(qt, it, krate, self_ty, substs, fuel);
                    let tail = spec_cmp_gargs(qs, is_, k + 1, krate, self_ty, head.1, fuel);
                    (head.0 + tail.0, tail.1)
                },
                _ => {
                    let tail = spec_cmp_gargs(qs, is_, k + 1, krate, self_ty, substs, fuel);
                    (seq![Similarity::Discrete(Different)] + tail.0, tail.1)
                },
            },
            None => spec_cmp_gargs(qs, is_, k + 1, krate, self_ty, substs, fuel),
        }
    }
}

/// Compares a query return pattern against a candidate return type.
pub open spec fn spec_cmp_ret(
    qr: query::FnRetTy,
    ir: corpus::FnRetTy,
    krate: corpus::Crate,
    self_ty: Option<corpus::Type>,
    substs: Seq<SubstEntry>,
    fuel: nat,
) -> (Seq<Similarity>, Seq<SubstEntry>) {
    match (qr, ir) {
        (query::FnRetTy::Return(qt), corpus::FnRetTy::Return(it)) => spec_cmp_type(
            qt,
            it,
            krate,
            self_ty,
            substs,
            fuel,
        ),
        (query::FnRetTy::DefaultReturn, corpus::FnRetTy::DefaultReturn) => (
            seq![Similarity::Discrete(Equivalent)],
            substs,
        ),
        _ => (seq![Similarity::Discrete(Different)], substs),
    }
}

/// Compares one argument pattern against a declared argument: the names by
/// edit distance, the types structurally.
pub open spec fn spec_cmp_arg(
    qa: query::Argument,
    ia: corpus::Argument,
    krate: corpus::Crate,
    self_ty: Option<corpus::Type>,
    substs: Seq<SubstEntry>,
    fuel: nat,
) -> (Seq<Similarity>, Seq<SubstEntry>) {
    let name_part = match qa.name {
        Some(n) => seq![spec_cmp_symbol(n@, ia.name@)],
        None => Seq::<Similarity>::empty(),
    };
    match qa.ty {
        Some(t) => {
            let rest = spec_cmp_type(t, ia.type_, krate, self_ty, substs, fuel);
            (name_part + rest.0, rest.1)
        },
        None => (name_part, substs),
    }
}

/// Compares argument patterns against declared arguments pairwise, from
/// position `k` on, over the shorter of the two lists.
pub open spec fn spec_cmp_args(
    qs: Seq<query::Argument>,
    is_: Seq<corpus::Argument>,
    k: int,
    krate: corpus::Crate,
    self_ty: Option<corpus::Type>,
    substs: Seq<SubstEntry>,
    fuel: nat,
) -> (Seq<Similarity>, Seq<SubstEntry>)
    decreases qs.len() - k,
{
    if k < 0 || k >= qs.len() || k >= is_.len() {
        (Seq::<Similarity>::empty(), substs)
    } else {
        let head = spec_cmp_arg(qs[k], is_[k], krate, self_ty, substs, fuel);
        let tail = spec_cmp_args(qs, is_, k + 1, krate, self_ty, head.1, fuel);
        (head.0 + tail.0, tail.1)
    }
}

/// Compares a declaration pattern against a candidate declaration.
///
/// Specified inputs are compared positionally; a length mismatch costs one
/// `Different` per missing or extra position, and two empty lists are one
/// `Equivalent`. An absent `inputs` or `output` constrains nothing.
pub open spec fn spec_cmp_decl(
    qd: query::FnDecl,
    id: corpus::FnDecl,
    krate: corpus::Crate,
    self_ty: Option<corpus::Type>,
    substs: Seq<SubstEntry>,
    fuel: nat,
) -> (Seq<Similarity>, Seq<SubstEntry>) {
    let inputs_part = match qd.inputs {
        Some(qargs) => {
            let pairs = spec_cmp_args(qargs@, id.inputs.values@, 0, krate, self_ty, substs, fuel);
            if qargs@.len() != id.inputs.values@.len() {
                (pairs.0 + repeat_diff(abs_diff(qargs@.len(), id.inputs.values@.len())), pairs.1)
            } else if qargs@.len() == 0 {
                (pairs.0 + seq![Similarity::Discrete(Equivalent)], pairs.1)
            } else {
                pairs
            }
        },
        None => (Seq::<Similarity>::empty(), substs),
    };
    match qd.output {
        Some(qr) => {
            let out = spec_cmp_ret(qr, id.output, krate, self_ty, inputs_part.1, fuel);
            (inputs_part.0 + out.0, out.1)
        },
        None => inputs_part,
    }
}

/// Compares a query kind against a candidate item payload. A function query
/// matches functions and methods; anything else is `Different`.
pub open spec fn spec_cmp_kind(
    qk: query::QueryKind,
    inner: corpus::ItemEnum,
    krate: corpus::Crate,
    self_ty: Option<corpus::Type>,
    substs: Seq<SubstEntry>,
    fuel: nat,
) -> (Seq<Similarity>, Seq<SubstEntry>) {
    match (qk, inner) {
        (query::QueryKind::FunctionQuery(f), corpus::ItemEnum::Function(i)) => spec_cmp_decl(
            f.decl,
            i.decl,
            krate,
            self_ty,
            substs,
            fuel,
        ),
        (query::QueryKind::FunctionQuery(f), corpus::ItemEnum::Method(m)) => spec_cmp_decl(
            f.decl,
            m.decl,
            krate,
            self_ty,
            substs,
            fuel,
        ),
        _ => (seq![Similarity::Discrete(Different)], substs),
    }
}

/// Compares a whole query against a candidate item: the names first, then
/// the kinds.
pub open spec fn spec_cmp_query(
    q: query::Query,
    item: corpus::Item,
    krate: corpus::Crate,
    self_ty: Option<corpus::Type>,
    substs: Seq<SubstEntry>,
    fuel: nat,
) -> (Seq<Similarity>, Seq<SubstEntry>) {
    let name_part = match (q.name, item.name) {
        (Some(qn), Some(in_)) => seq![spec_cmp_symbol(qn@, in_@)],
        (Some(qn), None) => seq![Similarity::Discrete(Different)],
        _ => Seq::<Similarity>::empty(),
    };
    match q.kind {
        Some(k) => {
            let rest = spec_cmp_kind(k, item.inner, krate, self_ty, substs, fuel);
            (name_part + rest.0, rest.1)
        },
        None => (name_part, substs),
    }
}


/// Appends `n` atoms that say `Different`.
fn extend_diffs(v: &mut Vec<Similarity>, n: usize)
    ensures
        final(v)@ == old(v)@ + repeat_diff(n as nat),
{
    let mut j: usize = 0;
    proof {
        assert(v@ =~= old(v)@ + repeat_diff(0));
    }
    while j < n
        invariant
            j <= n,
            v@ == old(v)@ + repeat_diff(j as nat),
        decreases n - j,
    {
        v.push(Similarity::Discrete(Different));
        proof {
            assert(old(v)@ + repeat_diff(j as nat + 1) =~= (old(v)@ + repeat_diff(
                j as nat,
            )).push(Similarity::Discrete(Different)));
        }
        j = j + 1;
    }
}

/// The similarity atom for two names.
pub fn cmp_symbol(q: &str, i: &str) -> (r: Similarity)
    ensures
        r == spec_cmp_symbol(q@, i@),
        r.wf(),
{
    let num = edit_distance(q, i);
    let ql = q.unicode_len();
    let il = i.unicode_len();
    let m = if ql >= il {
        ql
    } else {
        il
    };
    let den = if m == 0 {
        1
    } else {
        m
    };
    proof {
        lemma_edit_dist_le_max(q@, i@);
    }
    Similarity::Continuous { num, den }
}

/// The type a path candidate unfolds to, when it names a type alias.
fn typedef_target<'a>(krate: &'a corpus::Crate, id: &corpus::Id) -> (r: Option<&'a corpus::Type>)
    ensures
        match r {
            Some(t) => spec_typedef_target(*krate, *id) == Some(*t),
            None => spec_typedef_target(*krate, *id) is None,
        },
{
    match krate.get_item(id) {
        Some(item) => match &item.inner {
            corpus::ItemEnum::Typedef(td) => Some(&td.type_),
            _ => None,
        },
        None => None,
    }
}

/// Compares a query type against a candidate type, updating the
/// substitution table; see [`spec_cmp_type`].
pub fn cmp_type(
    q: &query::Type,
    i: &corpus::Type,
    krate: &corpus::Crate,
    self_ty: Option<&corpus::Type>,
    substs: &mut Substs,
    fuel: u64,
) -> (r: Vec<Similarity>)
    requires
        old(substs).wf(),
    ensures
        final(substs).wf(),
        wf_sims(r@),
        r@ == spec_cmp_type(*q, *i, *krate, opt_ty(self_ty), old(substs)@, fuel as nat).0,
        final(substs)@ == spec_cmp_type(*q, *i, *krate, opt_ty(self_ty), old(substs)@, fuel as nat).1,
    decreases fuel, *q, wrap_depth(*i), 2int,
{
    if let corpus::Type::Generic(g) = i {
        if str_eq(g.as_str(), "Self") {
            if fuel > 0 {
                if let Some(t) = self_ty {
                    return cmp_type(q, t, krate, self_ty, substs, fuel - 1);
                }
            }
            let r = vec![Similarity::Discrete(Different)];
            proof {
                assert(r@ =~= seq![Similarity::Discrete(Different)]);
            }
            return r;
        }
        let p = substs.probe(g, q);
        match p {
            Probe::Matches => {
                let r = vec![Similarity::Discrete(Equivalent)];
                proof {
                    assert(r@ =~= seq![Similarity::Discrete(Equivalent)]);
                }
                return r;
            },
            Probe::Differs => {
                let r = vec![Similarity::Discrete(Different)];
                proof {
                    assert(r@ =~= seq![Similarity::Discrete(Different)]);
                }
                return r;
            },
            Probe::Unbound => {
                substs.bind(g, q);
                let r = vec![Similarity::Discrete(Subequal)];
                proof {
                    assert(r@ =~= seq![Similarity::Discrete(Subequal)]);
                }
                return r;
            },
        }
    }
    if fuel > 0 {
        if let corpus::Type::ResolvedPath { id, .. } = i {
            if let Some(target) = typedef_target(krate, id) {
                let folded = cmp_rest(q, i, krate, self_ty, substs, fuel);
                let unfolded = cmp_type(q, target, krate, self_ty, substs, fuel - 1);
                let cf = sum_cost(&folded);
                let cu = sum_cost(&unfolded);
                if cu < cf {
                    return unfolded;
                } else {
                    return folded;
                }
            }
        }
    }
    cmp_rest(q, i, krate, self_ty, substs, fuel)
}

/// The shape-directed comparison cases; see [`spec_cmp_rest`].
pub fn cmp_rest(
    q: &query::Type,
    i: &corpus::Type,
    krate: &corpus::Crate,
    self_ty: Option<&corpus::Type>,
    substs: &mut Substs,
    fuel: u64,
) -> (r: Vec<Similarity>)
    requires
        old(substs).wf(),
    ensures
        final(substs).wf(),
        wf_sims(r@),
        r@ == spec_cmp_rest(*q, *i, *krate, opt_ty(self_ty), old(substs)@, fuel as nat).0,
        final(substs)@ == spec_cmp_rest(*q, *i, *krate, opt_ty(self_ty), old(substs)@, fuel as nat).1,
    decreases fuel, *q, wrap_depth(*i), 1int,
{
    match (q, i) {
        (query::Type::Tuple(qs), corpus::Type::Tuple(is_)) => {
            let mut sims = cmp_tuple(qs, is_, 0, krate, self_ty, substs, fuel);
            let ghost elems = sims@;
            sims.push(Similarity::Discrete(Equivalent));
            let ql = qs.len();
            let il = is_.len();
            let ad = if ql >= il {
                ql - il
            } else {
                il - ql
            };
            extend_diffs(&mut sims, ad);
            proof {
                assert(sims@ =~= elems + seq![Similarity::Discrete(Equivalent)] + repeat_diff(
                    abs_diff(qs@.len(), is_@.len()),
                ));
            }
            sims
        },
        (query::Type::Slice(qo), corpus::Type::Slice(it)) => match qo {
            Some(qi) => {
                let inner = cmp_type(qi, it, krate, self_ty, substs, fuel);
                let mut sims = vec![Similarity::Discrete(Equivalent)];
                let mut inner = inner;
                sims.append(&mut inner);
                proof {
                    assert(sims@ =~= seq![Similarity::Discrete(Equivalent)] + spec_cmp_type(
                        **qi,
                        **it,
                        *krate,
                        opt_ty(self_ty),
                        old(substs)@,
                        fuel as nat,
                    ).0);
                }
                sims
            },
            None => {
                let r = vec![Similarity::Discrete(Equivalent)];
                proof {
                    assert(r@ =~= seq![Similarity::Discrete(Equivalent)]);
                }
                r
            },
        },
        (
            query::Type::RawPointer { mutable: qm, type_: qt },
            corpus::Type::RawPointer { mutable: im, type_: it },
        ) => {
            let mut inner = cmp_type(qt, it, krate, self_ty, substs, fuel);
            if *qm == *im {
                inner
            } else {
                let ghost pre = inner@;
                inner.push(Similarity::Discrete(Subequal));
                proof {
                    assert(inner@ =~= pre + seq![Similarity::Discrete(Subequal)]);
                }
                inner
            }
        },
        (
            query::Type::BorrowedRef { mutable: qm, type_: qt },
            corpus::Type::BorrowedRef { mutable: im, type_: it },
        ) => {
            let mut inner = cmp_type(qt, it, krate, self_ty, substs, fuel);
            if *qm == *im {
                inner
            } else {
                let ghost pre = inner@;
                inner.push(Similarity::Discrete(Subequal));
                proof {
                    assert(inner@ =~= pre + seq![Similarity::Discrete(Subequal)]);
                }
                inner
            }
        },
        (_, corpus::Type::RawPointer { type_: it, .. }) => {
            let mut inner = cmp_type(q, it, krate, self_ty, substs, fuel);
            let ghost pre = inner@;
            inner.push(Similarity::Discrete(Subequal));
            proof {
                assert(inner@ =~= pre + seq![Similarity::Discrete(Subequal)]);
            }
            inner
        },
        (_, corpus::Type::BorrowedRef { type_: it, .. }) => {
            let mut inner = cmp_type(q, it, krate, self_ty, substs, fuel);
            let ghost pre = inner@;
            inner.push(Similarity::Discrete(Subequal));
            proof {
                assert(inner@ =~= pre + seq![Similarity::Discrete(Subequal)]);
            }
            inner
        },
        (query::Type::RawPointer { type_: qt, .. }, _) => {
            let mut inner = cmp_type(qt, i, krate, self_ty, substs, fuel);
            let ghost pre = inner@;
            inner.push(Similarity::Discrete(Subequal));
            proof {
                assert(inner@ =~= pre + seq![Similarity::Discrete(Subequal)]);
            }
            inner
        },
        (query::Type::BorrowedRef { type_: qt, .. }, _) => {
            let mut inner = cmp_type(qt, i, krate, self_ty, substs, fuel);
            let ghost pre = inner@;
            inner.push(Similarity::Discrete(Subequal));
            proof {
                assert(inner@ =~= pre + seq![Similarity::Discrete(Subequal)]);
            }
            inner
        },
        (query::Type::UnresolvedPath { .. }, corpus::Type::ResolvedPath { .. }) => cmp_path(
            q,
            i,
            krate,
            self_ty,
            substs,
            fuel,
        ),
        (query::Type::Primitive(p), corpus::Type::Primitive(s)) => {
            let r = if str_eq(p.as_str(), s.as_str()) {
                vec![Similarity::Discrete(Equivalent)]
            } else {
                vec![Similarity::Discrete(Different)]
            };
            proof {
                assert(r@ =~= spec_cmp_rest(
                    *q,
                    *i,
                    *krate,
                    opt_ty(self_ty),
                    old(substs)@,
                    fuel as nat,
                ).0);
            }
            r
        },
        _ => {
            let r = vec![Similarity::Discrete(Different)];
            proof {
                assert(r@ =~= seq![Similarity::Discrete(Different)]);
            }
            r
        },
    }
}

/// Compares a named query path against a resolved candidate path; see
/// [`spec_cmp_path`].
pub fn cmp_path(
    q: &query::Type,
    i: &corpus::Type,
    krate: &corpus::Crate,
    self_ty: Option<&corpus::Type>,
    substs: &mut Substs,
    fuel: u64,
) -> (r: Vec<Similarity>)
    requires
        old(substs).wf(),
    ensures
        final(substs).wf(),
        wf_sims(r@),
        r@ == spec_cmp_path(*q, *i, *krate, opt_ty(self_ty), old(substs)@, fuel as nat).0,
        final(substs)@ == spec_cmp_path(*q, *i, *krate, opt_ty(self_ty), old(substs)@, fuel as nat).1,
    decreases fuel, *q, wrap_depth(*i), 0int,
{
    match (q, i) {
        (
            query::Type::UnresolvedPath { name: qn, args: qa },
            corpus::Type::ResolvedPath { name: in_, args: ia, .. },
        ) => {
            let name_sim = cmp_symbol(qn.as_str(), in_.as_str());
            let mut sims: Vec<Similarity> = Vec::new();
            sims.push(name_sim);
            proof {
                assert(sims@ =~= seq![spec_cmp_symbol(qn@, in_@)]);
            }
            match (qa, ia) {
                (Some(qb), Some(ib)) => match (&**qb, &**ib) {
                    (
                        query::GenericArgs::AngleBracketed { args: qs },
                        corpus::GenericArgs::AngleBracketed { args: is2, .. },
                    ) => {
                        let mut rest = cmp_gargs(qs, is2, 0, krate, self_ty, substs, fuel);
                        sims.append(&mut rest);
                        sims
                    },
                    _ => sims,
                },
                (Some(qb), None) => {
                    let query::GenericArgs::AngleBracketed { args: qs } = &**qb;
                    extend_diffs(&mut sims, qs.len());
                    sims
                },
                (None, _) => sims,
            }
        },
        _ => {
            let r = vec![Similarity::Discrete(Different)];
            proof {
                assert(r@ =~= seq![Similarity::Discrete(Different)]);
            }
            r
        },
    }
}

/// Pairwise comparison of tuple elements; see [`spec_cmp_tuple`].
pub fn cmp_tuple(
    qs: &Vec<Option<query::Type>>,
    is_: &Vec<corpus::Type>,
    k: usize,
    krate: &corpus::Crate,
    self_ty: Option<&corpus::Type>,
    substs: &mut Substs,
    fuel: u64,
) -> (r: Vec<Similarity>)
    requires
        old(substs).wf(),
    ensures
        final(substs).wf(),
        wf_sims(r@),
        r@ == spec_cmp_tuple(qs@, is_@, k as int, *krate, opt_ty(self_ty), old(substs)@, fuel as nat).0,
        final(substs)@ == spec_cmp_tuple(
            qs@,
            is_@,
            k as int,
            *krate,
            opt_ty(self_ty),
            old(substs)@,
            fuel as nat,
        ).1,
    decreases fuel, qs@, qs@.len() - k, 0int,
{
    if k >= qs.len() || k >= is_.len() {
        return Vec::new();
    }
    match &qs[k] {
        Some(qt) => {
            let mut head = cmp_type(qt, &is_[k], krate, self_ty, substs, fuel);
            let mut tail = cmp_tuple(qs, is_, k + 1, krate, self_ty, substs, fuel);
            head.append(&mut tail);
            head
        },
        None => cmp_tuple(qs, is_, k + 1, krate, self_ty, substs, fuel),
    }
}

/// Pairwise comparison of generic arguments; see [`spec_cmp_gargs`].
pub fn cmp_gargs(
    qs: &Vec<Option<query::GenericArg>>,
    is_: &Vec<corpus::GenericArg>,
    k: usize,
    krate: &corpus::Crate,
    self_ty: Option<&corpus::Type>,
    substs: &mut Substs,
    fuel: u64,
) -> (r: Vec<Similarity>)
    requires
        old(substs).wf(),
    ensures
        final(substs).wf(),
        wf_sims(r@),
        r@ == spec_cmp_gargs(qs@, is_@, k as int, *krate, opt_ty(self_ty), old(substs)@, fuel as nat).0,
        final(substs)@ == spec_cmp_gargs(
            qs@,
            is_@,
            k as int,
            *krate,
            opt_ty(self_ty),
            old(substs)@,
            fuel as nat,
        ).1,
    decreases fuel, qs@, qs@.len() - k, 0int,
{
    if k >= qs.len() || k >= is_.len() {
        return Vec::new();
    }
    match &qs[k] {
        Some(query::GenericArg::Type(qt)) => match &is_[k] {
            corpus::GenericArg::Type(it) => {
                let mut head = cmp_type(qt, it, krate, self_ty, substs, fuel);
                let mut tail = cmp_gargs(qs, is_, k + 1, krate, self_ty, substs, fuel);
                head.append(&mut tail);
                head
            },
            _ => {
                let mut head = vec![Similarity::Discrete(Different)];
                proof {
                    assert(head@ =~= seq![Similarity::Discrete(Different)]);
                }
                let mut tail = cmp_gargs(qs, is_, k + 1, krate, self_ty, substs, fuel);
                head.append(&mut tail);
                head
            },
        },
        None => cmp_gargs(qs, is_, k + 1, krate, self_ty, substs, fuel),
    }
}


/// Compares a return pattern against a candidate return type; see
/// [`spec_cmp_ret`].
pub fn cmp_ret(
    qr: &query::FnRetTy,
    ir: &corpus::FnRetTy,
    krate: &corpus::Crate,
    self_ty: Option<&corpus::Type>,
    substs: &mut Substs,
    fuel: u64,
) -> (r: Vec<Similarity>)
    requires
        old(substs).wf(),
    ensures
        final(substs).wf(),
        wf_sims(r@),
        r@ == spec_cmp_ret(*qr, *ir, *krate, opt_ty(self_ty), old(substs)@, fuel as nat).0,
        final(substs)@ == spec_cmp_ret(*qr, *ir, *krate, opt_ty(self_ty), old(substs)@, fuel as nat).1,
{
    match (qr, ir) {
        (query::FnRetTy::Return(qt), corpus::FnRetTy::Return(it)) => cmp_type(
            qt,
            it,
            krate,
            self_ty,
            substs,
            fuel,
        ),
        (query::FnRetTy::DefaultReturn, corpus::FnRetTy::DefaultReturn) => {
            let r = vec![Similarity::Discrete(Equivalent)];
            proof {
                assert(r@ =~= seq![Similarity::Discrete(Equivalent)]);
            }
            r
        },
        _ => {
            let r = vec![Similarity::Discrete(Different)];
            proof {
                assert(r@ =~= seq![Similarity::Discrete(Different)]);
            }
            r
        },
    }
}

/// Compares one argument pattern against a declared argument; see
/// [`spec_cmp_arg`].
pub fn cmp_arg(
    qa: &query::Argument,
    ia: &corpus::Argument,
    krate: &corpus::Crate,
    self_ty: Option<&corpus::Type>,
    substs: &mut Substs,
    fuel: u64,
) -> (r: Vec<Similarity>)
    requires
        old(substs).wf(),
    ensures
        final(substs).wf(),
        wf_sims(r@),
        r@ == spec_cmp_arg(*qa, *ia, *krate, opt_ty(self_ty), old(substs)@, fuel as nat).0,
        final(substs)@ == spec_cmp_arg(*qa, *ia, *krate, opt_ty(self_ty), old(substs)@, fuel as nat).1,
{
    let mut sims: Vec<Similarity> = Vec::new();
    if let Some(n) = &qa.name {
        sims.push(cmp_symbol(n.as_str(), ia.name.as_str()));
        proof {
            assert(sims@ =~= seq![spec_cmp_symbol(n@, ia.name@)]);
        }
    } else {
        proof {
            assert(sims@ =~= Seq::<Similarity>::empty());
        }
    }
    if let Some(t) = &qa.ty {
        let mut rest = cmp_type(t, &ia.type_, krate, self_ty, substs, fuel);
        sims.append(&mut rest);
    }
    sims
}

/// Pairwise comparison of argument patterns against declared arguments;
/// see [`spec_cmp_args`].
pub fn cmp_args(
    qs: &Vec<query::Argument>,
    is_: &Vec<corpus::Argument>,
    k: usize,
    krate: &corpus::Crate,
    self_ty: Option<&corpus::Type>,
    substs: &mut Substs,
    fuel: u64,
) -> (r: Vec<Similarity>)
    requires
        old(substs).wf(),
    ensures
        final(substs).wf(),
        wf_sims(r@),
        r@ == spec_cmp_args(qs@, is_@, k as int, *krate, opt_ty(self_ty), old(substs)@, fuel as nat).0,
        final(substs)@ == spec_cmp_args(
            qs@,
            is_@,
            k as int,
            *krate,
            opt_ty(self_ty),
            old(substs)@,
            fuel as nat,
        ).1,
    decreases qs@.len() - k,
{
    if k >= qs.len() || k >= is_.len() {
        return Vec::new();
    }
    let mut head = cmp_arg(&qs[k], &is_[k], krate, self_ty, substs, fuel);
    let mut tail = cmp_args(qs, is_, k + 1, krate, self_ty, substs, fuel);
    head.append(&mut tail);
    head
}

/// Compares a declaration pattern against a candidate declaration; see
/// [`spec_cmp_decl`].
pub fn cmp_decl(
    qd: &query::FnDecl,
    id: &corpus::FnDecl,
    krate: &corpus::Crate,
    self_ty: Option<&corpus::Type>,
    substs: &mut Substs,
    fuel: u64,
) -> (r: Vec<Similarity>)
    requires
        old(substs).wf(),
    ensures
        final(substs).wf(),
        wf_sims(r@),
        r@ == spec_cmp_decl(*qd, *id, *krate, opt_ty(self_ty), old(substs)@, fuel as nat).0,
        final(substs)@ == spec_cmp_decl(*qd, *id, *krate, opt_ty(self_ty), old(substs)@, fuel as nat).1,
{
    let mut sims: Vec<Similarity> = Vec::new();
    if let Some(qargs) = &qd.inputs {
        let mut pairs = cmp_args(qargs, &id.inputs.values, 0, krate, self_ty, substs, fuel);
        sims.append(&mut pairs);
        if qargs.len() != id.inputs.values.len() {
            let ql = qargs.len();
            let il = id.inputs.values.len();
            let ad = if ql >= il {
                ql - il
            } else {
                il - ql
            };
            extend_diffs(&mut sims, ad);
        } else if qargs.len() == 0 {
            let ghost pre = sims@;
            sims.push(Similarity::Discrete(Equivalent));
            proof {
                assert(sims@ =~= pre + seq![Similarity::Discrete(Equivalent)]);
            }
        }
    }
    if let Some(qr) = &qd.output {
        let mut out = cmp_ret(qr, &id.output, krate, self_ty, substs, fuel);
        sims.append(&mut out);
    }
    sims
}

/// Compares a query kind against a candidate item payload; see
/// [`spec_cmp_kind`].
pub fn cmp_kind(
    qk: &query::QueryKind,
    inner: &corpus::ItemEnum,
    krate: &corpus::Crate,
    self_ty: Option<&corpus::Type>,
    substs: &mut Substs,
    fuel: u64,
) -> (r: Vec<Similarity>)
    requires
        old(substs).wf(),
    ensures
        final(substs).wf(),
        wf_sims(r@),
        r@ == spec_cmp_kind(*qk, *inner, *krate, opt_ty(self_ty), old(substs)@, fuel as nat).0,
        final(substs)@ == spec_cmp_kind(*qk, *inner, *krate, opt_ty(self_ty), old(substs)@, fuel as nat).1,
{
    match (qk, inner) {
        (query::QueryKind::FunctionQuery(f), corpus::ItemEnum::Function(i)) => cmp_decl(
            &f.decl,
            &i.decl,
            krate,
            self_ty,
            substs,
            fuel,
        ),
        (query::QueryKind::FunctionQuery(f), corpus::ItemEnum::Method(m)) => cmp_decl(
            &f.decl,
            &m.decl,
            krate,
            self_ty,
            substs,
            fuel,
        ),
        _ => {
            let r = vec![Similarity::Discrete(Different)];
            proof {
                assert(r@ =~= seq![Similarity::Discrete(Different)]);
            }
            r
        },
    }
}

/// Compares a whole query against a candidate item; see
/// [`spec_cmp_query`].
pub fn cmp_query(
    q: &query::Query,
    item: &corpus::Item,
    krate: &corpus::Crate,
    self_ty: Option<&corpus::Type>,
    substs: &mut Substs,
    fuel: u64,
) -> (r: Vec<Similarity>)
    requires
        old(substs).wf(),
    ensures
        final(substs).wf(),
        wf_sims(r@),
        r@ == spec_cmp_query(*q, *item, *krate, opt_ty(self_ty), old(substs)@, fuel as nat).0,
        final(substs)@ == spec_cmp_query(
            *q,
            *item,
            *krate,
            opt_ty(self_ty),
            old(substs)@,
            fuel as nat,
        ).1,
{
    let mut sims: Vec<Similarity> = Vec::new();
    match (&q.name, &item.name) {
        (Some(qn), Some(in_)) => {
            sims.push(cmp_symbol(qn.as_str(), in_.as_str()));
            proof {
                assert(sims@ =~= seq![spec_cmp_symbol(qn@, in_@)]);
            }
        },
        (Some(qn), None) => {
            sims.push(Similarity::Discrete(Different));
            proof {
                assert(sims@ =~= seq![Similarity::Discrete(Different)]);
            }
        },
        _ => {
            proof {
                assert(sims@ =~= Seq::<Similarity>::empty());
            }
        },
    }
    if let Some(k) = &q.kind {
        let mut rest = cmp_kind(k, &item.inner, krate, self_ty, substs, fuel);
        sims.append(&mut rest);
    }
    sims
}

impl query::Query {
    /// Compares this query against a candidate item.
    ///
    /// For a method candidate, `self_ty` is the receiver type its `Self`
    /// resolves to. The substitution table is shared across the whole
    /// comparison of one candidate and records generic bindings.
    pub fn compare(
        &self,
        item: &corpus::Item,
        krate: &corpus::Crate,
        self_ty: Option<&corpus::Type>,
        substs: &mut Substs,
    ) -> (r: Vec<Similarity>)
        requires
            old(substs).wf(),
        ensures
            final(substs).wf(),
            wf_sims(r@),
            r@ == spec_cmp_query(
                *self,
                *item,
                *krate,
                opt_ty(self_ty),
                old(substs)@,
                UNFOLD_FUEL as nat,
            ).0,
            final(substs)@ == spec_cmp_query(
                *self,
                *item,
                *krate,
                opt_ty(self_ty),
                old(substs)@,
                UNFOLD_FUEL as nat,
            ).1,
    {
        cmp_query(self, item, krate, self_ty, substs, UNFOLD_FUEL)
    }
}

impl query::QueryKind {
    /// Compares this query kind against a candidate item payload.
    pub fn compare(
        &self,
        inner: &corpus::ItemEnum,
        krate: &corpus::Crate,
        self_ty: Option<&corpus::Type>,
        substs: &mut Substs,
    ) -> (r: Vec<Similarity>)
        requires
            old(substs).wf(),
        ensures
            final(substs).wf(),
            wf_sims(r@),
            r@ == spec_cmp_kind(
                *self,
                *inner,
                *krate,
                opt_ty(self_ty),
                old(substs)@,
                UNFOLD_FUEL as nat,
            ).0,
            final(substs)@ == spec_cmp_kind(
                *self,
                *inner,
                *krate,
                opt_ty(self_ty),
                old(substs)@,
                UNFOLD_FUEL as nat,
            ).1,
    {
        cmp_kind(self, inner, krate, self_ty, substs, UNFOLD_FUEL)
    }
}

impl query::Function {
    /// Compares this function pattern against a candidate function.
    pub fn compare(
        &self,
        function: &corpus::Function,
        krate: &corpus::Crate,
        self_ty: Option<&corpus::Type>,
        substs: &mut Substs,
    ) -> (r: Vec<Similarity>)
        requires
            old(substs).wf(),
        ensures
            final(substs).wf(),
            wf_sims(r@),
            r@ == spec_cmp_decl(
                self.decl,
                function.decl,
                *krate,
                opt_ty(self_ty),
                old(substs)@,
                UNFOLD_FUEL as nat,
            ).0,
            final(substs)@ == spec_cmp_decl(
                self.decl,
                function.decl,
                *krate,
                opt_ty(self_ty),
                old(substs)@,
                UNFOLD_FUEL as nat,
            ).1,
    {
        cmp_decl(&self.decl, &function.decl, krate, self_ty, substs, UNFOLD_FUEL)
    }

    /// Compares this function pattern against a candidate method.
    pub fn compare_method(
        &self,
        method: &corpus::Method,
        krate: &corpus::Crate,
        self_ty: Option<&corpus::Type>,
        substs: &mut Substs,
    ) -> (r: Vec<Similarity>)
        requires
            old(substs).wf(),
        ensures
            final(substs).wf(),
            wf_sims(r@),
            r@ == spec_cmp_decl(
                self.decl,
                method.decl,
                *krate,
                opt_ty(self_ty),
                old(substs)@,
                UNFOLD_FUEL as nat,
            ).0,
            final(substs)@ == spec_cmp_decl(
                self.decl,
                method.decl,
                *krate,
                opt_ty(self_ty),
                old(substs)@,
                UNFOLD_FUEL as nat,
            ).1,
    {
        cmp_decl(&self.decl, &method.decl, krate, self_ty, substs, UNFOLD_FUEL)
    }
}

impl query::FnDecl {
    /// Compares this declaration pattern against a candidate declaration.
    pub fn compare(
        &self,
        decl: &corpus::FnDecl,
        krate: &corpus::Crate,
        self_ty: Option<&corpus::Type>,
        substs: &mut Substs,
    ) -> (r: Vec<Similarity>)
        requires
            old(substs).wf(),
        ensures
            final(substs).wf(),
            wf_sims(r@),
            r@ == spec_cmp_decl(
                *self,
                *decl,
                *krate,
                opt_ty(self_ty),
                old(substs)@,
                UNFOLD_FUEL as nat,
            ).0,
            final(substs)@ == spec_cmp_decl(
                *self,
                *decl,
                *krate,
                opt_ty(self_ty),
                old(substs)@,
                UNFOLD_FUEL as nat,
            ).1,
    {
        cmp_decl(self, decl, krate, self_ty, substs, UNFOLD_FUEL)
    }
}

impl query::Argument {
    /// Compares this argument pattern against a declared argument.
    pub fn compare(
        &self,
        arg: &corpus::Argument,
        krate: &corpus::Crate,
        self_ty: Option<&corpus::Type>,
        substs: &mut Substs,
    ) -> (r: Vec<Similarity>)
        requires
            old(substs).wf(),
        ensures
            final(substs).wf(),
            wf_sims(r@),
            r@ == spec_cmp_arg(
                *self,
                *arg,
                *krate,
                opt_ty(self_ty),
                old(substs)@,
                UNFOLD_FUEL as nat,
            ).0,
            final(substs)@ == spec_cmp_arg(
                *self,
                *arg,
                *krate,
                opt_ty(self_ty),
                old(substs)@,
                UNFOLD_FUEL as nat,
            ).1,
    {
        cmp_arg(self, arg, krate, self_ty, substs, UNFOLD_FUEL)
    }
}

impl query::FnRetTy {
    /// Compares this return pattern against a candidate return type.
    pub fn compare(
        &self,
        ret: &corpus::FnRetTy,
        krate: &corpus::Crate,
        self_ty: Option<&corpus::Type>,
        substs: &mut Substs,
    ) -> (r: Vec<Similarity>)
        requires
            old(substs).wf(),
        ensures
            final(substs).wf(),
            wf_sims(r@),
            r@ == spec_cmp_ret(
                *self,
                *ret,
                *krate,
                opt_ty(self_ty),
                old(substs)@,
                UNFOLD_FUEL as nat,
            ).0,
            final(substs)@ == spec_cmp_ret(
                *self,
                *ret,
                *krate,
                opt_ty(self_ty),
                old(substs)@,
                UNFOLD_FUEL as nat,
            ).1,
    {
        cmp_ret(self, ret, krate, self_ty, substs, UNFOLD_FUEL)
    }
}

impl query::Type {
    /// Compares this type pattern against a candidate type.
    pub fn compare(
        &self,
        type_: &corpus::Type,
        krate: &corpus::Crate,
        self_ty: Option<&corpus::Type>,
        substs: &mut Substs,
    ) -> (r: Vec<Similarity>)
        requires
            old(substs).wf(),
        ensures
            final(substs).wf(),
            wf_sims(r@),
            r@ == spec_cmp_type(
                *self,
                *type_,
                *krate,
                opt_ty(self_ty),
                old(substs)@,
                UNFOLD_FUEL as nat,
            ).0,
            final(substs)@ == spec_cmp_type(
                *self,
                *type_,
                *krate,
                opt_ty(self_ty),
                old(substs)@,
                UNFOLD_FUEL as nat,
            ).1,
    {
        cmp_type(self, type_, krate, self_ty, substs, UNFOLD_FUEL)
    }
}

impl query::PrimitiveType {
    /// Compares this primitive against a candidate primitive name.
    pub fn compare(&self, prim_ty: &String) -> (r: Vec<Similarity>)
        ensures
            r@ == if self.spec_as_str() == prim_ty@ {
                seq![Similarity::Discrete(Equivalent)]
            } else {
                seq![Similarity::Discrete(Different)]
            },
            wf_sims(r@),
    {
        let r = if str_eq(self.as_str(), prim_ty.as_str()) {
            vec![Similarity::Discrete(Equivalent)]
        } else {
            vec![Similarity::Discrete(Different)]
        };
        proof {
            if self.spec_as_str() == prim_ty@ {
                assert(r@ =~= seq![Similarity::Discrete(Equivalent)]);
            } else {
                assert(r@ =~= seq![Similarity::Discrete(Different)]);
            }
        }
        r
    }
}

} // verus!
