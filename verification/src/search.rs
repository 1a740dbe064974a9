//! The search driver: scope handling, candidate enumeration, scoring,
//! thresholding, and result ordering.
//!
//! A search walks the crates named by a [`Scope`], compares the query
//! against every function item and every method of an inherent impl,
//! keeps the candidates whose mean cost is below the threshold, and
//! returns them sorted by score, best first; candidates with equal scores
//! stay in the order in which the index lists them.

use vstd::prelude::*;
use vstd::string::StrSliceExecFns;
use vstd::string::StringExecFns;

use crate::compare::{
    spec_cmp_query, total_cost, wf_sims, Similarities, Similarity, Substs, UNFOLD_FUEL,
};
use crate::corpus;
use crate::corpus::str_eq;
use crate::query;
use crate::query::clone_string;

verus! {

/// One search result.
#[derive(Debug)]
pub struct Hit {
    /// The candidate's own name.
    pub name: String,
    /// The candidate's module path; for methods, ending with the method
    /// name.
    pub path: Vec<String>,
    /// The path with its last segment replaced by the documentation page
    /// for the candidate.
    pub link: Vec<String>,
    /// The candidate's documentation text.
    pub docs: Option<String>,
    /// The similarity vector the candidate was admitted with.
    pub similarities: Similarities,
}

impl Hit {
    /// The similarity vector the candidate was admitted with.
    pub open spec fn spec_similarities(&self) -> Similarities {
        self.similarities
    }

    /// The similarity vector the candidate was admitted with.
    pub fn similarities(&self) -> (r: &Similarities)
        ensures
            *r == self.spec_similarities(),
    {
        &self.similarities
    }
}

/// Why a search failed.
#[derive(Debug)]
pub enum SearchError {
    /// The scope names a crate the index does not hold.
    CrateNotFound(String),
    /// An impl references an item id that its crate does not hold.
    ItemNotFound(String, String),
}

impl SearchError {
    /// The error, in words.
    pub fn message(&self) -> (r: String)
        ensures
            match self {
                SearchError::CrateNotFound(name) => r@ == "crate `"@ + name@
                    + "` is not present in the index"@,
                SearchError::ItemNotFound(id, krate) => r@ == "item with id `"@ + id@
                    + "` is not present in crate `"@ + krate@ + "`"@,
            },
    {
        match self {
            SearchError::CrateNotFound(name) => {
                let mut s = String::from_str("crate `");
                s.append(name.as_str());
                s.append("` is not present in the index");
                s
            },
            SearchError::ItemNotFound(id, krate) => {
                let mut s = String::from_str("item with id `");
                s.append(id.as_str());
                s.append("` is not present in crate `");
                s.append(krate.as_str());
                s.append("`");
                s
            },
        }
    }
}

/// A set of crates to search in.
#[derive(Debug)]
pub enum Scope {
    /// A single crate.
    Crate(String),
    /// Several crates, for example a whole family of related crates.
    Crates(Vec<String>),
}

impl Scope {
    /// The crate names of the scope.
    pub open spec fn spec_flatten(self) -> Seq<String> {
        match self {
            Scope::Crate(name) => seq![name],
            Scope::Crates(names) => names@,
        }
    }

    /// Returns the crate names of the scope.
    pub fn flatten(self) -> (r: Vec<String>)
        ensures
            r@ == self.spec_flatten(),
    {
        match self {
            Scope::Crate(name) => {
                let mut v: Vec<String> = Vec::new();
                v.push(name);
                proof {
                    assert(v@ =~= self.spec_flatten());
                }
                v
            },
            Scope::Crates(names) => names,
        }
    }
}

/// A search result, reduced to what specifications speak about: every
/// string as its character sequence.
pub struct HitDesc {
    pub name: Seq<char>,
    pub path: Seq<Seq<char>>,
    pub link: Seq<Seq<char>>,
    pub docs: Option<Seq<char>>,
    pub sims: Seq<Similarity>,
}

/// The character sequences of a list of strings.
pub open spec fn views_of(v: Seq<String>) -> Seq<Seq<char>> {
    v.map_values(|s: String| s@)
}

/// The view of an optional string.
pub open spec fn opt_view(o: Option<String>) -> Option<Seq<char>> {
    match o {
        Some(s) => Some(s@),
        None => None,
    }
}

/// The description of an executable hit.
pub open spec fn desc_of(h: Hit) -> HitDesc {
    HitDesc {
        name: h.name@,
        path: views_of(h.path@),
        link: views_of(h.link@),
        docs: opt_view(h.docs),
        sims: h.spec_similarities().0@,
    }
}

/// The score a hit is ordered by: its mean cost in billionths.
pub open spec fn hkey(d: HitDesc) -> int {
    total_cost(d.sims) * 1000000 / d.sims.len() as int
}

/// A description that scoring and sorting can consume.
pub open spec fn desc_ok(d: HitDesc) -> bool {
    wf_sims(d.sims) && d.sims.len() > 0
}

/// Every description of the sequence can be scored.
pub open spec fn descs_ok(s: Seq<HitDesc>) -> bool {
    forall|k: int| 0 <= k < s.len() ==> desc_ok(#[trigger] s[k])
}

/// Sorted ascending by score.
pub open spec fn sorted_by_score(s: Seq<HitDesc>) -> bool {
    forall|i: int, j: int| 0 <= i < j < s.len() ==> hkey(#[trigger] s[i]) <= hkey(#[trigger] s[j])
}

/// Inserts `d` behind every element whose score does not exceed `d`'s.
pub open spec fn insert_sorted(s: Seq<HitDesc>, d: HitDesc) -> Seq<HitDesc>
    decreases s.len(),
{
    if s.len() == 0 {
        seq![d]
    } else if hkey(s.last()) <= hkey(d) {
        s.push(d)
    } else {
        insert_sorted(s.drop_last(), d).push(s.last())
    }
}

/// Stable sort by score: inserting the candidates in enumeration order
/// keeps ties in that order.
pub open spec fn sort_hits(s: Seq<HitDesc>) -> Seq<HitDesc>
    decreases s.len(),
{
    if s.len() == 0 {
        Seq::<HitDesc>::empty()
    } else {
        insert_sorted(sort_hits(s.drop_last()), s.last())
    }
}

/// Where a stable insertion lands: splitting a sorted sequence at the
/// boundary `p` between scores at most `d`'s and scores above it.
pub proof fn lemma_insert_sorted_at(s: Seq<HitDesc>, d: HitDesc, p: int)
    requires
        sorted_by_score(s),
        0 <= p <= s.len(),
        forall|j: int| 0 <= j < p ==> hkey(#[trigger] s[j]) <= hkey(d),
        forall|j: int| p <= j < s.len() ==> hkey(#[trigger] s[j]) > hkey(d),
    ensures
        insert_sorted(s, d) =~= s.take(p) + seq![d] + s.skip(p),
        sorted_by_score(insert_sorted(s, d)),
    decreases s.len(),
{
    if s.len() == 0 {
        assert(insert_sorted(s, d) =~= s.take(p) + seq![d] + s.skip(p));
    } else if hkey(s.last()) <= hkey(d) {
        assert(p == s.len());
        assert(insert_sorted(s, d) =~= s.take(p) + seq![d] + s.skip(p));
    } else {
        assert(sorted_by_score(s.drop_last()));
        lemma_insert_sorted_at(s.drop_last(), d, p);
        assert(insert_sorted(s, d) =~= insert_sorted(s.drop_last(), d).push(s.last()));
        assert(insert_sorted(s.drop_last(), d) =~= s.drop_last().take(p) + seq![d]
            + s.drop_last().skip(p));
        assert(s.drop_last().take(p) =~= s.take(p));
        assert(s.drop_last().skip(p).push(s.last()) =~= s.skip(p));
        assert(insert_sorted(s, d) =~= s.take(p) + seq![d] + s.skip(p));
        assert forall|i: int, j: int|
            0 <= i < j < insert_sorted(s, d).len() implies hkey(
            #[trigger] insert_sorted(s, d)[i],
        ) <= hkey(#[trigger] insert_sorted(s, d)[j]) by {
            let t = s.take(p) + seq![d] + s.skip(p);
            assert(insert_sorted(s, d) == t);
        }
    }
}

/// Scorability carries through a stable insertion.
pub proof fn lemma_insert_sorted_ok(s: Seq<HitDesc>, d: HitDesc)
    requires
        descs_ok(s),
        desc_ok(d),
    ensures
        descs_ok(insert_sorted(s, d)),
    decreases s.len(),
{
    if s.len() == 0 {
    } else if hkey(s.last()) <= hkey(d) {
    } else {
        assert(descs_ok(s.drop_last()));
        lemma_insert_sorted_ok(s.drop_last(), d);
    }
}


/// The right-hand side of the first `Self` equality predicate, if any.
pub open spec fn spec_find_self_rhs(preds: Seq<corpus::WherePredicate>) -> Option<corpus::Type>
    decreases preds.len(),
{
    if preds.len() == 0 {
        None
    } else {
        match preds[0] {
            corpus::WherePredicate::EqPredicate { lhs, rhs } => match lhs {
                corpus::Type::Generic(g) => if g@ == "Self"@ {
                    Some(rhs)
                } else {
                    spec_find_self_rhs(preds.drop_first())
                },
                _ => spec_find_self_rhs(preds.drop_first()),
            },
            _ => spec_find_self_rhs(preds.drop_first()),
        }
    }
}

/// The receiver type `Self` resolves to inside an impl: the right-hand
/// side of an explicit `Self` equality predicate when the impl carries
/// one, and the impl's `for_` type otherwise.
pub open spec fn spec_impl_self_ty(im: corpus::Impl) -> corpus::Type {
    match spec_find_self_rhs(im.generics.where_predicates@) {
        Some(t) => t,
        None => im.for_,
    }
}

/// Resolves `Self` for an impl.
pub fn impl_self_ty(im: &corpus::Impl) -> (r: &corpus::Type)
    ensures
        *r == spec_impl_self_ty(*im),
{
    let preds = &im.generics.where_predicates;
    let mut k: usize = 0;
    proof {
        assert(preds@.skip(0) =~= preds@);
    }
    while k < preds.len()
        invariant
            k <= preds.len(),
            spec_find_self_rhs(preds@.skip(k as int)) == spec_find_self_rhs(preds@),
        decreases preds.len() - k,
    {
        proof {
            assert(preds@.skip(k as int)[0] == preds@[k as int]);
            assert(preds@.skip(k as int).drop_first() =~= preds@.skip(k as int + 1));
        }
        if let corpus::WherePredicate::EqPredicate { lhs, rhs } = &preds[k] {
            if let corpus::Type::Generic(g) = lhs {
                if str_eq(g.as_str(), "Self") {
                    return rhs;
                }
            }
        }
        k = k + 1;
    }
    proof {
        assert(preds@.skip(k as int) =~= Seq::<corpus::WherePredicate>::empty());
    }
    &im.for_
}

/// Replaces the last segment, if there is one.
pub open spec fn spec_update_last(v: Seq<Seq<char>>, s: Seq<char>) -> Seq<Seq<char>> {
    if v.len() > 0 {
        v.update(v.len() - 1, s)
    } else {
        v
    }
}

/// The item's name, or the empty name when it has none.
pub open spec fn spec_item_name(item: corpus::Item) -> Seq<char> {
    match item.name {
        Some(n) => n@,
        None => Seq::<char>::empty(),
    }
}

/// The base path and receiver page of a method's enclosing impl.
pub open spec fn spec_recv_base(
    krate: corpus::Crate,
    krate_name: String,
    im: corpus::Impl,
) -> Result<(Seq<Seq<char>>, Seq<char>), SearchError> {
    match im.trait_ {
        Some(t) => match t {
            corpus::Type::ResolvedPath { name, id, .. } => match krate.spec_path(id) {
                None => Err(SearchError::ItemNotFound(id.0, krate_name)),
                Some(s) => Ok((views_of(s.path@), "trait."@ + name@ + ".html"@)),
            },
            _ => Ok((Seq::<Seq<char>>::empty(), Seq::<char>::empty())),
        },
        None => match im.for_ {
            corpus::Type::ResolvedPath { name, id, .. } => match krate.spec_path(id) {
                None => Err(SearchError::ItemNotFound(id.0, krate_name)),
                Some(s) => {
                    let recv = match s.kind {
                        corpus::ItemKind::Union => "union."@ + name@ + ".html"@,
                        corpus::ItemKind::Enum => "enum."@ + name@ + ".html"@,
                        corpus::ItemKind::Struct => "struct."@ + name@ + ".html"@,
                        _ => Seq::<char>::empty(),
                    };
                    Ok((views_of(s.path@), recv))
                },
            },
            corpus::Type::Primitive(p) => Ok((seq![p@], "primitive."@ + p@ + ".html"@)),
            corpus::Type::Tuple(_) => Ok((seq!["tuple"@], "primitive.tuple.html"@)),
            corpus::Type::Slice(_) => Ok((seq!["slice"@], "primitive.slice.html"@)),
            corpus::Type::Array { .. } => Ok((seq!["array"@], "primitive.array.html"@)),
            corpus::Type::RawPointer { .. } => Ok((seq!["pointer"@], "primitive.pointer.html"@)),
            corpus::Type::BorrowedRef { .. } => Ok(
                (seq!["reference"@], "primitive.reference.html"@),
            ),
            _ => Ok((Seq::<Seq<char>>::empty(), Seq::<char>::empty())),
        },
    }
}

/// The module path and documentation link of a function or method.
///
/// For a function, the link replaces the path's last segment with the
/// function's page. For a method, the link points at the method anchor of
/// the receiver's page, and the path gains the method's name as an extra
/// segment.
pub open spec fn spec_path_and_link(
    krate: corpus::Crate,
    krate_name: String,
    item: corpus::Item,
    im: Option<corpus::Impl>,
) -> Result<(Seq<Seq<char>>, Seq<Seq<char>>), SearchError> {
    let base = match im {
        Some(i) => match spec_recv_base(krate, krate_name, i) {
            Err(e) => Err(e),
            Ok((b, recv)) => Ok((b, spec_update_last(b, recv))),
        },
        None => match krate.spec_path(item.id) {
            None => Err(SearchError::ItemNotFound(item.id.0, krate_name)),
            Some(s) => Ok((views_of(s.path@), views_of(s.path@))),
        },
    };
    match base {
        Err(e) => Err(e),
        Ok((path0, link0)) => match item.inner {
            corpus::ItemEnum::Function(_) => {
                let link = if link0.len() > 0 {
                    spec_update_last(link0, "fn."@ + link0.last() + ".html"@)
                } else {
                    link0
                };
                Ok((path0, link))
            },
            corpus::ItemEnum::Method(_) => {
                let name = spec_item_name(item);
                let link = if link0.len() > 0 {
                    spec_update_last(link0, link0.last() + "#method."@ + name)
                } else {
                    link0
                };
                Ok((path0.push(name), link))
            },
            _ => Ok((path0, link0)),
        },
    }
}

/// The similarity vector of one candidate, starting from an empty
/// substitution table.
pub open spec fn spec_sims_of(
    q: query::Query,
    item: corpus::Item,
    krate: corpus::Crate,
    self_ty: Option<corpus::Type>,
) -> Seq<Similarity> {
    spec_cmp_query(q, item, krate, self_ty, Seq::<crate::compare::SubstEntry>::empty(), UNFOLD_FUEL as nat).0
}

/// Whether a candidate with this similarity vector enters the results.
pub open spec fn spec_admitted(sims: Seq<Similarity>, threshold: u64) -> bool {
    sims.len() > 0 && (total_cost(sims) * 1000000 / (sims.len() as int)) < threshold
}

/// The hits a function item contributes.
pub open spec fn spec_function_hits(
    q: query::Query,
    krate: corpus::Crate,
    krate_name: String,
    item: corpus::Item,
    threshold: u64,
) -> Result<Seq<HitDesc>, SearchError> {
    match spec_path_and_link(krate, krate_name, item, None) {
        Err(e) => Err(e),
        Ok((path, link)) => {
            let sims = spec_sims_of(q, item, krate, None);
            if spec_admitted(sims, threshold) {
                Ok(
                    seq![
                        HitDesc {
                            name: spec_item_name(item),
                            path,
                            link,
                            docs: opt_view(item.docs),
                            sims,
                        }
                    ],
                )
            } else {
                Ok(Seq::<HitDesc>::empty())
            }
        },
    }
}

/// The first associated item id that does not resolve, if any.
pub open spec fn spec_missing_assoc(
    krate: corpus::Crate,
    krate_name: String,
    ids: Seq<corpus::Id>,
    k: int,
) -> Option<SearchError>
    decreases ids.len() - k,
{
    if k < 0 || k >= ids.len() {
        None
    } else if krate.spec_item(ids[k]) is None {
        Some(SearchError::ItemNotFound(ids[k].0, krate_name))
    } else {
        spec_missing_assoc(krate, krate_name, ids, k + 1)
    }
}

/// The hits the methods of one inherent impl contribute, from associated
/// item `k` on.
pub open spec fn spec_impl_method_hits(
    q: query::Query,
    krate: corpus::Crate,
    krate_name: String,
    im: corpus::Impl,
    ids: Seq<corpus::Id>,
    k: int,
    threshold: u64,
) -> Result<Seq<HitDesc>, SearchError>
    decreases ids.len() - k,
{
    if k < 0 || k >= ids.len() {
        Ok(Seq::<HitDesc>::empty())
    } else {
        match krate.spec_item(ids[k]) {
            None => spec_impl_method_hits(q, krate, krate_name, im, ids, k + 1, threshold),
            Some(item) => match item.inner {
                corpus::ItemEnum::Method(_) => {
                    match spec_path_and_link(krate, krate_name, item, Some(im)) {
                        Err(e) => Err(e),
                        Ok((path, link)) => {
                            let sims = spec_sims_of(q, item, krate, Some(spec_impl_self_ty(im)));
                            match spec_impl_method_hits(
                                q,
                                krate,
                                krate_name,
                                im,
                                ids,
                                k + 1,
                                threshold,
                            ) {
                                Err(e) => Err(e),
                                Ok(t) => if spec_admitted(sims, threshold) {
                                    Ok(
                                        seq![
                                            HitDesc {
                                                name: spec_item_name(item),
                                                path,
                                                link,
                                                docs: opt_view(item.docs),
                                                sims,
                                            }
                                        ] + t,
                                    )
                                } else {
                                    Ok(t)
                                },
                            }
                        },
                    }
                },
                _ => spec_impl_method_hits(q, krate, krate_name, im, ids, k + 1, threshold),
            },
        }
    }
}

/// The hits one inherent impl contributes: all associated items must
/// resolve first.
pub open spec fn spec_impl_hits(
    q: query::Query,
    krate: corpus::Crate,
    krate_name: String,
    im: corpus::Impl,
    threshold: u64,
) -> Result<Seq<HitDesc>, SearchError> {
    match spec_missing_assoc(krate, krate_name, im.items@, 0) {
        Some(e) => Err(e),
        None => spec_impl_method_hits(q, krate, krate_name, im, im.items@, 0, threshold),
    }
}

/// The hits of one crate, walking its items in index order from `k` on.
pub open spec fn spec_items_hits(
    q: query::Query,
    krate: corpus::Crate,
    krate_name: String,
    entries: Seq<(corpus::Id, corpus::Item)>,
    k: int,
    threshold: u64,
) -> Result<Seq<HitDesc>, SearchError>
    decreases entries.len() - k,
{
    if k < 0 || k >= entries.len() {
        Ok(Seq::<HitDesc>::empty())
    } else {
        let item = entries[k].1;
        let head = match item.inner {
            corpus::ItemEnum::Function(_) => spec_function_hits(q, krate, krate_name, item, threshold),
            corpus::ItemEnum::Impl(im) => if im.trait_ is None {
                spec_impl_hits(q, krate, krate_name, im, threshold)
            } else {
                Ok(Seq::<HitDesc>::empty())
            },
            _ => Ok(Seq::<HitDesc>::empty()),
        };
        match head {
            Err(e) => Err(e),
            Ok(hs) => match spec_items_hits(q, krate, krate_name, entries, k + 1, threshold) {
                Err(e) => Err(e),
                Ok(t) => Ok(hs + t),
            },
        }
    }
}

/// The hits of the crates named from position `k` on, in scope order.
pub open spec fn spec_scope_hits(
    index: crate::Index,
    names: Seq<String>,
    k: int,
    q: query::Query,
    threshold: u64,
) -> Result<Seq<HitDesc>, SearchError>
    decreases names.len() - k,
{
    if k < 0 || k >= names.len() {
        Ok(Seq::<HitDesc>::empty())
    } else {
        match index.spec_get(names[k]@) {
            None => Err(SearchError::CrateNotFound(names[k])),
            Some(krate) => match spec_items_hits(q, krate, names[k], krate.index@, 0, threshold) {
                Err(e) => Err(e),
                Ok(hs) => match spec_scope_hits(index, names, k + 1, q, threshold) {
                    Err(e) => Err(e),
                    Ok(t) => Ok(hs + t),
                },
            },
        }
    }
}

/// What a search returns: the admitted candidates of the scope, in
/// enumeration order, stably sorted by score.
pub open spec fn spec_search(
    index: crate::Index,
    q: query::Query,
    scope: Scope,
    threshold: u64,
) -> Result<Seq<HitDesc>, SearchError> {
    match spec_scope_hits(index, scope.spec_flatten(), 0, q, threshold) {
        Err(e) => Err(e),
        Ok(c) => Ok(sort_hits(c)),
    }
}

/// A function or method item carries a name, and an inherent impl's
/// receiver has one of the shapes the link builder understands.
pub open spec fn searchable_item_ok(krate: corpus::Crate, item: corpus::Item) -> bool {
    &&& (item.inner is Function || item.inner is Method ==> item.name is Some)
    &&& match item.inner {
        corpus::ItemEnum::Impl(im) => im.trait_ is None ==> inherent_impl_ok(krate, im),
        _ => true,
    }
}

/// The receiver shapes the link builder understands, with the kinds their
/// path summaries may carry.
pub open spec fn inherent_impl_ok(krate: corpus::Crate, im: corpus::Impl) -> bool {
    match im.for_ {
        corpus::Type::ResolvedPath { id, .. } => match krate.spec_path(id) {
            Some(s) => s.kind is Union || s.kind is Enum || s.kind is Struct,
            None => true,
        },
        corpus::Type::Primitive(_) => true,
        corpus::Type::Tuple(_) => true,
        corpus::Type::Slice(_) => true,
        corpus::Type::Array { .. } => true,
        corpus::Type::RawPointer { .. } => true,
        corpus::Type::BorrowedRef { .. } => true,
        _ => false,
    }
}

/// Every item of the crate is searchable.
pub open spec fn crate_ok(krate: corpus::Crate) -> bool {
    forall|k: int|
        0 <= k < krate.index@.len() ==> searchable_item_ok(krate, (#[trigger] krate.index@[k]).1)
}

/// Every crate of the index is searchable.
pub open spec fn index_ok(index: crate::Index) -> bool {
    forall|k: int| 0 <= k < index.crates@.len() ==> crate_ok((#[trigger] index.crates@[k]).1)
}

/// Copies a list of strings segment by segment.
pub fn clone_str_vec(v: &Vec<String>) -> (r: Vec<String>)
    ensures
        r@ == v@,
{
    let mut out: Vec<String> = Vec::new();
    let mut k: usize = 0;
    while k < v.len()
        invariant
            k <= v.len(),
            out@.len() == k as nat,
            forall|j: int| 0 <= j < k ==> out@[j] == v@[j],
        decreases v.len() - k,
    {
        out.push(clone_string(&v[k]));
        k = k + 1;
    }
    proof {
        assert(out@ =~= v@);
    }
    out
}

/// Builds `prefix + name + suffix`.
pub(crate) fn glue3(prefix: &str, name: &String, suffix: &str) -> (r: String)
    ensures
        r@ == prefix@ + name@ + suffix@,
{
    let mut s = String::from_str(prefix);
    s.append(name.as_str());
    s.append(suffix);
    s
}

/// Replaces the last segment, if there is one.
pub(crate) fn set_last(v: &mut Vec<String>, s: String)
    ensures
        views_of(final(v)@) == spec_update_last(views_of(old(v)@), s@),
        final(v)@.len() == old(v)@.len(),
{
    if v.len() > 0 {
        let popped = v.pop();
        v.push(s);
        proof {
            assert(views_of(final(v)@) =~= spec_update_last(views_of(old(v)@), s@));
        }
    } else {
        proof {
            assert(views_of(v@) =~= spec_update_last(views_of(old(v)@), s@));
        }
    }
}


/// The owned form of an optional borrowed impl.
pub open spec fn opt_impl(im: Option<&corpus::Impl>) -> Option<corpus::Impl> {
    match im {
        Some(i) => Some(*i),
        None => None,
    }
}

/// What the link builder needs of a method's impl.
pub open spec fn path_link_impl_ok(krate: corpus::Crate, im: corpus::Impl) -> bool {
    match im.trait_ {
        Some(t) => t is ResolvedPath,
        None => inherent_impl_ok(krate, im),
    }
}

/// A one-segment path.
fn one_word(word: &str) -> (r: Vec<String>)
    ensures
        views_of(r@) == seq![word@],
{
    let mut v: Vec<String> = Vec::new();
    v.push(String::from_str(word));
    proof {
        assert(views_of(v@) =~= seq![word@]);
    }
    v
}

impl crate::Index {
    /// Computes the module path of `item` and the link to its
    /// documentation page; see [`spec_path_and_link`].
    pub fn path_and_link(
        krate: &corpus::Crate,
        krate_name: &String,
        item: &corpus::Item,
        impl_: Option<&corpus::Impl>,
    ) -> (r: Result<(Vec<String>, Vec<String>), SearchError>)
        requires
            item.inner is Function || item.inner is Method,
            item.inner is Method ==> item.name is Some,
            match impl_ {
                Some(im) => path_link_impl_ok(*krate, *im),
                None => true,
            },
        ensures
            match r {
                Ok(pl) => spec_path_and_link(*krate, *krate_name, *item, opt_impl(impl_))
                    == Ok::<_, SearchError>((views_of(pl.0@), views_of(pl.1@))),
                Err(e) => spec_path_and_link(*krate, *krate_name, *item, opt_impl(impl_))
                    == Err::<(Seq<Seq<char>>, Seq<Seq<char>>), SearchError>(e),
            },
    {
        let mut path: Vec<String>;
        let mut link: Vec<String>;
        match impl_ {
            Some(im) => {
                let base_recv: (Vec<String>, String);
                match &im.trait_ {
                    Some(t) => match t {
                        corpus::Type::ResolvedPath { name, id, .. } => match krate.get_path(id) {
                            None => {
                                return Err(
                                    SearchError::ItemNotFound(
                                        clone_string(&id.0),
                                        clone_string(krate_name),
                                    ),
                                );
                            },
                            Some(s) => {
                                base_recv = (clone_str_vec(&s.path), glue3("trait.", name, ".html"));
                            },
                        },
                        _ => {
                            proof {
                                assert(false);
                            }
                            base_recv = (Vec::new(), String::new());
                        },
                    },
                    None => match &im.for_ {
                        corpus::Type::ResolvedPath { name, id, .. } => match krate.get_path(id) {
                            None => {
                                return Err(
                                    SearchError::ItemNotFound(
                                        clone_string(&id.0),
                                        clone_string(krate_name),
                                    ),
                                );
                            },
                            Some(s) => {
                                let recv = match s.kind {
                                    corpus::ItemKind::Union => glue3("union.", name, ".html"),
                                    corpus::ItemKind::Enum => glue3("enum.", name, ".html"),
                                    corpus::ItemKind::Struct => glue3("struct.", name, ".html"),
                                    _ => {
                                        proof {
                                            assert(false);
                                        }
                                        String::new()
                                    },
                                };
                                base_recv = (clone_str_vec(&s.path), recv);
                            },
                        },
                        corpus::Type::Primitive(p) => {
                            let mut b: Vec<String> = Vec::new();
                            b.push(clone_string(p));
                            proof {
                                assert(views_of(b@) =~= seq![p@]);
                            }
                            base_recv = (b, glue3("primitive.", p, ".html"));
                        },
                        corpus::Type::Tuple(_) => {
                            base_recv = (one_word("tuple"), String::from_str("primitive.tuple.html"));
                        },
                        corpus::Type::Slice(_) => {
                            base_recv = (one_word("slice"), String::from_str("primitive.slice.html"));
                        },
                        corpus::Type::Array { .. } => {
                            base_recv = (one_word("array"), String::from_str("primitive.array.html"));
                        },
                        corpus::Type::RawPointer { .. } => {
                            base_recv = (
                                one_word("pointer"),
                                String::from_str("primitive.pointer.html"),
                            );
                        },
                        corpus::Type::BorrowedRef { .. } => {
                            base_recv = (
                                one_word("reference"),
                                String::from_str("primitive.reference.html"),
                            );
                        },
                        _ => {
                            proof {
                                assert(false);
                            }
                            base_recv = (Vec::new(), String::new());
                        },
                    },
                }
                let (b, recv) = base_recv;
                link = clone_str_vec(&b);
                path = b;
                set_last(&mut link, recv);
            },
            None => {
                match krate.get_path(&item.id) {
                    None => {
                        return Err(
                            SearchError::ItemNotFound(
                                clone_string(&item.id.0),
                                clone_string(krate_name),
                            ),
                        );
                    },
                    Some(s) => {
                        path = clone_str_vec(&s.path);
                        link = clone_str_vec(&s.path);
                    },
                }
            },
        }
        match &item.inner {
            corpus::ItemEnum::Function(_) => {
                let ghost link0 = views_of(link@);
                let last_opt = link.pop();
                if let Some(l) = last_opt {
                    link.push(glue3("fn.", &l, ".html"));
                    proof {
                        assert(views_of(link@) =~= spec_update_last(
                            link0,
                            "fn."@ + link0.last() + ".html"@,
                        ));
                    }
                }
                Ok((path, link))
            },
            corpus::ItemEnum::Method(_) => {
                let nm: &String = match &item.name {
                    Some(n) => n,
                    None => unreached(),
                };
                let ghost link0 = views_of(link@);
                let last_opt = link.pop();
                if let Some(l) = last_opt {
                    let mut s2 = l;
                    s2.append("#method.");
                    s2.append(nm.as_str());
                    link.push(s2);
                    proof {
                        assert(views_of(link@) =~= spec_update_last(
                            link0,
                            link0.last() + "#method."@ + nm@,
                        ));
                    }
                }
                let ghost path0 = views_of(path@);
                path.push(clone_string(nm));
                proof {
                    assert(views_of(path@) =~= path0.push(nm@));
                }
                Ok((path, link))
            },
            _ => {
                proof {
                    assert(false);
                }
                Ok((path, link))
            },
        }
    }

    /// The similarity vector of one candidate, compared with the context
    /// its impl provides and a fresh substitution table.
    pub fn compare(
        &self,
        query: &query::Query,
        item: &corpus::Item,
        krate: &corpus::Crate,
        impl_: Option<&corpus::Impl>,
    ) -> (r: Similarities)
        ensures
            r.0@ == spec_sims_of(
                *query,
                *item,
                *krate,
                match impl_ {
                    Some(im) => Some(spec_impl_self_ty(*im)),
                    None => None,
                },
            ),
            r.wf(),
    {
        let mut substs = Substs::new();
        match impl_ {
            Some(im) => {
                let st = impl_self_ty(im);
                Similarities(query.compare(item, krate, Some(st), &mut substs))
            },
            None => Similarities(query.compare(item, krate, None, &mut substs)),
        }
    }
}

/// Whatever an id lookup returns is stored in the item list.
pub proof fn lemma_assoc_item_member(entries: Seq<(corpus::Id, corpus::Item)>, id: corpus::Id)
    ensures
        match corpus::Crate::assoc_item(entries, id) {
            Some(item) => exists|k: int|
                0 <= k < entries.len() && (#[trigger] entries[k]).1 == item,
            None => true,
        },
    decreases entries.len(),
{
    if entries.len() > 0 {
        if entries[0].0.0@ == id.0@ {
            assert(entries[0].1 == corpus::Crate::assoc_item(entries, id)->0);
        } else {
            lemma_assoc_item_member(entries.drop_first(), id);
            if corpus::Crate::assoc_item(entries, id) is Some {
                let item = corpus::Crate::assoc_item(entries, id)->0;
                let k = choose|k: int|
                    0 <= k < entries.drop_first().len()
                        && (#[trigger] entries.drop_first()[k]).1 == item;
                assert(entries[k + 1].1 == item);
            }
        }
    }
}

/// Builds the hit for an admitted candidate.
fn make_hit(
    item: &corpus::Item,
    path: Vec<String>,
    link: Vec<String>,
    sims: Similarities,
) -> (h: Hit)
    requires
        item.name is Some,
    ensures
        desc_of(h) == (HitDesc {
            name: spec_item_name(*item),
            path: views_of(path@),
            link: views_of(link@),
            docs: opt_view(item.docs),
            sims: sims.0@,
        }),
{
    let nm = match &item.name {
        Some(n) => clone_string(n),
        None => unreached(),
    };
    let docs = match &item.docs {
        Some(d) => Some(clone_string(d)),
        None => None,
    };
    Hit { name: nm, path, link, docs, similarities: sims }
}

/// Hits that one function item contributes; see [`spec_function_hits`].
fn function_hits(
    q: &query::Query,
    krate: &corpus::Crate,
    krate_name: &String,
    item: &corpus::Item,
    threshold: u64,
) -> (r: Result<Vec<Hit>, SearchError>)
    requires
        item.inner is Function,
        item.name is Some,
    ensures
        match r {
            Ok(v) => spec_function_hits(*q, *krate, *krate_name, *item, threshold) == Ok::<
                _,
                SearchError,
            >(v@.map_values(|h: Hit| desc_of(h))) && descs_ok(v@.map_values(|h: Hit| desc_of(h))),
            Err(e) => spec_function_hits(*q, *krate, *krate_name, *item, threshold) == Err::<Seq<HitDesc>, SearchError>(e),
        },
{
    match crate::Index::path_and_link(krate, krate_name, item, None) {
        Err(e) => Err(e),
        Ok((path, link)) => {
            let mut substs = Substs::new();
            let sims_vec = q.compare(item, krate, None, &mut substs);
            let sims = Similarities(sims_vec);
            if sims.0.len() > 0 && sims.score() < threshold {
                let h = make_hit(item, path, link, sims);
                let mut v: Vec<Hit> = Vec::new();
                v.push(h);
                proof {
                    assert(v@.map_values(|h2: Hit| desc_of(h2)) =~= seq![desc_of(h)]);
                }
                Ok(v)
            } else {
                let v: Vec<Hit> = Vec::new();
                proof {
                    assert(v@.map_values(|h2: Hit| desc_of(h2)) =~= Seq::<HitDesc>::empty());
                }
                Ok(v)
            }
        },
    }
}

/// The first associated item id that does not resolve, if any; see
/// [`spec_missing_assoc`].
fn check_assoc(
    krate: &corpus::Crate,
    krate_name: &String,
    ids: &Vec<corpus::Id>,
    k: usize,
) -> (r: Option<SearchError>)
    ensures
        match r {
            Some(e) => spec_missing_assoc(*krate, *krate_name, ids@, k as int) == Some(e),
            None => spec_missing_assoc(*krate, *krate_name, ids@, k as int) is None,
        },
    decreases ids@.len() - k,
{
    if k >= ids.len() {
        return None;
    }
    match krate.get_item(&ids[k]) {
        None => Some(
            SearchError::ItemNotFound(clone_string(&ids[k].0), clone_string(krate_name)),
        ),
        Some(_) => check_assoc(krate, krate_name, ids, k + 1),
    }
}

/// The hits the methods of one inherent impl contribute; see
/// [`spec_impl_method_hits`].
fn impl_method_hits(
    q: &query::Query,
    krate: &corpus::Crate,
    krate_name: &String,
    im: &corpus::Impl,
    ids: &Vec<corpus::Id>,
    k: usize,
    threshold: u64,
) -> (r: Result<Vec<Hit>, SearchError>)
    requires
        crate_ok(*krate),
        im.trait_ is None,
        inherent_impl_ok(*krate, *im),
    ensures
        match r {
            Ok(v) => spec_impl_method_hits(*q, *krate, *krate_name, *im, ids@, k as int, threshold)
                == Ok::<_, SearchError>(v@.map_values(|h: Hit| desc_of(h))) && descs_ok(
                v@.map_values(|h: Hit| desc_of(h)),
            ),
            Err(e) => spec_impl_method_hits(
                *q,
                *krate,
                *krate_name,
                *im,
                ids@,
                k as int,
                threshold,
            ) == Err::<Seq<HitDesc>, SearchError>(e),
        },
    decreases ids@.len() - k,
{
    if k >= ids.len() {
        let v: Vec<Hit> = Vec::new();
        proof {
            assert(v@.map_values(|h2: Hit| desc_of(h2)) =~= Seq::<HitDesc>::empty());
        }
        return Ok(v);
    }
    match krate.get_item(&ids[k]) {
        None => impl_method_hits(q, krate, krate_name, im, ids, k + 1, threshold),
        Some(item) => {
            proof {
                lemma_assoc_item_member(krate.index@, ids@[k as int]);
            }
            match &item.inner {
                corpus::ItemEnum::Method(_) => {
                    match crate::Index::path_and_link(krate, krate_name, item, Some(im)) {
                        Err(e) => Err(e),
                        Ok((path, link)) => {
                            let mut substs = Substs::new();
                            let st = impl_self_ty(im);
                            let sims_vec = q.compare(item, krate, Some(st), &mut substs);
                            let sims = Similarities(sims_vec);
                            let admitted = sims.0.len() > 0 && sims.score() < threshold;
                            match impl_method_hits(q, krate, krate_name, im, ids, k + 1, threshold) {
                                Err(e) => Err(e),
                                Ok(t) => {
                                    if admitted {
                                        let h = make_hit(item, path, link, sims);
                                        let mut v: Vec<Hit> = Vec::new();
                                        v.push(h);
                                        let mut t2 = t;
                                        let ghost tview = t2@.map_values(|h2: Hit| desc_of(h2));
                                        v.append(&mut t2);
                                        proof {
                                            assert(v@.map_values(|h2: Hit| desc_of(h2))
                                                =~= seq![desc_of(h)] + tview);
                                        }
                                        Ok(v)
                                    } else {
                                        Ok(t)
                                    }
                                },
                            }
                        },
                    }
                },
                _ => impl_method_hits(q, krate, krate_name, im, ids, k + 1, threshold),
            }
        },
    }
}

/// The hits of one crate, walking its items in index order; see
/// [`spec_items_hits`].
fn items_hits(
    q: &query::Query,
    krate: &corpus::Crate,
    krate_name: &String,
    k: usize,
    threshold: u64,
) -> (r: Result<Vec<Hit>, SearchError>)
    requires
        crate_ok(*krate),
    ensures
        match r {
            Ok(v) => spec_items_hits(*q, *krate, *krate_name, krate.index@, k as int, threshold)
                == Ok::<_, SearchError>(v@.map_values(|h: Hit| desc_of(h))) && descs_ok(
                v@.map_values(|h: Hit| desc_of(h)),
            ),
            Err(e) => spec_items_hits(*q, *krate, *krate_name, krate.index@, k as int, threshold)
                == Err::<Seq<HitDesc>, SearchError>(e),
        },
    decreases krate.index@.len() - k,
{
    if k >= krate.index.len() {
        let v: Vec<Hit> = Vec::new();
        proof {
            assert(v@.map_values(|h2: Hit| desc_of(h2)) =~= Seq::<HitDesc>::empty());
        }
        return Ok(v);
    }
    let item = &krate.index[k].1;
    let head: Result<Vec<Hit>, SearchError> = match &item.inner {
        corpus::ItemEnum::Function(_) => function_hits(q, krate, krate_name, item, threshold),
        corpus::ItemEnum::Impl(im) => {
            if im.trait_.is_none() {
                match check_assoc(krate, krate_name, &im.items, 0) {
                    Some(e) => Err(e),
                    None => impl_method_hits(q, krate, krate_name, im, &im.items, 0, threshold),
                }
            } else {
                let v: Vec<Hit> = Vec::new();
                proof {
                    assert(v@.map_values(|h2: Hit| desc_of(h2)) =~= Seq::<HitDesc>::empty());
                }
                Ok(v)
            }
        },
        _ => {
            let v: Vec<Hit> = Vec::new();
            proof {
                assert(v@.map_values(|h2: Hit| desc_of(h2)) =~= Seq::<HitDesc>::empty());
            }
            Ok(v)
        },
    };
    match head {
        Err(e) => Err(e),
        Ok(mut hs) => match items_hits(q, krate, krate_name, k + 1, threshold) {
            Err(e) => Err(e),
            Ok(t) => {
                let ghost hview = hs@.map_values(|h2: Hit| desc_of(h2));
                let ghost tview = t@.map_values(|h2: Hit| desc_of(h2));
                let mut t2 = t;
                hs.append(&mut t2);
                proof {
                    assert(hs@.map_values(|h2: Hit| desc_of(h2)) =~= hview + tview);
                }
                Ok(hs)
            },
        },
    }
}

/// The hits of the crates named from position `k` on; see
/// [`spec_scope_hits`].
fn collect_scope(
    index: &crate::Index,
    names: &Vec<String>,
    k: usize,
    q: &query::Query,
    threshold: u64,
) -> (r: Result<Vec<Hit>, SearchError>)
    requires
        index_ok(*index),
    ensures
        match r {
            Ok(v) => spec_scope_hits(*index, names@, k as int, *q, threshold) == Ok::<
                _,
                SearchError,
            >(v@.map_values(|h: Hit| desc_of(h))) && descs_ok(v@.map_values(|h: Hit| desc_of(h))),
            Err(e) => spec_scope_hits(*index, names@, k as int, *q, threshold) == Err::<Seq<HitDesc>, SearchError>(e),
        },
    decreases names@.len() - k,
{
    if k >= names.len() {
        let v: Vec<Hit> = Vec::new();
        proof {
            assert(v@.map_values(|h2: Hit| desc_of(h2)) =~= Seq::<HitDesc>::empty());
        }
        return Ok(v);
    }
    match index.get_crate(&names[k]) {
        None => Err(SearchError::CrateNotFound(clone_string(&names[k]))),
        Some(krate) => {
            proof {
                crate::lemma_crates_get_member(index.crates@, names@[k as int]@);
            }
            match items_hits(q, krate, &names[k], 0, threshold) {
                Err(e) => Err(e),
                Ok(mut hs) => match collect_scope(index, names, k + 1, q, threshold) {
                    Err(e) => Err(e),
                    Ok(t) => {
                        let ghost hview = hs@.map_values(|h2: Hit| desc_of(h2));
                        let ghost tview = t@.map_values(|h2: Hit| desc_of(h2));
                        let mut t2 = t;
                        hs.append(&mut t2);
                        proof {
                            assert(hs@.map_values(|h2: Hit| desc_of(h2)) =~= hview + tview);
                        }
                        Ok(hs)
                    },
                },
            }
        },
    }
}

/// Stable insertion sort of hits by ascending score.
fn sort_by_score(hits: Vec<Hit>) -> (r: Vec<Hit>)
    requires
        descs_ok(hits@.map_values(|h: Hit| desc_of(h))),
    ensures
        r@.map_values(|h: Hit| desc_of(h)) == sort_hits(hits@.map_values(|h: Hit| desc_of(h))),
        sorted_by_score(r@.map_values(|h: Hit| desc_of(h))),
{
    let ghost all = hits@.map_values(|h: Hit| desc_of(h));
    let mut rest = hits;
    let mut out: Vec<Hit> = Vec::new();
    let ghost done = Seq::<HitDesc>::empty();
    proof {
        assert(out@.map_values(|h: Hit| desc_of(h)) =~= sort_hits(done));
        assert(done + rest@.map_values(|h: Hit| desc_of(h)) =~= all);
    }
    while rest.len() > 0
        invariant
            done + rest@.map_values(|h: Hit| desc_of(h)) == all,
            descs_ok(all),
            out@.map_values(|h: Hit| desc_of(h)) == sort_hits(done),
            sorted_by_score(out@.map_values(|h: Hit| desc_of(h))),
            descs_ok(out@.map_values(|h: Hit| desc_of(h))),
        decreases rest@.len(),
    {
        let ghost rest_view = rest@.map_values(|h: Hit| desc_of(h));
        let h = rest.remove(0);
        let ghost d = desc_of(h);
        proof {
            assert(rest_view[0] == d);
            assert(rest@.map_values(|h2: Hit| desc_of(h2)) =~= rest_view.drop_first());
            assert(done + rest_view =~= (done.push(d)) + rest_view.drop_first());
            assert(0 <= done.len() < all.len());
            assert(all[done.len() as int] == d);
            assert(desc_ok(d));
        }
        let ghost sorted_view = out@.map_values(|h2: Hit| desc_of(h2));
        let hscore = h.similarities.score();
        let mut idx: usize = out.len();
        while idx > 0 && out[idx - 1].similarities.score() > hscore
            invariant
                idx <= out@.len(),
                out@.map_values(|h2: Hit| desc_of(h2)) == sorted_view,
                descs_ok(sorted_view),
                desc_ok(d),
                hscore == hkey(d),
                forall|j: int| idx <= j < sorted_view.len() ==> hkey(#[trigger] sorted_view[j]) > hkey(d),
            decreases idx,
        {
            proof {
                assert(sorted_view[idx - 1] == desc_of(out@[idx - 1]));
            }
            idx = idx - 1;
        }
        proof {
            assert forall|j: int| 0 <= j < idx implies hkey(#[trigger] sorted_view[j]) <= hkey(
                d,
            ) by {
                assert(hkey(sorted_view[j]) <= hkey(sorted_view[idx - 1]));
            }
            lemma_insert_sorted_at(sorted_view, d, idx as int);
            lemma_insert_sorted_ok(sorted_view, d);
        }
        out.insert(idx, h);
        proof {
            assert(out@.map_values(|h2: Hit| desc_of(h2)) =~= sorted_view.take(idx as int)
                + seq![d] + sorted_view.skip(idx as int));
            assert(out@.map_values(|h2: Hit| desc_of(h2)) =~= insert_sorted(sorted_view, d));
            assert((done.push(d)).drop_last() =~= done);
            assert(sort_hits(done.push(d)) == insert_sorted(sort_hits(done), d));
        }
        proof {
            done = done.push(d);
        }
    }
    proof {
        assert(rest@.map_values(|h2: Hit| desc_of(h2)) =~= Seq::<HitDesc>::empty());
        assert(done =~= all);
    }
    out
}

impl crate::Index {
    /// Searches the crates of `scope` for items matching `query`.
    ///
    /// A candidate enters the results exactly when its similarity vector
    /// is non-empty and its mean cost, in billionths of the unit, is below
    /// `threshold`. The results come back sorted ascending by score, and
    /// candidates with equal scores keep the order in which the index
    /// enumerates them.
    ///
    /// The index must satisfy the searchable-corpus invariants
    /// ([`index_ok`]): every function and method carries a name, and every
    /// inherent impl has a receiver the link builder understands.
    pub fn search(&self, query: &query::Query, scope: Scope, threshold: u64) -> (r: Result<
        Vec<Hit>,
        SearchError,
    >)
        requires
            index_ok(*self),
        ensures
            match r {
                Ok(hits) => spec_search(*self, *query, scope, threshold) == Ok::<
                    _,
                    SearchError,
                >(hits@.map_values(|h: Hit| desc_of(h))) && sorted_by_score(hits@.map_values(|h: Hit| desc_of(h))),
                Err(e) => spec_search(*self, *query, scope, threshold) == Err::<Seq<HitDesc>, SearchError>(e),
            },
    {
        let names = scope.flatten();
        match collect_scope(self, &names, 0, query, threshold) {
            Err(e) => Err(e),
            Ok(hits) => {
                let sorted = sort_by_score(hits);
                Ok(sorted)
            },
        }
    }
}

} // verus!
