//! The executor of the earlier engine generation.
//!
//! It partitions a corpus crate into function, impl, and method maps,
//! narrows the impl scan to crates that define the queried receiver, runs
//! the coarse comparator of [`crate::approx`] over every candidate, and
//! returns the matches ordered from most to least similar.

use vstd::prelude::*;
use vstd::seq_lib::*;

use crate::approx;
use crate::approx::{spec_ax_query, total_weight};
use crate::compare::{SubstEntry, Substs, UNFOLD_FUEL};
use crate::corpus;
use crate::query;
use crate::query::clone_string;
use crate::search::{clone_str_vec, impl_self_ty, opt_view, spec_impl_self_ty, spec_update_last, views_of};

verus! {

/// Several corpus crates, partitioned for the executor, together with a
/// map from type names to the crates that define them.
pub struct Crates {
    pub krates: Vec<(String, Crate)>,
    /// For each type name, the names of the crates whose paths mention it.
    pub adts: Vec<(String, Vec<String>)>,
}

/// One corpus crate, partitioned by item kind.
pub struct Crate {
    pub functions: Vec<(corpus::Id, corpus::Item)>,
    pub impls: Vec<(corpus::Id, corpus::Item)>,
    pub methods: Vec<(corpus::Id, corpus::Item)>,
    pub paths: Vec<(corpus::Id, corpus::ItemSummary)>,
}

/// One result of the executor.
#[derive(Debug)]
pub struct Item {
    pub path: Vec<String>,
    pub link: Vec<String>,
    pub docs: Option<String>,
}

/// A result, reduced to what specifications speak about.
pub struct ItemDesc {
    pub path: Seq<Seq<char>>,
    pub link: Seq<Seq<char>>,
    pub docs: Option<Seq<char>>,
}

/// The description of an executable result.
pub open spec fn item_desc(it: Item) -> ItemDesc {
    ItemDesc { path: views_of(it.path@), link: views_of(it.link@), docs: opt_view(it.docs) }
}

/// Whether any judgement differs from `Different`: the executor's
/// admission test.
pub open spec fn spec_any_match(sims: Seq<approx::Similarity>) -> bool {
    exists|k: int| 0 <= k < sims.len() && sims[k] != approx::Similarity::Different
}

/// The executor's score: the share of the attainable weight, in percent.
/// Higher is more similar.
pub open spec fn spec_score_of(sims: Seq<approx::Similarity>) -> int {
    total_weight(sims) * 100 / (2 * (sims.len() as int))
}

/// The share of the attainable weight, in percent.
pub fn score(sims: &Vec<approx::Similarity>) -> (r: u64)
    requires
        sims@.len() > 0,
    ensures
        r == spec_score_of(sims@),
        r <= 100,
{
    let mut sum: u128 = 0;
    let mut k: usize = 0;
    while k < sims.len()
        invariant
            k <= sims.len(),
            sum == total_weight(sims@.take(k as int)),
            sum <= 2 * k,
        decreases sims.len() - k,
    {
        proof {
            assert(sims@.take(k as int + 1).drop_last() =~= sims@.take(k as int));
            assert(sims@.take(k as int + 1).last() == sims@[k as int]);
        }
        let w: u128 = match sims[k] {
            approx::Similarity::Different => 0,
            approx::Similarity::Subequal => 1,
            approx::Similarity::Equivalent => 2,
        };
        sum = sum + w;
        k = k + 1;
    }
    proof {
        assert(sims@.take(sims@.len() as int) =~= sims@);
        approx::lemma_total_weight_bounds(sims@);
        assert((sum as int) * 100 / (2 * (sims@.len() as int)) <= 100) by (nonlinear_arith)
            requires
                sims@.len() > 0 && 0 <= sum <= 2 * sims@.len(),
        ;
    }
    let r128 = sum * 100 / (2 * (sims.len() as u128));
    r128 as u64
}

/// First-match lookup of a type name in the map to crate names.
pub open spec fn adts_get(adts: Seq<(String, Vec<String>)>, name: Seq<char>) -> Option<
    Vec<String>,
>
    decreases adts.len(),
{
    if adts.len() == 0 {
        None
    } else if adts[0].0@ == name {
        Some(adts[0].1)
    } else {
        adts_get(adts.drop_first(), name)
    }
}

/// First-match lookup of a crate by name.
pub open spec fn krates_get(krates: Seq<(String, Crate)>, name: Seq<char>) -> Option<Crate>
    decreases krates.len(),
{
    if krates.len() == 0 {
        None
    } else if krates[0].0@ == name {
        Some(krates[0].1)
    } else {
        krates_get(krates.drop_first(), name)
    }
}

/// The type name the executor narrows its impl scan by: the head of the
/// first argument's type, wrappers peeled off, when it is a named path.
pub open spec fn spec_scope_name(q: query::Query) -> Option<Seq<char>> {
    match q.kind {
        Some(query::QueryKind::FunctionQuery(f)) => match f.decl.inputs {
            Some(args) => if args@.len() > 0 {
                match args@[0].ty {
                    Some(t) => match t.spec_inner_type() {
                        query::Type::UnresolvedPath { name, .. } => Some(name@),
                        _ => None,
                    },
                    None => None,
                }
            } else {
                None
            },
            None => None,
        },
        None => None,
    }
}

/// A crate the executor can walk without failing: every function has a
/// path summary, every impl a receiver the link builder understands, and
/// every method a name.
pub open spec fn old_crate_ok(c: Crate) -> bool {
    &&& forall|k: int|
        0 <= k < c.functions@.len() ==> corpus::Crate::assoc_path(
            c.paths@,
            (#[trigger] c.functions@[k]).1.id,
        ) is Some
    &&& forall|k: int|
        0 <= k < c.impls@.len() ==> old_impl_ok(c, (#[trigger] c.impls@[k]).1)
    &&& forall|k: int| 0 <= k < c.methods@.len() ==> (#[trigger] c.methods@[k]).1.name is Some
}

/// What the link builder needs of one impl entry.
pub open spec fn old_impl_ok(c: Crate, item: corpus::Item) -> bool {
    match item.inner {
        corpus::ItemEnum::Impl(im) => {
            &&& match im.trait_ {
                Some(t) => match t {
                    corpus::Type::ResolvedPath { id, .. } => corpus::Crate::assoc_path(
                        c.paths@,
                        id,
                    ) is Some,
                    _ => false,
                },
                None => match im.for_ {
                    corpus::Type::ResolvedPath { id, .. } => match corpus::Crate::assoc_path(
                        c.paths@,
                        id,
                    ) {
                        Some(s) => s.path@.len() > 0 && (s.kind is Enum || s.kind is Struct),
                        None => false,
                    },
                    corpus::Type::Primitive(_) => true,
                    _ => false,
                },
            }
        },
        _ => true,
    }
}

/// Every crate of the collection can be walked.
pub open spec fn old_crates_ok(cs: Crates) -> bool {
    forall|k: int| 0 <= k < cs.krates@.len() ==> old_crate_ok((#[trigger] cs.krates@[k]).1)
}

/// The path recorded for an item id, as character sequences.
pub open spec fn spec_path_of(c: Crate, id: corpus::Id) -> Seq<Seq<char>> {
    match corpus::Crate::assoc_path(c.paths@, id) {
        Some(s) => views_of(s.path@),
        None => Seq::<Seq<char>>::empty(),
    }
}

/// The matches among a crate's functions, from position `k` on, paired
/// with their judgement vectors.
pub open spec fn spec_fn_hits(q: query::Query, c: Crate, k: int) -> Seq<
    (ItemDesc, Seq<approx::Similarity>),
>
    decreases c.functions@.len() - k,
{
    if k < 0 || k >= c.functions@.len() {
        Seq::<(ItemDesc, Seq<approx::Similarity>)>::empty()
    } else {
        let item = c.functions@[k].1;
        let sims = spec_ax_query(
            q,
            item,
            None,
            Seq::<SubstEntry>::empty(),
            UNFOLD_FUEL as nat,
        ).0;
        let rest = spec_fn_hits(q, c, k + 1);
        if spec_any_match(sims) {
            let path = spec_path_of(c, item.id);
            let link = if path.len() > 0 {
                spec_update_last(path, "fn."@ + path.last() + ".html"@)
            } else {
                path
            };
            seq![(ItemDesc { path, link, docs: opt_view(item.docs) }, sims)] + rest
        } else {
            rest
        }
    }
}

/// The function matches of every crate, in order.
pub open spec fn spec_all_fn_hits(q: query::Query, krates: Seq<(String, Crate)>, k: int) -> Seq<
    (ItemDesc, Seq<approx::Similarity>),
>
    decreases krates.len() - k,
{
    if k < 0 || k >= krates.len() {
        Seq::<(ItemDesc, Seq<approx::Similarity>)>::empty()
    } else {
        spec_fn_hits(q, krates[k].1, 0) + spec_all_fn_hits(q, krates, k + 1)
    }
}

/// The matches among one impl's associated items, from position `k` on.
pub open spec fn spec_impl_item_hits(
    q: query::Query,
    c: Crate,
    im: corpus::Impl,
    ids: Seq<corpus::Id>,
    k: int,
) -> Seq<(ItemDesc, Seq<approx::Similarity>)>
    decreases ids.len() - k,
{
    if k < 0 || k >= ids.len() {
        Seq::<(ItemDesc, Seq<approx::Similarity>)>::empty()
    } else {
        let rest = spec_impl_item_hits(q, c, im, ids, k + 1);
        match corpus::Crate::assoc_item(c.methods@, ids[k]) {
            None => rest,
            Some(item) => {
                let base = spec_ax_query(
                    q,
                    item,
                    Some(spec_impl_self_ty(im)),
                    Seq::<SubstEntry>::empty(),
                    UNFOLD_FUEL as nat,
                ).0;
                let sims = if im.trait_ is None {
                    base + seq![approx::Similarity::Equivalent]
                } else {
                    base
                };
                if spec_any_match(sims) {
                    seq![(spec_method_desc(c, im, item), sims)] + rest
                } else {
                    rest
                }
            },
        }
    }
}

/// The path, link, and documentation of one method match.
pub open spec fn spec_method_desc(c: Crate, im: corpus::Impl, item: corpus::Item) -> ItemDesc {
    let name = match item.name {
        Some(n) => n@,
        None => Seq::<char>::empty(),
    };
    let base = match im.trait_ {
        Some(t) => match t {
            corpus::Type::ResolvedPath { name: tn, id, .. } => (
                spec_path_of(c, id),
                "trait."@ + tn@ + ".html"@,
            ),
            _ => (Seq::<Seq<char>>::empty(), Seq::<char>::empty()),
        },
        None => match im.for_ {
            corpus::Type::ResolvedPath { id, .. } => {
                let p = spec_path_of(c, id);
                let last = if p.len() > 0 {
                    p.last()
                } else {
                    Seq::<char>::empty()
                };
                let recv = match corpus::Crate::assoc_path(c.paths@, id) {
                    Some(s) => match s.kind {
                        corpus::ItemKind::Enum => "enum."@ + last + ".html"@,
                        corpus::ItemKind::Struct => "struct."@ + last + ".html"@,
                        _ => Seq::<char>::empty(),
                    },
                    None => Seq::<char>::empty(),
                };
                (p, recv)
            },
            corpus::Type::Primitive(p) => (seq![p@], "primitive."@ + p@ + ".html"@),
            _ => (Seq::<Seq<char>>::empty(), Seq::<char>::empty()),
        },
    };
    let link0 = spec_update_last(base.0, base.1);
    let link = match item.inner {
        corpus::ItemEnum::Method(m) => {
            let anchor = if im.trait_ is None || m.has_body {
                "#method."@ + name
            } else {
                "#tymethod."@ + name
            };
            if link0.len() > 0 {
                spec_update_last(link0, link0.last() + anchor)
            } else {
                link0
            }
        },
        _ => link0,
    };
    ItemDesc { path: base.0.push(name), link, docs: opt_view(item.docs) }
}

/// The method matches of one crate's impls, from impl `k` on.
pub open spec fn spec_impls_hits(q: query::Query, c: Crate, k: int) -> Seq<
    (ItemDesc, Seq<approx::Similarity>),
>
    decreases c.impls@.len() - k,
{
    if k < 0 || k >= c.impls@.len() {
        Seq::<(ItemDesc, Seq<approx::Similarity>)>::empty()
    } else {
        let head = match c.impls@[k].1.inner {
            corpus::ItemEnum::Impl(im) => spec_impl_item_hits(q, c, im, im.items@, 0),
            _ => Seq::<(ItemDesc, Seq<approx::Similarity>)>::empty(),
        };
        head + spec_impls_hits(q, c, k + 1)
    }
}

/// The method matches of the crates selected by the scope narrowing.
pub open spec fn spec_selected_impl_hits(
    q: query::Query,
    cs: Crates,
    names: Seq<String>,
    k: int,
) -> Seq<(ItemDesc, Seq<approx::Similarity>)>
    decreases names.len() - k,
{
    if k < 0 || k >= names.len() {
        Seq::<(ItemDesc, Seq<approx::Similarity>)>::empty()
    } else {
        let rest = spec_selected_impl_hits(q, cs, names, k + 1);
        match krates_get(cs.krates@, names[k]@) {
            Some(c) => spec_impls_hits(q, c, 0) + rest,
            None => rest,
        }
    }
}

/// The method matches of every crate.
pub open spec fn spec_all_impl_hits(q: query::Query, krates: Seq<(String, Crate)>, k: int) -> Seq<
    (ItemDesc, Seq<approx::Similarity>),
>
    decreases krates.len() - k,
{
    if k < 0 || k >= krates.len() {
        Seq::<(ItemDesc, Seq<approx::Similarity>)>::empty()
    } else {
        spec_impls_hits(q, krates[k].1, 0) + spec_all_impl_hits(q, krates, k + 1)
    }
}

/// Everything the executor collects, in enumeration order.
pub open spec fn spec_collected(q: query::Query, cs: Crates) -> Seq<
    (ItemDesc, Seq<approx::Similarity>),
> {
    let phase1 = spec_all_fn_hits(q, cs.krates@, 0);
    let phase3 = match spec_scope_name(q) {
        Some(nm) => match adts_get(cs.adts@, nm) {
            Some(names) => spec_selected_impl_hits(q, cs, names@, 0),
            None => Seq::<(ItemDesc, Seq<approx::Similarity>)>::empty(),
        },
        None => spec_all_impl_hits(q, cs.krates@, 0),
    };
    phase1 + phase3
}

/// Stable ascending insertion by score.
pub open spec fn old_insert_sorted(
    s: Seq<(ItemDesc, Seq<approx::Similarity>)>,
    d: (ItemDesc, Seq<approx::Similarity>),
) -> Seq<(ItemDesc, Seq<approx::Similarity>)>
    decreases s.len(),
{
    if s.len() == 0 {
        seq![d]
    } else if spec_score_of(s.last().1) <= spec_score_of(d.1) {
        s.push(d)
    } else {
        old_insert_sorted(s.drop_last(), d).push(s.last())
    }
}

/// Stable sort by ascending score.
pub open spec fn old_sort(s: Seq<(ItemDesc, Seq<approx::Similarity>)>) -> Seq<
    (ItemDesc, Seq<approx::Similarity>),
>
    decreases s.len(),
{
    if s.len() == 0 {
        Seq::<(ItemDesc, Seq<approx::Similarity>)>::empty()
    } else {
        old_insert_sorted(old_sort(s.drop_last()), s.last())
    }
}

/// What the executor returns: most similar first; among equal scores, the
/// candidate enumerated later comes first.
pub open spec fn spec_exec(q: query::Query, cs: Crates) -> Seq<ItemDesc> {
    old_sort(spec_collected(q, cs)).reverse().map_values(
        |p: (ItemDesc, Seq<approx::Similarity>)| p.0,
    )
}


/// The pair of one result and its judgement vector, as specifications
/// speak about it.
pub open spec fn pair_desc(p: (Item, Vec<approx::Similarity>)) -> (
    ItemDesc,
    Seq<approx::Similarity>,
) {
    (item_desc(p.0), p.1@)
}

/// Every collected pair can be scored.
pub open spec fn pairs_ok(s: Seq<(ItemDesc, Seq<approx::Similarity>)>) -> bool {
    forall|k: int| 0 <= k < s.len() ==> (#[trigger] s[k]).1.len() > 0
}

/// Whatever an id lookup returns is stored in the crate list.
pub proof fn lemma_krates_get_member(krates: Seq<(String, Crate)>, name: Seq<char>)
    ensures
        match krates_get(krates, name) {
            Some(c) => exists|k: int| 0 <= k < krates.len() && (#[trigger] krates[k]).1 == c,
            None => true,
        },
    decreases krates.len(),
{
    if krates.len() > 0 {
        if krates[0].0@ == name {
            assert(krates[0].1 == krates_get(krates, name)->0);
        } else {
            lemma_krates_get_member(krates.drop_first(), name);
            if krates_get(krates, name) is Some {
                let c = krates_get(krates, name)->0;
                let k = choose|k: int|
                    0 <= k < krates.drop_first().len() && (#[trigger] krates.drop_first()[k]).1
                        == c;
                assert(krates[k + 1].1 == c);
            }
        }
    }
}

/// Whether any judgement differs from `Different`.
fn any_match(sims: &Vec<approx::Similarity>) -> (r: bool)
    ensures
        r == spec_any_match(sims@),
{
    let mut k: usize = 0;
    while k < sims.len()
        invariant
            k <= sims.len(),
            forall|j: int| 0 <= j < k ==> sims@[j] == approx::Similarity::Different,
        decreases sims.len() - k,
    {
        let hit = match sims[k] {
            approx::Similarity::Different => false,
            _ => true,
        };
        if hit {
            return true;
        }
        k = k + 1;
    }
    false
}

/// The path recorded for an id, copied.
fn path_of(c: &Crate, id: &corpus::Id) -> (r: Option<Vec<String>>)
    ensures
        match r {
            Some(p) => corpus::Crate::assoc_path(c.paths@, *id) is Some && views_of(p@)
                == spec_path_of(*c, *id),
            None => corpus::Crate::assoc_path(c.paths@, *id) is None,
        },
{
    let mut k: usize = 0;
    proof {
        assert(c.paths@.skip(0) =~= c.paths@);
    }
    while k < c.paths.len()
        invariant
            k <= c.paths.len(),
            corpus::Crate::assoc_path(c.paths@.skip(k as int), *id) == corpus::Crate::assoc_path(
                c.paths@,
                *id,
            ),
        decreases c.paths.len() - k,
    {
        proof {
            assert(c.paths@.skip(k as int)[0] == c.paths@[k as int]);
            assert(c.paths@.skip(k as int).drop_first() =~= c.paths@.skip(k as int + 1));
        }
        if crate::corpus::str_eq(c.paths[k].0.0.as_str(), id.0.as_str()) {
            return Some(clone_str_vec(&c.paths[k].1.path));
        }
        k = k + 1;
    }
    proof {
        assert(c.paths@.skip(k as int) =~= Seq::<(corpus::Id, corpus::ItemSummary)>::empty());
    }
    None
}

/// First-match lookup of a method item.
fn methods_get<'a>(c: &'a Crate, id: &corpus::Id) -> (r: Option<&'a corpus::Item>)
    ensures
        match r {
            Some(item) => corpus::Crate::assoc_item(c.methods@, *id) == Some(*item),
            None => corpus::Crate::assoc_item(c.methods@, *id) is None,
        },
{
    let mut k: usize = 0;
    proof {
        assert(c.methods@.skip(0) =~= c.methods@);
    }
    while k < c.methods.len()
        invariant
            k <= c.methods.len(),
            corpus::Crate::assoc_item(c.methods@.skip(k as int), *id) == corpus::Crate::assoc_item(
                c.methods@,
                *id,
            ),
        decreases c.methods.len() - k,
    {
        proof {
            assert(c.methods@.skip(k as int)[0] == c.methods@[k as int]);
            assert(c.methods@.skip(k as int).drop_first() =~= c.methods@.skip(k as int + 1));
        }
        if crate::corpus::str_eq(c.methods[k].0.0.as_str(), id.0.as_str()) {
            return Some(&c.methods[k].1);
        }
        k = k + 1;
    }
    proof {
        assert(c.methods@.skip(k as int) =~= Seq::<(corpus::Id, corpus::Item)>::empty());
    }
    None
}

/// The matches among a crate's functions; see [`spec_fn_hits`].
fn fn_hits(q: &query::Query, c: &Crate, k: usize) -> (r: Vec<(Item, Vec<approx::Similarity>)>)
    requires
        old_crate_ok(*c),
    ensures
        r@.map_values(|p: (Item, Vec<approx::Similarity>)| pair_desc(p)) == spec_fn_hits(
            *q,
            *c,
            k as int,
        ),
        pairs_ok(r@.map_values(|p: (Item, Vec<approx::Similarity>)| pair_desc(p))),
    decreases c.functions@.len() - k,
{
    if k >= c.functions.len() {
        let r: Vec<(Item, Vec<approx::Similarity>)> = Vec::new();
        proof {
            assert(r@.map_values(|p: (Item, Vec<approx::Similarity>)| pair_desc(p)) =~= Seq::<
                (ItemDesc, Seq<approx::Similarity>),
            >::empty());
        }
        return r;
    }
    let item = &c.functions[k].1;
    let mut substs = Substs::new();
    let sims = q.approx(item, None, &mut substs);
    let tail = fn_hits(q, c, k + 1);
    if any_match(&sims) {
        let path = match path_of(c, &item.id) {
            Some(p) => p,
            None => unreached(),
        };
        let mut link = clone_str_vec(&path);
        let ghost link0 = views_of(link@);
        let last_opt = link.pop();
        if let Some(l) = last_opt {
            link.push(crate::search::glue3("fn.", &l, ".html"));
            proof {
                assert(views_of(link@) =~= spec_update_last(
                    link0,
                    "fn."@ + link0.last() + ".html"@,
                ));
            }
        }
        let docs = match &item.docs {
            Some(d) => Some(clone_string(d)),
            None => None,
        };
        let it = Item { path, link, docs };
        let mut out: Vec<(Item, Vec<approx::Similarity>)> = Vec::new();
        out.push((it, sims));
        let mut t2 = tail;
        let ghost tview = t2@.map_values(|p: (Item, Vec<approx::Similarity>)| pair_desc(p));
        out.append(&mut t2);
        proof {
            assert(out@.map_values(|p: (Item, Vec<approx::Similarity>)| pair_desc(p))
                =~= spec_fn_hits(*q, *c, k as int));
        }
        out
    } else {
        tail
    }
}

/// The function matches of every crate; see [`spec_all_fn_hits`].
fn all_fn_hits(q: &query::Query, krates: &Vec<(String, Crate)>, k: usize) -> (r: Vec<
    (Item, Vec<approx::Similarity>),
>)
    requires
        forall|j: int| 0 <= j < krates@.len() ==> old_crate_ok((#[trigger] krates@[j]).1),
    ensures
        r@.map_values(|p: (Item, Vec<approx::Similarity>)| pair_desc(p)) == spec_all_fn_hits(
            *q,
            krates@,
            k as int,
        ),
        pairs_ok(r@.map_values(|p: (Item, Vec<approx::Similarity>)| pair_desc(p))),
    decreases krates@.len() - k,
{
    if k >= krates.len() {
        let r: Vec<(Item, Vec<approx::Similarity>)> = Vec::new();
        proof {
            assert(r@.map_values(|p: (Item, Vec<approx::Similarity>)| pair_desc(p)) =~= Seq::<
                (ItemDesc, Seq<approx::Similarity>),
            >::empty());
        }
        return r;
    }
    let mut head = fn_hits(q, &krates[k].1, 0);
    let mut tail = all_fn_hits(q, krates, k + 1);
    let ghost hview = head@.map_values(|p: (Item, Vec<approx::Similarity>)| pair_desc(p));
    let ghost tview = tail@.map_values(|p: (Item, Vec<approx::Similarity>)| pair_desc(p));
    head.append(&mut tail);
    proof {
        assert(head@.map_values(|p: (Item, Vec<approx::Similarity>)| pair_desc(p)) =~= hview
            + tview);
    }
    head
}

/// Builds the result for one matched method; see [`spec_method_desc`].
fn make_method_item(c: &Crate, im: &corpus::Impl, item: &corpus::Item) -> (r: Item)
    requires
        old_impl_ok_im(*c, *im),
        item.name is Some,
    ensures
        item_desc(r) == spec_method_desc(*c, *im, *item),
{
    let nm: &String = match &item.name {
        Some(n) => n,
        None => unreached(),
    };
    let base: (Vec<String>, String) = match &im.trait_ {
        Some(t) => match t {
            corpus::Type::ResolvedPath { name: tn, id, .. } => match path_of(c, id) {
                Some(p) => (p, crate::search::glue3("trait.", tn, ".html")),
                None => unreached(),
            },
            _ => unreached(),
        },
        None => match &im.for_ {
            corpus::Type::ResolvedPath { id, .. } => {
                let p = match path_of(c, id) {
                    Some(p) => p,
                    None => unreached(),
                };
                let last: &String = &p[p.len() - 1];
                let s = match c.paths[find_path_index(c, id)].1.kind {
                    corpus::ItemKind::Enum => crate::search::glue3("enum.", last, ".html"),
                    corpus::ItemKind::Struct => crate::search::glue3("struct.", last, ".html"),
                    _ => unreached(),
                };
                (p, s)
            },
            corpus::Type::Primitive(p) => {
                let mut b: Vec<String> = Vec::new();
                b.push(clone_string(p));
                proof {
                    assert(views_of(b@) =~= seq![p@]);
                }
                (b, crate::search::glue3("primitive.", p, ".html"))
            },
            _ => unreached(),
        },
    };
    let (path0, recv) = base;
    let mut link = clone_str_vec(&path0);
    crate::search::set_last(&mut link, recv);
    let ghost link0 = views_of(link@);
    let has_anchor: Option<bool> = match &item.inner {
        corpus::ItemEnum::Method(m) => Some(im.trait_.is_none() || m.has_body),
        _ => None,
    };
    if let Some(method_kind) = has_anchor {
        let last_opt = link.pop();
        if let Some(l) = last_opt {
            let mut s2 = l;
            if method_kind {
                s2.append("#method.");
            } else {
                s2.append("#tymethod.");
            }
            s2.append(nm.as_str());
            link.push(s2);
            proof {
                let anchor = if method_kind {
                    "#method."@ + nm@
                } else {
                    "#tymethod."@ + nm@
                };
                assert(views_of(link@) =~~= spec_update_last(link0, link0.last() + anchor));
            }
        }
    }
    let mut path = path0;
    let ghost pview = views_of(path@);
    path.push(clone_string(nm));
    proof {
        assert(views_of(path@) =~= pview.push(nm@));
    }
    let docs = match &item.docs {
        Some(d) => Some(clone_string(d)),
        None => None,
    };
    Item { path, link, docs }
}

/// What the link builder needs of one impl.
pub open spec fn old_impl_ok_im(c: Crate, im: corpus::Impl) -> bool {
    match im.trait_ {
        Some(t) => match t {
            corpus::Type::ResolvedPath { id, .. } => corpus::Crate::assoc_path(c.paths@, id)
                is Some,
            _ => false,
        },
        None => match im.for_ {
            corpus::Type::ResolvedPath { id, .. } => match corpus::Crate::assoc_path(
                c.paths@,
                id,
            ) {
                Some(s) => s.path@.len() > 0 && (s.kind is Enum || s.kind is Struct),
                None => false,
            },
            corpus::Type::Primitive(_) => true,
            _ => false,
        },
    }
}

/// The index of the path entry for `id`, which must exist.
fn find_path_index(c: &Crate, id: &corpus::Id) -> (r: usize)
    requires
        corpus::Crate::assoc_path(c.paths@, *id) is Some,
    ensures
        r < c.paths@.len(),
        c.paths@[r as int].1 == corpus::Crate::assoc_path(c.paths@, *id)->0,
{
    let mut k: usize = 0;
    proof {
        assert(c.paths@.skip(0) =~= c.paths@);
    }
    while k < c.paths.len()
        invariant
            k <= c.paths.len(),
            corpus::Crate::assoc_path(c.paths@.skip(k as int), *id) == corpus::Crate::assoc_path(
                c.paths@,
                *id,
            ),
        decreases c.paths.len() - k,
    {
        proof {
            assert(c.paths@.skip(k as int)[0] == c.paths@[k as int]);
            assert(c.paths@.skip(k as int).drop_first() =~= c.paths@.skip(k as int + 1));
        }
        if crate::corpus::str_eq(c.paths[k].0.0.as_str(), id.0.as_str()) {
            return k;
        }
        k = k + 1;
    }
    proof {
        assert(c.paths@.skip(k as int) =~= Seq::<(corpus::Id, corpus::ItemSummary)>::empty());
    }
    unreached()
}


/// The matches among one impl's associated items; see
/// [`spec_impl_item_hits`].
fn impl_item_hits(
    q: &query::Query,
    c: &Crate,
    im: &corpus::Impl,
    ids: &Vec<corpus::Id>,
    k: usize,
) -> (r: Vec<(Item, Vec<approx::Similarity>)>)
    requires
        old_crate_ok(*c),
        old_impl_ok_im(*c, *im),
    ensures
        r@.map_values(|p: (Item, Vec<approx::Similarity>)| pair_desc(p)) == spec_impl_item_hits(
            *q,
            *c,
            *im,
            ids@,
            k as int,
        ),
        pairs_ok(r@.map_values(|p: (Item, Vec<approx::Similarity>)| pair_desc(p))),
    decreases ids@.len() - k,
{
    if k >= ids.len() {
        let r: Vec<(Item, Vec<approx::Similarity>)> = Vec::new();
        proof {
            assert(r@.map_values(|p: (Item, Vec<approx::Similarity>)| pair_desc(p)) =~= Seq::<
                (ItemDesc, Seq<approx::Similarity>),
            >::empty());
        }
        return r;
    }
    let tail = impl_item_hits(q, c, im, ids, k + 1);
    match methods_get(c, &ids[k]) {
        None => tail,
        Some(item) => {
            proof {
                crate::search::lemma_assoc_item_member(c.methods@, ids@[k as int]);
            }
            let mut substs = Substs::new();
            let st = impl_self_ty(im);
            let mut sims = q.approx(item, Some(st), &mut substs);
            let ghost base = sims@;
            if im.trait_.is_none() {
                sims.push(approx::Similarity::Equivalent);
                proof {
                    assert(sims@ =~= base + seq![approx::Similarity::Equivalent]);
                }
            }
            if any_match(&sims) {
                let it = make_method_item(c, im, item);
                let mut out: Vec<(Item, Vec<approx::Similarity>)> = Vec::new();
                out.push((it, sims));
                let mut t2 = tail;
                let ghost tview = t2@.map_values(
                    |p: (Item, Vec<approx::Similarity>)| pair_desc(p),
                );
                out.append(&mut t2);
                proof {
                    assert(out@.map_values(|p: (Item, Vec<approx::Similarity>)| pair_desc(p))
                        =~= spec_impl_item_hits(*q, *c, *im, ids@, k as int));
                }
                out
            } else {
                tail
            }
        },
    }
}

/// The method matches of one crate's impls; see [`spec_impls_hits`].
fn impls_hits(q: &query::Query, c: &Crate, k: usize) -> (r: Vec<(Item, Vec<approx::Similarity>)>)
    requires
        old_crate_ok(*c),
    ensures
        r@.map_values(|p: (Item, Vec<approx::Similarity>)| pair_desc(p)) == spec_impls_hits(
            *q,
            *c,
            k as int,
        ),
        pairs_ok(r@.map_values(|p: (Item, Vec<approx::Similarity>)| pair_desc(p))),
    decreases c.impls@.len() - k,
{
    if k >= c.impls.len() {
        let r: Vec<(Item, Vec<approx::Similarity>)> = Vec::new();
        proof {
            assert(r@.map_values(|p: (Item, Vec<approx::Similarity>)| pair_desc(p)) =~= Seq::<
                (ItemDesc, Seq<approx::Similarity>),
            >::empty());
        }
        return r;
    }
    let mut head: Vec<(Item, Vec<approx::Similarity>)> = match &c.impls[k].1.inner {
        corpus::ItemEnum::Impl(im) => impl_item_hits(q, c, im, &im.items, 0),
        _ => {
            let r: Vec<(Item, Vec<approx::Similarity>)> = Vec::new();
            proof {
                assert(r@.map_values(|p: (Item, Vec<approx::Similarity>)| pair_desc(p)) =~= Seq::<
                    (ItemDesc, Seq<approx::Similarity>),
                >::empty());
            }
            r
        },
    };
    let mut tail = impls_hits(q, c, k + 1);
    let ghost hview = head@.map_values(|p: (Item, Vec<approx::Similarity>)| pair_desc(p));
    let ghost tview = tail@.map_values(|p: (Item, Vec<approx::Similarity>)| pair_desc(p));
    head.append(&mut tail);
    proof {
        assert(head@.map_values(|p: (Item, Vec<approx::Similarity>)| pair_desc(p)) =~= hview
            + tview);
    }
    head
}

/// The method matches of the crates named by the narrowing; see
/// [`spec_selected_impl_hits`].
fn selected_impl_hits(
    q: &query::Query,
    krates: &Vec<(String, Crate)>,
    adts: &Vec<(String, Vec<String>)>,
    names: &Vec<String>,
    k: usize,
) -> (r: Vec<(Item, Vec<approx::Similarity>)>)
    requires
        forall|j: int| 0 <= j < krates@.len() ==> old_crate_ok((#[trigger] krates@[j]).1),
    ensures
        r@.map_values(|p: (Item, Vec<approx::Similarity>)| pair_desc(p))
            == spec_selected_impl_hits(
            *q,
            Crates { krates: *krates, adts: *adts },
            names@,
            k as int,
        ),
        pairs_ok(r@.map_values(|p: (Item, Vec<approx::Similarity>)| pair_desc(p))),
    decreases names@.len() - k,
{
    if k >= names.len() {
        let r: Vec<(Item, Vec<approx::Similarity>)> = Vec::new();
        proof {
            assert(r@.map_values(|p: (Item, Vec<approx::Similarity>)| pair_desc(p)) =~= Seq::<
                (ItemDesc, Seq<approx::Similarity>),
            >::empty());
        }
        return r;
    }
    let tail = selected_impl_hits(q, krates, adts, names, k + 1);
    match krate_lookup(krates, &names[k]) {
        Some(c) => {
            proof {
                lemma_krates_get_member(krates@, names@[k as int]@);
            }
            let mut head = impls_hits(q, c, 0);
            let ghost hview = head@.map_values(|p: (Item, Vec<approx::Similarity>)| pair_desc(p));
            let mut t2 = tail;
            let ghost tview = t2@.map_values(|p: (Item, Vec<approx::Similarity>)| pair_desc(p));
            head.append(&mut t2);
            proof {
                assert(head@.map_values(|p: (Item, Vec<approx::Similarity>)| pair_desc(p))
                    =~= hview + tview);
            }
            head
        },
        None => tail,
    }
}

/// The method matches of every crate; see [`spec_all_impl_hits`].
fn all_impl_hits(q: &query::Query, krates: &Vec<(String, Crate)>, k: usize) -> (r: Vec<
    (Item, Vec<approx::Similarity>),
>)
    requires
        forall|j: int| 0 <= j < krates@.len() ==> old_crate_ok((#[trigger] krates@[j]).1),
    ensures
        r@.map_values(|p: (Item, Vec<approx::Similarity>)| pair_desc(p)) == spec_all_impl_hits(
            *q,
            krates@,
            k as int,
        ),
        pairs_ok(r@.map_values(|p: (Item, Vec<approx::Similarity>)| pair_desc(p))),
    decreases krates@.len() - k,
{
    if k >= krates.len() {
        let r: Vec<(Item, Vec<approx::Similarity>)> = Vec::new();
        proof {
            assert(r@.map_values(|p: (Item, Vec<approx::Similarity>)| pair_desc(p)) =~= Seq::<
                (ItemDesc, Seq<approx::Similarity>),
            >::empty());
        }
        return r;
    }
    let mut head = impls_hits(q, &krates[k].1, 0);
    let mut tail = all_impl_hits(q, krates, k + 1);
    let ghost hview = head@.map_values(|p: (Item, Vec<approx::Similarity>)| pair_desc(p));
    let ghost tview = tail@.map_values(|p: (Item, Vec<approx::Similarity>)| pair_desc(p));
    head.append(&mut tail);
    proof {
        assert(head@.map_values(|p: (Item, Vec<approx::Similarity>)| pair_desc(p)) =~= hview
            + tview);
    }
    head
}

/// First-match lookup of a crate by name.
fn krate_lookup<'a>(krates: &'a Vec<(String, Crate)>, name: &String) -> (r: Option<&'a Crate>)
    ensures
        match r {
            Some(c) => krates_get(krates@, name@) == Some(*c),
            None => krates_get(krates@, name@) is None,
        },
{
    let mut k: usize = 0;
    proof {
        assert(krates@.skip(0) =~= krates@);
    }
    while k < krates.len()
        invariant
            k <= krates.len(),
            krates_get(krates@.skip(k as int), name@) == krates_get(krates@, name@),
        decreases krates.len() - k,
    {
        proof {
            assert(krates@.skip(k as int)[0] == krates@[k as int]);
            assert(krates@.skip(k as int).drop_first() =~= krates@.skip(k as int + 1));
        }
        if crate::corpus::str_eq(krates[k].0.as_str(), name.as_str()) {
            return Some(&krates[k].1);
        }
        k = k + 1;
    }
    proof {
        assert(krates@.skip(k as int) =~= Seq::<(String, Crate)>::empty());
    }
    None
}

/// First-match lookup in the type-name map.
fn adts_lookup<'a>(adts: &'a Vec<(String, Vec<String>)>, name: &String) -> (r: Option<
    &'a Vec<String>,
>)
    ensures
        match r {
            Some(v) => adts_get(adts@, name@) == Some(*v),
            None => adts_get(adts@, name@) is None,
        },
{
    let mut k: usize = 0;
    proof {
        assert(adts@.skip(0) =~= adts@);
    }
    while k < adts.len()
        invariant
            k <= adts.len(),
            adts_get(adts@.skip(k as int), name@) == adts_get(adts@, name@),
        decreases adts.len() - k,
    {
        proof {
            assert(adts@.skip(k as int)[0] == adts@[k as int]);
            assert(adts@.skip(k as int).drop_first() =~= adts@.skip(k as int + 1));
        }
        if crate::corpus::str_eq(adts[k].0.as_str(), name.as_str()) {
            return Some(&adts[k].1);
        }
        k = k + 1;
    }
    proof {
        assert(adts@.skip(k as int) =~= Seq::<(String, Vec<String>)>::empty());
    }
    None
}

/// Sorted ascending by the executor's score.
pub open spec fn old_sorted(s: Seq<(ItemDesc, Seq<approx::Similarity>)>) -> bool {
    forall|i: int, j: int|
        0 <= i < j < s.len() ==> spec_score_of((#[trigger] s[i]).1) <= spec_score_of(
            (#[trigger] s[j]).1,
        )
}

/// Where a stable insertion by score lands.
proof fn lemma_old_insert_sorted_at(
    s: Seq<(ItemDesc, Seq<approx::Similarity>)>,
    d: (ItemDesc, Seq<approx::Similarity>),
    p: int,
)
    requires
        old_sorted(s),
        0 <= p <= s.len(),
        forall|j: int| 0 <= j < p ==> spec_score_of((#[trigger] s[j]).1) <= spec_score_of(d.1),
        forall|j: int| p <= j < s.len() ==> spec_score_of((#[trigger] s[j]).1) > spec_score_of(
            d.1,
        ),
    ensures
        old_insert_sorted(s, d) =~= s.take(p) + seq![d] + s.skip(p),
        old_sorted(old_insert_sorted(s, d)),
    decreases s.len(),
{
    if s.len() == 0 {
        assert(old_insert_sorted(s, d) =~= s.take(p) + seq![d] + s.skip(p));
    } else if spec_score_of(s.last().1) <= spec_score_of(d.1) {
        assert(p == s.len());
        assert(old_insert_sorted(s, d) =~= s.take(p) + seq![d] + s.skip(p));
    } else {
        assert(old_sorted(s.drop_last()));
        lemma_old_insert_sorted_at(s.drop_last(), d, p);
        assert(s.drop_last().take(p) =~= s.take(p));
        assert(s.drop_last().skip(p).push(s.last()) =~= s.skip(p));
        assert(old_insert_sorted(s, d) =~= s.take(p) + seq![d] + s.skip(p));
        assert forall|i: int, j: int|
            0 <= i < j < old_insert_sorted(s, d).len() implies spec_score_of(
            (#[trigger] old_insert_sorted(s, d)[i]).1,
        ) <= spec_score_of((#[trigger] old_insert_sorted(s, d)[j]).1) by {
            let t = s.take(p) + seq![d] + s.skip(p);
            assert(old_insert_sorted(s, d) == t);
        }
    }
}

/// Scorability carries through an insertion.
proof fn lemma_old_insert_ok(
    s: Seq<(ItemDesc, Seq<approx::Similarity>)>,
    d: (ItemDesc, Seq<approx::Similarity>),
)
    requires
        pairs_ok(s),
        d.1.len() > 0,
    ensures
        pairs_ok(old_insert_sorted(s, d)),
    decreases s.len(),
{
    if s.len() == 0 {
    } else if spec_score_of(s.last().1) <= spec_score_of(d.1) {
    } else {
        assert(pairs_ok(s.drop_last()));
        lemma_old_insert_ok(s.drop_last(), d);
    }
}

/// Stable insertion sort of the collected pairs, ascending by score.
fn old_sort_exec(pairs: Vec<(Item, Vec<approx::Similarity>)>) -> (r: Vec<
    (Item, Vec<approx::Similarity>),
>)
    requires
        pairs_ok(pairs@.map_values(|p: (Item, Vec<approx::Similarity>)| pair_desc(p))),
    ensures
        r@.map_values(|p: (Item, Vec<approx::Similarity>)| pair_desc(p)) == old_sort(
            pairs@.map_values(|p: (Item, Vec<approx::Similarity>)| pair_desc(p)),
        ),
{
    let ghost all = pairs@.map_values(|p: (Item, Vec<approx::Similarity>)| pair_desc(p));
    let mut rest = pairs;
    let mut out: Vec<(Item, Vec<approx::Similarity>)> = Vec::new();
    let ghost done = Seq::<(ItemDesc, Seq<approx::Similarity>)>::empty();
    proof {
        assert(out@.map_values(|p: (Item, Vec<approx::Similarity>)| pair_desc(p)) =~= old_sort(
            done,
        ));
        assert(done + rest@.map_values(|p: (Item, Vec<approx::Similarity>)| pair_desc(p)) =~= all);
    }
    while rest.len() > 0
        invariant
            done + rest@.map_values(|p: (Item, Vec<approx::Similarity>)| pair_desc(p)) == all,
            pairs_ok(all),
            out@.map_values(|p: (Item, Vec<approx::Similarity>)| pair_desc(p)) == old_sort(done),
            old_sorted(out@.map_values(|p: (Item, Vec<approx::Similarity>)| pair_desc(p))),
            pairs_ok(out@.map_values(|p: (Item, Vec<approx::Similarity>)| pair_desc(p))),
        decreases rest@.len(),
    {
        let ghost rest_view = rest@.map_values(|p: (Item, Vec<approx::Similarity>)| pair_desc(p));
        let h = rest.remove(0);
        let ghost d = pair_desc(h);
        proof {
            assert(rest_view[0] == d);
            assert(rest@.map_values(|p: (Item, Vec<approx::Similarity>)| pair_desc(p))
                =~= rest_view.drop_first());
            assert(done + rest_view =~= (done.push(d)) + rest_view.drop_first());
            assert(0 <= done.len() < all.len());
            assert(all[done.len() as int] == d);
            assert(d.1.len() > 0);
        }
        let ghost sorted_view = out@.map_values(|p: (Item, Vec<approx::Similarity>)| pair_desc(p));
        proof {
            assert forall|j: int| 0 <= j < out@.len() implies (#[trigger] out@[j]).1@.len()
                > 0 by {
                assert(pair_desc(out@[j]) == sorted_view[j]);
            }
        }
        let hscore = score(&h.1);
        let mut idx: usize = out.len();
        while idx > 0 && score(&out[idx - 1].1) > hscore
            invariant
                idx <= out@.len(),
                out@.map_values(|p: (Item, Vec<approx::Similarity>)| pair_desc(p)) == sorted_view,
                pairs_ok(sorted_view),
                forall|j: int| 0 <= j < out@.len() ==> (#[trigger] out@[j]).1@.len() > 0,
                d.1.len() > 0,
                hscore == spec_score_of(d.1),
                forall|j: int|
                    idx <= j < sorted_view.len() ==> spec_score_of((#[trigger] sorted_view[j]).1)
                        > spec_score_of(d.1),
            decreases idx,
        {
            proof {
                assert(sorted_view[idx - 1] == pair_desc(out@[idx - 1]));
            }
            idx = idx - 1;
        }
        proof {
            assert forall|j: int| 0 <= j < idx implies spec_score_of(
                (#[trigger] sorted_view[j]).1,
            ) <= spec_score_of(d.1) by {
                assert(spec_score_of(sorted_view[j].1) <= spec_score_of(sorted_view[idx - 1].1));
            }
            lemma_old_insert_sorted_at(sorted_view, d, idx as int);
            lemma_old_insert_ok(sorted_view, d);
        }
        out.insert(idx, h);
        proof {
            assert(out@.map_values(|p: (Item, Vec<approx::Similarity>)| pair_desc(p))
                =~= sorted_view.take(idx as int) + seq![d] + sorted_view.skip(idx as int));
            assert(out@.map_values(|p: (Item, Vec<approx::Similarity>)| pair_desc(p))
                =~= old_insert_sorted(sorted_view, d));
            assert((done.push(d)).drop_last() =~= done);
            assert(old_sort(done.push(d)) == old_insert_sorted(old_sort(done), d));
        }
        proof {
            done = done.push(d);
        }
    }
    proof {
        assert(rest@.map_values(|p: (Item, Vec<approx::Similarity>)| pair_desc(p)) =~= Seq::<
            (ItemDesc, Seq<approx::Similarity>),
        >::empty());
        assert(done =~= all);
    }
    out
}

/// The executor: holds the partitioned crates and answers queries.
pub struct QueryExecutor {
    pub krates: Crates,
}

impl QueryExecutor {
    /// The partitioned crates the executor searches.
    pub open spec fn spec_krates(&self) -> Crates {
        self.krates
    }

    /// Wraps the partitioned crates.
    pub fn new(krates: Crates) -> (r: QueryExecutor)
        ensures
            r.spec_krates() == krates,
    {
        QueryExecutor { krates }
    }

    /// Runs a query over every crate: functions everywhere, methods in the
    /// crates that define the queried receiver, most similar first; see
    /// [`spec_exec`].
    pub fn exec(&self, query: &query::Query) -> (r: Vec<Item>)
        requires
            old_crates_ok(self.spec_krates()),
        ensures
            r@.map_values(|it: Item| item_desc(it)) == spec_exec(*query, self.spec_krates()),
    {
        let mut collected = all_fn_hits(query, &self.krates.krates, 0);
        let scope_name: Option<&String> = match &query.kind {
            Some(query::QueryKind::FunctionQuery(f)) => match &f.decl.inputs {
                Some(args) => if args.len() > 0 {
                    match &args[0].ty {
                        Some(t) => match t.inner_type() {
                            query::Type::UnresolvedPath { name, .. } => Some(name),
                            _ => None,
                        },
                        None => None,
                    }
                } else {
                    None
                },
                None => None,
            },
            None => None,
        };
        let mut phase3: Vec<(Item, Vec<approx::Similarity>)> = match scope_name {
            Some(nm) => match adts_lookup(&self.krates.adts, nm) {
                Some(names) => selected_impl_hits(
                    query,
                    &self.krates.krates,
                    &self.krates.adts,
                    names,
                    0,
                ),
                None => {
                    let r: Vec<(Item, Vec<approx::Similarity>)> = Vec::new();
                    proof {
                        assert(r@.map_values(|p: (Item, Vec<approx::Similarity>)| pair_desc(p))
                            =~= Seq::<(ItemDesc, Seq<approx::Similarity>)>::empty());
                    }
                    r
                },
            },
            None => all_impl_hits(query, &self.krates.krates, 0),
        };
        let ghost c1 = collected@.map_values(|p: (Item, Vec<approx::Similarity>)| pair_desc(p));
        let ghost c3 = phase3@.map_values(|p: (Item, Vec<approx::Similarity>)| pair_desc(p));
        collected.append(&mut phase3);
        proof {
            assert(collected@.map_values(|p: (Item, Vec<approx::Similarity>)| pair_desc(p)) =~= c1
                + c3);
            assert(collected@.map_values(|p: (Item, Vec<approx::Similarity>)| pair_desc(p))
                == spec_collected(*query, self.spec_krates()));
        }
        let sorted = old_sort_exec(collected);
        let mut rest = sorted;
        let ghost sorted_view = rest@.map_values(|p: (Item, Vec<approx::Similarity>)| pair_desc(p));
        let mut out: Vec<Item> = Vec::new();
        while rest.len() > 0
            invariant
                rest@.map_values(|p: (Item, Vec<approx::Similarity>)| pair_desc(p))
                    == sorted_view.take(rest@.len() as int),
                out@.len() + rest@.len() == sorted_view.len(),
                forall|i: int|
                    0 <= i < out@.len() ==> item_desc(#[trigger] out@[i]) == sorted_view[
                        sorted_view.len() - 1 - i
                    ].0,
            decreases rest@.len(),
        {
            let ghost pre = rest@.map_values(|p: (Item, Vec<approx::Similarity>)| pair_desc(p));
            let last = rest.pop();
            if let Some(p) = last {
                out.push(p.0);
                proof {
                    assert(rest@.map_values(|p2: (Item, Vec<approx::Similarity>)| pair_desc(p2))
                        =~= pre.drop_last());
                    assert(pre.drop_last() =~= sorted_view.take(rest@.len() as int));
                    assert(item_desc(p.0) == pre.last().0);
                }
            }
        }
        proof {
            assert(out@.map_values(|it: Item| item_desc(it)) =~= old_sort(
                spec_collected(*query, self.spec_krates()),
            ).reverse().map_values(|p: (ItemDesc, Seq<approx::Similarity>)| p.0));
        }
        out
    }
}


/// The entry list with the first entry for `id` removed.
pub open spec fn spec_remove_entry(
    entries: Seq<(corpus::Id, corpus::Item)>,
    id: corpus::Id,
) -> Seq<(corpus::Id, corpus::Item)>
    decreases entries.len(),
{
    if entries.len() == 0 {
        entries
    } else if entries[0].0.0@ == id.0@ {
        entries.drop_first()
    } else {
        seq![entries[0]] + spec_remove_entry(entries.drop_first(), id)
    }
}

/// Removing the first match at position `k` splits the list around it.
proof fn lemma_remove_entry_at(entries: Seq<(corpus::Id, corpus::Item)>, id: corpus::Id, k: int)
    requires
        0 <= k < entries.len(),
        entries[k].0.0@ == id.0@,
        forall|j: int| 0 <= j < k ==> (#[trigger] entries[j]).0.0@ != id.0@,
    ensures
        spec_remove_entry(entries, id) =~= entries.take(k) + entries.skip(k + 1),
    decreases k,
{
    if k == 0 {
        assert(spec_remove_entry(entries, id) =~= entries.take(0) + entries.skip(1));
    } else {
        assert(entries.drop_first()[k - 1].0.0@ == id.0@);
        assert forall|j: int| 0 <= j < k - 1 implies (#[trigger] entries.drop_first()[j]).0.0@
            != id.0@ by {
            assert(entries.drop_first()[j] == entries[j + 1]);
        }
        lemma_remove_entry_at(entries.drop_first(), id, k - 1);
        assert(entries.drop_first().take(k - 1) =~= entries.take(k).drop_first());
        assert(entries.drop_first().skip(k) =~= entries.skip(k + 1));
        assert(spec_remove_entry(entries, id) =~= entries.take(k) + entries.skip(k + 1));
    }
}

/// Removes the first entry for `id`, returning its item.
fn remove_entry(entries: &mut Vec<(corpus::Id, corpus::Item)>, id: &corpus::Id) -> (r: Option<
    corpus::Item,
>)
    ensures
        match r {
            Some(item) => corpus::Crate::assoc_item(old(entries)@, *id) == Some(item)
                && final(entries)@ == spec_remove_entry(old(entries)@, *id),
            None => corpus::Crate::assoc_item(old(entries)@, *id) is None
                && final(entries)@ == old(entries)@,
        },
{
    let mut k: usize = 0;
    proof {
        assert(entries@.skip(0) =~= entries@);
    }
    while k < entries.len()
        invariant
            k <= entries.len(),
            entries@ == old(entries)@,
            corpus::Crate::assoc_item(entries@.skip(k as int), *id) == corpus::Crate::assoc_item(
                entries@,
                *id,
            ),
            forall|j: int| 0 <= j < k ==> (#[trigger] entries@[j]).0.0@ != id.0@,
        decreases entries.len() - k,
    {
        proof {
            assert(entries@.skip(k as int)[0] == entries@[k as int]);
            assert(entries@.skip(k as int).drop_first() =~= entries@.skip(k as int + 1));
        }
        if crate::corpus::str_eq(entries[k].0.0.as_str(), id.0.as_str()) {
            proof {
                lemma_remove_entry_at(entries@, *id, k as int);
            }
            let pair = entries.remove(k);
            proof {
                assert(entries@ =~= old(entries)@.take(k as int) + old(entries)@.skip(
                    k as int + 1,
                ));
            }
            return Some(pair.1);
        }
        k = k + 1;
    }
    proof {
        assert(entries@.skip(k as int) =~= Seq::<(corpus::Id, corpus::Item)>::empty());
    }
    None
}

impl Crate {
    /// Partitions a corpus crate's items into function, impl, and method
    /// maps, keeping the path summaries.
    pub fn from_docs(krate: corpus::Crate) -> (r: Crate)
        ensures
            r.functions@ == krate.index@.filter(
                |p: (corpus::Id, corpus::Item)| p.1.inner is Function,
            ),
            r.impls@ == krate.index@.filter(|p: (corpus::Id, corpus::Item)| p.1.inner is Impl),
            r.methods@ == krate.index@.filter(|p: (corpus::Id, corpus::Item)| p.1.inner is Method),
            r.paths@ == krate.paths@,
    {
        let corpus::Crate { index, paths, .. } = krate;
        let mut rest = index;
        let mut functions: Vec<(corpus::Id, corpus::Item)> = Vec::new();
        let mut impls: Vec<(corpus::Id, corpus::Item)> = Vec::new();
        let mut methods: Vec<(corpus::Id, corpus::Item)> = Vec::new();
        let ghost all = rest@;
        let ghost seen = Seq::<(corpus::Id, corpus::Item)>::empty();
        proof {
            reveal(Seq::filter);
            assert(functions@ =~= seen.filter(|p: (corpus::Id, corpus::Item)| p.1.inner
                is Function));
            assert(impls@ =~= seen.filter(|p: (corpus::Id, corpus::Item)| p.1.inner is Impl));
            assert(methods@ =~= seen.filter(|p: (corpus::Id, corpus::Item)| p.1.inner is Method));
            assert(seen + rest@ =~= all);
        }
        while rest.len() > 0
            invariant
                seen + rest@ == all,
                functions@ == seen.filter(|p: (corpus::Id, corpus::Item)| p.1.inner is Function),
                impls@ == seen.filter(|p: (corpus::Id, corpus::Item)| p.1.inner is Impl),
                methods@ == seen.filter(|p: (corpus::Id, corpus::Item)| p.1.inner is Method),
            decreases rest@.len(),
        {
            let ghost rest0 = rest@;
            let pair = rest.remove(0);
            proof {
                reveal(Seq::filter);
                assert(rest0[0] == pair);
                assert(rest@ =~= rest0.drop_first());
                assert((seen.push(pair)) + rest@ =~= all);
                assert(seen.push(pair).drop_last() =~= seen);
                assert(seen.push(pair).last() == pair);
            }
            match &pair.1.inner {
                corpus::ItemEnum::Function(_) => {
                    functions.push(pair);
                },
                corpus::ItemEnum::Impl(_) => {
                    impls.push(pair);
                },
                corpus::ItemEnum::Method(_) => {
                    methods.push(pair);
                },
                _ => {},
            }
            proof {
                seen = seen.push(rest0[0]);
            }
        }
        proof {
            assert(rest@ =~= Seq::<(corpus::Id, corpus::Item)>::empty());
            assert(seen =~= all);
        }
        Crate { functions, impls, methods, paths }
    }
}

/// The name of a corpus crate: the name of its root item.
pub open spec fn spec_crate_name(k: corpus::Crate) -> Option<String> {
    match corpus::Crate::assoc_item(k.index@, k.root) {
        Some(item) => item.name,
        None => None,
    }
}

impl Crates {
    /// Partitions several corpus crates, keying each by the name of its
    /// root item and mapping each type name to the crates that define it.
    ///
    /// The root item itself leaves the item maps.
    pub fn from_docs(list: Vec<corpus::Crate>) -> (r: Crates)
        requires
            forall|k: int| 0 <= k < list@.len() ==> spec_crate_name(#[trigger] list@[k]) is Some,
        ensures
            r.krates@.len() == list@.len(),
            forall|k: int|
                0 <= k < list@.len() ==> {
                    let src = #[trigger] list@[k];
                    let without_root = spec_remove_entry(src.index@, src.root);
                    &&& r.krates@[k].0 == spec_crate_name(src)->0
                    &&& r.krates@[k].1.functions@ == without_root.filter(
                        |p: (corpus::Id, corpus::Item)| p.1.inner is Function,
                    )
                    &&& r.krates@[k].1.impls@ == without_root.filter(
                        |p: (corpus::Id, corpus::Item)| p.1.inner is Impl,
                    )
                    &&& r.krates@[k].1.methods@ == without_root.filter(
                        |p: (corpus::Id, corpus::Item)| p.1.inner is Method,
                    )
                    &&& r.krates@[k].1.paths@ == src.paths@
                },
            adts_view(r.adts@) == spec_adts_all(
                Seq::<(Seq<char>, Seq<Seq<char>>)>::empty(),
                list@,
                0,
            ),
    {
        let mut rest = list;
        let mut krates: Vec<(String, Crate)> = Vec::new();
        let mut adts: Vec<(String, Vec<String>)> = Vec::new();
        let ghost all = rest@;
        let ghost done: int = 0;
        proof {
            assert(rest@ =~= all.skip(0));
            assert(adts_view(adts@) =~= Seq::<(Seq<char>, Seq<Seq<char>>)>::empty());
            assert(spec_adts_all(adts_view(adts@), all, 0) == spec_adts_all(
                Seq::<(Seq<char>, Seq<Seq<char>>)>::empty(),
                all,
                0,
            ));
        }
        while rest.len() > 0
            invariant
                0 <= done <= all.len(),
                rest@ == all.skip(done),
                krates@.len() == done,
                forall|k: int| 0 <= k < all.len() ==> spec_crate_name(#[trigger] all[k]) is Some,
                forall|k: int|
                    0 <= k < done ==> {
                        let src = #[trigger] all[k];
                        let without_root = spec_remove_entry(src.index@, src.root);
                        &&& krates@[k].0 == spec_crate_name(src)->0
                        &&& krates@[k].1.functions@ == without_root.filter(
                            |p: (corpus::Id, corpus::Item)| p.1.inner is Function,
                        )
                        &&& krates@[k].1.impls@ == without_root.filter(
                            |p: (corpus::Id, corpus::Item)| p.1.inner is Impl,
                        )
                        &&& krates@[k].1.methods@ == without_root.filter(
                            |p: (corpus::Id, corpus::Item)| p.1.inner is Method,
                        )
                        &&& krates@[k].1.paths@ == src.paths@
                    },
                spec_adts_all(adts_view(adts@), all, done) == spec_adts_all(
                    Seq::<(Seq<char>, Seq<Seq<char>>)>::empty(),
                    all,
                    0,
                ),
            decreases rest@.len(),
        {
            let ghost rest0 = rest@;
            let mut krate = rest.remove(0);
            proof {
                assert(rest0[0] == all[done]);
                assert(rest@ =~= all.skip(done + 1));
            }
            let root_id = corpus::Id(clone_string(&krate.root.0));
            let name = match remove_entry(&mut krate.index, &root_id) {
                Some(item) => match item.name {
                    Some(n) => n,
                    None => unreached(),
                },
                None => unreached(),
            };
            let ghost adts_before = adts_view(adts@);
            let mut j: usize = 0;
            while j < krate.paths.len()
                invariant
                    j <= krate.paths@.len(),
                    spec_adts_paths(adts_view(adts@), krate.paths@, j as int, name@)
                        == spec_adts_paths(adts_before, krate.paths@, 0, name@),
                decreases krate.paths@.len() - j,
            {
                let seg_count = krate.paths[j].1.path.len();
                if seg_count > 0 {
                    let key = clone_string(&krate.paths[j].1.path[seg_count - 1]);
                    adts_add(&mut adts, key, clone_string(&name));
                } else {
                }
                j = j + 1;
            }
            let c = Crate::from_docs(krate);
            krates.push((name, c));
            proof {
                done = done + 1;
            }
        }
        proof {
            assert(rest@ =~= all.skip(done));
            assert(done == all.len());
        }
        let r = Crates { krates, adts };
        r
    }
}

/// The association view of the type-name map.
pub open spec fn adts_view(s: Seq<(String, Vec<String>)>) -> Seq<(Seq<char>, Seq<Seq<char>>)> {
    s.map_values(|p: (String, Vec<String>)| (p.0@, views_of(p.1@)))
}

/// Appends `nm` under `key`: to the first entry for `key`, or as a new
/// entry at the end.
pub open spec fn spec_adts_add(
    a: Seq<(Seq<char>, Seq<Seq<char>>)>,
    key: Seq<char>,
    nm: Seq<char>,
) -> Seq<(Seq<char>, Seq<Seq<char>>)>
    decreases a.len(),
{
    if a.len() == 0 {
        seq![(key, seq![nm])]
    } else if a[0].0 == key {
        seq![(a[0].0, a[0].1.push(nm))] + a.drop_first()
    } else {
        seq![a[0]] + spec_adts_add(a.drop_first(), key, nm)
    }
}

/// Folds one crate's path summaries into the map: each path's last
/// segment maps to the crate's name. Empty paths are skipped.
pub open spec fn spec_adts_paths(
    a: Seq<(Seq<char>, Seq<Seq<char>>)>,
    paths: Seq<(corpus::Id, corpus::ItemSummary)>,
    j: int,
    nm: Seq<char>,
) -> Seq<(Seq<char>, Seq<Seq<char>>)>
    decreases paths.len() - j,
{
    if j < 0 || j >= paths.len() {
        a
    } else {
        let s = paths[j].1;
        if s.path@.len() > 0 {
            spec_adts_paths(spec_adts_add(a, s.path@.last()@, nm), paths, j + 1, nm)
        } else {
            spec_adts_paths(a, paths, j + 1, nm)
        }
    }
}

/// Folds every crate's path summaries into the map, in order.
pub open spec fn spec_adts_all(
    a: Seq<(Seq<char>, Seq<Seq<char>>)>,
    list: Seq<corpus::Crate>,
    k: int,
) -> Seq<(Seq<char>, Seq<Seq<char>>)>
    decreases list.len() - k,
{
    if k < 0 || k >= list.len() {
        a
    } else {
        let nm = match spec_crate_name(list[k]) {
            Some(n) => n@,
            None => Seq::<char>::empty(),
        };
        spec_adts_all(spec_adts_paths(a, list[k].paths@, 0, nm), list, k + 1)
    }
}

/// Appends `nm` under `key` in the executable map.
fn adts_add(adts: &mut Vec<(String, Vec<String>)>, key: String, nm: String)
    ensures
        adts_view(final(adts)@) == spec_adts_add(adts_view(old(adts)@), key@, nm@),
{
    let mut k: usize = 0;
    proof {
        assert(adts_view(adts@).skip(0) =~= adts_view(adts@));
    }
    while k < adts.len()
        invariant
            k <= adts.len(),
            adts@ == old(adts)@,
            forall|j: int| 0 <= j < k ==> (#[trigger] adts_view(adts@)[j]).0 != key@,
        decreases adts.len() - k,
    {
        proof {
            assert(adts_view(adts@)[k as int] == (adts@[k as int].0@, views_of(
                adts@[k as int].1@,
            )));
        }
        if crate::corpus::str_eq(adts[k].0.as_str(), key.as_str()) {
            let (kstr, mut v) = adts.remove(k);
            let ghost vview = views_of(v@);
            v.push(nm);
            proof {
                assert(views_of(v@) =~= vview.push(nm@));
            }
            adts.insert(k, (kstr, v));
            proof {
                lemma_adts_add_at(adts_view(old(adts)@), key@, nm@, k as int);
                assert(adts_view(adts@) =~~= spec_adts_add(adts_view(old(adts)@), key@, nm@));
            }
            return ;
        }
        k = k + 1;
    }
    adts.push((key, {
        let mut v: Vec<String> = Vec::new();
        v.push(nm);
        v
    }));
    proof {
        lemma_adts_add_missing(adts_view(old(adts)@), key@, nm@);
        assert(adts_view(adts@) =~~= spec_adts_add(adts_view(old(adts)@), key@, nm@));
    }
}

/// Updating the first entry for `key`, found at `k`, edits it in place.
proof fn lemma_adts_add_at(a: Seq<(Seq<char>, Seq<Seq<char>>)>, key: Seq<char>, nm: Seq<char>, k: int)
    requires
        0 <= k < a.len(),
        a[k].0 == key,
        forall|j: int| 0 <= j < k ==> (#[trigger] a[j]).0 != key,
    ensures
        spec_adts_add(a, key, nm) =~= a.update(k, (a[k].0, a[k].1.push(nm))),
    decreases k,
{
    if k == 0 {
        assert(spec_adts_add(a, key, nm) =~= a.update(0, (a[0].0, a[0].1.push(nm))));
    } else {
        assert(a.drop_first()[k - 1].0 == key);
        assert forall|j: int| 0 <= j < k - 1 implies (#[trigger] a.drop_first()[j]).0 != key by {
            assert(a.drop_first()[j] == a[j + 1]);
        }
        lemma_adts_add_at(a.drop_first(), key, nm, k - 1);
        assert(spec_adts_add(a, key, nm) =~= a.update(k, (a[k].0, a[k].1.push(nm))));
    }
}

/// A key that is absent lands at the end.
proof fn lemma_adts_add_missing(a: Seq<(Seq<char>, Seq<Seq<char>>)>, key: Seq<char>, nm: Seq<char>)
    requires
        forall|j: int| 0 <= j < a.len() ==> (#[trigger] a[j]).0 != key,
    ensures
        spec_adts_add(a, key, nm) =~= a.push((key, seq![nm])),
    decreases a.len(),
{
    if a.len() > 0 {
        assert forall|j: int| 0 <= j < a.drop_first().len() implies (#[trigger] a.drop_first()[j]).0
            != key by {
            assert(a.drop_first()[j] == a[j + 1]);
        }
        lemma_adts_add_missing(a.drop_first(), key, nm);
        assert(spec_adts_add(a, key, nm) =~= a.push((key, seq![nm])));
    }
}

} // verus!
