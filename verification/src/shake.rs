//! Tree-shaking of corpus crates.
//!
//! Loading keeps only the item kinds that a search can ever touch, which
//! shrinks an indexed crate considerably.

use vstd::prelude::*;

use crate::corpus::{Crate, Id, Item, ItemEnum, ItemKind, ItemSummary};

verus! {

/// Whether an item can take part in a search: directly, as a searchable
/// function or method, or indirectly, as an impl, trait, alias, or
/// associated constant reached from one.
pub open spec fn keeps_item(item: Item) -> bool {
    ||| item.inner is Function
    ||| item.inner is Method
    ||| item.inner is Trait
    ||| item.inner is Impl
    ||| item.inner is Typedef
    ||| item.inner is AssocConst
}

/// Whether a path summary can appear in a hit's path or link.
pub open spec fn keeps_path(summary: ItemSummary) -> bool {
    ||| summary.kind is Struct
    ||| summary.kind is Union
    ||| summary.kind is Enum
    ||| summary.kind is Function
    ||| summary.kind is Trait
    ||| summary.kind is Method
}

/// Reduces a crate to the items a search can touch.
pub fn shake(krate: Crate) -> (r: Crate)
    ensures
        r.root == krate.root,
        r.crate_version == krate.crate_version,
        r.format_version == krate.format_version,
        r.index@ == krate.index@.filter(|p: (Id, Item)| keeps_item(p.1)),
        r.paths@ == krate.paths@.filter(|p: (Id, ItemSummary)| keeps_path(p.1)),
{
    let Crate { root, crate_version, index, paths, format_version } = krate;
    let index = shake_index(index);
    let paths = shake_paths(paths);
    Crate { root, crate_version, index, paths, format_version }
}

/// Keeps the searchable items.
pub fn shake_index(index: Vec<(Id, Item)>) -> (r: Vec<(Id, Item)>)
    ensures
        r@ == index@.filter(|p: (Id, Item)| keeps_item(p.1)),
{
    let mut rest = index;
    let mut out: Vec<(Id, Item)> = Vec::new();
    let ghost all = rest@;
    let ghost seen = Seq::<(Id, Item)>::empty();
    proof {
        reveal(Seq::filter);
        assert(out@ =~= seen.filter(|p: (Id, Item)| keeps_item(p.1)));
        assert(seen + rest@ =~= all);
    }
    while rest.len() > 0
        invariant
            seen + rest@ == all,
            out@ == seen.filter(|p: (Id, Item)| keeps_item(p.1)),
        decreases rest@.len(),
    {
        let ghost rest0 = rest@;
        let pair = rest.remove(0);
        let keep = match &pair.1.inner {
            ItemEnum::Function(_) => true,
            ItemEnum::Method(_) => true,
            ItemEnum::Trait(_) => true,
            ItemEnum::Impl(_) => true,
            ItemEnum::Typedef(_) => true,
            ItemEnum::AssocConst { .. } => true,
            _ => false,
        };
        proof {
            reveal(Seq::filter);
            assert(rest0[0] == pair);
            assert(rest@ =~= rest0.drop_first());
            assert((seen.push(pair)) + rest@ =~= all);
            assert(seen.push(pair).drop_last() =~= seen);
            assert(seen.push(pair).last() == pair);
            assert(seen.push(pair).filter(|p: (Id, Item)| keeps_item(p.1)) == (if keeps_item(
                pair.1,
            ) {
                seen.filter(|p: (Id, Item)| keeps_item(p.1)).push(pair)
            } else {
                seen.filter(|p: (Id, Item)| keeps_item(p.1))
            }));
        }
        if keep {
            out.push(pair);
        }
        proof {
            seen = seen.push(rest0[0]);
        }
    }
    proof {
        assert(rest@ =~= Seq::<(Id, Item)>::empty());
        assert(seen =~= all);
    }
    out
}

/// Keeps the path summaries that hits can mention.
pub fn shake_paths(paths: Vec<(Id, ItemSummary)>) -> (r: Vec<(Id, ItemSummary)>)
    ensures
        r@ == paths@.filter(|p: (Id, ItemSummary)| keeps_path(p.1)),
{
    let mut rest = paths;
    let mut out: Vec<(Id, ItemSummary)> = Vec::new();
    let ghost all = rest@;
    let ghost seen = Seq::<(Id, ItemSummary)>::empty();
    proof {
        reveal(Seq::filter);
        assert(out@ =~= seen.filter(|p: (Id, ItemSummary)| keeps_path(p.1)));
        assert(seen + rest@ =~= all);
    }
    while rest.len() > 0
        invariant
            seen + rest@ == all,
            out@ == seen.filter(|p: (Id, ItemSummary)| keeps_path(p.1)),
        decreases rest@.len(),
    {
        let ghost rest0 = rest@;
        let pair = rest.remove(0);
        let keep = match pair.1.kind {
            ItemKind::Struct => true,
            ItemKind::Union => true,
            ItemKind::Enum => true,
            ItemKind::Function => true,
            ItemKind::Trait => true,
            ItemKind::Method => true,
            _ => false,
        };
        proof {
            reveal(Seq::filter);
            assert(rest0[0] == pair);
            assert(rest@ =~= rest0.drop_first());
            assert((seen.push(pair)) + rest@ =~= all);
            assert(seen.push(pair).drop_last() =~= seen);
            assert(seen.push(pair).last() == pair);
            assert(seen.push(pair).filter(|p: (Id, ItemSummary)| keeps_path(p.1)) == (
            if keeps_path(pair.1) {
                seen.filter(|p: (Id, ItemSummary)| keeps_path(p.1)).push(pair)
            } else {
                seen.filter(|p: (Id, ItemSummary)| keeps_path(p.1))
            }));
        }
        if keep {
            out.push(pair);
        }
        proof {
            seen = seen.push(rest0[0]);
        }
    }
    proof {
        assert(rest@ =~= Seq::<(Id, ItemSummary)>::empty());
        assert(seen =~= all);
    }
    out
}

} // verus!
