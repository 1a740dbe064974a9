//! A type-directed search engine for documented program items.
//!
//! Given a query written in a small function-signature language (for example
//! `fn foo(s: &str) -> Option<T>`), the library ranks functions and methods
//! from a pre-indexed corpus of crates by structural similarity between the
//! query and each candidate's declaration.
//!
//! The library is organised as:
//! - [`query`]: the query abstract syntax,
//! - [`parse`]: the query parser, specified by a spec-level parser and a
//!   canonical printer,
//! - [`corpus`]: the model of the indexed corpus,
//! - [`distance`]: edit distance on names,
//! - [`compare`]: the structural comparator and the scorer,
//! - [`search`]: the search driver over an [`Index`],
//! - [`laws`]: the proved properties of the comparator,
//! - [`approx`] and [`exec`]: a coarser comparison pipeline retained from an
//!   earlier generation of the engine,
//! - [`shake`]: tree-shaking of corpus crates.
#![verifier::loop_isolation(false)]

use vstd::prelude::*;

pub mod approx;
pub mod compare;
pub mod corpus;
pub mod distance;
pub mod exec;
pub mod laws;
pub mod parse;
pub mod query;
pub mod search;
pub mod shake;

verus! {

/// The searchable corpus: crates keyed by crate name.
///
/// Lookups take the first entry with a matching name, so well-formed indexes
/// carry each crate name at most once.
pub struct Index {
    pub crates: Vec<(String, corpus::Crate)>,
}

impl Index {
    /// The crate stored under `name`, if any.
    pub open spec fn spec_get(&self, name: Seq<char>) -> Option<corpus::Crate> {
        Self::crates_get(self.crates@, name)
    }

    /// First-match lookup in an association list of crates.
    pub open spec fn crates_get(
        crates: Seq<(String, corpus::Crate)>,
        name: Seq<char>,
    ) -> Option<corpus::Crate>
        decreases crates.len(),
    {
        if crates.len() == 0 {
            None
        } else if crates[0].0@ == name {
            Some(crates[0].1)
        } else {
            Self::crates_get(crates.drop_first(), name)
        }
    }

    /// Looks a crate up by name; first match wins.
    pub fn get_crate(&self, name: &String) -> (r: Option<&corpus::Crate>)
        ensures
            match r {
                Some(c) => self.spec_get(name@) == Some(*c),
                None => self.spec_get(name@) is None,
            },
    {
        let mut k: usize = 0;
        proof {
            assert(self.crates@.skip(0) =~= self.crates@);
        }
        while k < self.crates.len()
            invariant
                k <= self.crates.len(),
                Self::crates_get(self.crates@.skip(k as int), name@) == self.spec_get(name@),
            decreases self.crates.len() - k,
        {
            proof {
                assert(self.crates@.skip(k as int)[0] == self.crates@[k as int]);
                assert(self.crates@.skip(k as int).drop_first() =~= self.crates@.skip(
                    k as int + 1,
                ));
            }
            if corpus::str_eq(self.crates[k].0.as_str(), name.as_str()) {
                return Some(&self.crates[k].1);
            }
            k = k + 1;
        }
        proof {
            assert(self.crates@.skip(k as int) =~= Seq::<(String, corpus::Crate)>::empty());
        }
        None
    }
}

/// Whatever a name lookup returns is stored in the list.
pub proof fn lemma_crates_get_member(crates: Seq<(String, corpus::Crate)>, name: Seq<char>)
    ensures
        match Index::crates_get(crates, name) {
            Some(c) => exists|k: int| 0 <= k < crates.len() && (#[trigger] crates[k]).1 == c,
            None => true,
        },
    decreases crates.len(),
{
    if crates.len() > 0 {
        if crates[0].0@ == name {
            assert(crates[0].1 == Index::crates_get(crates, name)->0);
        } else {
            lemma_crates_get_member(crates.drop_first(), name);
            if Index::crates_get(crates, name) is Some {
                let c = Index::crates_get(crates, name)->0;
                let k = choose|k: int|
                    0 <= k < crates.drop_first().len() && (#[trigger] crates.drop_first()[k]).1
                        == c;
                assert(crates[k + 1].1 == c);
            }
        }
    }
}

} // verus!
