//! Edit distance between names.
//!
//! Name similarity is measured by the Levenshtein distance: the least number
//! of single-character insertions, deletions, and substitutions that turns
//! one name into the other. [`edit_dist`] is the mathematical definition;
//! [`edit_distance`] computes it.

use vstd::prelude::*;
use vstd::string::StrSliceExecFns;

verus! {

/// The smaller of two integers.
pub open spec fn spec_min(a: int, b: int) -> int {
    if a <= b {
        a
    } else {
        b
    }
}

/// The larger of two integers.
pub open spec fn spec_max(a: int, b: int) -> int {
    if a >= b {
        a
    } else {
        b
    }
}

/// Levenshtein distance between two character sequences.
pub open spec fn edit_dist(a: Seq<char>, b: Seq<char>) -> nat
    decreases a.len() + b.len(),
{
    if a.len() == 0 {
        b.len()
    } else if b.len() == 0 {
        a.len()
    } else {
        let sub_cost: nat = if a.last() == b.last() {
            0
        } else {
            1
        };
        let diag = edit_dist(a.drop_last(), b.drop_last()) + sub_cost;
        let del = edit_dist(a.drop_last(), b) + 1;
        let ins = edit_dist(a, b.drop_last()) + 1;
        spec_min(diag as int, spec_min(del as int, ins as int)) as nat
    }
}

/// The distance never exceeds the longer length.
pub proof fn lemma_edit_dist_le_max(a: Seq<char>, b: Seq<char>)
    ensures
        edit_dist(a, b) <= spec_max(a.len() as int, b.len() as int),
    decreases a.len() + b.len(),
{
    if a.len() == 0 || b.len() == 0 {
    } else {
        lemma_edit_dist_le_max(a.drop_last(), b.drop_last());
    }
}

/// A sequence is at distance zero from itself.
pub proof fn lemma_edit_dist_self(a: Seq<char>)
    ensures
        edit_dist(a, a) == 0,
    decreases a.len(),
{
    if a.len() == 0 {
    } else {
        lemma_edit_dist_self(a.drop_last());
    }
}

/// At distance zero the sequences are equal.
pub proof fn lemma_edit_dist_zero_implies_eq(a: Seq<char>, b: Seq<char>)
    ensures
        edit_dist(a, b) == 0 ==> a == b,
    decreases a.len() + b.len(),
{
    if a.len() == 0 {
        if b.len() == 0 {
            assert(a =~= b);
        }
    } else if b.len() == 0 {
    } else {
        if edit_dist(a, b) == 0 {
            lemma_edit_dist_zero_implies_eq(a.drop_last(), b.drop_last());
            assert(a.last() == b.last());
            assert(a =~= a.drop_last().push(a.last()));
            assert(b =~= b.drop_last().push(b.last()));
        }
    }
}

/// The characters of a string, in order.
pub fn str_chars(s: &str) -> (v: Vec<char>)
    ensures
        v@ == s@,
{
    let n = s.unicode_len();
    let mut v: Vec<char> = Vec::new();
    let mut i: usize = 0;
    while i < n
        invariant
            i <= n,
            n == s@.len(),
            v@ =~= s@.subrange(0, i as int),
        decreases n - i,
    {
        v.push(s.get_char(i));
        proof {
            assert(v@ =~= s@.subrange(0, i as int + 1));
        }
        i = i + 1;
    }
    proof {
        assert(v@ =~= s@);
    }
    v
}

/// The smaller of three numbers.
fn min3(a: u128, b: u128, c: u128) -> (r: u128)
    ensures
        r as int == spec_min(a as int, spec_min(b as int, c as int)),
{
    let bc = if b <= c {
        b
    } else {
        c
    };
    if a <= bc {
        a
    } else {
        bc
    }
}

/// Levenshtein distance between two strings.
///
/// Computed row by row over prefix pairs; `row[j]` always holds the distance
/// between the first `i` characters of `a` and the first `j` of `b`.
pub fn edit_distance(a: &str, b: &str) -> (r: usize)
    ensures
        r == edit_dist(a@, b@),
{
    let av = str_chars(a);
    let bv = str_chars(b);
    let m = av.len();
    let n = bv.len();

    let mut row: Vec<u128> = Vec::new();
    proof {
        assert(b@.subrange(0, 0).len() == 0);
    }
    row.push(0);
    let mut j: usize = 0;
    while j < n
        invariant
            j <= n,
            n == b@.len(),
            bv@ == b@,
            row@.len() == j + 1,
            forall|t: int|
                0 <= t <= j ==> row@[t] == edit_dist(Seq::<char>::empty(), b@.subrange(0, t)),
        decreases n - j,
    {
        proof {
            assert(b@.subrange(0, j as int + 1).len() == j + 1);
        }
        row.push(j as u128 + 1);
        j = j + 1;
    }

    let mut i: usize = 0;
    while i < m
        invariant
            i <= m,
            m == a@.len(),
            n == b@.len(),
            av@ == a@,
            bv@ == b@,
            row@.len() == n + 1,
            forall|t: int|
                0 <= t <= n ==> row@[t] == edit_dist(
                    a@.subrange(0, i as int),
                    b@.subrange(0, t),
                ),
        decreases m - i,
    {
        let mut next: Vec<u128> = Vec::new();
        proof {
            assert(a@.subrange(0, i as int + 1).len() == i + 1);
            assert(b@.subrange(0, 0).len() == 0);
        }
        next.push(i as u128 + 1);
        let mut t: usize = 0;
        while t < n
            invariant
                t <= n,
                i < m,
                m == a@.len(),
                n == b@.len(),
                av@ == a@,
                bv@ == b@,
                row@.len() == n + 1,
                forall|u: int|
                    0 <= u <= n ==> row@[u] == edit_dist(
                        a@.subrange(0, i as int),
                        b@.subrange(0, u),
                    ),
                next@.len() == t + 1,
                forall|u: int|
                    0 <= u <= t ==> next@[u] == edit_dist(
                        a@.subrange(0, i as int + 1),
                        b@.subrange(0, u),
                    ),
            decreases n - t,
        {
            proof {
                lemma_edit_dist_le_max(a@.subrange(0, i as int), b@.subrange(0, t as int));
                lemma_edit_dist_le_max(a@.subrange(0, i as int), b@.subrange(0, t as int + 1));
                lemma_edit_dist_le_max(a@.subrange(0, i as int + 1), b@.subrange(0, t as int));
            }
            let sub_cost: u128 = if av[i] == bv[t] {
                0
            } else {
                1
            };
            let cell = min3(row[t] + sub_cost, row[t + 1] + 1, next[t] + 1);
            proof {
                let ap = a@.subrange(0, i as int + 1);
                let bp = b@.subrange(0, t as int + 1);
                assert(ap.len() == i + 1 && bp.len() == t + 1);
                assert(ap.drop_last() =~= a@.subrange(0, i as int));
                assert(bp.drop_last() =~= b@.subrange(0, t as int));
                assert(ap.last() == a@[i as int]);
                assert(bp.last() == b@[t as int]);
                assert(cell == edit_dist(ap, bp));
            }
            next.push(cell);
            t = t + 1;
        }
        row = next;
        i = i + 1;
    }

    proof {
        assert(a@.subrange(0, m as int) =~= a@);
        assert(b@.subrange(0, n as int) =~= b@);
        lemma_edit_dist_le_max(a@, b@);
    }
    let r128 = row[n];
    r128 as usize
}

} // verus!
