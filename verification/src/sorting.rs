//! Ordering of membership sequences.
//!
//! Members are identified by `u64` account identifiers; a membership snapshot
//! is kept in ascending order of identifier. This module defines what
//! "ascending" means for snapshots, provides the executable sort used by the
//! unsorted entry point of the change notifier, and proves that sorting is
//! permutation-invariant: any two orderings of the same members sort to the
//! identical sequence.

use vstd::prelude::*;
use vstd::multiset::Multiset;
use vstd::relations::{sorted_by, total_ordering};
use vstd::seq_lib::lemma_sorted_unique;

verus! {

/// The total order on member identifiers, as a spec-level relation.
pub open spec fn le() -> spec_fn(u64, u64) -> bool {
    |x: u64, y: u64| x <= y
}

/// An ascending membership sequence; duplicates are allowed.
pub open spec fn is_sorted(s: Seq<u64>) -> bool {
    forall|i: int, j: int| #![trigger s[i], s[j]] 0 <= i < j < s.len() ==> s[i] <= s[j]
}

/// A strictly ascending membership sequence: sorted and free of duplicates.
pub open spec fn is_strictly_sorted(s: Seq<u64>) -> bool {
    forall|i: int, j: int| #![trigger s[i], s[j]] 0 <= i < j < s.len() ==> s[i] < s[j]
}

/// The ascending reordering of a membership sequence.
pub open spec fn sorted_version(s: Seq<u64>) -> Seq<u64> {
    s.sort_by(le())
}

/// `le` is a total order.
pub proof fn lemma_le_total_ordering()
    ensures
        total_ordering(le()),
{
    assert forall|x: u64, y: u64| !(le()(x, y)) implies #[trigger] le()(y, x) by {
        assert(x > y);
    }
}

/// `is_sorted` coincides with vstd's `sorted_by` under `le`.
pub proof fn lemma_is_sorted_equiv(s: Seq<u64>)
    ensures
        is_sorted(s) <==> sorted_by(s, le()),
{
    if sorted_by(s, le()) {
        assert forall|i: int, j: int| 0 <= i < j < s.len() implies s[i] <= s[j] by {
            assert(le()(s[i], s[j]));
        }
    }
    if is_sorted(s) {
        assert forall|i: int, j: int| 0 <= i < j < s.len() implies #[trigger] le()(s[i], s[j]) by {
            assert(s[i] <= s[j]);
        }
    }
}

/// `sorted_version` is ascending and holds exactly the members of its input,
/// with multiplicity.
pub proof fn lemma_sorted_version_ensures(s: Seq<u64>)
    ensures
        is_sorted(sorted_version(s)),
        sorted_version(s).to_multiset() == s.to_multiset(),
        sorted_version(s).len() == s.len(),
{
    broadcast use vstd::seq_lib::group_to_multiset_ensures;

    lemma_le_total_ordering();
    s.lemma_sort_by_ensures(le());
    lemma_is_sorted_equiv(sorted_version(s));
    assert(sorted_version(s).to_multiset() =~= s.to_multiset());
    s.to_multiset_ensures();
    sorted_version(s).to_multiset_ensures();
}

/// Sorting is permutation-invariant: two sequences holding the same members
/// (with multiplicity) have the identical sorted version.
pub proof fn lemma_sorted_version_permutation(a: Seq<u64>, b: Seq<u64>)
    requires
        a.to_multiset() == b.to_multiset(),
    ensures
        sorted_version(a) == sorted_version(b),
{
    lemma_le_total_ordering();
    a.lemma_sort_by_ensures(le());
    b.lemma_sort_by_ensures(le());
    lemma_sorted_unique(sorted_version(a), sorted_version(b), le());
}

/// An already ascending sequence is its own sorted version.
pub proof fn lemma_sorted_version_of_sorted(s: Seq<u64>)
    requires
        is_sorted(s),
    ensures
        sorted_version(s) == s,
{
    lemma_le_total_ordering();
    s.lemma_sort_by_ensures(le());
    lemma_is_sorted_equiv(s);
    lemma_sorted_unique(sorted_version(s), s, le());
}

/// Sorts a membership sequence in ascending order (selection sort): the
/// result is exactly the sorted version of the input.
pub fn sort_members(v: &mut Vec<u64>)
    ensures
        final(v)@ == sorted_version(old(v)@),
        is_sorted(final(v)@),
        final(v)@.to_multiset() == old(v)@.to_multiset(),
{
    broadcast use vstd::seq_lib::group_to_multiset_ensures;
    broadcast use vstd::multiset::group_multiset_axioms;

    let ghost orig = v@;
    let mut out: Vec<u64> = Vec::new();
    while v.len() > 0
        invariant
            out@.to_multiset().add(v@.to_multiset()) == orig.to_multiset(),
            is_sorted(out@),
            forall|k: int, l: int|
                #![trigger out@[k], v@[l]]
                0 <= k < out@.len() && 0 <= l < v@.len() ==> out@[k] <= v@[l],
        decreases v@.len(),
    {
        let mut m: usize = 0;
        let mut idx: usize = 1;
        while idx < v.len()
            invariant
                v@.len() > 0,
                m < idx,
                idx <= v@.len(),
                forall|k: int| 0 <= k < idx ==> v@[m as int] <= #[trigger] v@[k],
            decreases v@.len() - idx,
        {
            if v[idx] < v[m] {
                m = idx;
            }
            idx += 1;
        }
        let ghost before = v@;
        let x = v.remove(m);
        proof {
            before.to_multiset_ensures();
            out@.to_multiset_ensures();
            assert(before.contains(x));
            assert(before.to_multiset().count(x) > 0);
            assert(v@ == before.remove(m as int));
            assert(v@.to_multiset() =~= before.to_multiset().remove(x));
            assert(out@.push(x).to_multiset() =~= out@.to_multiset().insert(x));
            assert(out@.push(x).to_multiset().add(v@.to_multiset()) =~= orig.to_multiset());
            assert forall|k: int, l: int|
                #![trigger out@.push(x)[k], v@[l]]
                0 <= k < out@.push(x).len() && 0 <= l < v@.len() implies out@.push(
                x,
            )[k] <= v@[l] by {
                assert(v@[l] == before[if l < m { l } else { l + 1 }]);
                if k < out@.len() {
                    assert(out@[k] <= before[if l < m { l } else { l + 1 }]);
                }
            }
            assert forall|i: int, j: int|
                0 <= i < j < out@.push(x).len() implies out@.push(x)[i] <= out@.push(
                x,
            )[j] by {
                if j == out@.len() {
                    assert(before[m as int] == x);
                    assert(out@[i] <= before[m as int]);
                }
            }
        }
        out.push(x);
    }
    proof {
        v@.to_multiset_ensures();
        vstd::multiset::lemma_multiset_empty_len(v@.to_multiset());
        assert(v@.to_multiset() =~= Multiset::<u64>::empty());
        assert(out@.to_multiset() =~= orig.to_multiset());
        lemma_le_total_ordering();
        orig.lemma_sort_by_ensures(le());
        lemma_is_sorted_equiv(out@);
        lemma_sorted_unique(out@, sorted_version(orig), le());
    }
    *v = out;
}

} // verus!
