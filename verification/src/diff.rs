//! The membership diff engine.
//!
//! [`diff`] computes the incoming/outgoing delta between two membership
//! snapshots with a single linear merge walk over both ascending sequences.
//! Its result is pinned down exactly by the spec function [`members_diff`],
//! which states the merge rule mathematically; the lemmas below characterize
//! that rule on the inputs of interest (equal snapshots, empty snapshots, and
//! duplicate-free snapshots, where the delta is a pair of set differences).

use vstd::prelude::*;
use crate::sorting::{is_sorted, is_strictly_sorted};

verus! {

/// The merge rule of the diff engine, on arbitrary sequences: while elements
/// are equal advance past both; an old element strictly below the current new
/// element (or past the end of the new sequence) is outgoing; a new element
/// strictly below the current old element (or past the end of the old
/// sequence) is incoming.
pub open spec fn members_diff(new: Seq<u64>, old: Seq<u64>) -> (Seq<u64>, Seq<u64>)
    decreases new.len() + old.len(),
{
    if new.len() == 0 && old.len() == 0 {
        (Seq::<u64>::empty(), Seq::<u64>::empty())
    } else if new.len() == 0 {
        let rest = members_diff(new, old.drop_first());
        (rest.0, seq![old[0]] + rest.1)
    } else if old.len() == 0 {
        let rest = members_diff(new.drop_first(), old);
        (seq![new[0]] + rest.0, rest.1)
    } else if new[0] == old[0] {
        members_diff(new.drop_first(), old.drop_first())
    } else if old[0] < new[0] {
        let rest = members_diff(new, old.drop_first());
        (rest.0, seq![old[0]] + rest.1)
    } else {
        let rest = members_diff(new.drop_first(), old);
        (seq![new[0]] + rest.0, rest.1)
    }
}

/// Computes the incoming/outgoing delta between the ascending snapshots
/// `new` and `old`: one linear merge walk, no failure mode. The result is
/// exactly what the merge rule [`members_diff`] prescribes; duplicates are
/// walked, never removed.
pub fn diff(new: &Vec<u64>, old: &Vec<u64>) -> (r: (Vec<u64>, Vec<u64>))
    requires
        is_sorted(new@),
        is_sorted(old@),
    ensures
        r.0@ == members_diff(new@, old@).0,
        r.1@ == members_diff(new@, old@).1,
{
    let mut incoming: Vec<u64> = Vec::new();
    let mut outgoing: Vec<u64> = Vec::new();
    let mut i: usize = 0;
    let mut j: usize = 0;
    proof {
        assert(new@.skip(0) =~= new@);
        assert(old@.skip(0) =~= old@);
        assert(incoming@ + members_diff(new@, old@).0 =~= members_diff(new@, old@).0);
        assert(outgoing@ + members_diff(new@, old@).1 =~= members_diff(new@, old@).1);
    }
    while i < new.len() || j < old.len()
        invariant
            i <= new@.len(),
            j <= old@.len(),
            members_diff(new@, old@).0 == incoming@ + members_diff(
                new@.skip(i as int),
                old@.skip(j as int),
            ).0,
            members_diff(new@, old@).1 == outgoing@ + members_diff(
                new@.skip(i as int),
                old@.skip(j as int),
            ).1,
        decreases new@.len() - i + old@.len() - j,
    {
        let ghost rn = new@.skip(i as int);
        let ghost ro = old@.skip(j as int);
        if i == new.len() {
            proof {
                assert(rn.len() == 0 && ro.len() > 0);
                assert(ro[0] == old@[j as int]);
                assert(ro.drop_first() =~= old@.skip(j as int + 1));
                assert(outgoing@.push(old@[j as int]) + members_diff(rn, ro.drop_first()).1
                    =~= outgoing@ + members_diff(rn, ro).1);
                assert(rn =~= new@.skip(i as int));
            }
            outgoing.push(old[j]);
            j += 1;
        } else if j == old.len() {
            proof {
                assert(ro.len() == 0 && rn.len() > 0);
                assert(rn[0] == new@[i as int]);
                assert(rn.drop_first() =~= new@.skip(i as int + 1));
                assert(incoming@.push(new@[i as int]) + members_diff(rn.drop_first(), ro).0
                    =~= incoming@ + members_diff(rn, ro).0);
            }
            incoming.push(new[i]);
            i += 1;
        } else if new[i] == old[j] {
            proof {
                assert(rn[0] == new@[i as int] && ro[0] == old@[j as int]);
                assert(rn.drop_first() =~= new@.skip(i as int + 1));
                assert(ro.drop_first() =~= old@.skip(j as int + 1));
            }
            i += 1;
            j += 1;
        } else if old[j] < new[i] {
            proof {
                assert(rn[0] == new@[i as int] && ro[0] == old@[j as int]);
                assert(ro.drop_first() =~= old@.skip(j as int + 1));
                assert(outgoing@.push(old@[j as int]) + members_diff(rn, ro.drop_first()).1
                    =~= outgoing@ + members_diff(rn, ro).1);
            }
            outgoing.push(old[j]);
            j += 1;
        } else {
            proof {
                assert(rn[0] == new@[i as int] && ro[0] == old@[j as int]);
                assert(rn.drop_first() =~= new@.skip(i as int + 1));
                assert(incoming@.push(new@[i as int]) + members_diff(rn.drop_first(), ro).0
                    =~= incoming@ + members_diff(rn, ro).0);
            }
            incoming.push(new[i]);
            i += 1;
        }
    }
    proof {
        assert(new@.skip(i as int) =~= Seq::<u64>::empty());
        assert(old@.skip(j as int) =~= Seq::<u64>::empty());
        assert(incoming@ + members_diff(new@.skip(i as int), old@.skip(j as int)).0
            =~= incoming@);
        assert(outgoing@ + members_diff(new@.skip(i as int), old@.skip(j as int)).1
            =~= outgoing@);
    }
    (incoming, outgoing)
}

/// Equal snapshots produce an empty delta, whatever the snapshot holds.
pub proof fn lemma_diff_self(x: Seq<u64>)
    ensures
        members_diff(x, x).0 == Seq::<u64>::empty(),
        members_diff(x, x).1 == Seq::<u64>::empty(),
    decreases x.len(),
{
    if x.len() > 0 {
        lemma_diff_self(x.drop_first());
    }
}

/// Against an empty old snapshot every new member is incoming and nothing is
/// outgoing.
pub proof fn lemma_diff_empty_old(new: Seq<u64>)
    ensures
        members_diff(new, Seq::<u64>::empty()).0 == new,
        members_diff(new, Seq::<u64>::empty()).1 == Seq::<u64>::empty(),
    decreases new.len(),
{
    if new.len() == 0 {
        assert(members_diff(new, Seq::<u64>::empty()).0 =~= new);
    } else {
        lemma_diff_empty_old(new.drop_first());
        assert(seq![new[0]] + new.drop_first() =~= new);
    }
}

/// Against an empty new snapshot every old member is outgoing and nothing is
/// incoming.
pub proof fn lemma_diff_empty_new(old: Seq<u64>)
    ensures
        members_diff(Seq::<u64>::empty(), old).0 == Seq::<u64>::empty(),
        members_diff(Seq::<u64>::empty(), old).1 == old,
    decreases old.len(),
{
    if old.len() == 0 {
        assert(members_diff(Seq::<u64>::empty(), old).1 =~= old);
    } else {
        lemma_diff_empty_new(old.drop_first());
        assert(seq![old[0]] + old.drop_first() =~= old);
    }
}

proof fn lemma_contains_head_tail(s: Seq<u64>)
    requires
        s.len() > 0,
    ensures
        forall|x: u64| #[trigger] s.contains(x) <==> x == s[0] || s.drop_first().contains(x),
{
    assert forall|x: u64| #[trigger] s.contains(x) implies x == s[0]
        || s.drop_first().contains(x) by {
        let i = choose|i: int| 0 <= i < s.len() && s[i] == x;
        if i > 0 {
            assert(s.drop_first()[i - 1] == x);
        }
    }
    assert forall|x: u64| x == s[0] || s.drop_first().contains(x) implies #[trigger] s.contains(
        x,
    ) by {
        if x == s[0] {
            assert(s[0] == x);
        } else {
            let i = choose|i: int| 0 <= i < s.drop_first().len() && s.drop_first()[i] == x;
            assert(s[i + 1] == x);
        }
    }
}

proof fn lemma_contains_prepend(h: u64, r: Seq<u64>)
    ensures
        forall|x: u64| #[trigger] (seq![h] + r).contains(x) <==> x == h || r.contains(x),
{
    assert forall|x: u64| #[trigger] (seq![h] + r).contains(x) implies x == h || r.contains(x) by {
        let i = choose|i: int| 0 <= i < (seq![h] + r).len() && (seq![h] + r)[i] == x;
        if i > 0 {
            assert(r[i - 1] == x);
        }
    }
    assert forall|x: u64| x == h || r.contains(x) implies #[trigger] (seq![h] + r).contains(x) by {
        if x == h {
            assert((seq![h] + r)[0] == x);
        } else {
            let i = choose|i: int| 0 <= i < r.len() && r[i] == x;
            assert((seq![h] + r)[i + 1] == x);
        }
    }
}

proof fn lemma_strict_drop_first(s: Seq<u64>)
    requires
        is_strictly_sorted(s),
        s.len() > 0,
    ensures
        is_strictly_sorted(s.drop_first()),
{
    assert forall|p: int, q: int|
        #![trigger s.drop_first()[p], s.drop_first()[q]]
        0 <= p < q < s.drop_first().len() implies s.drop_first()[p] < s.drop_first()[q] by {
        assert(s[p + 1] < s[q + 1]);
    }
}

proof fn lemma_strict_head_bounds(s: Seq<u64>)
    requires
        is_strictly_sorted(s),
        s.len() > 0,
    ensures
        forall|x: u64| #[trigger] s.drop_first().contains(x) ==> s[0] < x,
        forall|x: u64| #[trigger] s.contains(x) ==> s[0] <= x,
{
    assert forall|x: u64| #[trigger] s.drop_first().contains(x) implies s[0] < x by {
        let i = choose|i: int| 0 <= i < s.drop_first().len() && s.drop_first()[i] == x;
        assert(s[i + 1] == x);
        assert(s[0] < s[i + 1]);
    }
    assert forall|x: u64| #[trigger] s.contains(x) implies s[0] <= x by {
        let i = choose|i: int| 0 <= i < s.len() && s[i] == x;
        if i > 0 {
            assert(s[0] < s[i]);
        }
    }
}

proof fn lemma_strict_prepend(h: u64, r: Seq<u64>)
    requires
        is_strictly_sorted(r),
        forall|x: u64| #[trigger] r.contains(x) ==> h < x,
    ensures
        is_strictly_sorted(seq![h] + r),
{
    assert forall|p: int, q: int|
        #![trigger (seq![h] + r)[p], (seq![h] + r)[q]]
        0 <= p < q < (seq![h] + r).len() implies (seq![h] + r)[p] < (seq![h] + r)[q] by {
        if p == 0 {
            assert(r.contains(r[q - 1]));
            assert((seq![h] + r)[q] == r[q - 1]);
        } else {
            assert((seq![h] + r)[p] == r[p - 1] && (seq![h] + r)[q] == r[q - 1]);
        }
    }
}

proof fn lemma_sorted_drop_first(s: Seq<u64>)
    requires
        is_sorted(s),
        s.len() > 0,
    ensures
        is_sorted(s.drop_first()),
{
    assert forall|p: int, q: int|
        #![trigger s.drop_first()[p], s.drop_first()[q]]
        0 <= p < q < s.drop_first().len() implies s.drop_first()[p] <= s.drop_first()[q] by {
        assert(s[p + 1] <= s[q + 1]);
    }
}

proof fn lemma_sorted_head_bound(s: Seq<u64>)
    requires
        is_sorted(s),
        s.len() > 0,
    ensures
        forall|x: u64| #[trigger] s.contains(x) ==> s[0] <= x,
{
    assert forall|x: u64| #[trigger] s.contains(x) implies s[0] <= x by {
        let i = choose|i: int| 0 <= i < s.len() && s[i] == x;
        if i > 0 {
            assert(s[0] <= s[i]);
        }
    }
}

proof fn lemma_sorted_prepend(h: u64, r: Seq<u64>)
    requires
        is_sorted(r),
        forall|x: u64| #[trigger] r.contains(x) ==> h <= x,
    ensures
        is_sorted(seq![h] + r),
{
    assert forall|p: int, q: int|
        #![trigger (seq![h] + r)[p], (seq![h] + r)[q]]
        0 <= p < q < (seq![h] + r).len() implies (seq![h] + r)[p] <= (seq![h] + r)[q] by {
        if p == 0 {
            assert(r.contains(r[q - 1]));
            assert((seq![h] + r)[q] == r[q - 1]);
        } else {
            assert((seq![h] + r)[p] == r[p - 1] && (seq![h] + r)[q] == r[q - 1]);
        }
    }
}

/// Every member of the delta comes from its source snapshot, whatever the
/// inputs hold.
pub proof fn lemma_members_diff_from_sources(new: Seq<u64>, old: Seq<u64>)
    ensures
        forall|x: u64| #[trigger] members_diff(new, old).0.contains(x) ==> new.contains(x),
        forall|x: u64| #[trigger] members_diff(new, old).1.contains(x) ==> old.contains(x),
    decreases new.len() + old.len(),
{
    if new.len() == 0 && old.len() == 0 {
    } else if new.len() == 0 {
        lemma_members_diff_from_sources(new, old.drop_first());
        let rest = members_diff(new, old.drop_first());
        lemma_contains_head_tail(old);
        lemma_contains_prepend(old[0], rest.1);
        assert(members_diff(new, old).0 == rest.0);
        assert(members_diff(new, old).1 == seq![old[0]] + rest.1);
    } else if old.len() == 0 {
        lemma_members_diff_from_sources(new.drop_first(), old);
        let rest = members_diff(new.drop_first(), old);
        lemma_contains_head_tail(new);
        lemma_contains_prepend(new[0], rest.0);
        assert(members_diff(new, old).0 == seq![new[0]] + rest.0);
        assert(members_diff(new, old).1 == rest.1);
    } else if new[0] == old[0] {
        lemma_members_diff_from_sources(new.drop_first(), old.drop_first());
        lemma_contains_head_tail(new);
        lemma_contains_head_tail(old);
        assert(members_diff(new, old) == members_diff(new.drop_first(), old.drop_first()));
    } else if old[0] < new[0] {
        lemma_members_diff_from_sources(new, old.drop_first());
        let rest = members_diff(new, old.drop_first());
        lemma_contains_head_tail(old);
        lemma_contains_prepend(old[0], rest.1);
        assert(members_diff(new, old).0 == rest.0);
        assert(members_diff(new, old).1 == seq![old[0]] + rest.1);
    } else {
        lemma_members_diff_from_sources(new.drop_first(), old);
        let rest = members_diff(new.drop_first(), old);
        lemma_contains_head_tail(new);
        lemma_contains_prepend(new[0], rest.0);
        assert(members_diff(new, old).0 == seq![new[0]] + rest.0);
        assert(members_diff(new, old).1 == rest.1);
    }
}

/// The delta preserves the ascending order of its source snapshots, also in
/// the presence of duplicates.
pub proof fn lemma_members_diff_sorted(new: Seq<u64>, old: Seq<u64>)
    requires
        is_sorted(new),
        is_sorted(old),
    ensures
        is_sorted(members_diff(new, old).0),
        is_sorted(members_diff(new, old).1),
    decreases new.len() + old.len(),
{
    if new.len() == 0 && old.len() == 0 {
    } else if new.len() == 0 {
        lemma_sorted_drop_first(old);
        lemma_members_diff_sorted(new, old.drop_first());
        lemma_members_diff_from_sources(new, old.drop_first());
        let rest = members_diff(new, old.drop_first());
        lemma_contains_head_tail(old);
        lemma_sorted_head_bound(old);
        assert forall|x: u64| #[trigger] rest.1.contains(x) implies old[0] <= x by {
            assert(old.drop_first().contains(x));
            assert(old.contains(x));
        }
        lemma_sorted_prepend(old[0], rest.1);
        assert(members_diff(new, old).1 == seq![old[0]] + rest.1);
    } else if old.len() == 0 {
        lemma_sorted_drop_first(new);
        lemma_members_diff_sorted(new.drop_first(), old);
        lemma_members_diff_from_sources(new.drop_first(), old);
        let rest = members_diff(new.drop_first(), old);
        lemma_contains_head_tail(new);
        lemma_sorted_head_bound(new);
        assert forall|x: u64| #[trigger] rest.0.contains(x) implies new[0] <= x by {
            assert(new.drop_first().contains(x));
            assert(new.contains(x));
        }
        lemma_sorted_prepend(new[0], rest.0);
        assert(members_diff(new, old).0 == seq![new[0]] + rest.0);
    } else if new[0] == old[0] {
        lemma_sorted_drop_first(new);
        lemma_sorted_drop_first(old);
        lemma_members_diff_sorted(new.drop_first(), old.drop_first());
        assert(members_diff(new, old) == members_diff(new.drop_first(), old.drop_first()));
    } else if old[0] < new[0] {
        lemma_sorted_drop_first(old);
        lemma_members_diff_sorted(new, old.drop_first());
        lemma_members_diff_from_sources(new, old.drop_first());
        let rest = members_diff(new, old.drop_first());
        lemma_contains_head_tail(old);
        lemma_sorted_head_bound(old);
        assert forall|x: u64| #[trigger] rest.1.contains(x) implies old[0] <= x by {
            assert(old.drop_first().contains(x));
            assert(old.contains(x));
        }
        lemma_sorted_prepend(old[0], rest.1);
        assert(members_diff(new, old).1 == seq![old[0]] + rest.1);
        assert(members_diff(new, old).0 == rest.0);
    } else {
        lemma_sorted_drop_first(new);
        lemma_members_diff_sorted(new.drop_first(), old);
        lemma_members_diff_from_sources(new.drop_first(), old);
        let rest = members_diff(new.drop_first(), old);
        lemma_contains_head_tail(new);
        lemma_sorted_head_bound(new);
        assert forall|x: u64| #[trigger] rest.0.contains(x) implies new[0] <= x by {
            assert(new.drop_first().contains(x));
            assert(new.contains(x));
        }
        lemma_sorted_prepend(new[0], rest.0);
        assert(members_diff(new, old).0 == seq![new[0]] + rest.0);
        assert(members_diff(new, old).1 == rest.1);
    }
}

/// On duplicate-free snapshots the merge rule computes the two set
/// differences: a member is incoming exactly when it is new but not old, and
/// outgoing exactly when it is old but not new; both deltas are strictly
/// ascending.
pub proof fn lemma_members_diff_strict(new: Seq<u64>, old: Seq<u64>)
    requires
        is_strictly_sorted(new),
        is_strictly_sorted(old),
    ensures
        forall|x: u64|
            #[trigger] members_diff(new, old).0.contains(x) <==> new.contains(x) && !old.contains(
                x,
            ),
        forall|x: u64|
            #[trigger] members_diff(new, old).1.contains(x) <==> old.contains(x) && !new.contains(
                x,
            ),
        is_strictly_sorted(members_diff(new, old).0),
        is_strictly_sorted(members_diff(new, old).1),
    decreases new.len() + old.len(),
{
    if new.len() == 0 && old.len() == 0 {
    } else if new.len() == 0 {
        lemma_strict_drop_first(old);
        lemma_members_diff_strict(new, old.drop_first());
        let rest = members_diff(new, old.drop_first());
        lemma_contains_head_tail(old);
        lemma_contains_prepend(old[0], rest.1);
        lemma_strict_head_bounds(old);
        assert forall|x: u64| #[trigger] rest.1.contains(x) implies old[0] < x by {
            assert(old.drop_first().contains(x));
        }
        lemma_strict_prepend(old[0], rest.1);
        assert(members_diff(new, old).1 == seq![old[0]] + rest.1);
    } else if old.len() == 0 {
        lemma_strict_drop_first(new);
        lemma_members_diff_strict(new.drop_first(), old);
        let rest = members_diff(new.drop_first(), old);
        lemma_contains_head_tail(new);
        lemma_contains_prepend(new[0], rest.0);
        lemma_strict_head_bounds(new);
        assert forall|x: u64| #[trigger] rest.0.contains(x) implies new[0] < x by {
            assert(new.drop_first().contains(x));
        }
        lemma_strict_prepend(new[0], rest.0);
        assert(members_diff(new, old).0 == seq![new[0]] + rest.0);
    } else if new[0] == old[0] {
        lemma_strict_drop_first(new);
        lemma_strict_drop_first(old);
        lemma_members_diff_strict(new.drop_first(), old.drop_first());
        lemma_contains_head_tail(new);
        lemma_contains_head_tail(old);
        lemma_strict_head_bounds(new);
        lemma_strict_head_bounds(old);
        assert(!new.drop_first().contains(new[0]));
        assert(!old.drop_first().contains(old[0]));
        assert(members_diff(new, old) == members_diff(new.drop_first(), old.drop_first()));
    } else if old[0] < new[0] {
        lemma_strict_drop_first(old);
        lemma_members_diff_strict(new, old.drop_first());
        let rest = members_diff(new, old.drop_first());
        lemma_contains_head_tail(old);
        lemma_contains_prepend(old[0], rest.1);
        lemma_strict_head_bounds(old);
        lemma_strict_head_bounds(new);
        assert(!new.contains(old[0]));
        assert forall|x: u64| #[trigger] rest.1.contains(x) implies old[0] < x by {
            assert(old.drop_first().contains(x));
        }
        lemma_strict_prepend(old[0], rest.1);
        assert(members_diff(new, old).1 == seq![old[0]] + rest.1);
        assert(members_diff(new, old).0 == rest.0);
    } else {
        lemma_strict_drop_first(new);
        lemma_members_diff_strict(new.drop_first(), old);
        let rest = members_diff(new.drop_first(), old);
        lemma_contains_head_tail(new);
        lemma_contains_prepend(new[0], rest.0);
        lemma_strict_head_bounds(new);
        lemma_strict_head_bounds(old);
        assert(!old.contains(new[0]));
        assert forall|x: u64| #[trigger] rest.0.contains(x) implies new[0] < x by {
            assert(new.drop_first().contains(x));
        }
        lemma_strict_prepend(new[0], rest.0);
        assert(members_diff(new, old).0 == seq![new[0]] + rest.0);
        assert(members_diff(new, old).1 == rest.1);
    }
}

/// On duplicate-free snapshots the delta obeys the set laws: nothing incoming
/// is already a member, nothing outgoing stays a member, and the old members
/// minus the outgoing plus the incoming are exactly the new members; both
/// deltas are strictly ascending.
pub proof fn lemma_diff_set_laws(new: Seq<u64>, old: Seq<u64>)
    requires
        is_strictly_sorted(new),
        is_strictly_sorted(old),
    ensures
        members_diff(new, old).0.to_set().intersect(old.to_set()) == Set::<u64>::empty(),
        members_diff(new, old).1.to_set().intersect(new.to_set()) == Set::<u64>::empty(),
        old.to_set().difference(members_diff(new, old).1.to_set()).union(
            members_diff(new, old).0.to_set(),
        ) == new.to_set(),
        is_strictly_sorted(members_diff(new, old).0),
        is_strictly_sorted(members_diff(new, old).1),
{
    broadcast use vstd::set::group_set_axioms;

    lemma_members_diff_strict(new, old);
    assert(members_diff(new, old).0.to_set().intersect(old.to_set()) =~= Set::<u64>::empty());
    assert(members_diff(new, old).1.to_set().intersect(new.to_set()) =~= Set::<u64>::empty());
    assert(old.to_set().difference(members_diff(new, old).1.to_set()).union(
        members_diff(new, old).0.to_set(),
    ) =~= new.to_set());
}

} // verus!
