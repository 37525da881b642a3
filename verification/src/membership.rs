//! Membership change propagation.
//!
//! A change notifier accepts a membership transition for one collective id —
//! either a precomputed incoming/outgoing delta or just the new and old
//! snapshots, in which case the delta is computed by the diff engine — and
//! fires one primitive hook exactly once per transition. Every transition
//! resets the tracked prime member of that collective; a caller that wants to
//! keep a prime must set it again afterwards.
//!
//! The trait contracts model the hook firings as a log of
//! [`MembershipChange`] records: each entry point appends exactly one record,
//! never zero and never more than one.

use std::collections::HashMap;
use vstd::prelude::*;
use crate::diff::{diff, members_diff};
use crate::sorting::{is_sorted, sort_members, sorted_version};

verus! {

broadcast use vstd::std_specs::hash::group_hash_axioms;

/// One membership transition as an observer sees it: the collective id, the
/// announced incoming/outgoing delta, and the full new snapshot.
pub struct MembershipChange {
    pub dao_id: u64,
    pub incoming: Seq<u64>,
    pub outgoing: Seq<u64>,
    pub new_members: Seq<u64>,
}

/// Read-side facade over the store backing collectives: the current member
/// snapshot and prime member per collective id.
pub trait MembershipProvider: Sized {
    /// The current member snapshot of the collective `dao_id`.
    spec fn members_of(&self, dao_id: u64) -> Seq<u64>;

    /// The current prime member of the collective `dao_id`, if one is set.
    spec fn prime_of(&self, dao_id: u64) -> Option<u64>;

    /// Returns the complete current member set of the collective `dao_id`.
    fn get_members(&self, dao_id: u64) -> (r: Vec<u64>)
        ensures
            r@ == self.members_of(dao_id),
    ;

    /// Returns the current prime member of the collective `dao_id`.
    fn get_prime(&self, dao_id: u64) -> (r: Option<u64>)
        ensures
            r == self.prime_of(dao_id),
    ;
}

/// The default provider for configurations with no real collective backing:
/// every collective is empty and has no prime.
impl MembershipProvider for () {
    open spec fn members_of(&self, dao_id: u64) -> Seq<u64> {
        Seq::<u64>::empty()
    }

    open spec fn prime_of(&self, dao_id: u64) -> Option<u64> {
        None
    }

    fn get_members(&self, dao_id: u64) -> (r: Vec<u64>) {
        Vec::new()
    }

    fn get_prime(&self, dao_id: u64) -> (r: Option<u64>) {
        None
    }
}

/// Holds and clears the designated prime member per collective id. Setting a
/// prime touches nothing but that collective's prime; it does not check that
/// the prime is a current member — that validation is a caller
/// responsibility.
pub trait PrimeTracker: MembershipProvider {
    /// Sets or clears the prime member of the collective `dao_id`.
    fn set_prime(&mut self, dao_id: u64, prime: Option<u64>)
        ensures
            final(self).prime_of(dao_id) == prime,
            forall|d: u64|
                d != dao_id ==> #[trigger] final(self).prime_of(d) == old(self).prime_of(d),
            forall|d: u64| #[trigger] final(self).members_of(d) == old(self).members_of(d),
    ;
}

/// Orchestrates a membership transition and notifies an observer exactly
/// once per transition.
///
/// `change_members_sorted` is the single primitive everything reduces to: an
/// implementer provides only it. The two provided entry points sort or diff
/// as needed and forward to it. Every pass through the primitive appends
/// exactly one record to `history` — never zero, never more than one, even
/// when the delta is empty — and unconditionally resets the prime member of
/// the collective: any call into this path is a transition boundary.
pub trait ChangeNotifier: MembershipProvider {
    /// The log of transitions this observer has been notified of, oldest
    /// first.
    spec fn history(&self) -> Seq<MembershipChange>;

    /// The primitive hook: fires once with the supplied delta and new
    /// snapshot, and resets the prime member of the collective `dao_id`.
    fn change_members_sorted(
        &mut self,
        dao_id: u64,
        incoming: &Vec<u64>,
        outgoing: &Vec<u64>,
        sorted_new: &Vec<u64>,
    )
        requires
            is_sorted(sorted_new@),
        ensures
            final(self).history() == old(self).history().push(
                (MembershipChange {
                    dao_id,
                    incoming: incoming@,
                    outgoing: outgoing@,
                    new_members: sorted_new@,
                }),
            ),
            final(self).prime_of(dao_id) is None,
            forall|d: u64|
                d != dao_id ==> #[trigger] final(self).prime_of(d) == old(self).prime_of(d),
    ;

    /// Entry point for an unsorted new snapshot: sorts it ascending, then
    /// fires the primitive hook once with the supplied delta.
    fn change_members(
        &mut self,
        dao_id: u64,
        incoming: &Vec<u64>,
        outgoing: &Vec<u64>,
        new_members: Vec<u64>,
    )
        ensures
            final(self).history() == old(self).history().push(
                (MembershipChange {
                    dao_id,
                    incoming: incoming@,
                    outgoing: outgoing@,
                    new_members: sorted_version(new_members@),
                }),
            ),
            final(self).prime_of(dao_id) is None,
            forall|d: u64|
                d != dao_id ==> #[trigger] final(self).prime_of(d) == old(self).prime_of(d),
    {
        let mut sorted_new = new_members;
        sort_members(&mut sorted_new);
        self.change_members_sorted(dao_id, incoming, outgoing, &sorted_new);
    }

    /// Entry point for two sorted snapshots: computes the incoming/outgoing
    /// delta with the diff engine, then fires the primitive hook once.
    fn set_members_sorted(&mut self, dao_id: u64, new_members: &Vec<u64>, old_members: &Vec<u64>)
        requires
            is_sorted(new_members@),
            is_sorted(old_members@),
        ensures
            final(self).history() == old(self).history().push(
                (MembershipChange {
                    dao_id,
                    incoming: members_diff(new_members@, old_members@).0,
                    outgoing: members_diff(new_members@, old_members@).1,
                    new_members: new_members@,
                }),
            ),
            final(self).prime_of(dao_id) is None,
            forall|d: u64|
                d != dao_id ==> #[trigger] final(self).prime_of(d) == old(self).prime_of(d),
    {
        let (incoming, outgoing) = diff(new_members, old_members);
        self.change_members_sorted(dao_id, &incoming, &outgoing, new_members);
    }
}

/// The null-object observer: discards every notification and backs no store,
/// so every collective reads as empty with no prime. Its transition log is
/// ghost state, which keeps the exactly-once guarantee checkable.
pub struct NoOpNotifier {
    log: Ghost<Seq<MembershipChange>>,
}

impl NoOpNotifier {
    /// A fresh no-op observer with an empty transition log.
    pub fn new() -> (r: NoOpNotifier)
        ensures
            r.history() == Seq::<MembershipChange>::empty(),
    {
        NoOpNotifier { log: Ghost(Seq::empty()) }
    }
}

impl MembershipProvider for NoOpNotifier {
    open spec fn members_of(&self, dao_id: u64) -> Seq<u64> {
        Seq::<u64>::empty()
    }

    open spec fn prime_of(&self, dao_id: u64) -> Option<u64> {
        None
    }

    fn get_members(&self, dao_id: u64) -> (r: Vec<u64>) {
        Vec::new()
    }

    fn get_prime(&self, dao_id: u64) -> (r: Option<u64>) {
        None
    }
}

impl ChangeNotifier for NoOpNotifier {
    closed spec fn history(&self) -> Seq<MembershipChange> {
        self.log@
    }

    fn change_members_sorted(
        &mut self,
        dao_id: u64,
        incoming: &Vec<u64>,
        outgoing: &Vec<u64>,
        sorted_new: &Vec<u64>,
    ) {
        self.log = Ghost(
            self.log@.push(
                MembershipChange {
                    dao_id,
                    incoming: incoming@,
                    outgoing: outgoing@,
                    new_members: sorted_new@,
                },
            ),
        );
    }
}

/// Copies a member snapshot.
fn copy_members(v: &Vec<u64>) -> (r: Vec<u64>)
    ensures
        r@ == v@,
{
    let mut r: Vec<u64> = Vec::new();
    let mut i: usize = 0;
    while i < v.len()
        invariant
            i <= v@.len(),
            r@ == v@.take(i as int),
        decreases v@.len() - i,
    {
        r.push(v[i]);
        i += 1;
        proof {
            assert(v@.take(i as int) =~= v@.take(i - 1).push(v@[i - 1]));
        }
    }
    proof {
        assert(v@.take(v@.len() as int) =~= v@);
    }
    r
}

/// An in-memory backing for collectives: it stores the current snapshot and
/// prime member per collective id, mirrors every announced transition into
/// that store, and keeps a ghost log of the notifications it received.
pub struct MembershipLedger {
    members: HashMap<u64, Vec<u64>>,
    primes: HashMap<u64, u64>,
    log: Ghost<Seq<MembershipChange>>,
}

impl MembershipLedger {
    /// A fresh ledger: every collective is empty, no prime is set, and the
    /// transition log is empty.
    pub fn new() -> (r: MembershipLedger)
        ensures
            r.history() == Seq::<MembershipChange>::empty(),
            forall|d: u64| #[trigger] r.members_of(d) == Seq::<u64>::empty(),
            forall|d: u64| #[trigger] r.prime_of(d) is None,
    {
        MembershipLedger {
            members: HashMap::new(),
            primes: HashMap::new(),
            log: Ghost(Seq::empty()),
        }
    }
}

impl MembershipProvider for MembershipLedger {
    closed spec fn members_of(&self, dao_id: u64) -> Seq<u64> {
        if self.members@.contains_key(dao_id) {
            self.members@[dao_id]@
        } else {
            Seq::<u64>::empty()
        }
    }

    closed spec fn prime_of(&self, dao_id: u64) -> Option<u64> {
        if self.primes@.contains_key(dao_id) {
            Some(self.primes@[dao_id])
        } else {
            None
        }
    }

    fn get_members(&self, dao_id: u64) -> (r: Vec<u64>) {
        match self.members.get(&dao_id) {
            Some(v) => copy_members(v),
            None => Vec::new(),
        }
    }

    fn get_prime(&self, dao_id: u64) -> (r: Option<u64>) {
        match self.primes.get(&dao_id) {
            Some(p) => Some(*p),
            None => None,
        }
    }
}

impl PrimeTracker for MembershipLedger {
    fn set_prime(&mut self, dao_id: u64, prime: Option<u64>) {
        match prime {
            Some(p) => {
                self.primes.insert(dao_id, p);
            },
            None => {
                self.primes.remove(&dao_id);
            },
        }
    }
}

impl ChangeNotifier for MembershipLedger {
    closed spec fn history(&self) -> Seq<MembershipChange> {
        self.log@
    }

    fn change_members_sorted(
        &mut self,
        dao_id: u64,
        incoming: &Vec<u64>,
        outgoing: &Vec<u64>,
        sorted_new: &Vec<u64>,
    )
        ensures
            final(self).members_of(dao_id) == sorted_new@,
            forall|d: u64|
                d != dao_id ==> #[trigger] final(self).members_of(d) == old(self).members_of(d),
    {
        let snapshot = copy_members(sorted_new);
        self.members.insert(dao_id, snapshot);
        self.primes.remove(&dao_id);
        self.log = Ghost(
            self.log@.push(
                MembershipChange {
                    dao_id,
                    incoming: incoming@,
                    outgoing: outgoing@,
                    new_members: sorted_new@,
                },
            ),
        );
    }
}

/// Write-side facade over a collective's store: replace the member set, with
/// an optional prime, in one call. The error payload type is caller-defined.
pub trait SetCollectiveMembers<
    AccountId: Clone + Ord,
    DaoId: Clone + Default + Copy,
    DispatchErr,
> {
    /// Replaces the member set of the collective `dao_id` with the ascending
    /// snapshot `members` and designates `prime`, if given.
    fn set_members_sorted(
        dao_id: DaoId,
        members: &[AccountId],
        prime: Option<AccountId>,
    ) -> (r: Result<(), DispatchErr>);
}

/// The null-object write facade: accepts any member set and stores nothing.
impl<AccountId: Clone + Ord, DaoId: Clone + Default + Copy, DispatchErr> SetCollectiveMembers<
    AccountId,
    DaoId,
    DispatchErr,
> for () {
    fn set_members_sorted(
        _dao_id: DaoId,
        _members: &[AccountId],
        _prime: Option<AccountId>,
    ) -> Result<(), DispatchErr> {
        Ok(())
    }
}

} // verus!
