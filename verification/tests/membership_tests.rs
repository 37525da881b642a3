use collective_core::membership::{
    ChangeNotifier, MembershipLedger, MembershipProvider, NoOpNotifier, PrimeTracker,
    SetCollectiveMembers,
};

#[test]
fn ledger_starts_empty() {
    let ledger = MembershipLedger::new();
    assert_eq!(ledger.get_members(1), Vec::<u64>::new());
    assert_eq!(ledger.get_prime(1), None);
}

#[test]
fn set_prime_and_get_prime_round_trip() {
    let mut ledger = MembershipLedger::new();
    ledger.set_prime(7, Some(3));
    assert_eq!(ledger.get_prime(7), Some(3));
    assert_eq!(ledger.get_prime(8), None);
    ledger.set_prime(7, None);
    assert_eq!(ledger.get_prime(7), None);
}

#[test]
fn set_members_sorted_stores_snapshot_and_clears_prime() {
    let mut ledger = MembershipLedger::new();
    ledger.set_prime(7, Some(5));
    let old = vec![2u64, 5, 9];
    let new = vec![2u64, 7, 9, 11];
    ledger.set_members_sorted(7, &new, &old);
    assert_eq!(ledger.get_members(7), vec![2u64, 7, 9, 11]);
    assert_eq!(ledger.get_prime(7), None);
}

// Even a transition with an empty delta is a transition boundary: the hook
// still fires and the prime is still reset.
#[test]
fn empty_delta_still_resets_prime() {
    let mut ledger = MembershipLedger::new();
    let members = vec![1u64, 2];
    ledger.set_members_sorted(4, &members, &Vec::<u64>::new());
    ledger.set_prime(4, Some(1));
    assert_eq!(ledger.get_prime(4), Some(1));
    ledger.set_members_sorted(4, &members, &members);
    assert_eq!(ledger.get_prime(4), None);
    assert_eq!(ledger.get_members(4), vec![1u64, 2]);
}

#[test]
fn transition_leaves_other_collectives_alone() {
    let mut ledger = MembershipLedger::new();
    ledger.set_prime(1, Some(10));
    let members = vec![10u64, 20];
    ledger.set_members_sorted(2, &members, &Vec::<u64>::new());
    assert_eq!(ledger.get_prime(1), Some(10));
    assert_eq!(ledger.get_members(1), Vec::<u64>::new());
    assert_eq!(ledger.get_prime(2), None);
}

// The unsorted entry point sorts before forwarding: permuted orderings of
// the same new set leave the identical snapshot behind.
#[test]
fn change_members_sorts_and_permutations_agree() {
    let incoming = vec![3u64];
    let outgoing = Vec::<u64>::new();

    let mut first = MembershipLedger::new();
    first.change_members(9, &incoming, &outgoing, vec![3u64, 1, 2]);

    let mut second = MembershipLedger::new();
    second.change_members(9, &incoming, &outgoing, vec![2u64, 3, 1]);

    assert_eq!(first.get_members(9), vec![1u64, 2, 3]);
    assert_eq!(second.get_members(9), vec![1u64, 2, 3]);
    assert_eq!(first.get_members(9), second.get_members(9));
}

#[test]
fn change_members_sorted_replaces_previous_snapshot() {
    let mut ledger = MembershipLedger::new();
    let first = vec![1u64, 2, 3];
    let second = vec![2u64, 4];
    ledger.change_members_sorted(3, &vec![1u64, 2, 3], &Vec::<u64>::new(), &first);
    assert_eq!(ledger.get_members(3), vec![1u64, 2, 3]);
    ledger.change_members_sorted(3, &vec![4u64], &vec![1u64, 3], &second);
    assert_eq!(ledger.get_members(3), vec![2u64, 4]);
}

#[test]
fn noop_notifier_reads_empty_and_accepts_notifications() {
    let mut notifier = NoOpNotifier::new();
    notifier.change_members_sorted(1, &vec![5u64], &Vec::<u64>::new(), &vec![5u64]);
    assert_eq!(notifier.get_members(1), Vec::<u64>::new());
    assert_eq!(notifier.get_prime(1), None);
}

#[test]
fn unit_provider_reads_empty() {
    let provider = ();
    assert_eq!(provider.get_members(42), Vec::<u64>::new());
    assert_eq!(provider.get_prime(42), None);
}

#[test]
fn unit_write_facade_accepts_any_set() {
    let members = vec![1u64, 2, 3];
    let r = <() as SetCollectiveMembers<u64, u64, &'static str>>::set_members_sorted(
        5,
        &members,
        Some(2),
    );
    assert_eq!(r, Ok(()));
}
