use collective_core::diff::diff;
use collective_core::sorting::sort_members;

#[test]
fn diff_example_scenario() {
    let old = vec![2u64, 5, 9];
    let new = vec![2u64, 7, 9, 11];
    let (incoming, outgoing) = diff(&new, &old);
    assert_eq!(incoming, vec![7u64, 11]);
    assert_eq!(outgoing, vec![5u64]);
}

#[test]
fn diff_identical_snapshots_is_empty() {
    let snapshot = vec![1u64, 4, 6, 10];
    let (incoming, outgoing) = diff(&snapshot, &snapshot);
    assert_eq!(incoming, Vec::<u64>::new());
    assert_eq!(outgoing, Vec::<u64>::new());
}

#[test]
fn diff_empty_old_makes_everything_incoming() {
    let old = Vec::<u64>::new();
    let new = vec![3u64, 8, 13];
    let (incoming, outgoing) = diff(&new, &old);
    assert_eq!(incoming, vec![3u64, 8, 13]);
    assert_eq!(outgoing, Vec::<u64>::new());
}

#[test]
fn diff_empty_new_makes_everything_outgoing() {
    let old = vec![3u64, 8, 13];
    let new = Vec::<u64>::new();
    let (incoming, outgoing) = diff(&new, &old);
    assert_eq!(incoming, Vec::<u64>::new());
    assert_eq!(outgoing, vec![3u64, 8, 13]);
}

#[test]
fn diff_both_empty() {
    let (incoming, outgoing) = diff(&Vec::<u64>::new(), &Vec::<u64>::new());
    assert_eq!(incoming, Vec::<u64>::new());
    assert_eq!(outgoing, Vec::<u64>::new());
}

#[test]
fn diff_disjoint_snapshots() {
    let old = vec![1u64, 3, 5];
    let new = vec![2u64, 4, 6];
    let (incoming, outgoing) = diff(&new, &old);
    assert_eq!(incoming, vec![2u64, 4, 6]);
    assert_eq!(outgoing, vec![1u64, 3, 5]);
}

// The diff engine never deduplicates: on duplicate-laden input the merge
// walk pairs equal elements off one by one, so the surplus occurrences
// surface in the delta. With old = [a, a, b] and new = [a, b, b] the walk
// pairs one a and one b, emits the second a as outgoing and the second b as
// incoming. This observed behavior is the contract.
#[test]
fn diff_duplicate_laden_input_is_walked_not_deduplicated() {
    let old = vec![1u64, 1, 2];
    let new = vec![1u64, 2, 2];
    let (incoming, outgoing) = diff(&new, &old);
    assert_eq!(incoming, vec![2u64]);
    assert_eq!(outgoing, vec![1u64]);
}

#[test]
fn diff_duplicates_on_one_side_only() {
    let old = vec![4u64, 4, 4];
    let new = vec![4u64];
    let (incoming, outgoing) = diff(&new, &old);
    assert_eq!(incoming, Vec::<u64>::new());
    assert_eq!(outgoing, vec![4u64, 4]);
}

#[test]
fn diff_outputs_preserve_source_order() {
    let old = vec![1u64, 2, 5, 7, 9];
    let new = vec![2u64, 3, 7, 8];
    let (incoming, outgoing) = diff(&new, &old);
    assert_eq!(incoming, vec![3u64, 8]);
    assert_eq!(outgoing, vec![1u64, 5, 9]);
}

#[test]
fn sort_members_sorts_ascending() {
    let mut v = vec![9u64, 2, 11, 7, 2];
    sort_members(&mut v);
    assert_eq!(v, vec![2u64, 2, 7, 9, 11]);
}

#[test]
fn sort_members_on_empty_and_sorted_input() {
    let mut empty = Vec::<u64>::new();
    sort_members(&mut empty);
    assert_eq!(empty, Vec::<u64>::new());

    let mut sorted = vec![1u64, 2, 3];
    sort_members(&mut sorted);
    assert_eq!(sorted, vec![1u64, 2, 3]);
}
