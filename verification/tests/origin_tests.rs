use collective_core::gating::TryCreate;
use collective_core::origin::{
    check_successful_origin, BadOrigin, EnsureExpectedAccount, EnsureOriginWithArg,
};

#[test]
fn try_origin_accepts_the_expected_account() {
    let r = EnsureExpectedAccount::try_origin(5, &5);
    assert_eq!(r, Ok(5));
}

// On failure the origin comes back unchanged, enabling fallback chaining.
#[test]
fn try_origin_returns_the_origin_on_failure() {
    let r = EnsureExpectedAccount::try_origin(6, &5);
    assert_eq!(r, Err(6));
}

// ensure_origin fails exactly when try_origin fails on identical inputs,
// surfacing the uniform denial instead of the origin.
#[test]
fn ensure_origin_agrees_with_try_origin() {
    assert_eq!(EnsureExpectedAccount::ensure_origin(5, &5), Ok(5));
    assert_eq!(EnsureExpectedAccount::ensure_origin(6, &5), Err(BadOrigin));
    assert!(EnsureExpectedAccount::try_origin(5, &5).is_ok());
    assert!(EnsureExpectedAccount::try_origin(6, &5).is_err());
}

#[test]
fn successful_origin_always_passes_try_origin() {
    for a in [0u64, 1, 7, u64::MAX] {
        let o = EnsureExpectedAccount::successful_origin(&a);
        assert_eq!(EnsureExpectedAccount::try_origin(o, &a), Ok(a));
        assert_eq!(
            check_successful_origin::<u64, u64, EnsureExpectedAccount>(&a),
            Ok(a)
        );
    }
}

#[test]
fn bad_origin_converts_to_its_message() {
    let s: &'static str = BadOrigin.into();
    assert_eq!(s, "Bad origin");
    assert_eq!(BadOrigin.message(), "Bad origin");
}

#[test]
fn unit_creation_gate_allows_everyone() {
    let gate = ();
    let r: Result<(), &'static str> = TryCreate::<u64, u64, &'static str>::try_create(&gate, 1, 2);
    assert_eq!(r, Ok(()));
}
