//! Origin authorization.
//!
//! An origin is an opaque "who is calling" value presented with a contextual
//! argument before a privileged operation. An authorizer consumes the origin:
//! on success it yields a typed success value, on failure it hands the
//! original origin back unchanged so that a caller can chain further
//! authorizers without losing it. `ensure_origin` collapses that failure into
//! the single uniform [`BadOrigin`] denial.

use vstd::prelude::*;

verus! {

/// The single authorization failure: an unconditional permission denial that
/// carries no further detail. Non-retryable without a different origin.
#[derive(Clone, Copy, Debug, PartialEq, Eq, Structural)]
pub struct BadOrigin;

impl BadOrigin {
    /// The uniform description of the denial.
    pub fn message(&self) -> &'static str {
        "Bad origin"
    }
}

impl From<BadOrigin> for &'static str {
    fn from(_denial: BadOrigin) -> &'static str {
        "Bad origin"
    }
}

impl vstd::std_specs::convert::FromSpecImpl<BadOrigin> for &'static str {
    open spec fn obeys_from_spec() -> bool {
        true
    }

    open spec fn from_spec(_denial: BadOrigin) -> Self {
        "Bad origin"
    }
}

/// An argument-aware check on the origin of a call.
///
/// `origin_allowed` is the authorization rule itself, as each implementation
/// defines it; the two checking entry points answer exactly according to that
/// rule, so a denial from one implies a denial from the other on identical
/// inputs.
pub trait EnsureOriginWithArg<OuterOrigin, Argument> {
    /// A return type carrying whatever the successful check extracts from
    /// the origin.
    type Success;

    /// The authorization rule: whether `o` may act in the context `a`.
    spec fn origin_allowed(o: OuterOrigin, a: Argument) -> bool;

    /// Perform the origin check, returning the origin value unchanged if
    /// unsuccessful. This allows chaining.
    fn try_origin(o: OuterOrigin, a: &Argument) -> (r: Result<Self::Success, OuterOrigin>)
        ensures
            (r is Ok) == Self::origin_allowed(o, *a),
            r matches Err(orig) ==> orig == o,
    ;

    /// Perform the origin check, surfacing the uniform bad-origin denial if
    /// unsuccessful: it fails exactly when `try_origin` fails on the same
    /// inputs.
    fn ensure_origin(o: OuterOrigin, a: &Argument) -> (r: Result<Self::Success, BadOrigin>)
        ensures
            (r is Ok) == Self::origin_allowed(o, *a),
    {
        match Self::try_origin(o, a) {
            Ok(s) => Ok(s),
            Err(_) => Err(BadOrigin),
        }
    }

    /// Synthesizes an origin guaranteed to pass `try_origin` for the
    /// argument `a`. It exists purely to drive performance harnesses without
    /// real authorization material and must not be reachable from production
    /// call paths.
    fn successful_origin(a: &Argument) -> (r: OuterOrigin)
        ensures
            Self::origin_allowed(r, *a),
    ;
}

/// Runs the origin check on a synthesized guaranteed-successful origin: such
/// a check always succeeds, whatever the argument.
pub fn check_successful_origin<OuterOrigin, Argument, E: EnsureOriginWithArg<
    OuterOrigin,
    Argument,
>>(a: &Argument) -> (r: Result<E::Success, OuterOrigin>)
    ensures
        r is Ok,
{
    let o = E::successful_origin(a);
    E::try_origin(o, a)
}

/// An authorizer admitting exactly the caller whose account equals the
/// expected account given as argument; any other caller is turned away with
/// its origin returned intact.
pub struct EnsureExpectedAccount;

impl EnsureOriginWithArg<u64, u64> for EnsureExpectedAccount {
    type Success = u64;

    open spec fn origin_allowed(o: u64, a: u64) -> bool {
        o == a
    }

    fn try_origin(o: u64, a: &u64) -> (r: Result<u64, u64>) {
        if o == *a {
            Ok(o)
        } else {
            Err(o)
        }
    }

    fn successful_origin(a: &u64) -> (r: u64) {
        *a
    }
}

} // verus!
