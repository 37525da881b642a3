//! Call filtering and collective creation gating.
//!
//! These are the two remaining authorization boundaries around the
//! membership core: a base filter deciding whether a call value may execute
//! at all, and a creation gate deciding whether an identity may initialize a
//! new collective under a given collective id.

use vstd::prelude::*;

verus! {

/// Decides whether a call value is permitted to execute at all. Evaluated by
/// the surrounding dispatch layer, orthogonal to origin authorization.
pub trait BaseCallFilter<Call> {
    /// Whether `call` is permitted.
    fn contains(&self, call: Call) -> bool;
}

/// Gate evaluated before an identity may initialize a new collective under a
/// collective id: a pure predicate with a caller-defined error payload,
/// yielding identical results for identical inputs absent external state
/// changes.
pub trait TryCreate<AccountId: Clone + Ord, DaoId: Clone, DispatchErr> {
    /// Whether `who` may create a collective instance under `dao_id`.
    fn try_create(&self, who: AccountId, dao_id: DaoId) -> Result<(), DispatchErr>;
}

/// The null-object creation gate: every identity may create every
/// collective.
impl<AccountId: Clone + Ord, DaoId: Clone, DispatchErr> TryCreate<
    AccountId,
    DaoId,
    DispatchErr,
> for () {
    fn try_create(&self, _who: AccountId, _dao_id: DaoId) -> Result<(), DispatchErr> {
        Ok(())
    }
}

} // verus!
