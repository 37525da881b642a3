//! Core logic for managing the membership roster of a collective: a named
//! group of identities scoped to an owning collective id.
//!
//! The crate provides three tightly coupled pieces of logic:
//!
//! - computing the minimal incoming/outgoing delta between two membership
//!   snapshots ([`diff`]),
//! - propagating that delta, together with an optional prime (tie-breaking)
//!   member, to interested observers exactly once per change,
//! - gating privileged operations behind a pluggable, argument-aware
//!   authorization check.
//!
//! Persistent storage, networking and call dispatch are collaborators outside
//! this crate; the traits here describe only the boundary they must meet.

pub mod diff;
pub mod gating;
pub mod membership;
pub mod origin;
pub mod sorting;
