//! A verified non-fungible-token ownership ledger.
//!
//! The ledger tracks, for a growing universe of token identifiers, exactly one
//! current owner per token, optional single-token transfer delegations,
//! blanket operator delegations between account pairs, and a per-account
//! balance cache that is proved to stay exactly consistent with the ownership
//! table.  Every mutating operation is atomic: it either applies all of its
//! table writes and appends one event to the log, or returns an error and
//! leaves the ledger untouched.

pub mod digits;
pub mod events;
pub mod laws;
pub mod ledger;
pub mod model;
pub mod types;
