use vstd::prelude::*;

verus! {

/// A token identifier.  Identifiers are allocated sequentially starting at 1
/// and are never reused, even after the token is burned.
pub type TokenId = u32;

/// An account identity.  The ledger treats accounts as opaque,
/// equality-comparable values; the zero value is reserved as the null
/// account, which can never own a token nor receive a delegation.
pub type AccountId = u64;

/// The reserved identity that never legitimately owns or is approved for a
/// token; it appears only as the conventional "from"/"to" placeholder in
/// mint and burn events.
pub const NULL_ACCOUNT: AccountId = 0;

/// The error kinds returned by the mutating operations.  Every error is a
/// caller-input or precondition failure; the failed call leaves the ledger
/// unchanged.
#[derive(Clone, Copy, Debug, PartialEq, Eq, Structural)]
pub enum Error {
    /// The caller is not the recorded owner where strict ownership is
    /// required (burn, including burn of a token that does not exist).
    NotOwner,
    /// The authorization predicate failed for a transfer.
    NotApproved,
    /// An ownership record for an already-extant token was about to be
    /// created.
    TokenExists,
    /// A non-extant token was referenced where existence is required
    /// directly (the transfer path).
    TokenNotFound,
    /// A single-token approval record for the token already exists.
    CannotInsert,
    /// A balance entry expected during a decrement was missing.
    CannotFetchValue,
    /// Catch-all: null-account targets and self-operator approval.
    NotAllowed,
}

} // verus!
