use vstd::prelude::*;

use crate::types::{AccountId, TokenId};

verus! {

/// Announcement that the ownership of token `id` changed.  A mint carries
/// `from == Some(NULL_ACCOUNT)`, a burn carries `to == Some(NULL_ACCOUNT)`.
#[derive(Clone, Copy, Debug, PartialEq, Eq)]
pub struct Transfer {
    pub from: Option<AccountId>,
    pub to: Option<AccountId>,
    pub id: TokenId,
}

/// Announcement that `to` was delegated transfer rights over token `id`.
#[derive(Clone, Copy, Debug, PartialEq, Eq)]
pub struct Approval {
    pub from: AccountId,
    pub to: AccountId,
    pub id: TokenId,
}

/// Announcement that `owner` granted (or revoked) blanket transfer rights
/// over all of its tokens to `operator`.
#[derive(Clone, Copy, Debug, PartialEq, Eq)]
pub struct ApprovalForAll {
    pub owner: AccountId,
    pub operator: AccountId,
    pub approved: bool,
}

/// One entry of the ledger's event log.  Successful mutating operations
/// append exactly one entry; failed ones append none.
#[derive(Clone, Copy, Debug, PartialEq, Eq)]
pub enum Event {
    Transfer(Transfer),
    Approval(Approval),
    ApprovalForAll(ApprovalForAll),
}

} // verus!
