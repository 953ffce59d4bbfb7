//! The mathematical model of the ledger.
//!
//! [`LedgerView`] is the abstraction of the executable ledger: four logical
//! tables, the id allocator, and the event log.  The `spec_*` functions are
//! total transition functions; each executable mutating operation is proved
//! to return exactly the result and reach exactly the state that the
//! corresponding transition function computes.  [`wf`] is the inductive
//! invariant of reachable states.

use vstd::prelude::*;

use crate::events::{Approval, ApprovalForAll, Event, Transfer};
use crate::types::{AccountId, Error, TokenId, NULL_ACCOUNT};

verus! {

/// The abstract state of the ledger.
#[verifier::ext_equal]
pub struct LedgerView {
    /// Token to current owner; a token is extant iff it has an entry here.
    pub owners: Map<TokenId, AccountId>,
    /// Token to the single delegated account (at most one at a time).
    pub approvals: Map<TokenId, AccountId>,
    /// The (owner, operator) pairs holding blanket delegation.
    pub operators: Set<(AccountId, AccountId)>,
    /// Account to count of tokens currently owned.  A derived cache; the
    /// invariant ties it exactly to `owners`.
    pub balances: Map<AccountId, u32>,
    /// The next token id to mint; monotonically increasing, never reused.
    pub next_id: TokenId,
    /// Events announced so far, oldest first.
    pub log: Seq<Event>,
}

/// The state of a freshly constructed ledger.
pub open spec fn initial_ledger() -> LedgerView {
    LedgerView {
        owners: Map::empty(),
        approvals: Map::empty(),
        operators: Set::empty(),
        balances: Map::empty(),
        next_id: 1,
        log: Seq::empty(),
    }
}

/// The balance reported for `a`: the stored count, or 0 when no entry
/// exists.
pub open spec fn balance_of_spec(v: LedgerView, a: AccountId) -> u32 {
    if v.balances.contains_key(a) {
        v.balances[a]
    } else {
        0
    }
}

/// The set of tokens whose ownership record names `a`.
pub open spec fn owned_in(owners: Map<TokenId, AccountId>, a: AccountId) -> Set<TokenId> {
    owners.dom().filter(|id: TokenId| owners[id] == a)
}

/// The set of tokens currently owned by `a`.
pub open spec fn owned(v: LedgerView, a: AccountId) -> Set<TokenId> {
    owned_in(v.owners, a)
}

/// The current owner of `id`, or `None` when the token is not extant.
pub open spec fn owner_of_spec(v: LedgerView, id: TokenId) -> Option<AccountId> {
    if v.owners.contains_key(id) {
        Some(v.owners[id])
    } else {
        None
    }
}

/// The single-approval record for `id`, or `None` when absent.
pub open spec fn approved_spec(v: LedgerView, id: TokenId) -> Option<AccountId> {
    if v.approvals.contains_key(id) {
        Some(v.approvals[id])
    } else {
        None
    }
}

/// Whether `owner` has a standing blanket delegation to `operator`.
pub open spec fn is_operator(v: LedgerView, owner: AccountId, operator: AccountId) -> bool {
    v.operators.contains((owner, operator))
}

/// The authorization predicate used by every transfer: `candidate` may move
/// token `id` iff it is not the null account and is the owner, the single
/// approvee, or a standing operator of the owner.  Meaningful only when `id`
/// is extant; callers check existence first.
pub open spec fn is_authorized(v: LedgerView, candidate: AccountId, id: TokenId) -> bool {
    &&& candidate != NULL_ACCOUNT
    &&& {
        ||| candidate == v.owners[id]
        ||| (v.approvals.contains_key(id) && v.approvals[id] == candidate)
        ||| v.operators.contains((v.owners[id], candidate))
    }
}

/// A balance decrement with the two's-complement semantics of the machine:
/// decrementing an (unreachable under [`wf`]) zero count wraps around.
pub open spec fn wrap_dec(c: u32) -> u32 {
    if c == 0 {
        u32::MAX
    } else {
        (c - 1) as u32
    }
}

/// A balance increment with wrap-around at the machine limit; the wrap is
/// unreachable under [`wf`].
pub open spec fn wrap_inc(c: u32) -> u32 {
    if c == u32::MAX {
        0
    } else {
        (c + 1) as u32
    }
}

/// The inductive invariant of reachable ledger states.
pub open spec fn wf(v: LedgerView) -> bool {
    // The ownership table is a finite collection of records.
    &&& v.owners.dom().finite()
    // The allocator starts at 1 and only ever advances.
    &&& 1 <= v.next_id
    // Every extant token was allocated: its id lies below the allocator,
    // and the null account never owns a token.
    &&& forall|id: TokenId| #[trigger]
        v.owners.contains_key(id) ==> 1 <= id < v.next_id && v.owners[id] != NULL_ACCOUNT
    // An approval record exists only for an extant token, and never names
    // the null account.
    &&& forall|id: TokenId| #[trigger]
        v.approvals.contains_key(id) ==> v.owners.contains_key(id) && v.approvals[id]
            != NULL_ACCOUNT
    // The balance cache agrees exactly with the ownership table: every
    // account's balance is the number of tokens it owns.
    &&& forall|a: AccountId|
        #![trigger balance_of_spec(v, a)]
        #![trigger owned(v, a)]
        balance_of_spec(v, a) == owned(v, a).len()
    // No account holds a blanket delegation to itself.
    &&& forall|p: (AccountId, AccountId)| #[trigger] v.operators.contains(p) ==> p.0 != p.1
}

/// Shared procedure behind mint and the second half of a transfer: give
/// ownership of `id` to `to` and count it, refusing an already-extant token
/// and the null account.  On failure the state is returned unchanged.
pub open spec fn spec_add_ownership(v: LedgerView, to: AccountId, id: TokenId) -> (
    LedgerView,
    Result<(), Error>,
) {
    if v.owners.contains_key(id) {
        (v, Err(Error::TokenExists))
    } else if to == NULL_ACCOUNT {
        (v, Err(Error::NotAllowed))
    } else {
        (
            LedgerView {
                owners: v.owners.insert(id, to),
                balances: v.balances.insert(to, wrap_inc(balance_of_spec(v, to))),
                ..v
            },
            Ok(()),
        )
    }
}

/// Shared procedure behind burn and the first half of a transfer: drop the
/// ownership record of `id` and attribute the balance decrement to `from`.
/// `from` is trusted to be the true current owner; a mismatch desynchronizes
/// the balance cache and is the caller's responsibility.  On failure the
/// state is returned unchanged.
pub open spec fn spec_remove_ownership(v: LedgerView, from: AccountId, id: TokenId) -> (
    LedgerView,
    Result<(), Error>,
) {
    if !v.owners.contains_key(id) {
        (v, Err(Error::TokenNotFound))
    } else if !v.balances.contains_key(from) {
        (v, Err(Error::CannotFetchValue))
    } else {
        (
            LedgerView {
                owners: v.owners.remove(id),
                balances: v.balances.insert(from, wrap_dec(v.balances[from])),
                ..v
            },
            Ok(()),
        )
    }
}

/// The transition of `mint(caller)`: allocate the next id, give it to the
/// caller, advance the allocator and announce the transfer from the null
/// account.
pub open spec fn spec_mint(v: LedgerView, caller: AccountId) -> (
    LedgerView,
    Result<TokenId, Error>,
) {
    let id = v.next_id;
    let (v1, r) = spec_add_ownership(v, caller, id);
    match r {
        Err(e) => (v, Err(e)),
        Ok(_) => (
            LedgerView {
                next_id: ((id + 1) as TokenId),
                log: v1.log.push(
                    Event::Transfer(
                        Transfer { from: Some(NULL_ACCOUNT), to: Some(caller), id },
                    ),
                ),
                ..v1
            },
            Ok(id),
        ),
    }
}

/// The transition of `burn(caller, id)`: only the recorded owner may burn,
/// and a missing token is reported as `NotOwner` as well.  The ownership
/// record and any approval record die with the token; the id is never
/// reused.
pub open spec fn spec_burn(v: LedgerView, caller: AccountId, id: TokenId) -> (
    LedgerView,
    Result<(), Error>,
) {
    if !(v.owners.contains_key(id) && v.owners[id] == caller) {
        (v, Err(Error::NotOwner))
    } else if !v.balances.contains_key(caller) {
        (v, Err(Error::CannotFetchValue))
    } else {
        (
            LedgerView {
                owners: v.owners.remove(id),
                approvals: v.approvals.remove(id),
                balances: v.balances.insert(caller, wrap_dec(v.balances[caller])),
                log: v.log.push(
                    Event::Transfer(
                        Transfer { from: Some(caller), to: Some(NULL_ACCOUNT), id },
                    ),
                ),
                ..v
            },
            Ok(()),
        )
    }
}

/// The transition shared by `transfer` and `transfer_from`: `caller` is the
/// account whose authorization is checked, `from` the account whose balance
/// the removal is attributed to.  All validations happen before any write,
/// so a failing call observes no partial state.
pub open spec fn spec_transfer(
    v: LedgerView,
    caller: AccountId,
    from: AccountId,
    to: AccountId,
    id: TokenId,
) -> (LedgerView, Result<(), Error>) {
    if !v.owners.contains_key(id) {
        (v, Err(Error::TokenNotFound))
    } else if !is_authorized(v, caller, id) {
        (v, Err(Error::NotApproved))
    } else {
        let prev = v.owners[id];
        let v1 = LedgerView { approvals: v.approvals.remove(id), ..v };
        let (v2, r2) = spec_remove_ownership(v1, from, id);
        match r2 {
            Err(e) => (v, Err(e)),
            Ok(_) => {
                let (v3, r3) = spec_add_ownership(v2, to, id);
                match r3 {
                    Err(e) => (v, Err(e)),
                    Ok(_) => (
                        LedgerView {
                            log: v3.log.push(
                                Event::Transfer(
                                    Transfer { from: Some(prev), to: Some(to), id },
                                ),
                            ),
                            ..v3
                        },
                        Ok(()),
                    ),
                }
            },
        }
    }
}

/// The transition of `approve(caller, to, id)`: the owner or one of its
/// operators delegates token `id` to `to`.  An existing approval record is
/// never overwritten; it only dies when the token is transferred or burned.
pub open spec fn spec_approve(v: LedgerView, caller: AccountId, to: AccountId, id: TokenId) -> (
    LedgerView,
    Result<(), Error>,
) {
    if !v.owners.contains_key(id) {
        (v, Err(Error::NotAllowed))
    } else if !(caller == v.owners[id] || v.operators.contains((v.owners[id], caller))) {
        (v, Err(Error::NotAllowed))
    } else if to == NULL_ACCOUNT {
        (v, Err(Error::NotAllowed))
    } else if v.approvals.contains_key(id) {
        (v, Err(Error::CannotInsert))
    } else {
        (
            LedgerView {
                approvals: v.approvals.insert(id, to),
                log: v.log.push(Event::Approval(Approval { from: caller, to, id })),
                ..v
            },
            Ok(()),
        )
    }
}

/// The transition of `set_approval_for_all(caller, operator, approved)`:
/// grant or revoke a blanket delegation.  The event is announced whether or
/// not the membership actually changes; revoking an absent delegation is a
/// no-op, not an error.
pub open spec fn spec_set_approval_for_all(
    v: LedgerView,
    caller: AccountId,
    operator: AccountId,
    approved: bool,
) -> (LedgerView, Result<(), Error>) {
    if operator == caller {
        (v, Err(Error::NotAllowed))
    } else {
        (
            LedgerView {
                operators: if approved {
                    v.operators.insert((caller, operator))
                } else {
                    v.operators.remove((caller, operator))
                },
                log: v.log.push(
                    Event::ApprovalForAll(ApprovalForAll { owner: caller, operator, approved }),
                ),
                ..v
            },
            Ok(()),
        )
    }
}

/// Giving a fresh token to `a` grows `a`'s owned set by that token and
/// leaves every other account's owned set untouched.
pub proof fn lemma_owned_insert(owners: Map<TokenId, AccountId>, id: TokenId, a: AccountId)
    requires
        !owners.contains_key(id),
    ensures
        owned_in(owners.insert(id, a), a) == owned_in(owners, a).insert(id),
        forall|x: AccountId|
            x != a ==> #[trigger] owned_in(owners.insert(id, a), x) == owned_in(owners, x),
        !owned_in(owners, a).contains(id),
{
    assert(owned_in(owners.insert(id, a), a) =~= owned_in(owners, a).insert(id));
    assert forall|x: AccountId| x != a implies #[trigger] owned_in(owners.insert(id, a), x)
        == owned_in(owners, x) by {
        assert(owned_in(owners.insert(id, a), x) =~= owned_in(owners, x));
    }
}

/// Dropping a token's ownership record shrinks the owner's owned set by that
/// token and leaves every other account's owned set untouched.
pub proof fn lemma_owned_remove(owners: Map<TokenId, AccountId>, id: TokenId)
    requires
        owners.contains_key(id),
    ensures
        owned_in(owners.remove(id), owners[id]) == owned_in(owners, owners[id]).remove(id),
        forall|x: AccountId|
            x != owners[id] ==> #[trigger] owned_in(owners.remove(id), x) == owned_in(owners, x),
        owned_in(owners, owners[id]).contains(id),
{
    assert(owned_in(owners.remove(id), owners[id]) =~= owned_in(owners, owners[id]).remove(id));
    assert forall|x: AccountId| x != owners[id] implies #[trigger] owned_in(owners.remove(id), x)
        == owned_in(owners, x) by {
        assert(owned_in(owners.remove(id), x) =~= owned_in(owners, x));
    }
}

/// Under the invariant, every owned set is finite and smaller than the
/// allocator value: each owned token has a distinct id in `1 .. next_id`.
pub proof fn lemma_balance_bound(v: LedgerView, a: AccountId)
    requires
        wf(v),
    ensures
        owned(v, a).finite(),
        owned(v, a).len() < v.next_id,
        balance_of_spec(v, a) < v.next_id,
{
    let dom = v.owners.dom();
    let f = |id: TokenId| v.owners[id] == a;
    dom.lemma_len_filter(f);
    assert(owned(v, a) == dom.filter(f));
    assert(owned(v, a).len() <= dom.len());
    let range = Set::new(|i: TokenId| 1 <= i < v.next_id);
    assert forall|id: TokenId| dom.contains(id) implies range.contains(id) by {
        assert(v.owners.contains_key(id));
    }
    assert(dom.subset_of(range));
    vstd::set_lib::range_set_properties::<TokenId>(1, v.next_id);
    assert(range == <TokenId as vstd::set_lib::FiniteRange>::range_set(1, v.next_id));
    vstd::set_lib::lemma_len_subset(dom, range);
}

/// Under the invariant, an extant token's owner has a balance entry of at
/// least one: its owned set contains the token.
pub proof fn lemma_owner_has_balance(v: LedgerView, id: TokenId)
    requires
        wf(v),
        v.owners.contains_key(id),
    ensures
        v.balances.contains_key(v.owners[id]),
        v.balances[v.owners[id]] >= 1,
        owned(v, v.owners[id]).contains(id),
{
    let a = v.owners[id];
    lemma_balance_bound(v, a);
    assert(owned(v, a).contains(id));
    if balance_of_spec(v, a) == 0 {
        owned(v, a).lemma_len0_is_empty();
        assert(false);
    }
}

} // verus!
