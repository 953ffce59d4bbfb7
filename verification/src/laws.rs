//! The laws of the ledger.
//!
//! Each lemma here is stated over the model's transition functions alone, so
//! it speaks about every executable call through the operations' contracts:
//! an executable operation returns exactly what the transition function
//! computes.  The `*_effects` lemmas prove, for each mutating operation,
//! when it succeeds, which error it returns otherwise, what it does to the
//! tables and the log, and that the invariant [`wf`] is preserved.

use vstd::prelude::*;

use crate::events::{Approval, ApprovalForAll, Event, Transfer};
use crate::model::{
    balance_of_spec, initial_ledger, is_authorized, lemma_balance_bound, lemma_owned_insert,
    lemma_owned_remove, lemma_owner_has_balance, approved_spec, is_operator, owned, owner_of_spec, spec_approve, spec_set_approval_for_all,
    spec_add_ownership, spec_remove_ownership, spec_mint, spec_burn, spec_transfer, wf, LedgerView,
};
use crate::types::{AccountId, Error, TokenId, NULL_ACCOUNT};

verus! {

/// A freshly constructed ledger satisfies the invariant.
pub proof fn lemma_initial_wf()
    ensures
        wf(initial_ledger()),
{
    let v = initial_ledger();
    assert forall|a: AccountId| balance_of_spec(v, a) == (#[trigger] owned(v, a)).len() by {
        assert(owned(v, a) =~= Set::<TokenId>::empty());
    }
}

/// Every account's balance equals the number of tokens it owns, in every
/// state satisfying the invariant.
pub proof fn lemma_balance_matches_ownership(v: LedgerView, a: AccountId)
    requires
        wf(v),
    ensures
        balance_of_spec(v, a) == owned(v, a).len(),
{
}

/// An approval record exists only for an extant token, in every state
/// satisfying the invariant.
pub proof fn lemma_approval_implies_extant(v: LedgerView, id: TokenId)
    requires
        wf(v),
        v.approvals.contains_key(id),
    ensures
        v.owners.contains_key(id),
        owner_of_spec(v, id) is Some,
{
}

/// What minting does: for a non-null caller it always succeeds, hands out
/// exactly the allocator's value, records the caller as owner, raises the
/// caller's balance by exactly one and nobody else's, advances the
/// allocator, announces one transfer from the null account — and preserves
/// the invariant.
pub proof fn lemma_mint_effects(v: LedgerView, caller: AccountId)
    requires
        wf(v),
        v.next_id < u32::MAX,
    ensures
        ({
            let (v2, r) = spec_mint(v, caller);
            &&& wf(v2)
            &&& caller == NULL_ACCOUNT ==> r == Err::<TokenId, Error>(Error::NotAllowed) && v2
                == v
            &&& caller != NULL_ACCOUNT ==> {
                &&& r == Ok::<TokenId, Error>(v.next_id)
                &&& v2.owners == v.owners.insert(v.next_id, caller)
                &&& owner_of_spec(v2, v.next_id) == Some(caller)
                &&& balance_of_spec(v2, caller) == balance_of_spec(v, caller) + 1
                &&& forall|x: AccountId|
                    x != caller ==> #[trigger] balance_of_spec(v2, x) == balance_of_spec(v, x)
                &&& v2.approvals == v.approvals
                &&& v2.operators == v.operators
                &&& v2.next_id == v.next_id + 1
                &&& v2.log == v.log.push(
                    Event::Transfer(
                        Transfer { from: Some(NULL_ACCOUNT), to: Some(caller), id: v.next_id },
                    ),
                )
            }
        }),
{
    let id = v.next_id;
    assert(!v.owners.contains_key(id));
    if caller != NULL_ACCOUNT {
        let (v2, r) = spec_mint(v, caller);
        lemma_owned_insert(v.owners, id, caller);
        lemma_balance_bound(v, caller);
        assert(balance_of_spec(v2, caller) == balance_of_spec(v, caller) + 1);
        assert forall|a: AccountId| balance_of_spec(v2, a) == (#[trigger] owned(v2, a)).len() by {
            if a == caller {
                assert(owned(v2, a) == owned(v, a).insert(id));
            } else {
                assert(owned(v2, a) == owned(v, a));
            }
        }
        assert(wf(v2));
    }
}

/// What burning does: only the recorded owner succeeds (a missing token
/// counts as not owned); success removes the ownership record and any
/// approval record, lowers the owner's balance by exactly one and nobody
/// else's, announces one transfer to the null account — and the invariant
/// is preserved, while a failed burn leaves the ledger unchanged.
pub proof fn lemma_burn_effects(v: LedgerView, caller: AccountId, id: TokenId)
    requires
        wf(v),
    ensures
        ({
            let (v2, r) = spec_burn(v, caller, id);
            &&& wf(v2)
            &&& !(v.owners.contains_key(id) && v.owners[id] == caller) ==> r == Err::<(), Error>(
                Error::NotOwner,
            ) && v2 == v
            &&& v.owners.contains_key(id) && v.owners[id] == caller ==> {
                &&& r == Ok::<(), Error>(())
                &&& v2.owners == v.owners.remove(id)
                &&& owner_of_spec(v2, id) == None::<AccountId>
                &&& !v2.approvals.contains_key(id)
                &&& balance_of_spec(v2, caller) == balance_of_spec(v, caller) - 1
                &&& forall|x: AccountId|
                    x != caller ==> #[trigger] balance_of_spec(v2, x) == balance_of_spec(v, x)
                &&& v2.operators == v.operators
                &&& v2.next_id == v.next_id
                &&& v2.log == v.log.push(
                    Event::Transfer(
                        Transfer { from: Some(caller), to: Some(NULL_ACCOUNT), id },
                    ),
                )
            }
        }),
{
    if v.owners.contains_key(id) && v.owners[id] == caller {
        let (v2, r) = spec_burn(v, caller, id);
        lemma_owner_has_balance(v, id);
        lemma_owned_remove(v.owners, id);
        assert forall|a: AccountId| balance_of_spec(v2, a) == (#[trigger] owned(v2, a)).len() by {
            if a == caller {
                assert(owned(v2, a) == owned(v, a).remove(id));
                lemma_balance_bound(v, a);
            } else {
                assert(owned(v2, a) == owned(v, a));
            }
        }
        assert(wf(v2));
    }
}

/// What a transfer does.  `caller` is the account whose authorization is
/// checked; `from` names whose balance the removal is charged to.  When
/// `from` is the true current owner — the documented caller obligation —
/// the transfer moves the token, force-clears its approval record, moves
/// exactly one unit of balance from `from` to `to`, announces one transfer,
/// and preserves the invariant.  Every failure leaves the ledger unchanged.
pub proof fn lemma_transfer_effects(
    v: LedgerView,
    caller: AccountId,
    from: AccountId,
    to: AccountId,
    id: TokenId,
)
    requires
        wf(v),
    ensures
        ({
            let (v2, r) = spec_transfer(v, caller, from, to, id);
            &&& r is Err ==> v2 == v
            &&& !v.owners.contains_key(id) ==> r == Err::<(), Error>(Error::TokenNotFound)
            &&& v.owners.contains_key(id) && !is_authorized(v, caller, id) ==> r == Err::<
                (),
                Error,
            >(Error::NotApproved)
            &&& v.owners.contains_key(id) && is_authorized(v, caller, id)
                && !v.balances.contains_key(from) ==> r == Err::<(), Error>(
                Error::CannotFetchValue,
            )
            &&& v.owners.contains_key(id) && is_authorized(v, caller, id)
                && v.balances.contains_key(from) && to == NULL_ACCOUNT ==> r == Err::<(), Error>(
                Error::NotAllowed,
            )
            &&& v.owners.contains_key(id) && is_authorized(v, caller, id) && v.owners[id] == from
                && to != NULL_ACCOUNT ==> {
                &&& r == Ok::<(), Error>(())
                &&& v2.owners == v.owners.remove(id).insert(id, to)
                &&& owner_of_spec(v2, id) == Some(to)
                &&& !v2.approvals.contains_key(id)
                &&& forall|k: TokenId|
                    k != id ==> #[trigger] v2.approvals.contains_key(k) == v.approvals.contains_key(
                        k,
                    )
                &&& to != from ==> balance_of_spec(v2, from) == balance_of_spec(v, from) - 1
                    && balance_of_spec(v2, to) == balance_of_spec(v, to) + 1
                &&& to == from ==> balance_of_spec(v2, from) == balance_of_spec(v, from)
                &&& forall|x: AccountId|
                    x != from && x != to ==> #[trigger] balance_of_spec(v2, x) == balance_of_spec(
                        v,
                        x,
                    )
                &&& v2.operators == v.operators
                &&& v2.next_id == v.next_id
                &&& v2.log == v.log.push(
                    Event::Transfer(Transfer { from: Some(from), to: Some(to), id }),
                )
                &&& wf(v2)
            }
        }),
{
    if v.owners.contains_key(id) && is_authorized(v, caller, id) && v.owners[id] == from && to
        != NULL_ACCOUNT {
        let (v2, r) = spec_transfer(v, caller, from, to, id);
        lemma_owner_has_balance(v, id);
        let va = LedgerView { approvals: v.approvals.remove(id), ..v };
        let c = v.balances[from];
        let vb = LedgerView {
            owners: va.owners.remove(id),
            balances: va.balances.insert(from, (c - 1) as u32),
            ..va
        };
        assert(spec_remove_ownership(va, from, id) == (vb, Ok::<(), Error>(())));
        lemma_owned_remove(v.owners, id);
        lemma_balance_bound(v, from);
        lemma_balance_bound(v, to);
        assert(!vb.owners.contains_key(id));
        let (vc, rc) = spec_add_ownership(vb, to, id);
        assert(rc == Ok::<(), Error>(()));
        lemma_owned_insert(vb.owners, id, to);
        // The increment does not wrap: before the call `to` owned fewer than
        // `next_id` tokens, and `next_id` fits in the balance type.
        assert(balance_of_spec(vb, to) < v.next_id || to == from);
        assert forall|a: AccountId| balance_of_spec(vc, a) == (#[trigger] owned(vc, a)).len() by {
            if a == to {
                assert(owned(vc, a) == owned(vb, a).insert(id));
                if to == from {
                    assert(owned(vb, a) == owned(v, a).remove(id));
                } else {
                    assert(owned(vb, a) == owned(v, a));
                }
            } else if a == from {
                assert(owned(vc, a) == owned(vb, a));
                assert(owned(vb, a) == owned(v, a).remove(id));
            } else {
                assert(owned(vc, a) == owned(vb, a));
                assert(owned(vb, a) == owned(v, a));
            }
        }
        assert(v2.owners == vc.owners && v2.balances == vc.balances && v2.approvals
            == vc.approvals && v2.operators == vc.operators && v2.next_id == vc.next_id);
        assert forall|a: AccountId| balance_of_spec(v2, a) == (#[trigger] owned(v2, a)).len() by {
            assert(balance_of_spec(v2, a) == balance_of_spec(vc, a));
            assert(owned(v2, a) == owned(vc, a));
        }
        assert(wf(v2));
        assert(v2.owners == v.owners.remove(id).insert(id, to));
    }
}

/// What approving does: the owner of an extant token, or one of its
/// standing operators, may delegate the token to a non-null account, but
/// only while no approval record exists; everything else is rejected and
/// leaves the ledger unchanged.  The invariant is preserved.
pub proof fn lemma_approve_effects(v: LedgerView, caller: AccountId, to: AccountId, id: TokenId)
    requires
        wf(v),
    ensures
        ({
            let (v2, r) = spec_approve(v, caller, to, id);
            &&& wf(v2)
            &&& r is Err ==> v2 == v
            &&& !v.owners.contains_key(id) ==> r == Err::<(), Error>(Error::NotAllowed)
            &&& v.owners.contains_key(id) && !(caller == v.owners[id] || v.operators.contains(
                (v.owners[id], caller),
            )) ==> r == Err::<(), Error>(Error::NotAllowed)
            &&& v.owners.contains_key(id) && (caller == v.owners[id] || v.operators.contains(
                (v.owners[id], caller),
            )) && to == NULL_ACCOUNT ==> r == Err::<(), Error>(Error::NotAllowed)
            &&& v.owners.contains_key(id) && (caller == v.owners[id] || v.operators.contains(
                (v.owners[id], caller),
            )) && to != NULL_ACCOUNT && v.approvals.contains_key(id) ==> r == Err::<(), Error>(
                Error::CannotInsert,
            )
            &&& v.owners.contains_key(id) && (caller == v.owners[id] || v.operators.contains(
                (v.owners[id], caller),
            )) && to != NULL_ACCOUNT && !v.approvals.contains_key(id) ==> {
                &&& r == Ok::<(), Error>(())
                &&& v2.approvals == v.approvals.insert(id, to)
                &&& approved_spec(v2, id) == Some(to)
                &&& v2.owners == v.owners
                &&& v2.balances == v.balances
                &&& v2.operators == v.operators
                &&& v2.next_id == v.next_id
                &&& v2.log == v.log.push(Event::Approval(Approval { from: caller, to, id }))
            }
        }),
{
    let (v2, r) = spec_approve(v, caller, to, id);
    if r is Ok {
        assert forall|a: AccountId| balance_of_spec(v2, a) == (#[trigger] owned(v2, a)).len() by {
            assert(balance_of_spec(v2, a) == balance_of_spec(v, a));
            assert(owned(v2, a) == owned(v, a));
        }
        assert(wf(v2));
    }
}

/// What granting or revoking a blanket delegation does: self-delegation is
/// rejected; otherwise exactly the (caller, operator) pair is added or
/// dropped, no other pair changes, and the event is announced whether or
/// not the membership changed.  The invariant is preserved.
pub proof fn lemma_set_approval_for_all_effects(
    v: LedgerView,
    caller: AccountId,
    operator: AccountId,
    approved: bool,
)
    requires
        wf(v),
    ensures
        ({
            let (v2, r) = spec_set_approval_for_all(v, caller, operator, approved);
            &&& wf(v2)
            &&& operator == caller ==> r == Err::<(), Error>(Error::NotAllowed) && v2 == v
            &&& operator != caller ==> {
                &&& r == Ok::<(), Error>(())
                &&& is_operator(v2, caller, operator) == approved
                &&& forall|p: (AccountId, AccountId)|
                    p != (caller, operator) ==> #[trigger] v2.operators.contains(p)
                        == v.operators.contains(p)
                &&& v2.owners == v.owners
                &&& v2.approvals == v.approvals
                &&& v2.balances == v.balances
                &&& v2.next_id == v.next_id
                &&& v2.log == v.log.push(
                    Event::ApprovalForAll(ApprovalForAll { owner: caller, operator, approved }),
                )
            }
        }),
{
    let (v2, r) = spec_set_approval_for_all(v, caller, operator, approved);
    if operator != caller {
        assert forall|a: AccountId| balance_of_spec(v2, a) == (#[trigger] owned(v2, a)).len() by {
            assert(balance_of_spec(v2, a) == balance_of_spec(v, a));
            assert(owned(v2, a) == owned(v, a));
        }
        assert(wf(v2));
    }
}

/// Granting the same blanket delegation twice leaves the operator table
/// exactly as after the first grant, yet the event is announced both times.
pub proof fn lemma_set_approval_for_all_idempotent(
    v: LedgerView,
    caller: AccountId,
    operator: AccountId,
)
    requires
        operator != caller,
    ensures
        ({
            let (v1, r1) = spec_set_approval_for_all(v, caller, operator, true);
            let (v2, r2) = spec_set_approval_for_all(v1, caller, operator, true);
            &&& r1 == Ok::<(), Error>(())
            &&& r2 == Ok::<(), Error>(())
            &&& v2.operators == v1.operators
            &&& v1.log == v.log.push(
                Event::ApprovalForAll(
                    ApprovalForAll { owner: caller, operator, approved: true },
                ),
            )
            &&& v2.log == v1.log.push(
                Event::ApprovalForAll(
                    ApprovalForAll { owner: caller, operator, approved: true },
                ),
            )
        }),
{
    let (v1, r1) = spec_set_approval_for_all(v, caller, operator, true);
    assert(v1.operators.insert((caller, operator)) =~= v1.operators);
}

/// Two sequential mints by the same non-null caller hand out two distinct,
/// strictly increasing ids and raise the caller's balance by exactly two.
pub proof fn lemma_mint_twice(v: LedgerView, caller: AccountId)
    requires
        wf(v),
        caller != NULL_ACCOUNT,
        v.next_id + 1 < u32::MAX,
    ensures
        ({
            let (v1, r1) = spec_mint(v, caller);
            let (v2, r2) = spec_mint(v1, caller);
            &&& r1 == Ok::<TokenId, Error>(v.next_id)
            &&& r2 == Ok::<TokenId, Error>(((v.next_id + 1) as TokenId))
            &&& v.next_id < v.next_id + 1
            &&& owner_of_spec(v2, v.next_id) == Some(caller)
            &&& owner_of_spec(v2, ((v.next_id + 1) as TokenId)) == Some(caller)
            &&& balance_of_spec(v2, caller) == balance_of_spec(v, caller) + 2
            &&& wf(v2)
        }),
{
    let (v1, r1) = spec_mint(v, caller);
    lemma_mint_effects(v, caller);
    lemma_mint_effects(v1, caller);
}

/// A single approval at work: after the owner approves `bob` for a token,
/// `bob` may transfer it to itself; the token changes hands, the approval
/// record is force-cleared, and exactly one unit of balance moves from the
/// owner to `bob`.
pub proof fn lemma_approve_then_transfer(v: LedgerView, alice: AccountId, bob: AccountId, id: TokenId)
    requires
        wf(v),
        v.owners.contains_key(id),
        v.owners[id] == alice,
        !v.approvals.contains_key(id),
        bob != NULL_ACCOUNT,
        bob != alice,
    ensures
        ({
            let (v1, r1) = spec_approve(v, alice, bob, id);
            let (v2, r2) = spec_transfer(v1, bob, alice, bob, id);
            &&& r1 == Ok::<(), Error>(())
            &&& r2 == Ok::<(), Error>(())
            &&& owner_of_spec(v2, id) == Some(bob)
            &&& approved_spec(v2, id) == None::<AccountId>
            &&& balance_of_spec(v2, alice) == balance_of_spec(v, alice) - 1
            &&& balance_of_spec(v2, bob) == balance_of_spec(v, bob) + 1
            &&& wf(v2)
        }),
{
    let (v1, r1) = spec_approve(v, alice, bob, id);
    lemma_approve_effects(v, alice, bob, id);
    lemma_transfer_effects(v1, bob, alice, bob, id);
}

/// A second approval for the same token, before any transfer, is rejected
/// with `CannotInsert` and changes nothing: an approval record is never
/// overwritten.
pub proof fn lemma_second_approve_fails(
    v: LedgerView,
    alice: AccountId,
    bob: AccountId,
    carol: AccountId,
    id: TokenId,
)
    requires
        wf(v),
        v.owners.contains_key(id),
        v.owners[id] == alice,
        !v.approvals.contains_key(id),
        bob != NULL_ACCOUNT,
        carol != NULL_ACCOUNT,
    ensures
        ({
            let (v1, r1) = spec_approve(v, alice, bob, id);
            let (v2, r2) = spec_approve(v1, alice, carol, id);
            &&& r1 == Ok::<(), Error>(())
            &&& r2 == Err::<(), Error>(Error::CannotInsert)
            &&& v2 == v1
        }),
{
    let (v1, r1) = spec_approve(v, alice, bob, id);
    lemma_approve_effects(v, alice, bob, id);
    lemma_approve_effects(v1, alice, carol, id);
}

/// A blanket delegation at work: after the owner grants `carol` operator
/// rights, `carol` may transfer any of the owner's tokens without any
/// single-token approval being set.
pub proof fn lemma_operator_can_transfer(
    v: LedgerView,
    alice: AccountId,
    carol: AccountId,
    id: TokenId,
)
    requires
        wf(v),
        v.owners.contains_key(id),
        v.owners[id] == alice,
        carol != NULL_ACCOUNT,
        carol != alice,
    ensures
        ({
            let (v1, r1) = spec_set_approval_for_all(v, alice, carol, true);
            let (v2, r2) = spec_transfer(v1, carol, alice, carol, id);
            &&& r1 == Ok::<(), Error>(())
            &&& r2 == Ok::<(), Error>(())
            &&& owner_of_spec(v2, id) == Some(carol)
            &&& wf(v2)
        }),
{
    let (v1, r1) = spec_set_approval_for_all(v, alice, carol, true);
    lemma_set_approval_for_all_effects(v, alice, carol, true);
    lemma_transfer_effects(v1, carol, alice, carol, id);
}

/// A transfer targeting the null account never succeeds and leaves the
/// ledger unchanged; once token existence, authorization and the balance
/// lookup have passed, the error is precisely `NotAllowed`.
pub proof fn lemma_transfer_to_null_rejected(
    v: LedgerView,
    caller: AccountId,
    from: AccountId,
    id: TokenId,
)
    requires
        wf(v),
    ensures
        ({
            let (v2, r) = spec_transfer(v, caller, from, NULL_ACCOUNT, id);
            &&& v2 == v
            &&& r is Err
            &&& v.owners.contains_key(id) && is_authorized(v, caller, id)
                && v.balances.contains_key(from) ==> r == Err::<(), Error>(Error::NotAllowed)
        }),
{
    lemma_transfer_effects(v, caller, from, NULL_ACCOUNT, id);
}

/// An approval targeting the null account is always rejected with
/// `NotAllowed` and leaves the ledger unchanged.
pub proof fn lemma_approve_null_rejected(v: LedgerView, caller: AccountId, id: TokenId)
    requires
        wf(v),
    ensures
        spec_approve(v, caller, NULL_ACCOUNT, id) == (v, Err::<(), Error>(Error::NotAllowed)),
{
}

/// Granting oneself a blanket delegation is rejected with `NotAllowed` and
/// leaves the ledger unchanged.
pub proof fn lemma_self_operator_rejected(v: LedgerView, caller: AccountId, approved: bool)
    ensures
        spec_set_approval_for_all(v, caller, caller, approved) == (
            v,
            Err::<(), Error>(Error::NotAllowed),
        ),
{
}

} // verus!

