//! The executable ledger.
//!
//! [`Erc721`] holds the four tables, the id allocator and the event log.
//! Its view is the [`LedgerView`] of [`crate::model`]; every operation's
//! contract states that the call performs exactly the transition that the
//! model's `spec_*` function describes.

use std::collections::HashMap;

use vstd::prelude::*;
use vstd::string::StringExecFns;

use crate::events::{Approval, ApprovalForAll, Event, Transfer};
use crate::laws::{
    lemma_approve_effects, lemma_burn_effects, lemma_mint_effects,
    lemma_set_approval_for_all_effects, lemma_transfer_effects,
};
use crate::model::{
    balance_of_spec, initial_ledger, is_authorized, is_operator, owner_of_spec, approved_spec,
    spec_add_ownership, spec_approve, spec_burn, spec_mint, spec_remove_ownership,
    spec_set_approval_for_all, spec_transfer, wrap_dec, wrap_inc, wf, LedgerView,
};
use crate::types::{AccountId, Error, TokenId, NULL_ACCOUNT};

verus! {

broadcast use vstd::std_specs::hash::group_hash_axioms;

/// One more than the largest account id; the multiplier that packs an
/// (owner, operator) pair of accounts into one operator-table key.
pub const PAIR_BASE: u128 = 0x1_0000_0000_0000_0000;

/// The table key standing for the (owner, operator) delegation pair.  The
/// packing is injective because an account id is always below `PAIR_BASE`.
pub open spec fn pair_key(owner: AccountId, operator: AccountId) -> u128 {
    ((owner as u128) * PAIR_BASE + (operator as u128)) as u128
}

/// The set of delegation pairs a packed operator table holds.
pub open spec fn operators_of(m: Map<u128, ()>) -> Set<(AccountId, AccountId)> {
    Set::new(|p: (AccountId, AccountId)| m.contains_key(pair_key(p.0, p.1)))
}

/// Two equal packed keys come from the same pair.
pub proof fn lemma_pair_key_injective(a1: AccountId, b1: AccountId, a2: AccountId, b2: AccountId)
    requires
        pair_key(a1, b1) == pair_key(a2, b2),
    ensures
        a1 == a2,
        b1 == b2,
{
    assert(a1 == a2 && b1 == b2) by (nonlinear_arith)
        requires
            (a1 as u128) * PAIR_BASE + (b1 as u128) == (a2 as u128) * PAIR_BASE + (b2 as u128),
            (b1 as u128) < PAIR_BASE,
            (b2 as u128) < PAIR_BASE,
    ;
}

/// The fixed base of the metadata URI.
pub open spec fn base_uri() -> Seq<char> {
    "https://example.com/"@
}

/// The non-fungible-token ownership ledger.
pub struct Erc721 {
    token_owner: HashMap<TokenId, AccountId>,
    token_approvals: HashMap<TokenId, AccountId>,
    owned_tokens_count: HashMap<AccountId, u32>,
    operator_approvals: HashMap<u128, ()>,
    token_id: TokenId,
    events: Vec<Event>,
}

impl View for Erc721 {
    type V = LedgerView;

    closed spec fn view(&self) -> LedgerView {
        LedgerView {
            owners: self.token_owner@,
            approvals: self.token_approvals@,
            operators: operators_of(self.operator_approvals@),
            balances: self.owned_tokens_count@,
            next_id: self.token_id,
            log: self.events@,
        }
    }
}

impl Erc721 {
    /// An empty ledger: no tokens, no delegations, allocator at 1.
    pub fn new() -> (s: Self)
        ensures
            s@ == initial_ledger(),
            wf(s@),
    {
        let s = Erc721 {
            token_owner: HashMap::new(),
            token_approvals: HashMap::new(),
            owned_tokens_count: HashMap::new(),
            operator_approvals: HashMap::new(),
            token_id: 1,
            events: Vec::new(),
        };
        proof {
            assert(s@.operators =~= initial_ledger().operators);
            assert(s@ =~= initial_ledger());
            assert forall|a: AccountId| balance_of_spec(s@, a) == crate::model::owned(
                s@,
                a,
            ).len() by {
                assert(crate::model::owned(s@, a) =~= Set::<TokenId>::empty());
            }
        }
        s
    }

    /// The number of tokens `owner` currently owns.
    pub fn balance_of(&self, owner: AccountId) -> (r: u32)
        ensures
            r == balance_of_spec(self@, owner),
    {
        self.balance_of_or_zero(owner)
    }

    /// The current owner of `id`, or `None` when the token is not extant.
    pub fn owner_of(&self, id: TokenId) -> (r: Option<AccountId>)
        ensures
            r == owner_of_spec(self@, id),
    {
        match self.token_owner.get(&id) {
            Some(a) => Some(*a),
            None => None,
        }
    }

    /// The account the owner delegated token `id` to, or `None`.
    pub fn get_approved(&self, id: TokenId) -> (r: Option<AccountId>)
        ensures
            r == approved_spec(self@, id),
    {
        match self.token_approvals.get(&id) {
            Some(a) => Some(*a),
            None => None,
        }
    }

    /// Whether `owner` holds a standing blanket delegation to `operator`.
    pub fn is_approved_for_all(&self, owner: AccountId, operator: AccountId) -> (r: bool)
        ensures
            r == is_operator(self@, owner, operator),
    {
        self.approved_for_all(owner, operator)
    }

    /// The metadata URI: the fixed base followed by the decimal rendering
    /// of the next allocator value (not of any particular token's id).
    pub fn token_uri(&self) -> (r: String)
        ensures
            r@ == base_uri() + crate::digits::dec_str(self@.next_id as nat),
    {
        let mut s = String::from_str("https://example.com/");
        let num = crate::digits::u32_to_decimal(self.token_id);
        s.append(num.as_str());
        s
    }

    /// The next id the allocator will hand out.
    pub fn next_token_id(&self) -> (r: TokenId)
        ensures
            r == self@.next_id,
    {
        self.token_id
    }

    /// The events announced so far, oldest first.
    pub fn events(&self) -> (r: &Vec<Event>)
        ensures
            r@ == self@.log,
    {
        &self.events
    }

    fn balance_of_or_zero(&self, of: AccountId) -> (r: u32)
        ensures
            r == balance_of_spec(self@, of),
    {
        match self.owned_tokens_count.get(&of) {
            Some(c) => *c,
            None => 0,
        }
    }

    fn approved_for_all(&self, owner: AccountId, operator: AccountId) -> (r: bool)
        ensures
            r == is_operator(self@, owner, operator),
    {
        let key = pair_key_exec(owner, operator);
        self.operator_approvals.contains_key(&key)
    }

    fn token_exists(&self, id: TokenId) -> (r: bool)
        ensures
            r == self@.owners.contains_key(id),
    {
        self.token_owner.contains_key(&id)
    }

    /// Mint the next token to `caller`: for a non-null caller this always
    /// succeeds and returns the freshly allocated id.
    pub fn mint(&mut self, caller: AccountId) -> (r: Result<TokenId, Error>)
        requires
            old(self)@.next_id < u32::MAX,
        ensures
            ({
                let (v2, r2) = spec_mint(old(self)@, caller);
                final(self)@ == v2 && r == r2
            }),
            wf(old(self)@) ==> wf(final(self)@),
            wf(old(self)@) && caller != NULL_ACCOUNT ==> r == Ok::<TokenId, Error>(
                old(self)@.next_id,
            ),
    {
        proof {
            if wf(old(self)@) {
                lemma_mint_effects(old(self)@, caller);
            }
        }
        let id = self.token_id;
        match self.add_token_to(caller, id) {
            Err(e) => {
                return Err(e);
            },
            Ok(()) => {},
        }
        self.events.push(
            Event::Transfer(Transfer { from: Some(NULL_ACCOUNT), to: Some(caller), id }),
        );
        self.token_id = id + 1;
        Ok(id)
    }

    /// Burn token `id`: only its recorded owner may do so, and a missing
    /// token counts as not owned.  The ownership record and any approval
    /// record are removed and the id is never handed out again.
    pub fn burn(&mut self, caller: AccountId, id: TokenId) -> (r: Result<(), Error>)
        ensures
            ({
                let (v2, r2) = spec_burn(old(self)@, caller, id);
                final(self)@ == v2 && r == r2
            }),
            wf(old(self)@) ==> wf(final(self)@),
    {
        proof {
            if wf(old(self)@) {
                lemma_burn_effects(old(self)@, caller, id);
            }
        }
        let owner = match self.token_owner.get(&id) {
            Some(o) => *o,
            None => {
                return Err(Error::NotOwner);
            },
        };
        if owner != caller {
            return Err(Error::NotOwner);
        }
        let count = match self.owned_tokens_count.get(&caller) {
            Some(c) => wrap_dec_exec(*c),
            None => {
                return Err(Error::CannotFetchValue);
            },
        };
        self.owned_tokens_count.insert(caller, count);
        self.token_owner.remove(&id);
        self.token_approvals.remove(&id);
        self.events.push(
            Event::Transfer(Transfer { from: Some(caller), to: Some(NULL_ACCOUNT), id }),
        );
        Ok(())
    }

    /// Transfer token `id` from the caller to `destination`.
    pub fn transfer(&mut self, caller: AccountId, destination: AccountId, id: TokenId) -> (r:
        Result<(), Error>)
        ensures
            ({
                let (v2, r2) = spec_transfer(old(self)@, caller, caller, destination, id);
                final(self)@ == v2 && r == r2
            }),
            wf(old(self)@) && (r is Err || owner_of_spec(old(self)@, id) == Some(caller))
                ==> wf(final(self)@),
    {
        proof {
            if wf(old(self)@) {
                lemma_transfer_effects(old(self)@, caller, caller, destination, id);
            }
        }
        self.transfer_token_from(caller, caller, destination, id)
    }

    /// Transfer token `id` from `from` to `to` on behalf of `caller`.  The
    /// authorization check is always made against the caller; `from` only
    /// names whose balance the removal is charged to, and the caller is
    /// responsible for passing the true current owner.
    pub fn transfer_from(
        &mut self,
        caller: AccountId,
        from: AccountId,
        to: AccountId,
        id: TokenId,
    ) -> (r: Result<(), Error>)
        ensures
            ({
                let (v2, r2) = spec_transfer(old(self)@, caller, from, to, id);
                final(self)@ == v2 && r == r2
            }),
            wf(old(self)@) && (r is Err || owner_of_spec(old(self)@, id) == Some(from)) ==> wf(
                final(self)@,
            ),
    {
        proof {
            if wf(old(self)@) {
                lemma_transfer_effects(old(self)@, caller, from, to, id);
            }
        }
        self.transfer_token_from(caller, from, to, id)
    }

    /// Delegate token `id` to `to`.  Only the owner or one of its standing
    /// operators may do so, the null account cannot be the delegate, and an
    /// existing approval record is never overwritten.
    pub fn approve(&mut self, caller: AccountId, to: AccountId, id: TokenId) -> (r: Result<
        (),
        Error,
    >)
        ensures
            ({
                let (v2, r2) = spec_approve(old(self)@, caller, to, id);
                final(self)@ == v2 && r == r2
            }),
            wf(old(self)@) ==> wf(final(self)@),
    {
        proof {
            if wf(old(self)@) {
                lemma_approve_effects(old(self)@, caller, to, id);
            }
        }
        self.approve_for(caller, to, id)
    }

    /// Grant (`approved == true`) or revoke the blanket delegation from the
    /// caller to `to`.  Self-delegation is rejected; the event is announced
    /// whether or not the membership changes.
    pub fn set_approval_for_all(&mut self, caller: AccountId, to: AccountId, approved: bool) -> (r:
        Result<(), Error>)
        ensures
            ({
                let (v2, r2) = spec_set_approval_for_all(old(self)@, caller, to, approved);
                final(self)@ == v2 && r == r2
            }),
            wf(old(self)@) ==> wf(final(self)@),
    {
        proof {
            if wf(old(self)@) {
                lemma_set_approval_for_all_effects(old(self)@, caller, to, approved);
            }
        }
        self.approve_for_all(caller, to, approved)
    }

    fn transfer_token_from(
        &mut self,
        caller: AccountId,
        from: AccountId,
        to: AccountId,
        id: TokenId,
    ) -> (r: Result<(), Error>)
        ensures
            ({
                let (v2, r2) = spec_transfer(old(self)@, caller, from, to, id);
                final(self)@ == v2 && r == r2
            }),
    {
        if !self.token_exists(id) {
            return Err(Error::TokenNotFound);
        }
        if !self.approved_or_owner(caller, id) {
            return Err(Error::NotApproved);
        }
        // Stage the two validations that the write phase would otherwise
        // discover halfway through, so that a failing call never leaves
        // partial state behind.
        if !self.owned_tokens_count.contains_key(&from) {
            return Err(Error::CannotFetchValue);
        }
        if to == NULL_ACCOUNT {
            return Err(Error::NotAllowed);
        }
        let prev = match self.token_owner.get(&id) {
            Some(o) => *o,
            None => {
                return Err(Error::TokenNotFound);
            },
        };
        self.clear_approval(id);
        match self.remove_token_from(from, id) {
            Err(e) => {
                return Err(e);
            },
            Ok(()) => {},
        }
        match self.add_token_to(to, id) {
            Err(e) => {
                return Err(e);
            },
            Ok(()) => {},
        }
        self.events.push(Event::Transfer(Transfer { from: Some(prev), to: Some(to), id }));
        Ok(())
    }

    /// Shared ownership creation: refuse an extant token and the null
    /// account, then record the owner and count the token.
    fn add_token_to(&mut self, to: AccountId, id: TokenId) -> (r: Result<(), Error>)
        ensures
            ({
                let (v2, r2) = spec_add_ownership(old(self)@, to, id);
                final(self)@ == v2 && r == r2
            }),
    {
        if self.token_owner.contains_key(&id) {
            return Err(Error::TokenExists);
        }
        if to == NULL_ACCOUNT {
            return Err(Error::NotAllowed);
        }
        let count = match self.owned_tokens_count.get(&to) {
            Some(c) => wrap_inc_exec(*c),
            None => 1,
        };
        self.owned_tokens_count.insert(to, count);
        self.token_owner.insert(id, to);
        Ok(())
    }

    /// Shared ownership removal: drop the record of `id` and charge the
    /// balance decrement to `from`, trusted to be the true owner.
    fn remove_token_from(&mut self, from: AccountId, id: TokenId) -> (r: Result<(), Error>)
        ensures
            ({
                let (v2, r2) = spec_remove_ownership(old(self)@, from, id);
                final(self)@ == v2 && r == r2
            }),
    {
        if !self.token_owner.contains_key(&id) {
            return Err(Error::TokenNotFound);
        }
        let count = match self.owned_tokens_count.get(&from) {
            Some(c) => wrap_dec_exec(*c),
            None => {
                return Err(Error::CannotFetchValue);
            },
        };
        self.owned_tokens_count.insert(from, count);
        self.token_owner.remove(&id);
        Ok(())
    }

    fn clear_approval(&mut self, id: TokenId)
        ensures
            final(self)@ == (LedgerView { approvals: old(self)@.approvals.remove(id), ..old(
                self,
            )@ }),
    {
        self.token_approvals.remove(&id);
    }

    /// The authorization predicate: `candidate` may move the extant token
    /// `id` iff it is not the null account and is the owner, the single
    /// approvee, or a standing operator of the owner.
    fn approved_or_owner(&self, candidate: AccountId, id: TokenId) -> (r: bool)
        requires
            self@.owners.contains_key(id),
        ensures
            r == is_authorized(self@, candidate, id),
    {
        let owner = match self.token_owner.get(&id) {
            Some(o) => *o,
            None => {
                return false;
            },
        };
        if candidate == NULL_ACCOUNT {
            return false;
        }
        if candidate == owner {
            return true;
        }
        match self.token_approvals.get(&id) {
            Some(a) => {
                if *a == candidate {
                    return true;
                }
            },
            None => {},
        }
        self.approved_for_all(owner, candidate)
    }

    fn approve_for(&mut self, caller: AccountId, to: AccountId, id: TokenId) -> (r: Result<
        (),
        Error,
    >)
        ensures
            ({
                let (v2, r2) = spec_approve(old(self)@, caller, to, id);
                final(self)@ == v2 && r == r2
            }),
    {
        let owner = match self.token_owner.get(&id) {
            Some(o) => *o,
            None => {
                return Err(Error::NotAllowed);
            },
        };
        let operator_ok = self.approved_for_all(owner, caller);
        if !(owner == caller || operator_ok) {
            return Err(Error::NotAllowed);
        }
        if to == NULL_ACCOUNT {
            return Err(Error::NotAllowed);
        }
        if self.token_approvals.contains_key(&id) {
            return Err(Error::CannotInsert);
        }
        self.token_approvals.insert(id, to);
        self.events.push(Event::Approval(Approval { from: caller, to, id }));
        Ok(())
    }

    fn approve_for_all(&mut self, caller: AccountId, to: AccountId, approved: bool) -> (r: Result<
        (),
        Error,
    >)
        ensures
            ({
                let (v2, r2) = spec_set_approval_for_all(old(self)@, caller, to, approved);
                final(self)@ == v2 && r == r2
            }),
    {
        if to == caller {
            return Err(Error::NotAllowed);
        }
        self.events.push(
            Event::ApprovalForAll(ApprovalForAll { owner: caller, operator: to, approved }),
        );
        let key = pair_key_exec(caller, to);
        if approved {
            self.operator_approvals.insert(key, ());
            proof {
                lemma_operators_insert(old(self).operator_approvals@, caller, to);
            }
        } else {
            self.operator_approvals.remove(&key);
            proof {
                lemma_operators_remove(old(self).operator_approvals@, caller, to);
            }
        }
        Ok(())
    }
}

/// Inserting the packed key of a pair adds exactly that pair to the
/// delegation set.
proof fn lemma_operators_insert(m: Map<u128, ()>, owner: AccountId, operator: AccountId)
    ensures
        operators_of(m.insert(pair_key(owner, operator), ())) == operators_of(m).insert(
            (owner, operator),
        ),
{
    let lhs = operators_of(m.insert(pair_key(owner, operator), ()));
    let rhs = operators_of(m).insert((owner, operator));
    assert forall|p: (AccountId, AccountId)| lhs.contains(p) == rhs.contains(p) by {
        if pair_key(p.0, p.1) == pair_key(owner, operator) {
            lemma_pair_key_injective(p.0, p.1, owner, operator);
        }
    }
    assert(lhs =~= rhs);
}

/// Removing the packed key of a pair drops exactly that pair from the
/// delegation set.
proof fn lemma_operators_remove(m: Map<u128, ()>, owner: AccountId, operator: AccountId)
    ensures
        operators_of(m.remove(pair_key(owner, operator))) == operators_of(m).remove(
            (owner, operator),
        ),
{
    let lhs = operators_of(m.remove(pair_key(owner, operator)));
    let rhs = operators_of(m).remove((owner, operator));
    assert forall|p: (AccountId, AccountId)| lhs.contains(p) == rhs.contains(p) by {
        if pair_key(p.0, p.1) == pair_key(owner, operator) {
            lemma_pair_key_injective(p.0, p.1, owner, operator);
        }
    }
    assert(lhs =~= rhs);
}

fn wrap_inc_exec(c: u32) -> (r: u32)
    ensures
        r == wrap_inc(c),
{
    if c == u32::MAX {
        0
    } else {
        c + 1
    }
}

fn wrap_dec_exec(c: u32) -> (r: u32)
    ensures
        r == wrap_dec(c),
{
    if c == 0 {
        u32::MAX
    } else {
        c - 1
    }
}

fn pair_key_exec(owner: AccountId, operator: AccountId) -> (k: u128)
    ensures
        k == pair_key(owner, operator),
{
    (owner as u128) * PAIR_BASE + (operator as u128)
}

} // verus!
