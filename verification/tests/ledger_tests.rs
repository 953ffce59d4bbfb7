use erc721::events::{Approval, ApprovalForAll, Event, Transfer};
use erc721::ledger::Erc721;
use erc721::types::{Error, NULL_ACCOUNT};

const ALICE: u64 = 1;
const BOB: u64 = 2;
const CAROL: u64 = 3;

#[test]
fn mint_works() {
    let mut erc721 = Erc721::new();

    // No token has been minted yet, so token 1 has no owner.
    assert_eq!(erc721.owner_of(1), None);
    // Alice has not minted, so she owns no token.
    assert_eq!(erc721.balance_of(ALICE), 0);
    // The first mint succeeds and hands out id 1.
    assert_eq!(erc721.mint(ALICE), Ok(1));
    // Alice now owns the minted token.
    assert_eq!(erc721.balance_of(ALICE), 1);
}

#[test]
fn mint_records_owner_and_event() {
    let mut erc721 = Erc721::new();
    assert_eq!(erc721.mint(ALICE), Ok(1));
    assert_eq!(erc721.owner_of(1), Some(ALICE));
    assert_eq!(
        erc721.events().last(),
        Some(&Event::Transfer(Transfer {
            from: Some(NULL_ACCOUNT),
            to: Some(ALICE),
            id: 1,
        }))
    );
}

#[test]
fn mint_by_null_account_fails() {
    let mut erc721 = Erc721::new();
    assert_eq!(erc721.mint(NULL_ACCOUNT), Err(Error::NotAllowed));
    assert_eq!(erc721.next_token_id(), 1);
    assert!(erc721.events().is_empty());
}

#[test]
fn two_mints_yield_distinct_increasing_ids() {
    let mut erc721 = Erc721::new();
    let first = erc721.mint(ALICE).unwrap();
    let second = erc721.mint(ALICE).unwrap();
    assert!(first < second);
    assert_eq!((first, second), (1, 2));
    assert_eq!(erc721.balance_of(ALICE), 2);
}

#[test]
fn set_approval_for_all_is_idempotent_but_emits_both_times() {
    let mut erc721 = Erc721::new();
    assert_eq!(erc721.set_approval_for_all(ALICE, BOB, true), Ok(()));
    let after_first = erc721.events().len();
    assert_eq!(erc721.set_approval_for_all(ALICE, BOB, true), Ok(()));
    assert!(erc721.is_approved_for_all(ALICE, BOB));
    assert_eq!(erc721.events().len(), after_first + 1);
    let expected = Event::ApprovalForAll(ApprovalForAll {
        owner: ALICE,
        operator: BOB,
        approved: true,
    });
    assert_eq!(erc721.events()[after_first - 1], expected);
    assert_eq!(erc721.events()[after_first], expected);
}

#[test]
fn revoking_blanket_delegation_works_and_absent_revoke_is_noop() {
    let mut erc721 = Erc721::new();
    assert_eq!(erc721.set_approval_for_all(ALICE, BOB, true), Ok(()));
    assert!(erc721.is_approved_for_all(ALICE, BOB));
    assert_eq!(erc721.set_approval_for_all(ALICE, BOB, false), Ok(()));
    assert!(!erc721.is_approved_for_all(ALICE, BOB));
    // Revoking a delegation that does not exist is not an error.
    assert_eq!(erc721.set_approval_for_all(ALICE, CAROL, false), Ok(()));
    assert!(!erc721.is_approved_for_all(ALICE, CAROL));
}

#[test]
fn approve_then_transfer_from_moves_token_and_clears_approval() {
    let mut erc721 = Erc721::new();
    let id = erc721.mint(ALICE).unwrap();
    assert_eq!(erc721.approve(ALICE, BOB, id), Ok(()));
    assert_eq!(erc721.get_approved(id), Some(BOB));
    assert_eq!(
        erc721.events().last(),
        Some(&Event::Approval(Approval { from: ALICE, to: BOB, id }))
    );
    assert_eq!(erc721.transfer_from(BOB, ALICE, BOB, id), Ok(()));
    assert_eq!(erc721.owner_of(id), Some(BOB));
    assert_eq!(erc721.get_approved(id), None);
    assert_eq!(erc721.balance_of(ALICE), 0);
    assert_eq!(erc721.balance_of(BOB), 1);
}

#[test]
fn second_approve_fails_with_cannot_insert() {
    let mut erc721 = Erc721::new();
    let id = erc721.mint(ALICE).unwrap();
    assert_eq!(erc721.approve(ALICE, BOB, id), Ok(()));
    assert_eq!(erc721.approve(ALICE, CAROL, id), Err(Error::CannotInsert));
    assert_eq!(erc721.get_approved(id), Some(BOB));
}

#[test]
fn operator_transfers_without_single_approval() {
    let mut erc721 = Erc721::new();
    let id = erc721.mint(ALICE).unwrap();
    assert_eq!(erc721.set_approval_for_all(ALICE, CAROL, true), Ok(()));
    assert_eq!(erc721.get_approved(id), None);
    assert_eq!(erc721.transfer_from(CAROL, ALICE, CAROL, id), Ok(()));
    assert_eq!(erc721.owner_of(id), Some(CAROL));
    assert_eq!(erc721.balance_of(ALICE), 0);
    assert_eq!(erc721.balance_of(CAROL), 1);
}

#[test]
fn operator_may_approve_on_behalf_of_owner() {
    let mut erc721 = Erc721::new();
    let id = erc721.mint(ALICE).unwrap();
    assert_eq!(erc721.set_approval_for_all(ALICE, CAROL, true), Ok(()));
    assert_eq!(erc721.approve(CAROL, BOB, id), Ok(()));
    assert_eq!(erc721.get_approved(id), Some(BOB));
}

#[test]
fn burn_by_non_owner_fails_and_changes_nothing() {
    let mut erc721 = Erc721::new();
    let id = erc721.mint(ALICE).unwrap();
    let events_before = erc721.events().len();
    assert_eq!(erc721.burn(BOB, id), Err(Error::NotOwner));
    assert_eq!(erc721.owner_of(id), Some(ALICE));
    assert_eq!(erc721.balance_of(ALICE), 1);
    assert_eq!(erc721.balance_of(BOB), 0);
    assert_eq!(erc721.events().len(), events_before);
}

#[test]
fn burn_by_owner_removes_token() {
    let mut erc721 = Erc721::new();
    let id = erc721.mint(ALICE).unwrap();
    assert_eq!(erc721.burn(ALICE, id), Ok(()));
    assert_eq!(erc721.owner_of(id), None);
    assert_eq!(erc721.balance_of(ALICE), 0);
    assert_eq!(
        erc721.events().last(),
        Some(&Event::Transfer(Transfer {
            from: Some(ALICE),
            to: Some(NULL_ACCOUNT),
            id,
        }))
    );
}

#[test]
fn burn_of_missing_token_reports_not_owner() {
    let mut erc721 = Erc721::new();
    assert_eq!(erc721.burn(ALICE, 42), Err(Error::NotOwner));
}

#[test]
fn burned_id_is_never_reused() {
    let mut erc721 = Erc721::new();
    let id = erc721.mint(ALICE).unwrap();
    assert_eq!(erc721.burn(ALICE, id), Ok(()));
    let next = erc721.mint(ALICE).unwrap();
    assert_eq!(next, 2);
    assert_eq!(erc721.owner_of(id), None);
}

#[test]
fn transfer_to_null_account_fails_and_changes_nothing() {
    let mut erc721 = Erc721::new();
    let id = erc721.mint(ALICE).unwrap();
    let events_before = erc721.events().len();
    assert_eq!(erc721.transfer(ALICE, NULL_ACCOUNT, id), Err(Error::NotAllowed));
    assert_eq!(erc721.owner_of(id), Some(ALICE));
    assert_eq!(erc721.balance_of(ALICE), 1);
    assert_eq!(erc721.events().len(), events_before);
}

#[test]
fn approve_of_null_account_fails_and_changes_nothing() {
    let mut erc721 = Erc721::new();
    let id = erc721.mint(ALICE).unwrap();
    let events_before = erc721.events().len();
    assert_eq!(erc721.approve(ALICE, NULL_ACCOUNT, id), Err(Error::NotAllowed));
    assert_eq!(erc721.get_approved(id), None);
    assert_eq!(erc721.events().len(), events_before);
}

#[test]
fn self_operator_approval_fails() {
    let mut erc721 = Erc721::new();
    assert_eq!(erc721.set_approval_for_all(ALICE, ALICE, true), Err(Error::NotAllowed));
    assert!(!erc721.is_approved_for_all(ALICE, ALICE));
    assert!(erc721.events().is_empty());
}

#[test]
fn transfer_of_missing_token_is_not_found() {
    let mut erc721 = Erc721::new();
    assert_eq!(erc721.transfer(ALICE, BOB, 5), Err(Error::TokenNotFound));
}

#[test]
fn transfer_by_stranger_is_not_approved() {
    let mut erc721 = Erc721::new();
    let id = erc721.mint(ALICE).unwrap();
    assert_eq!(erc721.transfer(BOB, CAROL, id), Err(Error::NotApproved));
    assert_eq!(erc721.owner_of(id), Some(ALICE));
}

#[test]
fn transfer_from_with_unknown_from_cannot_fetch_value() {
    let mut erc721 = Erc721::new();
    let id = erc721.mint(ALICE).unwrap();
    // Alice is authorized, but the named `from` has no balance entry at
    // all: the staged balance lookup fails and nothing changes.
    assert_eq!(erc721.transfer_from(ALICE, CAROL, BOB, id), Err(Error::CannotFetchValue));
    assert_eq!(erc721.owner_of(id), Some(ALICE));
    assert_eq!(erc721.balance_of(ALICE), 1);
}

#[test]
fn owner_transfers_to_self_keeps_balance() {
    let mut erc721 = Erc721::new();
    let id = erc721.mint(ALICE).unwrap();
    assert_eq!(erc721.transfer(ALICE, ALICE, id), Ok(()));
    assert_eq!(erc721.owner_of(id), Some(ALICE));
    assert_eq!(erc721.balance_of(ALICE), 1);
}

#[test]
fn balance_of_unknown_account_is_zero() {
    let erc721 = Erc721::new();
    assert_eq!(erc721.balance_of(99), 0);
}

#[test]
fn queries_on_fresh_ledger_are_empty() {
    let erc721 = Erc721::new();
    assert_eq!(erc721.owner_of(1), None);
    assert_eq!(erc721.get_approved(1), None);
    assert!(!erc721.is_approved_for_all(ALICE, BOB));
    assert_eq!(erc721.next_token_id(), 1);
    assert!(erc721.events().is_empty());
}

#[test]
fn token_uri_follows_the_allocator() {
    let mut erc721 = Erc721::new();
    assert_eq!(erc721.token_uri(), "https://example.com/1");
    assert_eq!(erc721.mint(ALICE), Ok(1));
    // The URI always names the next allocator value, not a minted token.
    assert_eq!(erc721.token_uri(), "https://example.com/2");
}

#[test]
fn decimal_rendering_is_exact() {
    assert_eq!(erc721::digits::u32_to_decimal(0), "0");
    assert_eq!(erc721::digits::u32_to_decimal(7), "7");
    assert_eq!(erc721::digits::u32_to_decimal(10), "10");
    assert_eq!(erc721::digits::u32_to_decimal(90210), "90210");
    assert_eq!(erc721::digits::u32_to_decimal(u32::MAX), "4294967295");
}

#[test]
fn transfer_event_names_previous_owner() {
    let mut erc721 = Erc721::new();
    let id = erc721.mint(ALICE).unwrap();
    assert_eq!(erc721.approve(ALICE, BOB, id), Ok(()));
    assert_eq!(erc721.transfer_from(BOB, ALICE, CAROL, id), Ok(()));
    assert_eq!(
        erc721.events().last(),
        Some(&Event::Transfer(Transfer {
            from: Some(ALICE),
            to: Some(CAROL),
            id,
        }))
    );
}
