use erc721::ledger::Erc721;
use erc721::types::{AccountId, Approval, ApprovalForAll, Error, Event, Transfer};

fn alice() -> AccountId {
    AccountId([0x01; 32])
}

fn bob() -> AccountId {
    AccountId([0x02; 32])
}

fn charlie() -> AccountId {
    AccountId([0x03; 32])
}

fn eve() -> AccountId {
    AccountId([0x05; 32])
}

fn frank() -> AccountId {
    AccountId([0x06; 32])
}

fn zero() -> AccountId {
    AccountId([0x00; 32])
}

#[test]
fn mint_works() {
    let mut erc721 = Erc721::new();
    // Token 1 does not exist.
    assert_eq!(erc721.owner_of(1), None);
    // Alice does not own tokens.
    assert_eq!(erc721.balance_of(alice()), 0);
    // Create token Id 1.
    assert_eq!(erc721.mint(alice(), 1), Ok(()));
    // Alice owns 1 token.
    assert_eq!(erc721.balance_of(alice()), 1);
}

#[test]
fn mint_existing_should_fail() {
    let mut erc721 = Erc721::new();
    assert_eq!(erc721.mint(alice(), 1), Ok(()));
    // The first Transfer event takes place.
    assert_eq!(1, erc721.recorded_events().len());
    assert_eq!(erc721.balance_of(alice()), 1);
    // Cannot create token Id if it exists.
    assert_eq!(erc721.mint(alice(), 1), Err(Error::TokenExists));
}

#[test]
fn transfer_works() {
    let mut erc721 = Erc721::new();
    assert_eq!(erc721.mint(alice(), 1), Ok(()));
    assert_eq!(erc721.balance_of(alice()), 1);
    assert_eq!(erc721.balance_of(bob()), 0);
    assert_eq!(1, erc721.recorded_events().len());
    // Alice transfers token 1 to Bob.
    assert_eq!(erc721.transfer(alice(), bob(), 1), Ok(()));
    assert_eq!(2, erc721.recorded_events().len());
    assert_eq!(erc721.balance_of(bob()), 1);
    assert_eq!(erc721.balance_of(alice()), 0);
}

#[test]
fn invalid_transfer_should_fail() {
    let mut erc721 = Erc721::new();
    // Transfer fails if the token does not exist.
    assert_eq!(erc721.transfer(alice(), bob(), 2), Err(Error::TokenNotFound));
    assert_eq!(erc721.owner_of(2), None);
    assert_eq!(erc721.mint(alice(), 2), Ok(()));
    assert_eq!(erc721.balance_of(alice()), 1);
    assert_eq!(erc721.owner_of(2), Some(alice()));
    // Bob cannot transfer tokens he does not own.
    assert_eq!(erc721.transfer(bob(), eve(), 2), Err(Error::NotApproved));
}

#[test]
fn approved_transfer_works() {
    let mut erc721 = Erc721::new();
    assert_eq!(erc721.mint(alice(), 1), Ok(()));
    assert_eq!(erc721.owner_of(1), Some(alice()));
    assert_eq!(erc721.approve(alice(), bob(), 1), Ok(()));
    // Bob moves Alice's token to Eve.
    assert_eq!(erc721.transfer_from(bob(), alice(), eve(), 1), Ok(()));
    assert_eq!(erc721.owner_of(1), Some(eve()));
    assert_eq!(erc721.balance_of(alice()), 0);
    assert_eq!(erc721.balance_of(bob()), 0);
    assert_eq!(erc721.balance_of(eve()), 1);
}

#[test]
fn approved_for_all_works() {
    let mut erc721 = Erc721::new();
    assert_eq!(erc721.mint(alice(), 1), Ok(()));
    assert_eq!(erc721.mint(alice(), 2), Ok(()));
    assert_eq!(erc721.balance_of(alice()), 2);
    assert_eq!(erc721.set_approval_for_all(alice(), bob(), true), Ok(()));
    // Bob, as operator, moves Alice's tokens to Eve.
    assert_eq!(erc721.transfer_from(bob(), alice(), eve(), 1), Ok(()));
    assert_eq!(erc721.owner_of(1), Some(eve()));
    assert_eq!(erc721.balance_of(alice()), 1);
    assert_eq!(erc721.transfer_from(bob(), alice(), eve(), 2), Ok(()));
    assert_eq!(erc721.balance_of(bob()), 0);
    assert_eq!(erc721.balance_of(eve()), 2);
    // Alice removes Bob's operator approval.
    assert_eq!(erc721.set_approval_for_all(alice(), bob(), false), Ok(()));
    assert_eq!(erc721.is_approved_for_all(alice(), bob()), false);
}

#[test]
fn not_approved_transfer_should_fail() {
    let mut erc721 = Erc721::new();
    assert_eq!(erc721.mint(alice(), 1), Ok(()));
    assert_eq!(erc721.balance_of(alice()), 1);
    assert_eq!(erc721.balance_of(bob()), 0);
    assert_eq!(erc721.balance_of(eve()), 0);
    // Eve is not approved.
    assert_eq!(erc721.transfer_from(eve(), alice(), frank(), 1), Err(Error::NotApproved));
    assert_eq!(erc721.balance_of(alice()), 1);
    assert_eq!(erc721.balance_of(bob()), 0);
    assert_eq!(erc721.balance_of(eve()), 0);
}

#[test]
fn burn_works() {
    let mut erc721 = Erc721::new();
    assert_eq!(erc721.mint(alice(), 1), Ok(()));
    assert_eq!(erc721.balance_of(alice()), 1);
    assert_eq!(erc721.owner_of(1), Some(alice()));
    assert_eq!(erc721.burn(alice(), 1), Ok(()));
    assert_eq!(erc721.balance_of(alice()), 0);
    assert_eq!(erc721.owner_of(1), None);
}

#[test]
fn burn_fails_token_not_found() {
    let mut erc721 = Erc721::new();
    assert_eq!(erc721.burn(alice(), 1), Err(Error::TokenNotFound));
}

#[test]
fn burn_failed_not_owner() {
    let mut erc721 = Erc721::new();
    assert_eq!(erc721.mint(alice(), 1), Ok(()));
    // Try burning this token with a different account.
    assert_eq!(erc721.burn(eve(), 1), Err(Error::NotOwner));
}

#[test]
fn mint_records_owner_balance_and_event() {
    let mut erc721 = Erc721::new();
    assert_eq!(erc721.mint(charlie(), 7), Ok(()));
    assert_eq!(erc721.owner_of(7), Some(charlie()));
    assert_eq!(erc721.balance_of(charlie()), 1);
    assert_eq!(
        erc721.recorded_events(),
        &vec![Event::Transfer(Transfer { from: Some(zero()), to: Some(charlie()), id: 7 })]
    );
}

#[test]
fn double_mint_leaves_state_unchanged() {
    let mut erc721 = Erc721::new();
    assert_eq!(erc721.mint(alice(), 3), Ok(()));
    assert_eq!(erc721.mint(bob(), 3), Err(Error::TokenExists));
    assert_eq!(erc721.owner_of(3), Some(alice()));
    assert_eq!(erc721.balance_of(alice()), 1);
    assert_eq!(erc721.balance_of(bob()), 0);
    assert_eq!(erc721.recorded_events().len(), 1);
}

#[test]
fn mint_by_zero_account_is_not_allowed() {
    let mut erc721 = Erc721::new();
    assert_eq!(erc721.mint(zero(), 1), Err(Error::NotAllowed));
    assert_eq!(erc721.owner_of(1), None);
}

#[test]
fn transfer_moves_one_unit_and_clears_approval() {
    let mut erc721 = Erc721::new();
    assert_eq!(erc721.mint(alice(), 1), Ok(()));
    assert_eq!(erc721.mint(alice(), 2), Ok(()));
    assert_eq!(erc721.mint(bob(), 3), Ok(()));
    assert_eq!(erc721.approve(alice(), charlie(), 1), Ok(()));
    assert_eq!(erc721.transfer(alice(), bob(), 1), Ok(()));
    assert_eq!(erc721.owner_of(1), Some(bob()));
    assert_eq!(erc721.balance_of(alice()), 1);
    assert_eq!(erc721.balance_of(bob()), 2);
    assert_eq!(erc721.get_approved(1), None);
    assert_eq!(
        erc721.recorded_events().last(),
        Some(&Event::Transfer(Transfer { from: Some(alice()), to: Some(bob()), id: 1 }))
    );
}

#[test]
fn unauthorized_transfer_changes_nothing() {
    let mut erc721 = Erc721::new();
    assert_eq!(erc721.mint(alice(), 1), Ok(()));
    assert_eq!(erc721.approve(alice(), bob(), 1), Ok(()));
    assert_eq!(erc721.transfer_from(charlie(), alice(), charlie(), 1), Err(Error::NotApproved));
    assert_eq!(erc721.owner_of(1), Some(alice()));
    assert_eq!(erc721.get_approved(1), Some(bob()));
    assert_eq!(erc721.balance_of(alice()), 1);
    assert_eq!(erc721.balance_of(charlie()), 0);
    assert_eq!(erc721.recorded_events().len(), 2);
}

#[test]
fn approval_does_not_carry_to_new_owner() {
    let mut erc721 = Erc721::new();
    assert_eq!(erc721.mint(alice(), 4), Ok(()));
    assert_eq!(erc721.approve(alice(), charlie(), 4), Ok(()));
    assert_eq!(
        erc721.recorded_events().last(),
        Some(&Event::Approval(Approval { from: alice(), to: charlie(), id: 4 }))
    );
    assert_eq!(erc721.transfer_from(charlie(), alice(), bob(), 4), Ok(()));
    assert_eq!(erc721.get_approved(4), None);
    // Charlie's approval is gone: he cannot move the token again.
    assert_eq!(erc721.transfer_from(charlie(), bob(), charlie(), 4), Err(Error::NotApproved));
}

#[test]
fn operator_approval_is_pair_scoped() {
    let mut erc721 = Erc721::new();
    assert_eq!(erc721.mint(alice(), 1), Ok(()));
    assert_eq!(erc721.mint(bob(), 2), Ok(()));
    assert_eq!(erc721.set_approval_for_all(alice(), eve(), true), Ok(()));
    assert_eq!(
        erc721.recorded_events().last(),
        Some(&Event::ApprovalForAll(ApprovalForAll { owner: alice(), operator: eve(), approved: true }))
    );
    assert!(erc721.is_approved_for_all(alice(), eve()));
    assert!(!erc721.is_approved_for_all(bob(), eve()));
    // Nothing over Bob's token.
    assert_eq!(erc721.transfer_from(eve(), bob(), eve(), 2), Err(Error::NotApproved));
    // A token Alice gets later is covered too.
    assert_eq!(erc721.mint(alice(), 5), Ok(()));
    assert_eq!(erc721.transfer_from(eve(), alice(), frank(), 5), Ok(()));
    // Revoking stops further moves.
    assert_eq!(erc721.set_approval_for_all(alice(), eve(), false), Ok(()));
    assert_eq!(erc721.transfer_from(eve(), alice(), frank(), 1), Err(Error::NotApproved));
    // Granting again after a revocation works.
    assert_eq!(erc721.set_approval_for_all(alice(), eve(), true), Ok(()));
    assert!(erc721.is_approved_for_all(alice(), eve()));
}

#[test]
fn burn_removes_token_and_its_approval() {
    let mut erc721 = Erc721::new();
    assert_eq!(erc721.mint(alice(), 1), Ok(()));
    assert_eq!(erc721.mint(alice(), 2), Ok(()));
    assert_eq!(erc721.approve(alice(), bob(), 1), Ok(()));
    assert_eq!(erc721.burn(bob(), 1), Err(Error::NotOwner));
    assert_eq!(erc721.burn(alice(), 1), Ok(()));
    assert_eq!(erc721.owner_of(1), None);
    assert_eq!(erc721.get_approved(1), None);
    assert_eq!(erc721.balance_of(alice()), 1);
    assert_eq!(
        erc721.recorded_events().last(),
        Some(&Event::Transfer(Transfer { from: Some(alice()), to: Some(zero()), id: 1 }))
    );
    assert_eq!(erc721.burn(alice(), 1), Err(Error::TokenNotFound));
}

#[test]
fn self_operator_approval_is_not_allowed() {
    let mut erc721 = Erc721::new();
    assert_eq!(erc721.set_approval_for_all(alice(), alice(), true), Err(Error::NotAllowed));
    assert!(!erc721.is_approved_for_all(alice(), alice()));
    assert_eq!(erc721.recorded_events().len(), 0);
}

#[test]
fn approve_errors() {
    let mut erc721 = Erc721::new();
    // No such token.
    assert_eq!(erc721.approve(alice(), bob(), 9), Err(Error::NotAllowed));
    assert_eq!(erc721.mint(alice(), 9), Ok(()));
    // Not the owner nor an operator.
    assert_eq!(erc721.approve(bob(), bob(), 9), Err(Error::NotAllowed));
    // The zero account cannot be approved.
    assert_eq!(erc721.approve(alice(), zero(), 9), Err(Error::NotAllowed));
    assert_eq!(erc721.approve(alice(), bob(), 9), Ok(()));
    // An approval is not overwritten.
    assert_eq!(erc721.approve(alice(), charlie(), 9), Err(Error::CannotInsert));
    assert_eq!(erc721.get_approved(9), Some(bob()));
}

#[test]
fn operator_can_approve_for_owner() {
    let mut erc721 = Erc721::new();
    assert_eq!(erc721.mint(alice(), 1), Ok(()));
    assert_eq!(erc721.set_approval_for_all(alice(), bob(), true), Ok(()));
    assert_eq!(erc721.approve(bob(), charlie(), 1), Ok(()));
    assert_eq!(erc721.get_approved(1), Some(charlie()));
}

#[test]
fn transfer_errors_leave_state_unchanged() {
    let mut erc721 = Erc721::new();
    assert_eq!(erc721.mint(alice(), 1), Ok(()));
    assert_eq!(erc721.approve(alice(), bob(), 1), Ok(()));
    // The zero account cannot receive a token.
    assert_eq!(erc721.transfer(alice(), zero(), 1), Err(Error::NotAllowed));
    // `from` must be the token's owner.
    assert_eq!(erc721.transfer_from(bob(), charlie(), eve(), 1), Err(Error::NotOwner));
    assert_eq!(erc721.owner_of(1), Some(alice()));
    assert_eq!(erc721.get_approved(1), Some(bob()));
    assert_eq!(erc721.balance_of(alice()), 1);
    assert_eq!(erc721.balance_of(charlie()), 0);
}

#[test]
fn transfer_to_self_keeps_balance() {
    let mut erc721 = Erc721::new();
    assert_eq!(erc721.mint(alice(), 1), Ok(()));
    assert_eq!(erc721.transfer(alice(), alice(), 1), Ok(()));
    assert_eq!(erc721.owner_of(1), Some(alice()));
    assert_eq!(erc721.balance_of(alice()), 1);
}

#[test]
fn take_events_drains_the_log() {
    let mut erc721 = Erc721::new();
    assert_eq!(erc721.mint(alice(), 1), Ok(()));
    assert_eq!(erc721.mint(alice(), 2), Ok(()));
    let taken = erc721.take_events();
    assert_eq!(taken.len(), 2);
    assert_eq!(erc721.recorded_events().len(), 0);
    assert_eq!(erc721.balance_of(alice()), 2);
}

#[test]
fn largest_token_id_works() {
    let mut erc721 = Erc721::new();
    assert_eq!(erc721.mint(alice(), u32::MAX), Ok(()));
    assert_eq!(erc721.owner_of(u32::MAX), Some(alice()));
    assert_eq!(erc721.owner_of(0), None);
}

#[test]
fn zero_account_detection() {
    assert!(AccountId::zero().is_zero());
    assert!(!alice().is_zero());
    assert_eq!(AccountId::zero(), zero());
    assert_ne!(alice(), bob());
}
