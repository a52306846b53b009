use runtime_modules::erc20::{Approval, Erc20, Error, Event, Transfer};

const ALICE: u64 = 1;
const BOB: u64 = 2;
const EVE: u64 = 5;

/// We test if the default constructor does its job.
#[test]
fn ctor_works() {
    let total_supply = 100000;
    let erc20 = Erc20::new(ALICE, total_supply);

    let emitted_events = erc20.events();
    assert_eq!(1, emitted_events.len());
    assert_eq!(
        emitted_events[0],
        Event::Transfer(Transfer {
            from: None,
            to: Some(ALICE),
            value: total_supply
        })
    );

    assert_eq!(erc20.total_supply(), total_supply);
}

#[test]
fn transfer_works() {
    let total_supply = 100000;
    let mut erc20 = Erc20::new(ALICE, total_supply);

    assert_eq!(erc20.balance_of(ALICE), total_supply);
    assert_eq!(erc20.balance_of(BOB), 0);

    assert_eq!(erc20.transfer(ALICE, BOB, 500), Ok(()));
    assert_eq!(erc20.balance_of(BOB), 500);
    assert_eq!(erc20.balance_of(ALICE), total_supply - 500);
}

#[test]
fn transfer_fails_insufficient_balance() {
    let total_supply = 100;
    let mut erc20 = Erc20::new(ALICE, total_supply);

    assert_eq!(
        erc20.transfer(ALICE, BOB, 500),
        Err(Error::InsufficientBalance)
    );
    assert_eq!(erc20.balance_of(ALICE), 100);
    assert_eq!(erc20.balance_of(BOB), 0);
    assert_eq!(erc20.events().len(), 1);
}

#[test]
fn transfer_from_works() {
    let total_supply = 100000;
    let mut erc20 = Erc20::new(ALICE, total_supply);

    assert_eq!(erc20.approve(ALICE, BOB, 500), Ok(()));
    assert_eq!(erc20.allowance(ALICE, BOB), 500);

    // Bob is the caller.
    assert_eq!(erc20.transfer_from(BOB, ALICE, EVE, 500), Ok(()));
    assert_eq!(erc20.balance_of(EVE), 500);
    assert_eq!(erc20.balance_of(ALICE), total_supply - 500);
    assert_eq!(erc20.allowance(ALICE, BOB), 0);
}

#[test]
fn transfer_from_fails_with_insufficient_approval() {
    let total_supply = 100000;
    let mut erc20 = Erc20::new(ALICE, total_supply);

    assert_eq!(erc20.approve(ALICE, BOB, 100), Ok(()));
    assert_eq!(erc20.allowance(ALICE, BOB), 100);

    // Bob is the caller.
    assert_eq!(
        erc20.transfer_from(BOB, ALICE, EVE, 500),
        Err(Error::InsufficientApproval)
    );
    assert_eq!(erc20.balance_of(EVE), 0);
    assert_eq!(erc20.allowance(ALICE, BOB), 100);
}

#[test]
fn transfer_from_fails_with_insufficient_balance_and_keeps_the_allowance() {
    let mut erc20 = Erc20::new(ALICE, 100);
    assert_eq!(erc20.transfer(ALICE, EVE, 60), Ok(()));
    assert_eq!(erc20.approve(ALICE, BOB, 50), Ok(()));
    assert_eq!(
        erc20.transfer_from(BOB, ALICE, EVE, 41),
        Err(Error::InsufficientBalance)
    );
    assert_eq!(erc20.allowance(ALICE, BOB), 50);
    assert_eq!(erc20.transfer_from(BOB, ALICE, EVE, 40), Ok(()));
    assert_eq!(erc20.allowance(ALICE, BOB), 10);
    assert_eq!(erc20.balance_of(ALICE), 0);
    assert_eq!(erc20.balance_of(EVE), 100);
}

#[test]
fn allowances_are_kept_by_owner_and_spender() {
    let mut erc20 = Erc20::new(ALICE, 100);
    assert_eq!(erc20.approve(ALICE, BOB, 7), Ok(()));
    assert_eq!(erc20.approve(BOB, ALICE, 9), Ok(()));
    assert_eq!(erc20.approve(u64::MAX, 0, 11), Ok(()));
    assert_eq!(erc20.approve(0, u64::MAX, 13), Ok(()));
    assert_eq!(erc20.allowance(ALICE, BOB), 7);
    assert_eq!(erc20.allowance(BOB, ALICE), 9);
    assert_eq!(erc20.allowance(u64::MAX, 0), 11);
    assert_eq!(erc20.allowance(0, u64::MAX), 13);
    assert_eq!(erc20.allowance(ALICE, EVE), 0);
    assert_eq!(erc20.approve(ALICE, BOB, 1), Ok(()));
    assert_eq!(erc20.allowance(ALICE, BOB), 1);
    assert_eq!(
        erc20.events().last(),
        Some(&Event::Approval(Approval {
            owner: ALICE,
            spender: BOB,
            value: 1
        }))
    );
}

#[test]
fn transfers_conserve_the_supply() {
    let mut erc20 = Erc20::new(ALICE, u128::MAX);
    assert_eq!(erc20.inner_transfer(ALICE, BOB, u128::MAX - 1), Ok(()));
    assert_eq!(erc20.inner_transfer(ALICE, EVE, 1), Ok(()));
    assert_eq!(erc20.inner_transfer(EVE, BOB, 1), Ok(()));
    assert_eq!(erc20.balance_of(BOB), u128::MAX);
    assert_eq!(erc20.balance_of(ALICE), 0);
    assert_eq!(erc20.balance_of(EVE), 0);
    // Paying oneself leaves the balance as it was.
    assert_eq!(erc20.inner_transfer(BOB, BOB, u128::MAX), Ok(()));
    assert_eq!(erc20.balance_of(BOB), u128::MAX);
    assert_eq!(erc20.total_supply(), u128::MAX);
}
