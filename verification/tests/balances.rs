use runtime_modules::balances::{Balances, InsufficientFunds};

#[test]
fn untouched_account_holds_nothing() {
    let book = Balances::new(3);
    assert_eq!(book.minimum_balance(), 3);
    assert_eq!(book.free_balance(42), 0);
    assert_eq!(book.reserved_balance(42), 0);
}

#[test]
fn set_balance_refuses_amounts_that_do_not_fit_together() {
    let mut book = Balances::new(0);
    assert_eq!(book.set_balance(1, 70, 30), true);
    assert_eq!(book.set_balance(1, u64::MAX, 1), false);
    assert_eq!(book.free_balance(1), 70);
    assert_eq!(book.reserved_balance(1), 30);
    assert_eq!(book.set_balance(1, u64::MAX - 1, 1), true);
    assert_eq!(book.free_balance(1), u64::MAX - 1);
    assert_eq!(book.reserved_balance(1), 1);
}

#[test]
fn reserve_moves_free_to_reserved() {
    let mut book = Balances::new(0);
    let _ = book.set_balance(1, 100, 5);
    assert_eq!(book.can_reserve(1, 100), true);
    assert_eq!(book.can_reserve(1, 101), false);
    assert_eq!(book.reserve(1, 40), Ok(()));
    assert_eq!(book.free_balance(1), 60);
    assert_eq!(book.reserved_balance(1), 45);
    assert_eq!(book.reserve(1, 61), Err(InsufficientFunds));
    assert_eq!(book.free_balance(1), 60);
    assert_eq!(book.reserved_balance(1), 45);
    assert_eq!(book.reserve(1, 60), Ok(()));
    assert_eq!(book.free_balance(1), 0);
    assert_eq!(book.reserved_balance(1), 105);
}

#[test]
fn unreserve_releases_no_more_than_is_reserved() {
    let mut book = Balances::new(0);
    let _ = book.set_balance(1, 10, 30);
    assert_eq!(book.unreserve(1, 20), 0);
    assert_eq!(book.free_balance(1), 30);
    assert_eq!(book.reserved_balance(1), 10);
    assert_eq!(book.unreserve(1, 25), 15);
    assert_eq!(book.free_balance(1), 40);
    assert_eq!(book.reserved_balance(1), 0);
    assert_eq!(book.unreserve(2, 5), 5);
    assert_eq!(book.free_balance(2), 0);
}

#[test]
fn transfer_moves_free_amounts() {
    let mut book = Balances::new(0);
    let _ = book.set_balance(1, 100, 7);
    let _ = book.set_balance(2, 1, 2);
    assert_eq!(book.transfer(1, 2, 60), Ok(()));
    assert_eq!(book.free_balance(1), 40);
    assert_eq!(book.reserved_balance(1), 7);
    assert_eq!(book.free_balance(2), 61);
    assert_eq!(book.reserved_balance(2), 2);
    assert_eq!(book.transfer(1, 2, 41), Err(InsufficientFunds));
    assert_eq!(book.free_balance(1), 40);
    assert_eq!(book.free_balance(2), 61);
}

#[test]
fn transfer_keeps_the_minimum_with_the_payer() {
    let mut book = Balances::new(10);
    let _ = book.set_balance(1, 55, 0);
    let _ = book.set_balance(2, 50, 6);
    assert_eq!(book.can_transfer(1, 2, 46), false);
    assert_eq!(book.transfer(1, 2, 46), Err(InsufficientFunds));
    assert_eq!(book.can_transfer(1, 2, 45), true);
    assert_eq!(book.transfer(1, 2, 45), Ok(()));
    assert_eq!(book.free_balance(1), 10);
    // What is reserved counts towards the minimum.
    assert_eq!(book.transfer(2, 1, 91), Ok(()));
    assert_eq!(book.free_balance(2), 4);
    assert_eq!(book.free_balance(1), 101);
    assert_eq!(book.transfer(2, 1, 1), Err(InsufficientFunds));
}

#[test]
fn transfer_refuses_what_the_payee_cannot_hold() {
    let mut book = Balances::new(0);
    let _ = book.set_balance(1, 100, 0);
    let _ = book.set_balance(2, u64::MAX - 60, 10);
    assert_eq!(book.transfer(1, 2, 51), Err(InsufficientFunds));
    assert_eq!(book.transfer(1, 2, 50), Ok(()));
    assert_eq!(book.free_balance(2), u64::MAX - 10);
    assert_eq!(book.free_balance(1), 50);
}

#[test]
fn paying_oneself_changes_nothing() {
    let mut book = Balances::new(0);
    let _ = book.set_balance(1, u64::MAX, 0);
    assert_eq!(book.transfer(1, 1, 100), Ok(()));
    assert_eq!(book.free_balance(1), u64::MAX);
    let _ = book.set_balance(1, 5, 0);
    assert_eq!(book.transfer(1, 1, 6), Err(InsufficientFunds));
}
