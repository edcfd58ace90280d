//! Unit tests for the account balance state machine.

use toy_processor::account::Account;
use toy_processor::error::Error;

/// `n` whole units as a count of ten-thousandths.
fn dec(n: i64) -> i64 {
    n * 10_000
}

#[test]
fn withdraw_insufficient_funds() {
    let mut account = Account::new(1);
    account.deposit(dec(50)).unwrap();

    let result = account.withdraw(dec(100));

    assert!(matches!(result, Err(Error::InsufficientFunds { .. })));
}

#[test]
fn deposit_on_locked_account() {
    let mut account = Account::new(1);
    account.deposit(dec(100)).unwrap();
    account.dispute(dec(100)).unwrap();
    account.chargeback(dec(100)).unwrap(); // locks account

    let result = account.deposit(dec(50));

    assert!(matches!(result, Err(Error::AccountLocked(1))));
}

#[test]
fn withdraw_on_locked_account() {
    let mut account = Account::new(1);
    account.deposit(dec(100)).unwrap();
    account.dispute(dec(100)).unwrap();
    account.chargeback(dec(100)).unwrap(); // locks account

    let result = account.withdraw(dec(10));

    assert!(matches!(result, Err(Error::AccountLocked(1))));
}

#[test]
fn dispute_on_locked_account_succeeds() {
    let mut account = Account::new(1);
    account.deposit(dec(200)).unwrap();
    account.dispute(dec(100)).unwrap();
    account.chargeback(dec(100)).unwrap(); // locks account, 100 available remains

    // Dispute should still work on locked accounts
    let result = account.dispute(dec(50));

    assert!(result.is_ok());
    assert_eq!(account.available(), dec(50) as i128);
    assert_eq!(account.held(), dec(50) as i128);
}

#[test]
fn zero_amount_transfers_are_noops() {
    let mut account = Account::new(1);
    account.deposit(dec(100)).unwrap();

    account.deposit(0).unwrap();
    account.withdraw(0).unwrap();

    assert_eq!(account.available(), dec(100) as i128);
    assert_eq!(account.held(), 0);
    assert_eq!(account.total(), dec(100) as i128);
}

#[test]
fn total_is_available_plus_held() {
    let mut account = Account::new(1);
    account.deposit(dec(100)).unwrap();
    account.dispute(dec(30)).unwrap();

    assert_eq!(account.available(), dec(70) as i128);
    assert_eq!(account.held(), dec(30) as i128);
    assert_eq!(account.total(), dec(100) as i128);
}

#[test]
fn dispute_resolve_round_trip_restores_balances() {
    let mut account = Account::new(1);
    account.deposit(dec(100)).unwrap();
    account.withdraw(dec(25)).unwrap();

    account.dispute(dec(40)).unwrap();
    assert_eq!(account.available(), dec(35) as i128);
    assert_eq!(account.held(), dec(40) as i128);

    account.resolve(dec(40)).unwrap();
    assert_eq!(account.available(), dec(75) as i128);
    assert_eq!(account.held(), 0);
    assert!(!account.locked);
}
