//! Tests for the shared utilities and the account ledger that models
//! the funds-transfer adapter.

use stellarcade::accounts::Accounts;
use stellarcade::shared::{calculate_fee, Error, PlatformConfig, BASIS_POINTS_DIVISOR};

#[test]
fn test_calculate_fee_exact_values() {
    // 5% of 800.
    assert_eq!(calculate_fee(800, 500), 40);
    // 2.5% of 10 000.
    assert_eq!(calculate_fee(10_000, 250), 250);
    // Rounds down.
    assert_eq!(calculate_fee(199, 500), 9);
    assert_eq!(calculate_fee(0, 10_000), 0);
    assert_eq!(calculate_fee(1_000, 0), 0);
}

#[test]
fn test_basis_points_divisor() {
    assert_eq!(BASIS_POINTS_DIVISOR, 10_000);
}

#[test]
fn test_platform_config_fields() {
    let config = PlatformConfig { admin: 7, fee_percentage: 250 };
    assert_eq!(config.admin, 7);
    assert_eq!(config.fee_percentage, 250);
}

#[test]
fn test_transfer_moves_funds() {
    let mut book = Accounts::new();
    book.set_balance(1, 100);
    book.set_balance(2, 5);

    book.transfer(1, 2, 30).unwrap();
    assert_eq!(book.balance_of(1), 70);
    assert_eq!(book.balance_of(2), 35);
    // Untouched accounts hold zero.
    assert_eq!(book.balance_of(3), 0);
}

#[test]
fn test_transfer_insufficient_balance_changes_nothing() {
    let mut book = Accounts::new();
    book.set_balance(1, 100);

    assert_eq!(book.transfer(1, 2, 101), Err(Error::InsufficientBalance));
    assert_eq!(book.balance_of(1), 100);
    assert_eq!(book.balance_of(2), 0);
}

#[test]
fn test_transfer_negative_amount_rejected() {
    let mut book = Accounts::new();
    book.set_balance(1, 100);

    assert_eq!(book.transfer(1, 2, -1), Err(Error::InvalidAmount));
    assert_eq!(book.balance_of(1), 100);
}

#[test]
fn test_transfer_to_self_is_a_no_op() {
    let mut book = Accounts::new();
    book.set_balance(1, 100);

    book.transfer(1, 1, 60).unwrap();
    assert_eq!(book.balance_of(1), 100);
}

#[test]
fn test_transfer_destination_overflow_rejected() {
    let mut book = Accounts::new();
    book.set_balance(1, 100);
    book.set_balance(2, i128::MAX);

    assert_eq!(book.transfer(1, 2, 1), Err(Error::Overflow));
    assert_eq!(book.balance_of(1), 100);
    assert_eq!(book.balance_of(2), i128::MAX);
}

#[test]
fn test_transfer_conserves_total() {
    let mut book = Accounts::new();
    book.set_balance(1, 700);
    book.set_balance(2, 300);

    book.transfer(1, 2, 250).unwrap();
    assert_eq!(book.balance_of(1) + book.balance_of(2), 1000);
}
