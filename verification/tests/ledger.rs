//! Initialization, deposits, withdrawals and the prize fund.

use lucky_stake_pool::account::DepositorAccount;
use lucky_stake_pool::actions::{Party, TokenTransfer};
use lucky_stake_pool::errors::PoolError;
use lucky_stake_pool::pool::LuckyStakePool;

const ADMIN: u64 = 1;
const USER1: u64 = 2;
const USER2: u64 = 3;
const TOKEN: u64 = 99;

fn setup(period_days: u32) -> LuckyStakePool {
    let mut pool = LuckyStakePool::new();
    assert_eq!(pool.initialize(ADMIN, TOKEN, period_days), Ok(()));
    pool
}

#[test]
fn test_initialize_weekly() {
    let pool = setup(7);
    assert_eq!(pool.get_period_days(), 7);
    assert_eq!(pool.get_admin(), ADMIN);
    assert_eq!(pool.get_token(), TOKEN);
    assert_eq!(pool.get_total_deposits(), 0);
    assert_eq!(pool.get_total_tickets(), 0);
    assert_eq!(pool.get_prize_fund(), 0);
}

#[test]
fn test_initialize_biweekly() {
    assert_eq!(setup(15).get_period_days(), 15);
}

#[test]
fn test_initialize_monthly() {
    assert_eq!(setup(30).get_period_days(), 30);
}

#[test]
fn test_initialize_twice_panics() {
    let mut pool = setup(7);
    assert_eq!(
        pool.initialize(ADMIN, TOKEN, 7),
        Err(PoolError::AlreadyInitialized)
    );
}

#[test]
fn test_initialize_invalid_period_panics() {
    let mut pool = LuckyStakePool::new();
    assert_eq!(
        pool.initialize(ADMIN, TOKEN, 10),
        Err(PoolError::InvalidPeriod)
    );
}

#[test]
fn test_deposit_updates_balance_and_tickets() {
    let mut pool = setup(7);
    let amount = 100_000_000i128;
    pool.deposit(USER1, amount).unwrap();
    assert_eq!(pool.get_balance(USER1), amount);
    assert_eq!(pool.get_tickets(USER1), amount * 7);
    assert_eq!(pool.get_total_deposits(), amount);
    assert_eq!(pool.get_total_tickets(), amount * 7);
}

#[test]
fn test_deposit_monthly_ticket_multiplier() {
    let mut pool = setup(30);
    let amount = 10_000_000i128;
    pool.deposit(USER1, amount).unwrap();
    assert_eq!(pool.get_tickets(USER1), amount * 30);
}

#[test]
fn test_multiple_deposits_accumulate() {
    let mut pool = setup(7);
    pool.deposit(USER1, 50_000_000i128).unwrap();
    pool.deposit(USER1, 50_000_000i128).unwrap();
    assert_eq!(pool.get_balance(USER1), 100_000_000i128);
    assert_eq!(pool.get_tickets(USER1), 100_000_000i128 * 7);
}

#[test]
fn test_two_users_deposit() {
    let mut pool = setup(7);
    pool.deposit(USER1, 100_000_000i128).unwrap();
    pool.deposit(USER2, 200_000_000i128).unwrap();
    assert_eq!(pool.get_total_deposits(), 300_000_000i128);
    assert_eq!(pool.get_total_tickets(), 300_000_000i128 * 7);
    assert_eq!(pool.get_balance(USER1), 100_000_000i128);
    assert_eq!(pool.get_balance(USER2), 200_000_000i128);
}

#[test]
fn test_deposit_zero_panics() {
    let mut pool = setup(7);
    assert_eq!(pool.deposit(USER1, 0), Err(PoolError::InvalidAmount));
}

#[test]
fn test_deposit_transfers_tokens_to_contract() {
    let mut pool = setup(7);
    let amount = 100_000_000i128;
    let transfer = pool.deposit(USER1, amount).unwrap();
    assert_eq!(transfer.amount, amount);
    assert_eq!(
        transfer,
        TokenTransfer {
            from: Party::Account(USER1),
            to: Party::Pool,
            amount,
        }
    );
}

#[test]
fn test_withdraw_full_balance() {
    let mut pool = setup(7);
    let amount = 100_000_000i128;
    pool.deposit(USER1, amount).unwrap();
    let transfer = pool.withdraw(USER1, amount).unwrap();
    assert_eq!(
        transfer,
        TokenTransfer {
            from: Party::Pool,
            to: Party::Account(USER1),
            amount,
        }
    );
    assert_eq!(pool.get_balance(USER1), 0);
    assert_eq!(pool.get_tickets(USER1), 0);
    assert_eq!(pool.get_total_deposits(), 0);
    assert_eq!(pool.get_total_tickets(), 0);
}

#[test]
fn test_withdraw_partial_proportional_tickets() {
    let mut pool = setup(7);
    pool.deposit(USER1, 100_000_000i128).unwrap();
    pool.withdraw(USER1, 50_000_000i128).unwrap();
    assert_eq!(pool.get_balance(USER1), 50_000_000i128);
    assert_eq!(pool.get_tickets(USER1), 50_000_000i128 * 7);
}

#[test]
fn test_withdraw_more_than_balance_panics() {
    let mut pool = setup(7);
    pool.deposit(USER1, 100_000_000i128).unwrap();
    assert_eq!(
        pool.withdraw(USER1, 200_000_000i128),
        Err(PoolError::InsufficientBalance)
    );
}

#[test]
fn test_withdraw_zero_panics() {
    let mut pool = setup(7);
    pool.deposit(USER1, 100_000_000i128).unwrap();
    assert_eq!(pool.withdraw(USER1, 0), Err(PoolError::InvalidAmount));
}

#[test]
fn test_withdraw_proportional_small_amounts() {
    // Depositing 100 then withdrawing 50 with a weekly period leaves
    // balance 50 and exactly 50 * 7 = 350 tickets.
    let mut pool = setup(7);
    pool.deposit(USER1, 100).unwrap();
    pool.withdraw(USER1, 50).unwrap();
    assert_eq!(pool.get_balance(USER1), 50);
    assert_eq!(pool.get_tickets(USER1), 350);
}

#[test]
fn test_withdraw_truncates_ticket_burn() {
    // 3 units deposited weekly hold 21 tickets; withdrawing 1 burns
    // floor(21 * 1 / 3) = 7 of them.
    let mut pool = setup(7);
    pool.deposit(USER1, 3).unwrap();
    pool.withdraw(USER1, 1).unwrap();
    assert_eq!(pool.get_balance(USER1), 2);
    assert_eq!(pool.get_tickets(USER1), 14);
}

#[test]
fn test_withdraw_from_unknown_depositor_is_insufficient() {
    let mut pool = setup(7);
    assert_eq!(pool.withdraw(USER1, 1), Err(PoolError::InsufficientBalance));
}

#[test]
fn test_add_prize_increases_prize_fund() {
    let mut pool = setup(7);
    pool.add_prize(ADMIN, 100_000_000i128).unwrap();
    assert_eq!(pool.get_prize_fund(), 100_000_000i128);
    pool.add_prize(ADMIN, 50_000_000i128).unwrap();
    assert_eq!(pool.get_prize_fund(), 150_000_000i128);
}

#[test]
fn test_add_prize_zero_panics() {
    let mut pool = setup(7);
    assert_eq!(pool.add_prize(ADMIN, 0), Err(PoolError::InvalidAmount));
}

#[test]
fn test_add_prize_requires_admin() {
    let mut pool = setup(7);
    assert_eq!(
        pool.add_prize(USER1, 100_000_000i128),
        Err(PoolError::Unauthorized)
    );
    assert_eq!(pool.get_prize_fund(), 0);
}

#[test]
fn test_higher_deposit_gets_more_tickets() {
    let mut pool = setup(7);
    pool.deposit(USER1, 100_000_000i128).unwrap();
    pool.deposit(USER2, 900_000_000i128).unwrap();
    assert_eq!(pool.get_tickets(USER2), pool.get_tickets(USER1) * 9);
}

#[test]
fn test_registry_rows_keep_insertion_order() {
    let mut pool = setup(7);
    pool.deposit(USER2, 5).unwrap();
    pool.deposit(USER1, 3).unwrap();
    pool.deposit(USER2, 1).unwrap();
    assert_eq!(
        pool.accounts,
        vec![
            DepositorAccount {
                owner: USER2,
                balance: 6,
                tickets: 42,
            },
            DepositorAccount {
                owner: USER1,
                balance: 3,
                tickets: 21,
            },
        ]
    );
}
