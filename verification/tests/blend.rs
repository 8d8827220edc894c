//! Delegation bookkeeping: setting the delegate pool, supplying principal,
//! slippage-guarded withdrawal and yield harvesting.

use lucky_stake_pool::actions::{
    allowance_expiration, BlendRequest, BlendRequestKind,
};
use lucky_stake_pool::errors::PoolError;
use lucky_stake_pool::pool::LuckyStakePool;

const ADMIN: u64 = 1;
const USER1: u64 = 2;
const TOKEN: u64 = 99;
const BLEND1: u64 = 7;
const BLEND2: u64 = 8;

fn setup(period_days: u32) -> LuckyStakePool {
    let mut pool = LuckyStakePool::new();
    assert_eq!(pool.initialize(ADMIN, TOKEN, period_days), Ok(()));
    pool
}

#[test]
fn test_set_blend_pool_stores_address() {
    let mut pool = setup(7);
    pool.set_blend_pool(ADMIN, BLEND1).unwrap();
    assert_eq!(pool.get_blend_pool(), Some(BLEND1));
}

#[test]
fn test_set_blend_pool_initializes_supplied_to_zero() {
    let mut pool = setup(7);
    pool.set_blend_pool(ADMIN, BLEND1).unwrap();
    assert_eq!(pool.get_supplied_to_blend(), 0);
}

#[test]
fn test_set_blend_pool_can_be_updated() {
    let mut pool = setup(7);
    pool.set_blend_pool(ADMIN, BLEND1).unwrap();
    assert_eq!(pool.get_blend_pool(), Some(BLEND1));
    pool.set_blend_pool(ADMIN, BLEND2).unwrap();
    assert_eq!(pool.get_blend_pool(), Some(BLEND2));
}

#[test]
fn test_set_blend_pool_requires_admin() {
    let mut pool = setup(7);
    assert_eq!(
        pool.set_blend_pool(USER1, BLEND1),
        Err(PoolError::Unauthorized)
    );
    assert_eq!(pool.get_blend_pool(), None);
}

#[test]
fn test_supply_to_blend_records_principal() {
    let mut pool = setup(7);
    pool.set_blend_pool(ADMIN, BLEND1).unwrap();
    let request = pool.supply_to_blend(ADMIN, 100).unwrap();
    assert_eq!(
        request,
        BlendRequest {
            request_type: BlendRequestKind::SupplyCollateral,
            address: TOKEN,
            amount: 100,
        }
    );
    assert_eq!(request.request_code(), 2);
    assert_eq!(pool.get_supplied_to_blend(), 100);
}

#[test]
fn test_supply_to_blend_without_delegate_fails() {
    let mut pool = setup(7);
    assert_eq!(
        pool.supply_to_blend(ADMIN, 100),
        Err(PoolError::DelegatePoolNotSet)
    );
}

#[test]
fn test_supply_to_blend_rejects_non_positive_amount() {
    let mut pool = setup(7);
    pool.set_blend_pool(ADMIN, BLEND1).unwrap();
    assert_eq!(pool.supply_to_blend(ADMIN, 0), Err(PoolError::InvalidAmount));
    assert_eq!(pool.get_supplied_to_blend(), 0);
}

#[test]
fn test_supply_to_blend_requires_admin() {
    let mut pool = setup(7);
    pool.set_blend_pool(ADMIN, BLEND1).unwrap();
    assert_eq!(pool.supply_to_blend(USER1, 100), Err(PoolError::Unauthorized));
}

#[test]
fn test_blend_withdraw_request_builds_collateral_withdrawal() {
    let mut pool = setup(7);
    pool.set_blend_pool(ADMIN, BLEND1).unwrap();
    let request = pool.blend_withdraw_request(ADMIN, 60, 50).unwrap();
    assert_eq!(
        request,
        BlendRequest {
            request_type: BlendRequestKind::WithdrawCollateral,
            address: TOKEN,
            amount: 60,
        }
    );
    assert_eq!(request.request_code(), 3);
}

#[test]
fn test_withdraw_from_blend_decrements_by_received() {
    let mut pool = setup(7);
    pool.set_blend_pool(ADMIN, BLEND1).unwrap();
    pool.supply_to_blend(ADMIN, 100).unwrap();
    // The delegate returned 55 against a request of 60: the principal
    // figure drops by what actually came back.
    assert_eq!(pool.withdraw_from_blend(ADMIN, 60, 50, 55), Ok(()));
    assert_eq!(pool.get_supplied_to_blend(), 45);
}

#[test]
fn test_withdraw_from_blend_slippage_aborts() {
    let mut pool = setup(7);
    pool.set_blend_pool(ADMIN, BLEND1).unwrap();
    pool.supply_to_blend(ADMIN, 100).unwrap();
    assert_eq!(
        pool.withdraw_from_blend(ADMIN, 60, 50, 49),
        Err(PoolError::SlippageExceeded)
    );
    assert_eq!(pool.get_supplied_to_blend(), 100);
}

#[test]
fn test_withdraw_from_blend_min_return_must_fit() {
    let mut pool = setup(7);
    pool.set_blend_pool(ADMIN, BLEND1).unwrap();
    assert_eq!(
        pool.withdraw_from_blend(ADMIN, 60, 61, 61),
        Err(PoolError::InvalidAmount)
    );
    assert_eq!(
        pool.withdraw_from_blend(ADMIN, 60, -1, 0),
        Err(PoolError::InvalidAmount)
    );
}

#[test]
fn test_harvest_yield_adds_received_to_prize() {
    let mut pool = setup(7);
    pool.set_blend_pool(ADMIN, BLEND1).unwrap();
    pool.supply_to_blend(ADMIN, 100).unwrap();
    assert_eq!(pool.harvest_yield(ADMIN, 30, 20, 25), Ok(()));
    assert_eq!(pool.get_prize_fund(), 25);
    assert_eq!(pool.get_supplied_to_blend(), 100);
}

#[test]
fn test_harvest_yield_slippage_aborts() {
    let mut pool = setup(7);
    pool.set_blend_pool(ADMIN, BLEND1).unwrap();
    pool.supply_to_blend(ADMIN, 100).unwrap();
    assert_eq!(
        pool.harvest_yield(ADMIN, 30, 20, 19),
        Err(PoolError::SlippageExceeded)
    );
    assert_eq!(pool.get_prize_fund(), 0);
    assert_eq!(pool.get_supplied_to_blend(), 100);
}

#[test]
fn test_allowance_expiration_adds_horizon() {
    assert_eq!(allowance_expiration(100), 50_100);
}
