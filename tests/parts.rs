use cfmm::arith::{add, mul_div_ceil, mul_div_floor, mul_wide, per_million_ceil, sub, ArithmeticError};
use cfmm::ledger::{Ledger, TokenError};
use cfmm::pair::{bytes_less, encode_asset_id, get_pool_account, make_asset_pair, AssetPair, AssetsIdentical};
use cfmm::pool::{check_pool_share, plan_add_liquidity, plan_exchange, plan_remove_liquidity, Error};
use cfmm::registry::LiquidityRegistry;

#[test]
fn checked_add_and_sub() {
    assert_eq!(add(2, 3), Ok(5));
    assert_eq!(add(u64::MAX, 1), Err(ArithmeticError::Overflow));
    assert_eq!(sub(5, 3), Ok(2));
    assert_eq!(sub(3, 5), Err(ArithmeticError::Underflow));
}

#[test]
fn wide_multiply_divide_rounding() {
    assert_eq!(mul_wide(u64::MAX, u64::MAX), (u64::MAX as u128) * (u64::MAX as u128));
    assert_eq!(mul_div_floor(7, 10, 4), Ok(17));
    assert_eq!(mul_div_ceil(7, 10, 4), Ok(18));
    assert_eq!(mul_div_ceil(8, 10, 4), Ok(20));
    assert_eq!(mul_div_floor(u64::MAX, u64::MAX, u64::MAX), Ok(u64::MAX));
    assert_eq!(mul_div_floor(u64::MAX, 2, 1), Err(ArithmeticError::Overflow));
    assert_eq!(mul_div_ceil(u64::MAX, 3, 2), Err(ArithmeticError::Overflow));
    assert_eq!(mul_div_floor(1, 1, 0), Err(ArithmeticError::DivisionByZero));
    assert_eq!(mul_div_ceil(1, 1, 0), Err(ArithmeticError::DivisionByZero));
}

#[test]
fn fee_rounds_up() {
    assert_eq!(per_million_ceil(100_000, 20), 2);
    assert_eq!(per_million_ceil(100_000, 21), 3);
    assert_eq!(per_million_ceil(0, 21), 0);
    assert_eq!(per_million_ceil(1, 1), 1);
}

#[test]
fn pair_order_follows_byte_encoding() {
    assert_eq!(encode_asset_id(0x0102_0304), vec![4, 3, 2, 1]);
    assert!(bytes_less(&vec![1, 2], &vec![1, 3]));
    assert!(bytes_less(&vec![1], &vec![1, 0]));
    assert!(!bytes_less(&vec![2], &vec![1, 9]));
    assert_eq!(make_asset_pair(0, 1), Ok(AssetPair { first: 0, second: 1 }));
    assert_eq!(make_asset_pair(1, 0), Ok(AssetPair { first: 0, second: 1 }));
    assert_eq!(make_asset_pair(1, 256), Ok(AssetPair { first: 256, second: 1 }));
    assert_eq!(make_asset_pair(256, 1), Ok(AssetPair { first: 256, second: 1 }));
    assert_eq!(make_asset_pair(5, 5), Err(AssetsIdentical));
}

#[test]
fn pool_accounts_differ_per_pair() {
    let p = AssetPair { first: 0, second: 1 };
    let q = AssetPair { first: 0, second: 2 };
    assert_eq!(get_pool_account(3, p), (3u128 << 64) | 1);
    assert_ne!(get_pool_account(3, p), get_pool_account(3, q));
}

#[test]
fn add_plan_first_and_later_providers() {
    assert_eq!(plan_add_liquidity(0, 0, 0, 0, 1_000, 0, 2_000, 10), Ok((20_000, 1_000, 2_000)));
    assert_eq!(plan_add_liquidity(0, 0, 0, 0, u64::MAX, 0, 1, 10), Ok((u64::MAX, u64::MAX, 1)));
    assert_eq!(plan_add_liquidity(20_000, 1_000, 2_000, 0, 500, 0, 1_000, 10), Ok((10_000, 500, 1_000)));
    assert_eq!(plan_add_liquidity(3, 10, 10, 0, 1, 0, 5, 10), Ok((0, 0, 0)));
    assert_eq!(plan_add_liquidity(7, 10, 20, 0, 3, 0, 100, 10), Ok((2, 3, 6)));
    assert_eq!(
        plan_add_liquidity(20_000, 1_000, 2_000, 1_001, 2_000, 0, 2_000, 10),
        Err(Error::UnexpectedExchangeRate)
    );
    assert_eq!(
        plan_add_liquidity(5, 0, 0, 0, 1, 0, 1, 10),
        Err(Error::Arithmetic(ArithmeticError::DivisionByZero))
    );
}

#[test]
fn remove_plan_rounds_down() {
    assert_eq!(plan_remove_liquidity(30_000, 20_000, 1_500, 3_000, 20_000), Ok((1_000, 2_000)));
    assert_eq!(plan_remove_liquidity(3, 3, 10, 11, 1), Ok((3, 3)));
    assert_eq!(
        plan_remove_liquidity(20_000, 20_000, 1_000, 2_000, 20_001),
        Err(Error::Arithmetic(ArithmeticError::Underflow))
    );
    assert_eq!(
        plan_remove_liquidity(20_000, 5, 1_000, 2_000, 6),
        Err(Error::Arithmetic(ArithmeticError::Underflow))
    );
}

#[test]
fn exchange_plan_keeps_product_with_fee() {
    assert_eq!(plan_exchange(100_000, 5_000, 10_000, 20), Ok(35));
    assert_eq!(plan_exchange(0, 5_000, 10_000, 20), Ok(39));
    assert_eq!(plan_exchange(100_000, 0, 10_000, 20), Err(Error::NoLiquidity));
    assert_eq!(plan_exchange(100_000, 10, 0, 20), Err(Error::NoLiquidity));
    assert_eq!(
        plan_exchange(0, u64::MAX, 1, 1),
        Err(Error::Arithmetic(ArithmeticError::Overflow))
    );
    let out = plan_exchange(100_000, 5_000, 10_000, 20).unwrap();
    assert!((5_020u128) * ((10_000 - out) as u128) > 5_000u128 * 10_000);
}

#[test]
fn pool_share_floor() {
    assert_eq!(check_pool_share(95, 1_900, 1_900, Ok(100)), Err(Error::InsufficientPoolAmount));
    assert_eq!(check_pool_share(100, 1_900, 1_900, Ok(100)), Ok(()));
    assert_eq!(check_pool_share(100, 1, 0, Ok(100)), Err(Error::Arithmetic(ArithmeticError::DivisionByZero)));
    assert_eq!(check_pool_share(100, 1, 1, Err(ArithmeticError::Overflow)), Err(Error::Arithmetic(ArithmeticError::Overflow)));
}

#[test]
fn registry_deposit_and_withdraw() {
    let mut r = LiquidityRegistry::new();
    let p = AssetPair { first: 0, second: 1 };
    r.deposit(7, p, 100);
    r.deposit(8, p, 50);
    assert_eq!(r.get_total(p), 150);
    assert_eq!(r.get_account(7, p), 100);
    r.withdraw(7, p, 100);
    assert_eq!(r.get_account(7, p), 0);
    assert_eq!(r.get_total(p), 50);
    assert_eq!(r.shares.slots.len(), 1);
}

#[test]
fn ledger_transfer_sweeps_dust_unless_kept_alive() {
    let mut l = Ledger::new();
    assert_eq!(l.create_asset(0, 10), Ok(()));
    assert_eq!(l.create_asset(0, 5), Err(TokenError::AlreadyExists));
    assert_eq!(l.create_asset(1, 0), Err(TokenError::MinBalanceZero));
    assert_eq!(l.mint(0, 1, 5), Err(TokenError::BelowMinimum));
    assert_eq!(l.mint(0, 1, 100), Ok(()));
    assert_eq!(l.reducible_balance(0, 1, true), 90);
    assert_eq!(l.reducible_balance(0, 1, false), 100);
    assert_eq!(l.transfer(0, 1, 2, 95, true), Err(TokenError::WouldDie));
    assert_eq!(l.transfer(0, 1, 2, 5, false), Err(TokenError::BelowMinimum));
    assert_eq!(l.transfer(0, 1, 2, 101, false), Err(TokenError::BalanceLow));
    assert_eq!(l.transfer(0, 1, 2, 95, false), Ok(100));
    assert_eq!(l.balance_of(0, 1), 0);
    assert_eq!(l.balance_of(0, 2), 100);
    assert_eq!(l.transfer(9, 1, 2, 1, false), Err(TokenError::UnknownAsset));
    assert_eq!(l.minimum_balance(0), 10);
}
