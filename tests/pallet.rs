use cfmm::arith::ArithmeticError;
use cfmm::ledger::TokenError;
use cfmm::pallet::{Config, Event, Pallet};
use cfmm::pool::Error;

fn config() -> Config {
    Config {
        pallet_id: u64::from_le_bytes(*b"cfmm____"),
        pool_min_amount_multiple: 10,
        initial_liquidity_per_asset_unit: 10,
        exchange_fee: 100_000,
    }
}

fn with_assets() -> Pallet {
    let mut m = Pallet::new(config());
    assert_eq!(m.ledger.create_asset(0, 10), Ok(()));
    assert_eq!(m.ledger.create_asset(1, 20), Ok(()));
    assert_eq!(m.ledger.create_asset(2, 30), Ok(()));
    for who in [1u128, 2u128] {
        for asset in [0u32, 1, 2] {
            assert_eq!(m.ledger.mint(asset, who, 10_000), Ok(()));
        }
    }
    m
}

fn snapshot(m: &Pallet) -> Vec<u64> {
    let mut v = Vec::new();
    for who in [1u128, 2u128] {
        for asset in [0u32, 1, 2] {
            v.push(m.ledger.balance_of(asset, who));
        }
    }
    v.push(m.get_exchange_rate(0, 1).0);
    v.push(m.get_exchange_rate(0, 1).1);
    let pair = cfmm::pair::make_asset_pair(0, 1).unwrap();
    v.push(m.registry.get_total(pair));
    v.push(m.registry.get_account(1, pair));
    v.push(m.registry.get_account(2, pair));
    v
}

#[test]
fn basic_add_remove_liquidity() {
    let mut m = with_assets();
    assert!(m.add_liquidity(1, 0, 0, 1_000, 1, 0, 2_000).is_ok());
    assert_eq!(m.get_exchange_rate(0, 1), (1_000, 2_000));
    assert!(m.add_liquidity(2, 0, 0, 500, 1, 0, 1_000).is_ok());
    assert_eq!(m.get_exchange_rate(1, 0), (3_000, 1_500));
    assert!(m.remove_liquidity(1, 0, 1, 20_000).is_ok());
    assert_eq!(m.get_exchange_rate(0, 1), (500, 1_000));
    assert!(m.remove_liquidity(2, 0, 1, 10_000).is_ok());
    assert_eq!(m.get_exchange_rate(0, 1), (0, 0));
}

#[test]
fn add_liquidity_insufficient_assets() {
    let mut m = with_assets();
    let before = snapshot(&m);
    assert_eq!(
        m.add_liquidity(1, 0, 0, 15_000, 1, 0, 2_000),
        Err(Error::Token(TokenError::BalanceLow))
    );
    assert_eq!(snapshot(&m), before);
    assert_eq!(
        m.add_liquidity(1, 0, 0, 1_000, 1, 0, 25_000),
        Err(Error::Token(TokenError::BalanceLow))
    );
    assert_eq!(snapshot(&m), before);
}

#[test]
fn add_liquidity_maintain_exchange_rate() {
    let mut m = with_assets();
    assert!(m.add_liquidity(1, 0, 0, 1_000, 1, 0, 2_000).is_ok());
    assert_eq!(m.get_exchange_rate(0, 1), (1_000, 2_000));
    let before = snapshot(&m);
    assert_eq!(
        m.add_liquidity(1, 0, 1_001, 2_000, 1, 0, 2_000),
        Err(Error::UnexpectedExchangeRate)
    );
    assert_eq!(snapshot(&m), before);
    assert!(m.add_liquidity(1, 0, 0, 2_000, 1, 0, 2_000).is_ok());
    assert!(m.add_liquidity(2, 0, 0, 2_000, 1, 0, 2_000).is_ok());
    assert_eq!(m.get_exchange_rate(0, 1), (3_000, 6_000));
}

#[test]
fn add_liquidity_one_asset() {
    let mut m = with_assets();
    let before = snapshot(&m);
    assert_eq!(m.add_liquidity(1, 0, 0, 1_000, 0, 0, 1_000), Err(Error::AssetsIdentical));
    assert_eq!(snapshot(&m), before);
}

#[test]
fn add_too_little_liquidity() {
    let mut m = with_assets();
    let before = snapshot(&m);
    assert_eq!(m.add_liquidity(1, 0, 0, 99, 1, 0, 200), Err(Error::InsufficientPoolAmount));
    assert_eq!(snapshot(&m), before);
    assert_eq!(m.add_liquidity(1, 0, 0, 100, 1, 0, 199), Err(Error::InsufficientPoolAmount));
    assert_eq!(snapshot(&m), before);
    assert!(m.add_liquidity(1, 0, 0, 100, 1, 0, 200).is_ok());
    assert_eq!(m.get_exchange_rate(0, 1), (100, 200));
}

#[test]
fn remove_too_much_liquidity() {
    let mut m = with_assets();
    assert!(m.add_liquidity(1, 0, 0, 1_000, 1, 0, 2_000).is_ok());
    assert_eq!(m.get_exchange_rate(0, 1), (1_000, 2_000));
    let before = snapshot(&m);
    assert_eq!(
        m.remove_liquidity(1, 0, 1, 20_001),
        Err(Error::Arithmetic(ArithmeticError::Underflow))
    );
    assert_eq!(snapshot(&m), before);
    assert_eq!(m.remove_liquidity(1, 0, 1, 18_100), Err(Error::InsufficientPoolAmount));
    assert_eq!(snapshot(&m), before);
    assert!(m.remove_liquidity(1, 0, 1, 18_000).is_ok());
    assert_eq!(m.get_exchange_rate(0, 1), (100, 200));
    assert!(m.remove_liquidity(1, 0, 1, 2_000).is_ok());
    assert_eq!(m.get_exchange_rate(0, 1), (0, 0));
}

#[test]
fn below_min_balance_transferred_not_burned() {
    let mut m = with_assets();
    assert!(m.add_liquidity(1, 0, 0, 9_990, 1, 0, 9_980).is_ok());
    assert_eq!(m.get_exchange_rate(0, 1), (9_990, 9_980));
    assert!(m.remove_liquidity(1, 0, 1, 99_900).is_ok());
    assert!(m.add_liquidity(1, 0, 0, 9_991, 1, 0, 9_981).is_ok());
    assert_eq!(m.get_exchange_rate(0, 1), (10_000, 10_000));
    assert!(m.remove_liquidity(1, 0, 1, 99_910).is_ok());
    assert_eq!(m.get_exchange_rate(0, 1), (0, 0));
}

#[test]
fn exchange_no_liquidity() {
    let mut m = with_assets();
    let before = snapshot(&m);
    assert_eq!(m.exchange(1, 0, 1_000, 1, 0), Err(Error::NoLiquidity));
    assert_eq!(snapshot(&m), before);
}

#[test]
fn basic_exchange() {
    let mut m = with_assets();
    assert!(m.add_liquidity(1, 0, 0, 5_000, 1, 0, 10_000).is_ok());
    let before = snapshot(&m);
    assert_eq!(m.exchange(2, 0, 20, 1, 36), Err(Error::UnexpectedExchangeRate));
    assert_eq!(snapshot(&m), before);
    assert!(m.exchange(2, 0, 20, 1, 35).is_ok());
    assert_eq!(m.ledger.balance_of(0, 2), 9_980);
    assert_eq!(m.ledger.balance_of(1, 2), 10_035);
    assert_eq!(m.get_exchange_rate(0, 1), (5_020, 9_965));
}

#[test]
fn events_report_amounts_and_claims() {
    let mut m = with_assets();
    assert_eq!(
        m.add_liquidity(1, 1, 0, 2_000, 0, 0, 1_000),
        Ok(Event::LiquidityAdded {
            who: 1,
            asset_a: 1,
            amount_a: 2_000,
            asset_b: 0,
            amount_b: 1_000,
            liquidity: 20_000,
        })
    );
    assert_eq!(
        m.add_liquidity(2, 0, 0, 500, 1, 0, 1_000),
        Ok(Event::LiquidityAdded {
            who: 2,
            asset_a: 0,
            amount_a: 500,
            asset_b: 1,
            amount_b: 1_000,
            liquidity: 10_000,
        })
    );
    assert_eq!(
        m.remove_liquidity(1, 0, 1, 20_000),
        Ok(Event::LiquidityRemoved {
            who: 1,
            asset_a: 0,
            amount_a: 1_000,
            asset_b: 1,
            amount_b: 2_000,
            liquidity: 20_000,
        })
    );
}

#[test]
fn claims_are_conserved_across_operations() {
    let mut m = with_assets();
    assert!(m.add_liquidity(1, 0, 0, 1_000, 1, 0, 2_000).is_ok());
    assert!(m.add_liquidity(2, 1, 0, 1_000, 0, 0, 500).is_ok());
    assert!(m.exchange(2, 0, 20, 1, 0).is_ok());
    assert!(m.remove_liquidity(1, 1, 0, 5_000).is_ok());
    let pair = cfmm::pair::make_asset_pair(1, 0).unwrap();
    let total = m.registry.get_total(pair);
    let one = m.registry.get_account(1, pair);
    let two = m.registry.get_account(2, pair);
    assert_eq!(one, 15_000);
    assert_eq!(two, 10_000);
    assert_eq!(one + two, total);
    assert!(m.remove_liquidity(1, 0, 1, 15_000).is_ok());
    assert!(m.remove_liquidity(2, 0, 1, 10_000).is_ok());
    assert_eq!(m.registry.get_total(pair), 0);
    assert!(m.registry.totals.slots.is_empty());
    assert!(m.registry.shares.slots.is_empty());
}

#[test]
fn exchange_rate_is_symmetric() {
    let mut m = with_assets();
    assert!(m.add_liquidity(1, 2, 0, 700, 1, 0, 300).is_ok());
    let (x, y) = m.get_exchange_rate(1, 2);
    assert_eq!((x, y), (300, 700));
    assert_eq!(m.get_exchange_rate(2, 1), (y, x));
    assert_eq!(m.get_exchange_rate(2, 2), (0, 0));
}

#[test]
fn exchange_grows_the_reserve_product() {
    let mut m = with_assets();
    assert!(m.add_liquidity(1, 0, 0, 5_000, 1, 0, 10_000).is_ok());
    let (a0, b0) = m.get_exchange_rate(0, 1);
    assert!(m.exchange(2, 1, 300, 0, 0).is_ok());
    let (a1, b1) = m.get_exchange_rate(0, 1);
    assert!((a1 as u128) * (b1 as u128) > (a0 as u128) * (b0 as u128));
    assert_eq!(b1, 10_300);
}

#[test]
fn add_then_remove_returns_no_more() {
    let mut m = with_assets();
    assert!(m.add_liquidity(1, 0, 0, 1_000, 1, 0, 2_000).is_ok());
    assert!(m.exchange(2, 0, 333, 1, 0).is_ok());
    let a_before = m.ledger.balance_of(0, 2);
    let b_before = m.ledger.balance_of(1, 2);
    let added = m.add_liquidity(2, 0, 0, 777, 1, 0, 777).unwrap();
    let claims = match added {
        Event::LiquidityAdded { liquidity, .. } => liquidity,
        _ => panic!("unexpected event"),
    };
    assert!(m.remove_liquidity(2, 0, 1, claims).is_ok());
    assert!(m.ledger.balance_of(0, 2) <= a_before);
    assert!(m.ledger.balance_of(1, 2) <= b_before);
}

#[test]
fn min_pool_amount_is_multiple_of_minimum_balance() {
    let m = with_assets();
    assert_eq!(m.get_min_pool_amount(0), Ok(100));
    assert_eq!(m.get_min_pool_amount(2), Ok(300));
    assert_eq!(m.get_min_pool_amount(9), Ok(0));
    let mut big = Pallet::new(Config { pool_min_amount_multiple: u64::MAX, ..config() });
    assert_eq!(big.ledger.create_asset(0, 2), Ok(()));
    assert_eq!(big.get_min_pool_amount(0), Err(ArithmeticError::Overflow));
}

#[test]
fn unknown_asset_is_refused_by_the_ledger() {
    let mut m = with_assets();
    assert_eq!(m.add_liquidity(1, 0, 0, 100, 7, 0, 100), Err(Error::Token(TokenError::UnknownAsset)));
}

#[test]
fn removal_from_empty_pool_divides_by_zero() {
    let mut m = with_assets();
    assert_eq!(
        m.remove_liquidity(1, 0, 1, 1),
        Err(Error::Arithmetic(ArithmeticError::DivisionByZero))
    );
}
