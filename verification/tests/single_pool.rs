use defi::decimal::Decimal;
use defi::resource::{Bucket, ResourceAddress, ResourceType};
use defi::singlepool::{LiquidityPool, SinglePoolError, SingleTokenLiquidityPool};

const ONE: i128 = 1_000_000_000_000_000_000;

fn units(n: i128) -> Decimal {
    Decimal(n * ONE)
}

fn bucket(a: u64, n: i128) -> Bucket {
    Bucket::new(ResourceAddress(a), units(n)).unwrap()
}

#[test]
fn single_token_pool_shares_fees() {
    let (mut p, lp) = SingleTokenLiquidityPool::new(bucket(1, 100), units(10), ResourceAddress(50)).unwrap();
    assert_eq!((lp.resource_address(), lp.amount()), (ResourceAddress(50), units(10)));
    // half the pool again: half the LP tokens again
    let lp2 = p.add_liquidity(bucket(1, 50)).unwrap();
    assert_eq!(lp2.amount(), units(5));
    p.add_fees(bucket(1, 30)).unwrap();
    // a fifth of the LP tokens: a fifth of the fees and of the pool
    let out = p.remove_liquidity(Bucket::new(ResourceAddress(50), units(3)).unwrap()).unwrap();
    assert_eq!(out.amount(), units(36));
    assert_eq!((p.pool, p.fees, p.lp_supply), (units(120), units(24), units(12)));
    // a third is rounded toward zero
    let third = p.remove_liquidity(Bucket::new(ResourceAddress(50), units(4)).unwrap()).unwrap();
    assert_eq!(third.amount(), Decimal(47_999_999_999_999_999_952));
    assert_eq!(p.remove_liquidity(bucket(1, 1)).err(), Some(SinglePoolError::WrongToken));
    assert_eq!(p.add_fees(bucket(2, 1)).err(), Some(SinglePoolError::WrongResource));
    assert_eq!(p.add_liquidity(bucket(2, 1)).err(), Some(SinglePoolError::WrongResource));
}

#[test]
fn ratio_pool_counts_fees_in_the_ratio() {
    let fungible = ResourceType::Fungible { divisibility: 18 };
    assert_eq!(LiquidityPool::new(bucket(1, 0), fungible, ResourceAddress(50)).err(), Some(SinglePoolError::EmptyTokens));
    assert_eq!(
        LiquidityPool::new(bucket(1, 1), ResourceType::NonFungible, ResourceAddress(50)).err(),
        Some(SinglePoolError::NonFungible)
    );
    let (mut p, lp) = LiquidityPool::new(bucket(1, 100), fungible, ResourceAddress(50)).unwrap();
    assert_eq!(lp.amount(), units(100));
    // a fee of 100 halves the LP tokens per pooled token
    p.add_collected_fee(bucket(1, 100)).unwrap();
    assert_eq!(p.lp_per_asset_ratio, Decimal(ONE / 2));
    let lp2 = p.add_liquidity(bucket(1, 20)).unwrap();
    assert_eq!(lp2.amount(), units(10));
    let out = p.remove_liquidity(Bucket::new(ResourceAddress(50), units(10)).unwrap()).unwrap();
    assert_eq!(out.amount(), units(20));
    assert_eq!(p.remove_liquidity(bucket(1, 1)).err(), Some(SinglePoolError::WrongToken));
    // the last LP tokens take all that is left, and the ratio starts over
    let rest = p.remove_liquidity(Bucket::new(ResourceAddress(50), units(100)).unwrap()).unwrap();
    assert_eq!(rest.amount(), units(200));
    assert_eq!((p.pool, p.lp_per_asset_ratio), (units(0), units(1)));
}
