use defi::decimal::Decimal;
use defi::krulkswap::{Exchange, KrulkError, KrulkPool};
use defi::resource::{Bucket, ResourceAddress};

const ONE: i128 = 1_000_000_000_000_000_000;

fn units(n: i128) -> Decimal {
    Decimal(n * ONE)
}

fn bucket(a: u64, n: i128) -> Bucket {
    Bucket::new(ResourceAddress(a), units(n)).unwrap()
}

#[test]
fn exchange_pool_swaps_and_liquidity() {
    let mut ex = Exchange::new_exchange();
    let lp = ex.add_pool(bucket(1, 100), bucket(2, 400), ResourceAddress(50)).unwrap();
    assert_eq!((lp.resource_address(), lp.amount()), (ResourceAddress(50), units(500)));
    assert!(ex.pool_exists(ResourceAddress(1), ResourceAddress(2)));
    assert!(ex.pool_exists(ResourceAddress(2), ResourceAddress(1)));
    assert!(ex.pool_lp_exists(ResourceAddress(50)));
    assert_eq!(ex.add_pool(bucket(1, 1), bucket(2, 1), ResourceAddress(51)).err(), Some(KrulkError::PoolExists));

    // 100 more of token 2 against a constant of 40000: token 1 falls from
    // 100 to 40000 / 500 = 80
    let out = ex.swap(bucket(2, 100), ResourceAddress(1)).unwrap();
    assert_eq!((out.resource_address(), out.amount()), (ResourceAddress(1), units(20)));
    // the pool is known by the greater address first
    assert_eq!(ex.swap(bucket(1, 10), ResourceAddress(2)).err(), Some(KrulkError::NoPool));

    let lp2 = ex.add_liquidity(bucket(2, 50), bucket(1, 8)).unwrap();
    assert_eq!(lp2.amount(), units(58));
    assert_eq!(ex.add_liquidity(bucket(2, 10), bucket(1, 1)).err(), Some(KrulkError::RatioMismatch));

    let (a, b) = ex.take_liquidity(Bucket::new(ResourceAddress(50), units(279)).unwrap()).unwrap();
    assert_eq!((a.resource_address(), a.amount()), (ResourceAddress(2), units(275)));
    assert_eq!((b.resource_address(), b.amount()), (ResourceAddress(1), units(44)));
    assert_eq!(ex.take_liquidity(bucket(7, 1)).err(), Some(KrulkError::NoPool));
    assert_eq!(ex.add_liquidity(bucket(3, 1), bucket(1, 1)).err(), Some(KrulkError::NoPool));
}

#[test]
fn pool_refuses_bad_requests() {
    assert_eq!(KrulkPool::new_pool(bucket(1, 1), bucket(1, 1), ResourceAddress(50)).err(), Some(KrulkError::SameResource));
    let (mut p, _) = KrulkPool::new_pool(bucket(1, 10), bucket(2, 10), ResourceAddress(50)).unwrap();
    assert_eq!(p.addresses(), vec![ResourceAddress(1), ResourceAddress(2)]);
    assert_eq!(p.swap(bucket(3, 1), ResourceAddress(2)).err(), Some(KrulkError::UnknownResource));
    assert_eq!(p.take_liquidity(bucket(2, 1)).err(), Some(KrulkError::WrongLpToken));
    let (x, y) = p.take_liquidity(Bucket::new(ResourceAddress(50), units(20)).unwrap()).unwrap();
    assert_eq!((x.amount(), y.amount()), (units(10), units(10)));
    // an empty pool cannot price new liquidity
    assert_eq!(p.add_liquidity(bucket(1, 1), bucket(2, 1)).err(), Some(KrulkError::Arithmetic));
}
