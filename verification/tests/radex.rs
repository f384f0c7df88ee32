use defi::amm::{DexError, LiquidityPool, Radex};
use defi::decimal::Decimal;
use defi::resource::{sort_addresses, Bucket, ResourceAddress};

fn dec(units: i128) -> Decimal {
    Decimal(units)
}

fn whole(n: u64) -> Decimal {
    Decimal::from_u64(n)
}

fn bucket(a: u64, amount: Decimal) -> Bucket {
    Bucket::new(ResourceAddress(a), amount).unwrap()
}

fn half() -> Decimal {
    dec(500_000_000_000_000_000)
}

fn setup() -> Radex {
    let mut dex = Radex::new();
    let t = dex
        .new_liquidity_pool(
            bucket(1, whole(1000)),
            bucket(2, whole(1000)),
            half(),
            half(),
            whole(0),
            true,
            true,
            ResourceAddress(9),
        )
        .unwrap();
    assert_eq!(t.amount(), whole(100));
    assert_eq!(t.resource_address(), ResourceAddress(9));
    dex
}

#[test]
fn radex_swap_pays_constant_product_output() {
    let mut dex = setup();
    let out = dex.swap(bucket(1, whole(100)), ResourceAddress(2)).unwrap();
    assert_eq!(out.resource_address(), ResourceAddress(2));
    // 100 * 1000 / 1100, rounded down at the 18th decimal
    assert_eq!(out.amount(), dec(90_909_090_909_090_909_090));
    let pool = dex.pool(ResourceAddress(1), ResourceAddress(2)).unwrap();
    assert_eq!(pool.reserve_of_exec(ResourceAddress(1)), whole(1100));
    assert_eq!(pool.reserve_of_exec(ResourceAddress(2)), dec(909_090_909_090_909_090_910));
}

#[test]
fn radex_swap_refuses_unknown_pair() {
    let mut dex = setup();
    assert_eq!(dex.swap(bucket(1, whole(1)), ResourceAddress(3)), Err(DexError::PoolNotFound));
    assert_eq!(dex.swap(bucket(1, whole(1)), ResourceAddress(1)), Err(DexError::PoolNotFound));
}

#[test]
fn radex_swap_exact_enforces_minimum() {
    let mut dex = setup();
    let r = dex.swap_exact_tokens_for_tokens(bucket(1, whole(100)), ResourceAddress(2), whole(91));
    assert_eq!(r, Err(DexError::MinAmountNotMet));
    let pool = dex.pool(ResourceAddress(1), ResourceAddress(2)).unwrap();
    assert_eq!(pool.reserve_of_exec(ResourceAddress(1)), whole(1000));
    let out = dex
        .swap_exact_tokens_for_tokens(bucket(1, whole(100)), ResourceAddress(2), whole(90))
        .unwrap();
    assert_eq!(out.amount(), dec(90_909_090_909_090_909_090));
}

#[test]
fn radex_swap_for_exact_returns_change() {
    let mut dex = setup();
    let (out, rest) = dex
        .swap_tokens_for_exact_tokens(bucket(1, whole(200)), ResourceAddress(2), whole(100))
        .unwrap();
    assert_eq!(out.amount(), whole(100));
    assert_eq!(out.resource_address(), ResourceAddress(2));
    // input needed: 100 * 1000 / (1 * 900) = 111.111111111111111111
    assert_eq!(rest.amount(), dec(88_888_888_888_888_888_889));
    assert_eq!(rest.resource_address(), ResourceAddress(1));
}

#[test]
fn radex_remove_liquidity_pays_share() {
    let mut dex = setup();
    let (b1, b2) = dex.remove_liquidity(bucket(9, whole(50))).unwrap();
    assert_eq!(b1.amount(), whole(500));
    assert_eq!(b2.amount(), whole(500));
    assert_eq!(b1.resource_address(), ResourceAddress(2));
    assert_eq!(b2.resource_address(), ResourceAddress(1));
    assert_eq!(dex.remove_liquidity(bucket(8, whole(1))), Err(DexError::WrongTrackingToken));
}

#[test]
fn radex_refuses_second_pool_for_pair() {
    let mut dex = setup();
    let r = dex.new_liquidity_pool(
        bucket(2, whole(10)),
        bucket(1, whole(10)),
        half(),
        half(),
        whole(0),
        true,
        true,
        ResourceAddress(10),
    );
    assert_eq!(r, Err(DexError::PoolExists));
}

#[test]
fn pool_creation_checks_weights_and_fee() {
    let r = LiquidityPool::new(half(), half(), bucket(1, whole(10)), bucket(2, whole(30)), whole(0), true, true, ResourceAddress(9));
    assert_eq!(r.err(), Some(DexError::WeightMismatch));
    let r = LiquidityPool::new(half(), half(), bucket(1, whole(10)), bucket(2, whole(10)), whole(101), true, true, ResourceAddress(9));
    assert_eq!(r.err(), Some(DexError::InvalidFee));
    let r = LiquidityPool::new(half(), half(), bucket(1, whole(10)), bucket(1, whole(10)), whole(1), true, true, ResourceAddress(9));
    assert_eq!(r.err(), Some(DexError::SameToken));
    let r = LiquidityPool::new(whole(1), half(), bucket(1, whole(10)), bucket(2, whole(10)), whole(1), true, true, ResourceAddress(9));
    assert_eq!(r.err(), Some(DexError::WeightTooHigh));
    let r = LiquidityPool::new(half(), half(), bucket(1, whole(0)), bucket(2, whole(10)), whole(1), true, true, ResourceAddress(9));
    assert_eq!(r.err(), Some(DexError::EmptyBucket));
    let r = LiquidityPool::new(half(), half(), bucket(1, whole(1)), bucket(2, whole(1)), whole(1), false, true, ResourceAddress(9));
    assert_eq!(r.err(), Some(DexError::NonFungible));
}

#[test]
fn pool_add_liquidity_mints_share() {
    let (mut pool, _) = LiquidityPool::new(half(), half(), bucket(1, whole(1000)), bucket(2, whole(1000)), whole(1), true, true, ResourceAddress(9)).unwrap();
    let (r1, r2, t) = pool.add_liquidity(bucket(1, whole(100)), bucket(2, whole(100))).unwrap();
    assert_eq!(r1.amount(), whole(0));
    assert_eq!(r2.amount(), whole(0));
    assert_eq!(t.amount(), whole(10));
    assert_eq!(pool.tracking_supply, whole(110));
}

#[test]
fn sort_addresses_is_symmetric() {
    let a = ResourceAddress(5);
    let b = ResourceAddress(7);
    assert_eq!(sort_addresses(a, b), sort_addresses(b, a));
    assert_eq!(sort_addresses(a, b), (b, a));
}

#[test]
fn pool_reports_its_terms() {
    let (pool, _) = LiquidityPool::new(half(), half(), bucket(1, whole(10)), bucket(2, whole(10)), whole(1), true, true, ResourceAddress(9)).unwrap();
    assert_eq!(pool.get_pool_info(), (half(), half(), whole(1)));
    assert_eq!((pool.token_1_weight(), pool.token_2_weight(), pool.fee_to_pool()), (half(), half(), whole(1)));
    assert_eq!(pool.tracking_token_address(), ResourceAddress(9));
    assert_eq!(pool.assert_belongs_to_pool(ResourceAddress(1)), Ok(()));
    assert_eq!(pool.assert_belongs_to_pool(ResourceAddress(3)), Err(DexError::NotInPool));
}

#[test]
fn radex_swaps_in_both_directions_use_one_pool() {
    let mut dex = setup();
    let out = dex.swap(bucket(2, whole(100)), ResourceAddress(1)).unwrap();
    assert_eq!(out.resource_address(), ResourceAddress(1));
    assert_eq!(out.amount(), dec(90_909_090_909_090_909_090));
    let back = dex.swap(bucket(1, whole(100)), ResourceAddress(2)).unwrap();
    assert_eq!(back.resource_address(), ResourceAddress(2));
    let pool = dex.pool(ResourceAddress(2), ResourceAddress(1)).unwrap();
    assert_eq!(pool.reserve_of_exec(ResourceAddress(2)), dec(1100_000_000_000_000_000_000 - back.amount().0));
}
