use defi::curves::{BasicBondingCurve, BondingAMM, BondingError, Curve, RatioBondingCurve};
use defi::decimal::Decimal;
use defi::resource::{Bucket, ResourceAddress};

const ONE: i128 = 1_000_000_000_000_000_000;
const RESERVE: ResourceAddress = ResourceAddress(1);
const CONTINUOUS: ResourceAddress = ResourceAddress(2);

fn units(n: i128) -> Decimal {
    Decimal(n * ONE)
}

fn reserve(n: i128) -> Bucket {
    Bucket::new(RESERVE, units(n)).unwrap()
}

#[test]
fn lib_test_1() {
    let mut owner_reserve = units(1_000_000);
    owner_reserve = Decimal(owner_reserve.0 - units(60000).0);
    let (mut amm, minted) = BondingAMM::new_default(reserve(60000), CONTINUOUS).unwrap();
    assert_eq!(owner_reserve, units(1_000_000 - 60000));
    assert_eq!(minted.amount(), units(300000));
    assert_eq!(minted.resource_address(), CONTINUOUS);

    let mut investor_reserve = units(1_000_000);
    investor_reserve = Decimal(investor_reserve.0 - units(300).0);
    let (bought, back) = amm.buy(reserve(300), Decimal(0)).unwrap();
    investor_reserve = Decimal(investor_reserve.0 + back.amount().0);
    assert_eq!(investor_reserve, units(1_000_000 - 300));
    assert_eq!(bought.amount(), Decimal(299401793723844635041));

    let (paid, unsold) = amm.sell(bought, Decimal(0)).unwrap();
    investor_reserve = Decimal(investor_reserve.0 + paid.amount().0);
    assert_eq!(investor_reserve, units(1_000_000));
    assert_eq!(unsold.amount(), Decimal(0));
}

#[test]
fn lib_test_2_basic_curve() {
    let curve = Curve::Basic(BasicBondingCurve::new());
    let (mut amm, minted) = BondingAMM::new_with_curve(reserve(60000), CONTINUOUS, curve).unwrap();
    assert_eq!(minted.amount(), units(60000));

    let (bought, back) = amm.buy(reserve(300), Decimal(0)).unwrap();
    assert_eq!(back.amount(), Decimal(0));
    assert_eq!(bought.amount(), units(300));

    let (paid, unsold) = amm.sell(bought, Decimal(0)).unwrap();
    assert_eq!(paid.amount(), units(300));
    assert_eq!(unsold.amount(), Decimal(0));
}

#[test]
fn lib_test_3_quotes() {
    let curve = Curve::Basic(BasicBondingCurve::new());
    let (amm, _) = BondingAMM::new_with_curve(reserve(60000), CONTINUOUS, curve).unwrap();
    assert_eq!(amm.get_buy_quote_amount(units(300)), Ok(units(300)));
    assert_eq!(amm.get_sell_quote_amount(units(300)), Ok(units(300)));
    let proof = amm.get_sell_quote(units(300)).unwrap();
    assert_eq!(proof.amount, units(300));
    assert_eq!(proof.resource, RESERVE);
    // a quote takes nothing out of the reserve
    assert_eq!(amm.reserve, units(60000));
}

#[test]
fn amm_hands_back_what_does_not_meet_the_minimum() {
    let (mut amm, _) = BondingAMM::new_default(reserve(60000), CONTINUOUS).unwrap();
    let (bought, back) = amm.buy(reserve(300), units(300)).unwrap();
    assert_eq!(bought.amount(), Decimal(0));
    assert_eq!(back.amount(), units(300));
    assert_eq!(amm.reserve, units(60000));
    let empty = Bucket::new(RESERVE, Decimal(0)).unwrap();
    let (bought, back) = amm.buy(empty, Decimal(0)).unwrap();
    assert_eq!((bought.amount(), back.amount()), (Decimal(0), Decimal(0)));
}

#[test]
fn amm_refuses_bad_requests() {
    assert_eq!(BondingAMM::new_default(reserve(0), CONTINUOUS).err(), Some(BondingError::EmptyReserve));
    let (mut amm, _) = BondingAMM::new_default(reserve(60000), CONTINUOUS).unwrap();
    let other = Bucket::new(ResourceAddress(9), units(1)).unwrap();
    assert_eq!(amm.buy(other, Decimal(0)), Err(BondingError::ResourceMismatch));
    assert_eq!(amm.buy(reserve(1), Decimal(-1)), Err(BondingError::NegativeAmount));
    let too_many = Bucket::new(CONTINUOUS, units(400000)).unwrap();
    assert!(amm.sell(too_many, Decimal(0)).is_err());
}

#[test]
fn ratio_curve_prices() {
    assert_eq!(RatioBondingCurve::new(1, 0, 384), Err(BondingError::ZeroDenominator));
    let flat = RatioBondingCurve::new(0, 7, 384).unwrap();
    assert_eq!(flat.reserve_ratio_d, 1);
    let curve = RatioBondingCurve::new(1, 5, 384).unwrap();
    assert_eq!(curve.get_initial_supply(units(60000)), Ok(units(300000)));
    assert_eq!(curve.get_mint_amount(units(300), units(60000), units(300000)), Ok(Decimal(299401793723844635041)));
    assert_eq!(curve.get_return_amount(units(1), units(0), units(0)), Err(BondingError::Undefined));
    assert_eq!(curve.get_mint_amount(units(-1), units(1), units(1)), Err(BondingError::NegativeAmount));
    assert_eq!(curve.get_price(units(60000), units(0)), Err(BondingError::Undefined));
    let basic = BasicBondingCurve::new();
    assert_eq!(basic.get_price(units(5), units(7)), units(1));
    assert_eq!(basic.get_sale_quote(units(3), units(5), units(7)), units(3));
    assert_eq!(basic.get_buy_quote(units(4), units(5), units(7)), units(4));
}
