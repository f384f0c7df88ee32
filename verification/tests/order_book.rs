use defi::decimal::Decimal;
use defi::orderbook::{is_almost_zero, OrderError};
use defi::resource::{Bucket, ResourceAddress, ResourceType};
use defi::trading_pair::TradingPair;

const ONE: i128 = 1_000_000_000_000_000_000;
const BASE: ResourceAddress = ResourceAddress(1);
const QUOTE: ResourceAddress = ResourceAddress(2);

fn units(whole: i128) -> Decimal {
    Decimal(whole * ONE)
}

/// A trader's holdings of the two resources of the pair.
#[derive(Clone, Copy, Debug)]
struct Account {
    base: Decimal,
    quote: Decimal,
}

impl Account {
    fn new() -> Account {
        Account { base: units(1_000_000), quote: units(1_000_000) }
    }

    fn withdraw(&mut self, resource: ResourceAddress, amount: Decimal) -> Bucket {
        if resource == BASE {
            self.base = Decimal(self.base.0 - amount.0);
        } else {
            self.quote = Decimal(self.quote.0 - amount.0);
        }
        Bucket::new(resource, amount).unwrap()
    }

    fn deposit(&mut self, b: Bucket) {
        if b.resource_address() == BASE {
            self.base = Decimal(self.base.0 + b.amount().0);
        } else {
            self.quote = Decimal(self.quote.0 + b.amount().0);
        }
    }
}

fn fungible() -> ResourceType {
    ResourceType::Fungible { divisibility: 18 }
}

fn pair() -> TradingPair {
    TradingPair::instantiate(BASE, fungible(), QUOTE, fungible()).unwrap()
}

fn limit(p: &mut TradingPair, who: &mut Account, resource: ResourceAddress, amount: Decimal, price: Decimal, key: u64) -> u64 {
    let funds = who.withdraw(resource, amount);
    let order = p.new_limit_order(funds, price, key).unwrap();
    order.order_key
}

fn market(p: &mut TradingPair, who: &mut Account, resource: ResourceAddress, amount: Decimal) {
    let funds = who.withdraw(resource, amount);
    let (rest, received) = p.new_market_order(funds).unwrap();
    who.deposit(rest);
    if let Some(r) = received {
        who.deposit(r);
    }
}

fn close(p: &mut TradingPair, who: &mut Account, key: u64) {
    let (refund, traded) = p.close_limit_order(key).unwrap();
    who.deposit(refund);
    who.deposit(traded);
}

fn dec(s: &str) -> Decimal {
    let (w, f) = match s.find('.') {
        Some(i) => (&s[..i], &s[i + 1..]),
        None => (s, ""),
    };
    let mut frac = String::from(f);
    while frac.len() < 18 {
        frac.push('0');
    }
    Decimal(w.parse::<i128>().unwrap() * ONE + frac.parse::<i128>().unwrap())
}

#[test]
fn test_ask_order_exact_fill() {
    let mut p = pair();
    let mut maker = Account::new();
    let mut taker = Account::new();
    let key = limit(&mut p, &mut maker, BASE, units(100_000), units(10), 1);
    assert_eq!(maker.base, units(900_000));
    market(&mut p, &mut taker, QUOTE, units(1_000_000));
    assert_eq!(taker.base, units(1_100_000));
    assert_eq!(taker.quote, units(0));
    close(&mut p, &mut maker, key);
    assert_eq!(maker.base, units(900_000));
    assert_eq!(maker.quote, units(2_000_000));
}

#[test]
fn test_bid_order_exact_fill() {
    let mut p = pair();
    let mut maker = Account::new();
    let mut taker = Account::new();
    let key = limit(&mut p, &mut maker, QUOTE, units(1_000_000), units(10), 1);
    assert_eq!(maker.quote, units(0));
    market(&mut p, &mut taker, BASE, units(100_000));
    assert_eq!(taker.base, units(900_000));
    assert_eq!(taker.quote, units(2_000_000));
    close(&mut p, &mut maker, key);
    assert_eq!(maker.base, units(1_100_000));
    assert_eq!(maker.quote, units(0));
}

#[test]
fn test_ask_order_partial_fill() {
    let mut p = pair();
    let mut maker = Account::new();
    let mut taker = Account::new();
    let order1 = limit(&mut p, &mut maker, BASE, units(50_000), units(10), 1);
    assert_eq!(maker.base, units(950_000));
    let order2 = limit(&mut p, &mut maker, BASE, units(50_000), units(5), 2);
    assert_eq!(maker.base, units(900_000));
    market(&mut p, &mut taker, QUOTE, units(700_000));
    assert_eq!(taker.base, units(1_095_000));
    assert_eq!(taker.quote, units(300_000));
    close(&mut p, &mut maker, order1);
    assert_eq!(maker.base, units(905_000));
    assert_eq!(maker.quote, units(1_450_000));
    close(&mut p, &mut maker, order2);
    assert_eq!(maker.base, units(905_000));
    assert_eq!(maker.quote, units(1_700_000));
}

#[test]
fn test_bid_order_partial_fill() {
    let mut p = pair();
    let mut maker = Account::new();
    let mut taker = Account::new();
    let order1 = limit(&mut p, &mut maker, QUOTE, units(500_000), units(5), 1);
    assert_eq!(maker.quote, units(500_000));
    let order2 = limit(&mut p, &mut maker, QUOTE, units(500_000), units(10), 2);
    assert_eq!(maker.quote, units(0));
    market(&mut p, &mut taker, BASE, units(70_000));
    assert_eq!(taker.base, units(930_000));
    assert_eq!(taker.quote, units(1_600_000));
    close(&mut p, &mut maker, order1);
    assert_eq!(maker.base, units(1_020_000));
    assert_eq!(maker.quote, units(400_000));
    close(&mut p, &mut maker, order2);
    assert_eq!(maker.base, units(1_070_000));
    assert_eq!(maker.quote, units(400_000));
}

#[test]
fn test_ask_order_fractional_numbers() {
    let mut p = pair();
    let mut maker = Account::new();
    let mut taker = Account::new();
    let third = units(1).checked_div(units(3)).unwrap();
    let order1 = limit(&mut p, &mut maker, BASE, units(10), third, 1);
    assert_eq!(maker.base, units(999_990));
    let order2 = limit(&mut p, &mut maker, BASE, units(10), third, 2);
    assert_eq!(maker.base, units(999_980));
    let order3 = limit(&mut p, &mut maker, BASE, units(10), third, 3);
    assert_eq!(maker.base, units(999_970));
    market(&mut p, &mut taker, QUOTE, units(6));
    assert_eq!(taker.base, dec("1000018.000000000000000018"));
    assert_eq!(taker.quote, dec("999994.000000000000000001"));
    close(&mut p, &mut maker, order1);
    assert_eq!(maker.base, units(999_970));
    assert_eq!(maker.quote, dec("1000003.33333333333333333"));
    close(&mut p, &mut maker, order2);
    assert_eq!(maker.base, dec("999971.999999999999999982"));
    assert_eq!(maker.quote, dec("1000005.999999999999999999"));
    close(&mut p, &mut maker, order3);
    assert_eq!(maker.base, dec("999981.999999999999999982"));
    assert_eq!(maker.quote, dec("1000005.999999999999999999"));
}

#[test]
fn test_bid_order_fractional_numbers() {
    let mut p = pair();
    let mut maker = Account::new();
    let mut taker = Account::new();
    let price = units(1).checked_div(units(30_000)).unwrap();
    let order1 = limit(&mut p, &mut maker, QUOTE, units(10), price, 1);
    assert_eq!(maker.quote, units(999_990));
    let order2 = limit(&mut p, &mut maker, QUOTE, units(10), price, 2);
    assert_eq!(maker.quote, units(999_980));
    let order3 = limit(&mut p, &mut maker, QUOTE, units(10), price, 3);
    assert_eq!(maker.quote, units(999_970));
    market(&mut p, &mut taker, BASE, units(600_000));
    assert_eq!(taker.base, dec("400000.000000000000000001"));
    assert_eq!(taker.quote, dec("1000019.9999999999998"));
    close(&mut p, &mut maker, order1);
    assert_eq!(maker.base, dec("1300000.000000003"));
    assert_eq!(maker.quote, units(999_970));
    close(&mut p, &mut maker, order2);
    assert_eq!(maker.base, dec("1599999.999999999999999999"));
    assert_eq!(maker.quote, dec("999970.0000000000002"));
    close(&mut p, &mut maker, order3);
    assert_eq!(maker.base, dec("1599999.999999999999999999"));
    assert_eq!(maker.quote, dec("999980.0000000000002"));
}

#[test]
fn test_is_almost_zero() {
    let cases = [
        (dec("0.001"), Decimal(999), Decimal(1000)),
        (dec("0.1"), Decimal(9), Decimal(10)),
        (dec("1"), Decimal(0), Decimal(1)),
        (dec("10"), Decimal(9), Decimal(10)),
        (dec("1000"), Decimal(999), Decimal(1000)),
    ];
    for (price, almost_zero, not_almost_zero) in cases {
        assert!(is_almost_zero(almost_zero, price));
        assert!(!is_almost_zero(not_almost_zero, price));
    }
}

#[test]
fn limit_order_refuses_non_positive_price_and_quantity() {
    let mut p = pair();
    let b = Bucket::new(BASE, units(1)).unwrap();
    assert_eq!(p.new_limit_order(b, Decimal(0), 1), Err(OrderError::NonPositivePrice));
    assert_eq!(p.new_limit_order(b, Decimal(-5), 1), Err(OrderError::NonPositivePrice));
    let empty = Bucket::new(BASE, Decimal(0)).unwrap();
    assert_eq!(p.new_limit_order(empty, units(1), 1), Err(OrderError::NonPositiveQuantity));
}

#[test]
fn limit_order_refuses_crossing_and_foreign_resource() {
    let mut p = pair();
    let ask = Bucket::new(BASE, units(1)).unwrap();
    assert!(p.new_limit_order(ask, units(10), 1).is_ok());
    let bid = Bucket::new(QUOTE, units(10)).unwrap();
    assert_eq!(p.new_limit_order(bid, units(10), 2), Err(OrderError::WouldBeMarketOrder));
    assert!(p.new_limit_order(bid, units(9), 2).is_ok());
    let other = Bucket::new(ResourceAddress(7), units(1)).unwrap();
    assert_eq!(p.new_limit_order(other, units(9), 3), Err(OrderError::InvalidResource));
    let again = Bucket::new(BASE, units(1)).unwrap();
    assert_eq!(p.new_limit_order(again, units(11), 1), Err(OrderError::DuplicateOrderKey));
}

#[test]
fn close_unknown_order_fails() {
    let mut p = pair();
    assert_eq!(p.close_limit_order(42), Err(OrderError::UnknownOrder));
}

#[test]
fn close_unfilled_order_refunds_everything() {
    let mut p = pair();
    let ask = Bucket::new(BASE, units(5)).unwrap();
    p.new_limit_order(ask, units(2), 1).unwrap();
    let (refund, traded) = p.close_limit_order(1).unwrap();
    assert_eq!(refund.resource_address(), BASE);
    assert_eq!(refund.amount(), units(5));
    assert_eq!(traded.resource_address(), QUOTE);
    assert_eq!(traded.amount(), units(0));
    assert_eq!(p.close_limit_order(1), Err(OrderError::UnknownOrder));
}

#[test]
fn market_order_without_liquidity_leaves_pair_unchanged() {
    let mut p = pair();
    let funds = Bucket::new(QUOTE, units(5)).unwrap();
    assert_eq!(p.new_market_order(funds), Err(OrderError::InsufficientLiquidity));
    // a partial fill followed by a shortage is rolled back as a whole
    let ask = Bucket::new(BASE, units(1)).unwrap();
    p.new_limit_order(ask, units(2), 1).unwrap();
    let funds = Bucket::new(QUOTE, units(10)).unwrap();
    assert_eq!(p.new_market_order(funds), Err(OrderError::InsufficientLiquidity));
    let (refund, traded) = p.close_limit_order(1).unwrap();
    assert_eq!(refund.amount(), units(1));
    assert_eq!(traded.amount(), units(0));
}

#[test]
fn dust_market_order_does_nothing() {
    let mut p = pair();
    let funds = Bucket::new(QUOTE, Decimal(ONE - 1)).unwrap();
    let (rest, received) = p.new_market_order(funds).unwrap();
    assert_eq!(rest.amount(), Decimal(ONE - 1));
    assert!(received.is_none());
}

#[test]
fn pair_refuses_non_fungible_resources() {
    assert!(TradingPair::instantiate(BASE, ResourceType::NonFungible, QUOTE, fungible()).is_err());
    assert_eq!(
        TradingPair::instantiate(BASE, fungible(), QUOTE, ResourceType::NonFungible).err(),
        Some(OrderError::NonFungibleResource)
    );
}
