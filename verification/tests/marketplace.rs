use defi::decimal::Decimal;
use defi::market::{Order, OrderTicket, TokenRef};
use defi::marketplace::{Market, MarketError};
use defi::resource::{Bucket, NonFungible, ResourceAddress};

const ONE: i128 = 1_000_000_000_000_000_000;
const XRD: u64 = 100;
const GUM: u64 = 1;
const TICKETS: u64 = 200;

fn units(n: i128) -> Decimal {
    Decimal(n * ONE)
}

fn bucket(a: u64, n: i128) -> Bucket {
    Bucket::new(ResourceAddress(a), units(n)).unwrap()
}

fn token(a: u64, symbol: &str) -> TokenRef {
    TokenRef { address: ResourceAddress(a), symbol: String::from(symbol) }
}

fn market() -> Market {
    Market::open(token(XRD, "XRD"), ResourceAddress(TICKETS))
}

fn amounts(o: &Order) -> (Decimal, Decimal) {
    (o.purse.amount(), o.payment.amount())
}

#[test]
fn market_opens_empty() {
    let m = market();
    assert_eq!(m.base_currency(), "XRD");
    assert_eq!(m.ticket_nft_address(), ResourceAddress(TICKETS));
    assert!(m.orders().is_empty());
    assert!(m.market_prices().assets().is_empty());
}

#[test]
fn sell_order_rests_until_a_buyer_comes() {
    let mut m = market();
    let (nft, data) = m.limit_sell(bucket(GUM, 10), token(GUM, "GUM"), units(2)).unwrap();
    assert_eq!(nft, NonFungible { resource: ResourceAddress(TICKETS), id: 1 });
    assert_eq!(data.order_number, 1);
    assert_eq!(data.order_token_address, ResourceAddress(GUM));
    assert_eq!(data.order_currency, "XRD");
    assert_eq!(m.orders().len(), 1);
    assert_eq!(amounts(&m.orders()[0]), (units(10), units(0)));
    assert_eq!(m.market_prices().get(String::from("GUM")), None);

    // the buyer pays 30 at most 3 apiece: all 10 tokens change hands at the
    // seller's price of 2, and 10 of the payment is left
    let (nft2, _) = m.limit_buy(token(GUM, "GUM"), units(3), bucket(XRD, 30)).unwrap();
    assert_eq!(nft2.id, 2);
    assert_eq!(m.orders().len(), 2);
    assert_eq!(amounts(&m.orders()[0]), (units(0), units(20)));
    assert_eq!(amounts(&m.orders()[1]), (units(10), units(10)));
    assert!(m.orders()[0].is_filled());
    assert_eq!(m.market_prices().get(String::from("GUM")), Some(units(2)));
}

#[test]
fn partial_fill_spends_all_of_the_payment() {
    let mut m = market();
    m.limit_sell(bucket(GUM, 10), token(GUM, "GUM"), units(2)).unwrap();
    m.limit_buy(token(GUM, "GUM"), units(2), bucket(XRD, 6)).unwrap();
    assert_eq!(amounts(&m.orders()[0]), (units(7), units(6)));
    assert_eq!(amounts(&m.orders()[1]), (units(3), units(0)));
    assert!(m.orders()[1].is_filled());
}

#[test]
fn sellers_are_visited_cheapest_first() {
    let mut m = market();
    m.limit_sell(bucket(GUM, 5), token(GUM, "GUM"), units(4)).unwrap();
    m.limit_sell(bucket(GUM, 5), token(GUM, "GUM"), units(1)).unwrap();
    m.limit_sell(bucket(GUM, 5), token(GUM, "GUM"), units(1)).unwrap();
    // 7 of currency at market price: 5 tokens from order 2 for 5, then 2
    // tokens from order 3 for 2; order 1 is not reached
    m.market_buy(token(GUM, "GUM"), bucket(XRD, 7)).unwrap();
    assert_eq!(amounts(&m.orders()[0]), (units(5), units(0)));
    assert_eq!(amounts(&m.orders()[1]), (units(0), units(5)));
    assert_eq!(amounts(&m.orders()[2]), (units(3), units(2)));
    assert_eq!(amounts(&m.orders()[3]), (units(7), units(0)));
    assert_eq!(m.market_prices().get(String::from("GUM")), Some(units(1)));
}

#[test]
fn buyers_are_visited_dearest_first() {
    let mut m = market();
    m.limit_buy(token(GUM, "GUM"), units(1), bucket(XRD, 10)).unwrap();
    m.limit_buy(token(GUM, "GUM"), units(2), bucket(XRD, 10)).unwrap();
    m.market_sell(bucket(GUM, 3), token(GUM, "GUM")).unwrap();
    assert_eq!(amounts(&m.orders()[0]), (units(0), units(10)));
    assert_eq!(amounts(&m.orders()[1]), (units(3), units(4)));
    assert_eq!(amounts(&m.orders()[2]), (units(0), units(6)));
    assert_eq!(m.market_prices().get(String::from("GUM")), Some(units(2)));
}

#[test]
fn a_sell_order_skips_buyers_that_bid_less() {
    let mut m = market();
    m.limit_buy(token(GUM, "GUM"), units(1), bucket(XRD, 10)).unwrap();
    m.limit_sell(bucket(GUM, 3), token(GUM, "GUM"), units(2)).unwrap();
    assert_eq!(amounts(&m.orders()[0]), (units(0), units(10)));
    assert_eq!(amounts(&m.orders()[1]), (units(3), units(0)));
    assert_eq!(m.market_prices().get(String::from("GUM")), None);
}

#[test]
fn a_buy_order_takes_a_seller_of_any_price() {
    // a new buy order is matched with every seller of its token that still
    // has tokens, whatever it asks
    let mut m = market();
    m.limit_sell(bucket(GUM, 2), token(GUM, "GUM"), units(5)).unwrap();
    m.limit_buy(token(GUM, "GUM"), units(1), bucket(XRD, 10)).unwrap();
    assert_eq!(amounts(&m.orders()[0]), (units(0), units(10)));
    assert_eq!(amounts(&m.orders()[1]), (units(2), units(0)));
}

#[test]
fn other_tokens_do_not_match() {
    let mut m = market();
    m.limit_sell(bucket(GUM, 2), token(GUM, "GUM"), units(1)).unwrap();
    m.limit_buy(token(7, "CDY"), units(1), bucket(XRD, 10)).unwrap();
    assert_eq!(amounts(&m.orders()[0]), (units(2), units(0)));
    assert_eq!(amounts(&m.orders()[1]), (units(0), units(10)));
}

#[test]
fn buy_orders_pay_in_the_market_currency() {
    let mut m = market();
    assert_eq!(m.limit_buy(token(GUM, "GUM"), units(1), bucket(5, 10)).err(), Some(MarketError::WrongCurrency));
    assert_eq!(m.market_buy(token(GUM, "GUM"), bucket(5, 10)).err(), Some(MarketError::WrongCurrency));
    assert!(m.orders().is_empty());
}

#[test]
fn an_overflowing_fill_is_refused_and_changes_nothing() {
    let mut m = market();
    let huge = Bucket::new(ResourceAddress(GUM), Decimal(i128::MAX)).unwrap();
    m.limit_sell(huge, token(GUM, "GUM"), units(2)).unwrap();
    assert_eq!(
        m.limit_buy(token(GUM, "GUM"), units(2), bucket(XRD, 10)).err(),
        Some(MarketError::FillFailed)
    );
    assert_eq!(m.orders().len(), 1);
    // the refused order did not use up a number
    let (nft, _) = m.limit_sell(bucket(GUM, 1), token(GUM, "GUM"), units(3)).unwrap();
    assert_eq!(nft.id, 2);
}

#[test]
fn withdrawing_gives_back_what_the_order_holds() {
    let mut m = market();
    let (nft, data) = m.limit_sell(bucket(GUM, 10), token(GUM, "GUM"), units(2)).unwrap();
    let (buy_nft, buy_data) = m.limit_buy(token(GUM, "GUM"), units(2), bucket(XRD, 6)).unwrap();
    let (tokens, payment, ticket) = m.withdraw_order(nft, data).unwrap();
    assert_eq!((tokens.resource_address(), tokens.amount()), (ResourceAddress(GUM), units(7)));
    assert_eq!((payment.resource_address(), payment.amount()), (ResourceAddress(XRD), units(6)));
    assert_eq!(ticket, None);
    assert_eq!(m.orders().len(), 1);
    let (tokens, payment, _) = m.withdraw_order(buy_nft, buy_data).unwrap();
    assert_eq!((tokens.amount(), payment.amount()), (units(3), units(0)));
    assert!(m.orders().is_empty());
}

#[test]
fn withdrawing_an_unknown_order_returns_the_ticket() {
    let mut m = market();
    let nft = NonFungible { resource: ResourceAddress(TICKETS), id: 9 };
    let data = OrderTicket { order_number: 9, order_token_address: ResourceAddress(GUM), order_currency: String::from("XRD") };
    let (tokens, payment, ticket) = m.withdraw_order(nft, data).unwrap();
    assert_eq!((tokens.resource_address(), tokens.amount()), (ResourceAddress(GUM), units(0)));
    assert_eq!((payment.resource_address(), payment.amount()), (ResourceAddress(XRD), units(0)));
    assert_eq!(ticket, Some(nft));
}

#[test]
fn only_a_market_ticket_withdraws_an_order() {
    let mut m = market();
    let (_, data) = m.limit_sell(bucket(GUM, 1), token(GUM, "GUM"), units(2)).unwrap();
    let forged = NonFungible { resource: ResourceAddress(3), id: 1 };
    assert_eq!(m.withdraw_order(forged, data).err(), Some(MarketError::NotATicket));
    assert_eq!(m.orders().len(), 1);
}
