use defi::candy::{CandyDex, CandyError};
use defi::decimal::Decimal;
use defi::resource::{Bucket, Proof, ResourceAddress};

const ONE: i128 = 1_000_000_000_000_000_000;
const XRD: u64 = 100;
const GUM: u64 = 10;
const COLA: u64 = 20;

fn units(n: i128) -> Decimal {
    Decimal(n * ONE)
}

fn bucket(a: u64, n: i128) -> Bucket {
    Bucket::new(ResourceAddress(a), units(n)).unwrap()
}

/// A fee-free exchange with 1000 gums at 2 XRD and 500 colas at 4 XRD.
fn stocked() -> CandyDex {
    let (mut dex, owner) = CandyDex::new(units(0), ResourceAddress(1), ResourceAddress(2), ResourceAddress(XRD));
    assert_eq!(owner.amount(), units(1));
    let (meta, badge) = dex
        .stock_candy(bucket(GUM, 1000), units(2), String::from("Gum"), String::from("GUM"), ResourceAddress(11), ResourceAddress(12))
        .unwrap();
    assert_eq!((meta.resource_address(), meta.amount()), (ResourceAddress(11), units(1000)));
    assert_eq!((badge.resource_address(), badge.amount()), (ResourceAddress(12), units(1)));
    dex.stock_candy(bucket(COLA, 500), units(4), String::from("Cola"), String::from("COL"), ResourceAddress(21), ResourceAddress(22))
        .unwrap();
    dex
}

#[test]
fn candies_are_listed_with_their_prices() {
    let dex = stocked();
    assert_eq!(dex.get_price(ResourceAddress(GUM)), Ok(Some((String::from("Gum"), String::from("GUM"), units(2)))));
    assert_eq!(dex.get_price(ResourceAddress(7)), Ok(None));
    assert_eq!(dex.get_price(ResourceAddress(XRD)), Err(CandyError::XrdNotCandy));
    assert_eq!(dex.get_reserve(ResourceAddress(COLA)), Ok(units(500)));
    assert_eq!(dex.get_reserve(ResourceAddress(7)), Err(CandyError::UnknownCandy));
    let menu = dex.menu();
    assert_eq!(menu.len(), 2);
    assert_eq!(menu[1], (ResourceAddress(COLA), String::from("Cola"), String::from("COL"), units(4)));
}

#[test]
fn stocking_checks_the_candy() {
    let mut dex = stocked();
    let s = || String::from("x");
    assert_eq!(
        dex.stock_candy(bucket(XRD, 1), units(1), s(), s(), ResourceAddress(31), ResourceAddress(32)).err(),
        Some(CandyError::XrdNotCandy)
    );
    assert_eq!(
        dex.stock_candy(bucket(30, 1), units(0), s(), s(), ResourceAddress(31), ResourceAddress(32)).err(),
        Some(CandyError::NonPositivePrice)
    );
    assert_eq!(
        dex.stock_candy(bucket(GUM, 1), units(1), s(), s(), ResourceAddress(31), ResourceAddress(32)).err(),
        Some(CandyError::CandyExists)
    );
    assert_eq!(dex.restock_candy(bucket(30, 1), ResourceAddress(32)).err(), Some(CandyError::UnknownCandy));
    let (meta, badge) = dex.restock_candy(bucket(GUM, 100), ResourceAddress(13)).unwrap();
    assert_eq!((meta.resource_address(), meta.amount()), (ResourceAddress(11), units(100)));
    assert_eq!(badge.resource_address(), ResourceAddress(13));
    assert_eq!(dex.get_reserve(ResourceAddress(GUM)), Ok(units(1100)));
}

#[test]
fn xrd_buys_candies_at_a_rising_price() {
    let mut dex = stocked();
    // 100 XRD is worth 50 gums; the price rises to 2000 / 950
    let gums = dex.buy_candy_sell_exact_xrd(units(0), ResourceAddress(GUM), bucket(XRD, 100)).unwrap();
    assert_eq!(gums.amount(), Decimal(47_500_000_000_000_000_002));
    assert_eq!(dex.get_price(ResourceAddress(GUM)).unwrap().unwrap().2, Decimal(2_105_263_157_894_736_842));
    assert_eq!(dex.get_reserve(ResourceAddress(GUM)), Ok(Decimal(952_499_999_999_999_999_998)));
    assert_eq!(
        dex.buy_candy_sell_exact_xrd(units(100), ResourceAddress(GUM), bucket(XRD, 1)).err(),
        Some(CandyError::MinNotMet)
    );
    assert_eq!(
        dex.buy_candy_sell_exact_xrd(units(0), ResourceAddress(GUM), bucket(7, 1)).err(),
        Some(CandyError::WrongResource)
    );

    // selling 10 gums back: the price falls along the reserve
    let xrd = dex.buy_xrd_sell_exact_candy(units(0), bucket(GUM, 10)).unwrap();
    assert_eq!(xrd.amount(), Decimal(20_833_902_939_166_097_047));
    assert_eq!(dex.get_price(ResourceAddress(GUM)).unwrap().unwrap().2, Decimal(2_083_390_293_916_609_705));
    // more XRD than the exchange holds cannot be bought
    assert_eq!(dex.buy_xrd_sell_exact_candy(units(0), bucket(GUM, 1000)).err(), Some(CandyError::NotEnoughXrd));
}

#[test]
fn candies_swap_for_candies() {
    let mut dex = stocked();
    // 50 colas are worth 100 gums at the gum price after they leave
    let gums = dex.buy_candy_sell_exact_candy(units(0), ResourceAddress(GUM), bucket(COLA, 50)).unwrap();
    assert_eq!(gums.amount(), Decimal(90_909_090_909_090_909_050));
    assert_eq!(dex.get_reserve(ResourceAddress(COLA)), Ok(units(550)));
    assert_eq!(
        dex.buy_candy_sell_exact_candy(units(0), ResourceAddress(COLA), bucket(COLA, 1)).err(),
        Some(CandyError::SameCandy)
    );
    assert_eq!(
        dex.buy_exact_candy_sell_candy(units(1), ResourceAddress(GUM), bucket(GUM, 1)).err(),
        Some(CandyError::SameCandy)
    );
    // the quote matches the trade
    let quote = dex.get_candy_sell_amount_becsc(units(10), ResourceAddress(GUM), ResourceAddress(COLA)).unwrap();
    let (rest, bought) = dex.buy_exact_candy_sell_candy(units(10), ResourceAddress(GUM), bucket(COLA, 100)).unwrap();
    assert_eq!(bought.amount(), units(10));
    assert_eq!(rest.amount(), Decimal(units(100).0 - quote.0));
}

#[test]
fn providers_withdraw_with_their_badge() {
    let mut dex = stocked();
    assert_eq!(dex.stock_position(Proof { resource: ResourceAddress(12), amount: units(1) }), Ok(units(1000)));
    let meta = Bucket::new(ResourceAddress(11), units(400)).unwrap();
    let badge = Bucket::new(ResourceAddress(12), units(1)).unwrap();
    let (gums, xrd, badge_back) = dex.unstock_candy(ResourceAddress(GUM), meta, badge).unwrap();
    assert_eq!((gums.resource_address(), gums.amount()), (ResourceAddress(GUM), units(400)));
    assert_eq!(xrd.amount(), units(0));
    assert_eq!(badge_back, badge);
    assert_eq!(dex.stock_position(Proof { resource: ResourceAddress(12), amount: units(1) }), Ok(units(600)));
    let wrong_meta = Bucket::new(ResourceAddress(21), units(1)).unwrap();
    assert_eq!(dex.unstock_candy(ResourceAddress(GUM), wrong_meta, badge).err(), Some(CandyError::MetaMismatch));
    // more than the reserve holds is made up in XRD, which the exchange lacks
    let too_many = Bucket::new(ResourceAddress(11), units(601)).unwrap();
    assert_eq!(dex.unstock_candy(ResourceAddress(GUM), too_many, badge).err(), Some(CandyError::NotEnoughXrd));
    let rest = Bucket::new(ResourceAddress(11), units(600)).unwrap();
    let (gums, _, used) = dex.unstock_candy(ResourceAddress(GUM), rest, badge).unwrap();
    assert_eq!(gums.amount(), units(600));
    // a badge that stands for nothing more is burned
    assert_eq!((used.resource_address(), used.amount()), (ResourceAddress(XRD), units(0)));
    assert_eq!(dex.stock_position(Proof { resource: ResourceAddress(12), amount: units(1) }), Err(CandyError::NoBadge));
}

#[test]
fn protocol_fee_is_set_and_claimed() {
    let (mut dex, _) = CandyDex::new(units(1), ResourceAddress(1), ResourceAddress(2), ResourceAddress(XRD));
    dex.stock_candy(bucket(GUM, 1000), units(2), String::from("Gum"), String::from("GUM"), ResourceAddress(11), ResourceAddress(12))
        .unwrap();
    let owner = Proof { resource: ResourceAddress(1), amount: units(1) };
    assert_eq!(dex.set_fee(Proof { resource: ResourceAddress(2), amount: units(1) }, units(1)), Err(CandyError::Unauthorized));
    assert_eq!(dex.set_fee(owner, units(2)), Err(CandyError::FeeOutOfRange));
    dex.set_fee(owner, units(1)).unwrap();
    dex.buy_candy_sell_exact_xrd(units(0), ResourceAddress(GUM), bucket(XRD, 100)).unwrap();
    let out = dex.buy_xrd_sell_exact_candy(units(0), bucket(GUM, 10)).unwrap();
    // one percent of the XRD bought stays as the protocol's fee
    assert_eq!(dex.claim_xrd_fee(Proof { resource: ResourceAddress(2), amount: units(1) }).err(), Some(CandyError::Unauthorized));
    let claimed = dex.claim_xrd_fee(owner).unwrap();
    assert_eq!(claimed.amount().0, (out.amount().0 + claimed.amount().0) / 100);
    assert_eq!(dex.claim_xrd_fee(owner).unwrap().amount(), units(0));
}

#[test]
fn flash_swaps_are_settled_at_the_quoted_prices() {
    let mut dex = stocked();
    // borrow 10 gums and owe them back in gums
    let (lent, terms) = dex.flashswap(units(10), ResourceAddress(GUM), ResourceAddress(GUM)).unwrap();
    assert_eq!((lent.resource_address(), lent.amount()), (ResourceAddress(GUM), units(10)));
    assert_eq!((terms.price_in, terms.price_out), (units(1), units(1)));
    assert_eq!(dex.get_reserve(ResourceAddress(GUM)), Ok(units(990)));
    // repaying in another token than agreed is refused
    assert_eq!(dex.flashswap_repay(bucket(COLA, 10), terms).err(), Some(CandyError::WrongResource));
    let back = dex.flashswap_repay(bucket(GUM, 12), terms).unwrap();
    assert_eq!((back.resource_address(), back.amount()), (ResourceAddress(GUM), units(2)));
    assert_eq!(dex.get_reserve(ResourceAddress(GUM)), Ok(units(1000)));
}
