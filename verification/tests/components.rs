use defi::awesome::{AwesomeDex, AwesomeError};
use defi::decimal::Decimal;
use defi::estate::{
    assert_land_proof, assert_landandbuilding_proof, get_real_estate_data, Building, BuildingProof, EstateError, Land,
    LandProof, RealEstateData, RealEstateProof,
};
use defi::gumball::{GumballError, GumballMachine};
use defi::labels::{address_pair_symbol, MetaToken, TokenInfo};
use defi::market::{MarketPrices, Order, TokenRef};
use defi::pool::{OneResourcePoolExtended, PoolError};
use defi::resource::{Bucket, ComponentAddress, NonFungible, PackageAddress, Proof, ResourceAddress};
use defi::trustmore::{BadgeIds, Contract, ContractError, ContractResources, Mediator, MediatorError};

const ONE: i128 = 1_000_000_000_000_000_000;

fn units(n: i128) -> Decimal {
    Decimal(n * ONE)
}

fn bucket(a: u64, n: i128) -> Bucket {
    Bucket::new(ResourceAddress(a), units(n)).unwrap()
}

fn new_pool() -> OneResourcePoolExtended {
    OneResourcePoolExtended::instantiate(
        ResourceAddress(1),
        ResourceAddress(70),
        ResourceAddress(71),
        ComponentAddress(72),
        ResourceAddress(2),
        ResourceAddress(73),
    )
}

fn pool_admin() -> Proof {
    Proof { resource: ResourceAddress(70), amount: units(1) }
}

#[test]
fn pool_contribute_and_redeem() {
    let mut p = new_pool();
    let units1 = p.contribute(bucket(1, 100)).unwrap();
    // an empty pool mints one unit per token
    assert_eq!(units1.amount(), units(100));
    assert_eq!(units1.resource_address(), ResourceAddress(2));
    assert_eq!(p.get_pooled_amount(), (units(100), units(0)));
    assert_eq!(p.add_external_liquidity(Proof { resource: ResourceAddress(71), amount: units(1) }, units(100)), Err(PoolError::Unauthorized));
    p.add_external_liquidity(pool_admin(), units(100)).unwrap();
    // the pool now counts 200 for 100 units: half a unit per token
    let units2 = p.contribute(bucket(1, 100)).unwrap();
    assert_eq!(units2.amount(), units(50));
    let back = p.redeem(Bucket::new(ResourceAddress(2), units(50)).unwrap()).unwrap();
    assert_eq!(back.amount(), units(100));
    assert_eq!(p.contribute(bucket(3, 1)).err(), Some(PoolError::ResourceMismatch));
    assert_eq!(p.redeem(bucket(1, 1)).err(), Some(PoolError::ResourceMismatch));
}

#[test]
fn pool_flashloan_round_trip() {
    let mut p = new_pool();
    p.contribute(bucket(1, 100)).unwrap();
    assert_eq!(p.take_flashloan(units(101), units(1)).err(), Some(PoolError::NotEnoughLiquidity));
    let (loan, terms) = p.take_flashloan(units(40), units(2)).unwrap();
    assert_eq!(loan.amount(), units(40));
    assert_eq!(terms.amount_due, units(42));
    assert_eq!(p.get_pooled_amount().0, units(60));
    assert_eq!(p.repay_flashloan(bucket(1, 41), terms).err(), Some(PoolError::InsufficientRepayment));
    let change = p.repay_flashloan(bucket(1, 45), terms).unwrap();
    assert_eq!(change.amount(), units(3));
    assert_eq!(p.get_pooled_amount().0, units(102));
}

#[test]
fn pool_withdraw_and_deposit_track_external_liquidity() {
    let mut p = new_pool();
    p.contribute(bucket(1, 100)).unwrap();
    let out = p.withdraw(pool_admin(), units(30), true).unwrap();
    assert_eq!(out.amount(), units(30));
    assert_eq!(p.get_pooled_amount(), (units(70), units(30)));
    p.deposit(pool_admin(), bucket(1, 30), true).unwrap();
    assert_eq!(p.get_pooled_amount(), (units(100), units(0)));
    assert_eq!(p.withdraw(pool_admin(), units(101), false).err(), Some(PoolError::NotEnoughLiquidity));
    p.remove_external_liquidity(pool_admin(), units(5)).unwrap();
    assert_eq!(p.get_pooled_amount().1, units(-5));
    let ratio = p.get_pool_unit_ratio();
    assert!(ratio.is_some());
}

fn contract_resources() -> ContractResources {
    ContractResources {
        admin_badge: ResourceAddress(20),
        mediator_badge: ResourceAddress(21),
        buyer_badge: ResourceAddress(22),
        seller_badge: ResourceAddress(23),
    }
}

#[test]
fn contract_mints_badges_once() {
    Contract::dummy();
    let ids = BadgeIds { seller: 1, buyer: 2, mediator: 3 };
    let (mut c, mediator, seller, buyer) = Contract::new(ComponentAddress(5), contract_resources(), ComponentAddress(6), ids);
    assert_eq!(mediator, NonFungible { resource: ResourceAddress(21), id: 3 });
    assert_eq!(seller, NonFungible { resource: ResourceAddress(23), id: 1 });
    assert_eq!(buyer, NonFungible { resource: ResourceAddress(22), id: 2 });
    assert_eq!(c.mint_and_init(ComponentAddress(6), ids).err(), Some(ContractError::AlreadyInitialized));
    assert!(!c.seller.unwrap().data.validated);
    c.activate_seller_badge(seller).unwrap();
    assert!(c.seller.unwrap().data.validated);
    assert_eq!(c.activate_buyer_badge(seller), Err(ContractError::InvalidProof));
    let wrong_id = NonFungible { resource: ResourceAddress(22), id: 9 };
    assert_eq!(c.activate_buyer_badge(wrong_id), Err(ContractError::UnknownBadge));
    c.activate_buyer_badge(buyer).unwrap();
    assert!(c.buyer.unwrap().data.validated);
}

#[test]
fn mediator_sells_contracts() {
    Mediator::dummy();
    let xrd = ResourceAddress(1);
    let (mut m, admin) = Mediator::instantiate(xrd, ResourceAddress(30), PackageAddress(40), ComponentAddress(50));
    assert_eq!(admin.amount(), units(1));
    // the mediator keeps the second admin badge
    assert_eq!(m.admin_vault, units(1));
    let auth = Proof { resource: ResourceAddress(30), amount: units(1) };
    let stranger = Proof { resource: ResourceAddress(31), amount: units(1) };
    assert_eq!(m.set_component_address(ComponentAddress(51)), Err(MediatorError::AlreadySet));
    let ids = BadgeIds { seller: 1, buyer: 2, mediator: 3 };
    let pay = Bucket::new(xrd, units(10)).unwrap();
    assert_eq!(m.get_new_contract(pay, contract_resources(), ComponentAddress(6), ids).err(), Some(MediatorError::NoInstantiationToken));
    assert_eq!(m.set_contract_package_info(stranger, PackageAddress(40), bucket(60, 1)), Err(MediatorError::Unauthorized));
    m.set_contract_package_info(auth, PackageAddress(40), bucket(60, 1)).unwrap();
    assert_eq!(m.set_contract_package_info(auth, PackageAddress(40), bucket(60, 1)), Err(MediatorError::BadgeAlreadyHeld));
    let little = Bucket::new(xrd, units(9)).unwrap();
    assert_eq!(m.get_new_contract(little, contract_resources(), ComponentAddress(6), ids).err(), Some(MediatorError::InsufficientPayment));
    let (contract, buyer, seller, change) = m.get_new_contract(pay, contract_resources(), ComponentAddress(6), ids).unwrap();
    assert_eq!(contract.calling_component, ComponentAddress(50));
    assert_eq!(buyer.resource, ResourceAddress(22));
    assert_eq!(seller.resource, ResourceAddress(23));
    assert_eq!(change.amount(), Decimal(10_000_000_000_000_000));
    assert_eq!(m.get_new_contract(pay, contract_resources(), ComponentAddress(6), ids).err(), Some(MediatorError::ContractExists));
    assert_eq!(m.withdrawal(stranger).err(), Some(MediatorError::Unauthorized));
    let proceeds = m.withdrawal(auth).unwrap();
    assert_eq!(proceeds.amount(), Decimal(9_990_000_000_000_000_000));
    assert_eq!(m.return_owner_badge(stranger).err(), Some(MediatorError::Unauthorized));
    let badge = m.return_owner_badge(auth).unwrap();
    assert_eq!(badge.amount(), units(1));
}

#[test]
fn gumball_machine_sells_whole_gumballs() {
    let (mut g, admin) = GumballMachine::instantiate_gumball_machine(units(2), ResourceAddress(9), ResourceAddress(1), ResourceAddress(2));
    assert_eq!((admin.resource_address(), admin.amount()), (ResourceAddress(9), units(1)));
    let auth = Proof { resource: ResourceAddress(9), amount: units(1) };
    let stranger = Proof { resource: ResourceAddress(8), amount: units(1) };
    assert_eq!(g.check_gumballs(auth), Ok(units(1000)));
    assert_eq!(g.check_gumballs(stranger), Err(GumballError::Unauthorized));
    // below the price nothing is bought and the payment comes back
    let (gumballs, change) = g.buy_gumball(bucket(2, 1)).unwrap();
    assert_eq!((gumballs.amount(), change.amount()), (units(0), units(1)));
    assert_eq!(g.buy_gumball(bucket(3, 4)).err(), Some(GumballError::WrongResource));
    // 5 XRD at 2 XRD each buys two gumballs and gives 1 XRD back
    let (gumballs, change) = g.buy_gumball(bucket(2, 5)).unwrap();
    assert_eq!((gumballs.resource_address(), gumballs.amount()), (ResourceAddress(1), units(2)));
    assert_eq!((change.resource_address(), change.amount()), (ResourceAddress(2), units(1)));
    assert_eq!(g.collected_xrd, units(4));
    assert_eq!(g.check_gumballs(auth), Ok(units(998)));
    assert_eq!(g.mint_gumballs(stranger, units(2)), Err(GumballError::Unauthorized));
    g.mint_gumballs(auth, units(2)).unwrap();
    assert_eq!(g.check_gumballs(auth), Ok(units(1000)));
    assert_eq!(g.mint_gumballs(auth, Decimal(ONE / 2)), Err(GumballError::InvalidAmount));
    assert_eq!(g.set_price(stranger, units(3)), Err(GumballError::Unauthorized));
    g.set_price(auth, units(3)).unwrap();
    assert_eq!(g.price, units(3));
    assert_eq!(g.withdraw(stranger, units(1)).err(), Some(GumballError::Unauthorized));
    assert_eq!(g.withdraw(auth, units(4)).unwrap().amount(), units(4));
    assert_eq!(g.withdraw(auth, units(1)).err(), Some(GumballError::InsufficientFunds));
    // more than the machine holds
    assert_eq!(g.buy_gumball(bucket(2, 3003)).err(), Some(GumballError::InsufficientFunds));
}

#[test]
fn awesome_dex_swaps_and_provides_liquidity() {
    assert_eq!(
        AwesomeDex::instantiate_awesome(bucket(1, 0), bucket(2, 1), Decimal(0), ResourceAddress(3), ResourceAddress(4)).err(),
        Some(AwesomeError::EmptyBucket)
    );
    assert_eq!(
        AwesomeDex::instantiate_awesome(bucket(1, 1), bucket(2, 1), units(2), ResourceAddress(3), ResourceAddress(4)).err(),
        Some(AwesomeError::InvalidFee)
    );
    let (mut d, lp) = AwesomeDex::instantiate_awesome(bucket(1, 1000), bucket(2, 1000), Decimal(0), ResourceAddress(3), ResourceAddress(4)).unwrap();
    assert_eq!(lp.amount(), units(100));
    let (out, reward) = d.swap(bucket(1, 1000)).unwrap();
    assert_eq!(out.amount(), units(500));
    assert_eq!(out.resource_address(), ResourceAddress(2));
    assert_eq!(reward.amount(), units(1));
    assert_eq!(d.swap(bucket(9, 1)).err(), Some(AwesomeError::InvalidResource));
    // the pool holds 2000 A and 500 B: a deposit at 4:1 goes in whole
    let (left_a, left_b, minted) = d.add_liquidity(bucket(2, 50), bucket(1, 200)).unwrap();
    assert_eq!(left_a.amount(), units(0));
    assert_eq!(left_b.amount(), units(0));
    assert_eq!(minted.amount(), units(10));
    let (a, b) = d.remove_liquidity(Bucket::new(ResourceAddress(3), units(11)).unwrap()).unwrap();
    assert_eq!(a.amount(), units(220));
    assert_eq!(b.amount(), units(55));
    assert_eq!(d.lp_supply, units(99));
}

fn land(contain: Option<u64>) -> LandProof {
    LandProof {
        resource: ResourceAddress(1),
        id: 7,
        data: Land { size: units(100), location: String::from("north"), contain },
    }
}

#[test]
fn real_estate_proofs_are_checked() {
    let (id, data) = assert_land_proof(land(None), ResourceAddress(1)).unwrap();
    assert_eq!(id, 7);
    assert_eq!(data.location, "north");
    assert_eq!(assert_land_proof(land(Some(3)), ResourceAddress(1)).err(), Some(EstateError::ContainsBuilding));
    assert_eq!(assert_land_proof(land(None), ResourceAddress(2)).err(), Some(EstateError::WrongResource));
    let building = BuildingProof { resource: ResourceAddress(2), id: 3, data: Building { size: units(50), floor: 4 } };
    let r = assert_landandbuilding_proof(land(Some(3)), building, ResourceAddress(1), ResourceAddress(2)).unwrap();
    assert_eq!((r.0, r.2, r.3), (7, 3, Building { size: units(50), floor: 4 }));
    assert_eq!(
        assert_landandbuilding_proof(land(Some(4)), building, ResourceAddress(1), ResourceAddress(2)).err(),
        Some(EstateError::BuildingMismatch)
    );
    assert_eq!(
        assert_landandbuilding_proof(land(None), building, ResourceAddress(1), ResourceAddress(2)).err(),
        Some(EstateError::NoBuilding)
    );
    match get_real_estate_data(RealEstateProof::LandandBuilding(land(Some(3)), building), ResourceAddress(1), ResourceAddress(2)) {
        Ok((7, Some(3), RealEstateData::LandandBuilding(size, location, bsize, floor))) => {
            assert_eq!((size, location.as_str(), bsize, floor), (units(100), "north", units(50), 4));
        },
        _ => panic!("unexpected real estate data"),
    }
    match get_real_estate_data(RealEstateProof::Land(land(None)), ResourceAddress(1), ResourceAddress(2)) {
        Ok((7, None, RealEstateData::Land(size, _))) => assert_eq!(size, units(100)),
        _ => panic!("unexpected real estate data"),
    }
}

fn token(a: u64, symbol: &str) -> TokenRef {
    TokenRef { address: ResourceAddress(a), symbol: String::from(symbol) }
}

#[test]
fn market_orders_and_prices() {
    let order = Order {
        number: 1,
        buy: true,
        token: token(1, "GUM"),
        price: units(2),
        purse: bucket(1, 0),
        payment: bucket(2, 3),
        currency: token(2, "XRD"),
    };
    assert_eq!(order.token_symbol(), "GUM");
    assert_eq!(order.currency(), "XRD");
    assert!(!order.is_filled());
    assert!(!order.is_market_order());
    assert!(order.is_buy_order());
    assert!(!order.is_sell_order());
    let spent = Order { payment: bucket(2, 1), ..order };
    assert!(spent.is_filled());

    let mut prices = MarketPrices::new();
    assert_eq!(prices.get(String::from("GUM")), None);
    prices.update(String::from("GUM"), units(5));
    prices.update(String::from("XRD"), units(1));
    prices.update(String::from("GUM"), units(6));
    assert_eq!(prices.get(String::from("GUM")), Some(units(6)));
    assert_eq!(prices.for_address(&token(2, "XRD")), Some(units(1)));
    assert_eq!(prices.assets(), vec![String::from("GUM"), String::from("XRD")]);
}

#[test]
fn pair_symbols_put_the_greater_address_first() {
    let a = TokenInfo { address: ResourceAddress(1), symbol: Some(String::from("XRD")), address_text: String::from("r1") };
    let b = TokenInfo { address: ResourceAddress(2), symbol: None, address_text: String::from("r2") };
    assert_eq!(address_pair_symbol(&a, &b), "r2-XRD");
    assert_eq!(address_pair_symbol(&b, &a), "r2-XRD");
    let _meta = MetaToken::new(String::from("Candy"), String::from("CDY"), ResourceAddress(3), ResourceAddress(4));
}

#[test]
fn pool_withdraw_then_deposit_restores_amounts_and_ratio() {
    let mut p = new_pool();
    p.contribute(bucket(1, 100)).unwrap();
    let ratio_before = p.get_pool_unit_ratio().unwrap().truncate();
    assert_eq!(ratio_before, Some(units(1)));
    let out = p.withdraw(pool_admin(), units(40), false).unwrap();
    assert_eq!(p.get_pooled_amount(), (units(60), units(0)));
    p.deposit(pool_admin(), out, false).unwrap();
    assert_eq!(p.get_pooled_amount(), (units(100), units(0)));
    assert_eq!(p.get_pool_unit_ratio().unwrap().truncate(), ratio_before);
}
