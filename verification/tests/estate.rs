use defi::decimal::Decimal;
use defi::estate::{Building, BuildingProof, EstateError, Land, LandProof, RealEstateData, RealEstateProof};
use defi::estate_institute::{ConstructBuilding, ConstructionType, InstituteError};
use defi::estate_market::{
    House, HouseRight, LandRight, ManagerError, ManagerResources, RealEstate, RealEstateData as MarketData,
    RealEstateManager,
};
use defi::estate_service::{
    BuildingOnLand, Feasible, LandModifyType, RealEstateService, ServiceError, ServiceResources,
};
use defi::resource::{Bucket, ComponentAddress, NonFungible, Proof, ResourceAddress};

const ONE: i128 = 1_000_000_000_000_000_000;

fn units(n: i128) -> Decimal {
    Decimal(n * ONE)
}

const TOKEN: u64 = 100;

fn resources() -> ServiceResources {
    ServiceResources {
        id_badge: ResourceAddress(1),
        move_badge: ResourceAddress(2),
        market_controller_badge: ResourceAddress(3),
        institute_controller_badge: ResourceAddress(4),
        building: ResourceAddress(5),
        land: ResourceAddress(6),
        land_modify_badge: ResourceAddress(7),
        request_badge: ResourceAddress(8),
        institute_badge: ResourceAddress(9),
        market_host_badge: ResourceAddress(10),
        authority_badge: ResourceAddress(11),
    }
}

fn auth() -> Proof {
    Proof { resource: ResourceAddress(11), amount: units(1) }
}

fn cid() -> Proof {
    Proof { resource: ResourceAddress(1), amount: units(1) }
}

fn host() -> NonFungible {
    NonFungible { resource: ResourceAddress(9), id: 3 }
}

fn mauth() -> Proof {
    Proof { resource: ResourceAddress(4), amount: units(1) }
}

fn service() -> RealEstateService {
    RealEstateService::new(units(2), units(100), ResourceAddress(TOKEN), ComponentAddress(50), resources()).unwrap().0
}

fn pay(n: i128) -> Bucket {
    Bucket::new(ResourceAddress(TOKEN), units(n)).unwrap()
}

fn land(id: u64, size: i128, location: &str, contain: Option<u64>) -> LandProof {
    LandProof { resource: ResourceAddress(6), id, data: Land { size: units(size), location: String::from(location), contain } }
}

#[test]
fn test() {
    let r = RealEstateService::new(units(2), units(100), ResourceAddress(TOKEN), ComponentAddress(50), resources());
    assert!(r.is_ok());
    let (s, badge) = r.unwrap();
    assert_eq!(badge.resource_address(), ResourceAddress(11));
    assert_eq!(badge.amount(), units(1));
    assert_eq!(s.tax(), Decimal(2 * ONE / 100));
    assert_eq!(s.rate(), units(100));
}

#[test]
fn service_issues_citizen_badges_once() {
    let mut s = service();
    // only the authority issues badges and lands, and collects the tax
    assert_eq!(s.authorize_citizen(cid(), 42), Err(ServiceError::Unauthorized));
    assert_eq!(s.new_land(cid(), units(30), String::from("A1"), Feasible::IsNotOverLap(true), 5).err(), Some(ServiceError::Unauthorized));
    assert_eq!(s.collect_tax(cid()).err(), Some(ServiceError::Unauthorized));
    // citizens need their ID badge to file requests
    assert_eq!(
        s.new_land_merge_request(auth(), RealEstateProof::Land(land(1, 1, "a", None)), RealEstateProof::Land(land(2, 1, "b", None))).err(),
        Some(ServiceError::Unauthorized)
    );
    assert_eq!(s.authorize_citizen(auth(), 42), Ok(NonFungible { resource: ResourceAddress(1), id: 42 }));
    assert_eq!(s.authorize_citizen(auth(), 42), Err(ServiceError::DuplicateCitizen));
}

#[test]
fn service_issues_lands_that_overlap_nothing() {
    let s = service();
    let (l, proof) = s.new_land(auth(), units(30), String::from("A1"), Feasible::IsNotOverLap(true), 5).unwrap();
    assert_eq!((l.resource, l.id, l.data.size, l.data.contain), (ResourceAddress(6), 5, units(30), None));
    assert_eq!(l.data.location, "A1");
    assert_eq!(proof.resource, ResourceAddress(2));
    assert_eq!(
        s.new_land(auth(), units(30), String::from("A1"), Feasible::IsNotOverLap(false), 5).err(),
        Some(ServiceError::Overlapped)
    );
    assert_eq!(
        s.new_land(auth(), units(30), String::from("A1"), Feasible::IsNextTo(true), 5).err(),
        Some(ServiceError::WrongOracleData)
    );
    assert_eq!(
        s.new_land(auth(), units(0), String::from("A1"), Feasible::IsNotOverLap(true), 5).err(),
        Some(ServiceError::InvalidLandSize)
    );
}

#[test]
fn service_divides_an_authorized_land() {
    let mut s = service();
    let parent = land(7, 100, "B", None);
    let request = s
        .new_land_divide_request(
            cid(),
            RealEstateProof::Land(parent.clone()),
            RealEstateData::Land(units(40), String::from("B-west")),
            RealEstateData::Land(units(60), String::from("B-east")),
        )
        .unwrap();
    assert_eq!(request, NonFungible { resource: ResourceAddress(8), id: 0 });
    // the review is still to come
    assert_eq!(s.get_land_modify_badge(cid(), request).err(), Some(ServiceError::NotReviewed));
    assert_eq!(s.authorize_land_modify(auth(), 0, Feasible::IsNextTo(true), BuildingOnLand::NoBuilding), Err(ServiceError::WrongOracleData));
    assert_eq!(s.authorize_land_modify(auth(), 1, Feasible::IsNotOverLap(true), BuildingOnLand::NoBuilding), Err(ServiceError::UnknownRequest));
    assert_eq!(s.authorize_land_modify(auth(), 0, Feasible::IsNotOverLap(true), BuildingOnLand::NoBuilding), Ok(()));
    let badge = s.get_land_modify_badge(cid(), request).unwrap().unwrap();
    assert_eq!((badge.resource, badge.id, badge.data.land_id), (ResourceAddress(7), 0, 7));
    match &badge.data.land_modify {
        LandModifyType::Divide(_, _, None, BuildingOnLand::NoBuilding) => {},
        _ => panic!("the badge records the division"),
    }
    // too small a payment is refused
    assert_eq!(
        s.divide_land(cid(), parent.clone(), None, badge.clone(), pay(99), (20, 21)).err(),
        Some(ServiceError::NotEnoughPayment)
    );
    let (l1, l2, change, proof) = s.divide_land(cid(), parent, None, badge, pay(150), (20, 21)).unwrap();
    assert_eq!((l1.id, l1.data.size, l1.data.contain), (20, units(40), None));
    assert_eq!((l2.id, l2.data.size, l2.data.contain), (21, units(60), None));
    assert_eq!(l1.data.location, "B-west");
    assert_eq!(l2.data.location, "B-east");
    assert_eq!(change.amount(), units(50));
    assert_eq!(proof.resource, ResourceAddress(2));
    assert_eq!(s.collect_tax(auth()).unwrap().amount(), units(100));
}

#[test]
fn service_places_the_building_of_a_divided_land() {
    let mut s = service();
    let parent = land(7, 100, "C", Some(3));
    let building = BuildingProof { resource: ResourceAddress(5), id: 3, data: Building { size: units(20), floor: 2 } };
    s.new_land_divide_request(
            cid(),
        RealEstateProof::LandandBuilding(parent.clone(), building),
        RealEstateData::Land(units(50), String::from("C1")),
        RealEstateData::Land(units(50), String::from("C2")),
    )
    .unwrap();
    s.authorize_land_modify(auth(), 0, Feasible::IsNotOverLap(true), BuildingOnLand::Land2).unwrap();
    let badge = s.get_land_modify_badge(cid(), NonFungible { resource: ResourceAddress(8), id: 0 }).unwrap().unwrap();
    assert_eq!(s.divide_land(cid(), parent.clone(), None, badge.clone(), pay(100), (1, 2)).err(), Some(ServiceError::WrongBuildingProof));
    let (l1, l2, change, _) = s.divide_land(cid(), parent, Some(building), badge, pay(100), (1, 2)).unwrap();
    assert_eq!((l1.data.contain, l2.data.contain), (None, Some(3)));
    assert!(change.is_empty());
}

#[test]
fn service_refuses_divisions_that_do_not_add_up() {
    let mut s = service();
    let parent = land(7, 100, "D", None);
    s.new_land_divide_request(
            cid(),
        RealEstateProof::Land(parent.clone()),
        RealEstateData::Land(units(40), String::from("D1")),
        RealEstateData::Land(units(50), String::from("D2")),
    )
    .unwrap();
    s.authorize_land_modify(auth(), 0, Feasible::IsNotOverLap(true), BuildingOnLand::NoBuilding).unwrap();
    let badge = s.get_land_modify_badge(cid(), NonFungible { resource: ResourceAddress(8), id: 0 }).unwrap().unwrap();
    assert_eq!(s.divide_land(cid(), parent, None, badge, pay(100), (1, 2)).err(), Some(ServiceError::InvalidLandSize));
    // nothing was paid
    assert_eq!(s.collect_tax(auth()).unwrap().amount(), units(0));
    // a divided land is described without a building
    assert_eq!(
        s.new_land_divide_request(
            cid(),
            RealEstateProof::Land(land(8, 10, "E", None)),
            RealEstateData::LandandBuilding(units(5), String::from("E1"), units(1), 1),
            RealEstateData::Land(units(5), String::from("E2")),
        )
        .err(),
        Some(ServiceError::WrongRealEstateData)
    );
}

#[test]
fn service_keeps_an_unfavourable_request_in_the_book() {
    let mut s = service();
    let request = s
        .new_land_divide_request(
            cid(),
            RealEstateProof::Land(land(7, 100, "F", None)),
            RealEstateData::Land(units(40), String::from("F1")),
            RealEstateData::Land(units(60), String::from("F2")),
        )
        .unwrap();
    assert_eq!(s.authorize_land_modify(auth(), 0, Feasible::IsNotOverLap(false), BuildingOnLand::NoBuilding), Err(ServiceError::Overlapped));
    assert_eq!(s.get_land_modify_badge(cid(), request).err(), Some(ServiceError::NotReviewed));
}

#[test]
fn service_merges_two_lands() {
    let mut s = service();
    let a = land(1, 30, "G-north", None);
    let b = land(2, 20, "G-south", None);
    assert_eq!(
        s.new_land_merge_request(
            cid(),
            RealEstateProof::LandandBuilding(land(3, 5, "H", Some(9)), BuildingProof { resource: ResourceAddress(5), id: 9, data: Building { size: units(1), floor: 1 } }),
            RealEstateProof::LandandBuilding(land(4, 5, "I", Some(8)), BuildingProof { resource: ResourceAddress(5), id: 8, data: Building { size: units(1), floor: 1 } }),
        )
        .err(),
        Some(ServiceError::TwoBuildings)
    );
    let request = s.new_land_merge_request(cid(), RealEstateProof::Land(a.clone()), RealEstateProof::Land(b.clone())).unwrap();
    assert_eq!(s.authorize_land_modify(auth(), request.id, Feasible::IsNextTo(false), BuildingOnLand::NoBuilding), Err(ServiceError::NotNextTo));
    s.authorize_land_modify(auth(), request.id, Feasible::IsNextTo(true), BuildingOnLand::NoBuilding).unwrap();
    let badge = s.get_land_modify_badge(cid(), request).unwrap().unwrap();
    // the rights may come in either order
    let (merged, change, _) = s.merge_land(cid(), b, a, None, badge, pay(120), 77).unwrap();
    assert_eq!((merged.id, merged.data.size, merged.data.contain), (77, units(50), None));
    assert_eq!(merged.data.location, "G-north");
    assert_eq!(change.amount(), units(20));
    assert_eq!(s.collect_tax(auth()).unwrap().amount(), units(100));
}

#[test]
fn service_edits_its_tax_and_rate() {
    let mut s = service();
    s.edit_tax(auth(), units(5)).unwrap();
    assert_eq!(s.tax(), Decimal(5 * ONE / 100));
    s.edit_rate(auth(), units(7)).unwrap();
    assert_eq!(s.rate(), units(7));
    assert_eq!(s.deposit_tax(Bucket::new(ResourceAddress(999), units(1)).unwrap()), Err(ServiceError::WrongResource));
    s.deposit_tax(pay(3)).unwrap();
    let tax = s.collect_tax(auth()).unwrap();
    assert_eq!((tax.resource_address(), tax.amount()), (ResourceAddress(TOKEN), units(3)));
    assert_eq!(s.authorize_marketplace(auth(), 4, ComponentAddress(60)), Ok(NonFungible { resource: ResourceAddress(10), id: 4 }));
}

#[test]
fn institute_builds_and_demolishes() {
    let mut s = service();
    let (host_badge, mut inst) = s.authorize_construction_institute(auth(), units(10), 3, ComponentAddress(70), ResourceAddress(20), ResourceAddress(21)).unwrap();
    assert_eq!(host_badge, NonFungible { resource: ResourceAddress(9), id: 3 });
    let mut plot = land(7, 100, "J", None);
    let plan = ConstructionType::ConstructBuilding(ConstructBuilding { building_size: units(40), building_floor: 3 });
    assert_eq!(
        inst.new_construction_request(cid(), RealEstateProof::Land(plot.clone()), ConstructionType::DemolishBuilding).err(),
        Some(InstituteError::CannotDemolish)
    );
    let request = inst.new_construction_request(cid(), RealEstateProof::Land(plot.clone()), plan).unwrap();
    assert_eq!(request, NonFungible { resource: ResourceAddress(21), id: 0 });
    assert_eq!(inst.get_construction_badge(cid(), request).err(), Some(InstituteError::NotReviewed));
    assert_eq!(inst.authorize_construction(host(), 0, Feasible::IsNextTo(true)), Err(InstituteError::WrongOracleData));
    // only the host reviews, and only citizens build
    assert_eq!(inst.authorize_construction(NonFungible { resource: ResourceAddress(9), id: 4 }, 0, Feasible::IsOk(true)), Err(InstituteError::Unauthorized));
    assert_eq!(inst.take_fee(NonFungible { resource: ResourceAddress(9), id: 4 }).err(), Some(InstituteError::Unauthorized));
    inst.authorize_construction(host(), 0, Feasible::IsOk(true)).unwrap();
    let badge = inst.get_construction_badge(cid(), request).unwrap().unwrap();
    assert_eq!((badge.resource, badge.data.land_id), (ResourceAddress(20), 7));
    assert_eq!(
        inst.construct_new_building(cid(), &mut s, &mut plot, badge, pay(109), 55).err(),
        Some(InstituteError::NotEnoughPayment)
    );
    let (building, change, proof) = inst.construct_new_building(cid(), &mut s, &mut plot, badge, pay(115), 55).unwrap();
    assert_eq!(building, BuildingProof { resource: ResourceAddress(5), id: 55, data: Building { size: units(40), floor: 3 } });
    assert_eq!(change.amount(), units(5));
    assert_eq!(proof.resource, ResourceAddress(2));
    assert_eq!(plot.data.contain, Some(55));
    assert_eq!(inst.take_fee(host()).unwrap().amount(), units(10));
    assert_eq!(s.collect_tax(auth()).unwrap().amount(), units(100));

    let request = inst
        .new_construction_request(cid(), RealEstateProof::LandandBuilding(plot.clone(), building), ConstructionType::DemolishBuilding)
        .unwrap();
    assert_eq!(request.id, 1);
    inst.authorize_construction(host(), 1, Feasible::IsOk(true)).unwrap();
    let badge = inst.get_construction_badge(cid(), request).unwrap().unwrap();
    let change = inst.demolish_building(cid(), &mut s, &mut plot, building, badge, pay(110)).unwrap();
    assert!(change.is_empty());
    assert_eq!(plot.data.contain, None);
}

#[test]
fn institute_rejects_harmful_constructions() {
    let mut s = service();
    let (_, mut inst) = s.authorize_construction_institute(auth(), units(10), 3, ComponentAddress(70), ResourceAddress(20), ResourceAddress(21)).unwrap();
    let plot = land(7, 100, "K", Some(4));
    let building = BuildingProof { resource: ResourceAddress(5), id: 4, data: Building { size: units(1), floor: 1 } };
    let plan = ConstructionType::ConstructBuilding(ConstructBuilding { building_size: units(40), building_floor: 3 });
    assert_eq!(
        inst.new_construction_request(cid(), RealEstateProof::LandandBuilding(plot.clone(), building), plan).err(),
        Some(InstituteError::CannotConstruct)
    );
    assert_eq!(
        inst.new_construction_request(cid(), RealEstateProof::Land(plot.clone()), plan).err(),
        Some(InstituteError::Estate(EstateError::ContainsBuilding))
    );
    let request = inst.new_construction_request(cid(), RealEstateProof::LandandBuilding(plot, building), ConstructionType::DemolishBuilding).unwrap();
    inst.authorize_construction(host(), request.id, Feasible::IsOk(false)).unwrap();
    assert!(inst.get_construction_badge(cid(), request).unwrap().is_none());
}

fn manager() -> RealEstateManager {
    let res = ManagerResources {
        controller_badge: ResourceAddress(1),
        land: ResourceAddress(2),
        house: ResourceAddress(3),
        authority_badge: ResourceAddress(4),
        order_badge: ResourceAddress(5),
    };
    RealEstateManager::new(units(10), ResourceAddress(TOKEN), res).unwrap().0
}

#[test]
fn manager_issues_and_updates_rights() {
    let m = manager();
    assert_eq!(m.new_land(auth(), MarketData::Land(units(10), String::from("M")), 4, 0).err(), Some(ManagerError::Unauthorized));
    assert_eq!(
        m.new_land(mauth(), MarketData::LandandHouse(units(100), String::from("L"), units(0), 2), 1, 2).err(),
        Some(ManagerError::InvalidHouse)
    );
    let (mut l, mut h) = match m.new_land(mauth(), MarketData::LandandHouse(units(100), String::from("L"), units(50), 2), 1, 2).unwrap() {
        RealEstate::LandandHouse(l, h) => (l, h),
        RealEstate::Land(_) => panic!("a land with a house"),
    };
    assert_eq!(h, HouseRight { resource: ResourceAddress(3), id: 2, data: House { size: units(50), floor: 2 } });
    assert_eq!(l.data.contain, Some((2, House { size: units(50), floor: 2 })));
    m.modify_house_info(mauth(), &mut l, &mut h, units(60), 3).unwrap();
    assert_eq!(h.data, House { size: units(60), floor: 3 });
    assert_eq!(l.data.contain, Some((2, House { size: units(60), floor: 3 })));
    assert_eq!(m.add_house_to_land(mauth(), &mut l, units(1), 1, 9).err(), Some(ManagerError::HasHouse));
    let mut bare = match m.new_land(mauth(), MarketData::Land(units(10), String::from("M")), 4, 0).unwrap() {
        RealEstate::Land(l) => l,
        RealEstate::LandandHouse(..) => panic!("a bare land"),
    };
    let house = m.add_house_to_land(mauth(), &mut bare, units(5), 1, 9).unwrap();
    assert_eq!(house.id, 9);
    assert_eq!(bare.data.contain, Some((9, House { size: units(5), floor: 1 })));
}

#[test]
fn manager_sells_with_tax() {
    let mut m = manager();
    let l = LandRight { resource: ResourceAddress(2), id: 1, data: defi::estate_market::Land { size: units(10), location: String::from("N"), contain: None } };
    let badge = m.new_sell_order(RealEstate::Land(l), units(100), 8).unwrap();
    assert_eq!(badge, NonFungible { resource: ResourceAddress(5), id: 8 });
    assert_eq!(m.take_payment(badge).err(), Some(ManagerError::NotBought));
    assert_eq!(m.buy(1, pay(109)).err(), Some(ManagerError::NotEnoughPayment));
    assert_eq!(m.buy(2, pay(110)).err(), Some(ManagerError::UnknownOrder));
    let (estate, change) = m.buy(1, pay(115)).unwrap();
    match estate {
        RealEstate::Land(l) => assert_eq!(l.id, 1),
        RealEstate::LandandHouse(..) => panic!("a bare land"),
    }
    assert_eq!(change.amount(), units(5));
    assert_eq!(m.buy(1, pay(115)).err(), Some(ManagerError::AlreadyBought));
    assert_eq!(m.cancel_sell_order(badge).err(), Some(ManagerError::AlreadyBought));
    let paid = m.take_payment(badge).unwrap();
    assert_eq!((paid.resource_address(), paid.amount()), (ResourceAddress(TOKEN), units(100)));
    // the badge is burnt
    assert_eq!(m.take_payment(badge).err(), Some(ManagerError::UnknownOrder));
    assert_eq!(m.take_tax(mauth()).unwrap().amount(), units(10));
}

#[test]
fn manager_cancels_an_order() {
    let mut m = manager();
    let house = House { size: units(5), floor: 1 };
    let l = LandRight { resource: ResourceAddress(2), id: 1, data: defi::estate_market::Land { size: units(10), location: String::from("O"), contain: Some((3, house)) } };
    let h = HouseRight { resource: ResourceAddress(3), id: 3, data: house };
    assert_eq!(m.new_sell_order(RealEstate::Land(l.clone()), units(50), 8).err(), Some(ManagerError::ContainsHouse));
    let badge = m.new_sell_order(RealEstate::LandandHouse(l, h), units(50), 8).unwrap();
    assert_eq!(m.new_sell_order(RealEstate::Land(LandRight { resource: ResourceAddress(2), id: 2, data: defi::estate_market::Land { size: units(1), location: String::from("P"), contain: None } }), units(1), 8).err(), Some(ManagerError::DuplicateBadge));
    match m.cancel_sell_order(badge).unwrap() {
        RealEstate::LandandHouse(l, h) => assert_eq!((l.id, h.id), (1, 3)),
        RealEstate::Land(_) => panic!("the house comes back too"),
    }
    assert_eq!(m.buy(1, pay(100)).err(), Some(ManagerError::UnknownOrder));
}
