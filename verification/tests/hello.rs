use defi::decimal::Decimal;
use defi::estate::{Building, BuildingProof};
use defi::hello_land::Hello as LandHello;
use defi::hello_token::{Hello, HelloError, HelloResources};
use defi::resource::{NonFungible, ResourceAddress};

const ONE: i128 = 1_000_000_000_000_000_000;

#[test]
fn hello_tokens_go_in_and_out_of_the_vault() {
    let res = HelloResources {
        controller: ResourceAddress(1),
        kyc: ResourceAddress(2),
        move_badge: ResourceAddress(3),
        hello: ResourceAddress(4),
    };
    let (mut h, kyc) = Hello::new(res);
    assert_eq!((kyc.resource_address(), kyc.amount()), (ResourceAddress(2), Decimal(ONE)));
    assert_eq!(h.withdraw().err(), Some(HelloError::Empty));
    let (token, proof) = h.free_token(9);
    assert_eq!(token, Some(NonFungible { resource: ResourceAddress(4), id: 9 }));
    assert_eq!(proof.resource, ResourceAddress(3));
    assert_eq!(h.deposit(None), Ok(()));
    assert_eq!(h.deposit(Some(NonFungible { resource: ResourceAddress(5), id: 9 })), Err(HelloError::WrongResource));
    assert_eq!(h.deposit(token), Ok(()));
    assert_eq!(h.deposit(token), Err(HelloError::DuplicateToken));
    let (out, _) = h.withdraw().unwrap();
    assert_eq!(out, token);
    assert_eq!(h.withdraw().err(), Some(HelloError::Empty));
}

#[test]
fn hello_land_holds_its_building() {
    let mut h = LandHello::instantiate_hello(ResourceAddress(1), ResourceAddress(2));
    let land = h.new_land_with_house(Decimal(50 * ONE), 3, Decimal(200 * ONE), String::from("Q"), 11, 12);
    assert_eq!((land.resource, land.id, land.data.size), (ResourceAddress(1), 12, Decimal(200 * ONE)));
    assert_eq!(land.data.location, "Q");
    assert_eq!(
        land.data.contain,
        BuildingProof { resource: ResourceAddress(2), id: 11, data: Building { size: Decimal(50 * ONE), floor: 3 } }
    );
}
