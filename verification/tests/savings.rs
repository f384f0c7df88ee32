use defi::decimal::Decimal;
use defi::resource::{Bucket, ComponentAddress, NonFungible, Proof, ResourceAddress};
use defi::savings::{SaveWithFriends, SavingsError};

const ONE: i128 = 1_000_000_000_000_000_000;
const XRD: ResourceAddress = ResourceAddress(1);
const NFT: ResourceAddress = ResourceAddress(2);

fn xrd(n: i128) -> Bucket {
    Bucket::new(XRD, Decimal(n * ONE)).unwrap()
}

fn setup() -> (SaveWithFriends, Vec<(ComponentAddress, NonFungible)>) {
    let accounts = vec![ComponentAddress(10), ComponentAddress(11), ComponentAddress(12)];
    SaveWithFriends::instantiate(Decimal(1000 * ONE), accounts, NFT, XRD)
}

#[test]
fn fresh_setup() {
    let (s, delivered) = setup();
    assert_eq!(delivered.len(), 3);
    assert_eq!(delivered[1], (ComponentAddress(11), NonFungible { resource: NFT, id: 1 }));
    assert_eq!(s.savings, Decimal(0));
    assert!(!s.goal_achieved);
    assert_eq!(s.friends.len(), 3);
}

#[test]
fn show_info() {
    let (mut s, delivered) = setup();
    let friend = Proof { resource: s.friend_nft_address, amount: Decimal(ONE) };
    assert_eq!(s.show_info(friend), Ok(Decimal(0)));
    s.deposit(xrd(5), delivered[0].1).unwrap();
    assert_eq!(s.show_info(friend), Ok(Decimal(5 * ONE)));
    // a stranger is turned away
    let stranger = Proof { resource: ResourceAddress(999), amount: Decimal(ONE) };
    assert_eq!(s.show_info(stranger), Err(SavingsError::Unauthorized));
}

#[test]
fn test_withdraw() {
    let (mut s, delivered) = setup();
    let nft = delivered[0].1;
    // when goal is not achieved withdraw fails
    assert_eq!(s.withdraw(nft), Err(SavingsError::GoalNotAchieved));
    // when goal is achieved withdraw succeeds
    assert_eq!(s.deposit(xrd(1000), nft), Ok(nft));
    assert!(s.goal_achieved);
    let out = s.withdraw(nft).unwrap();
    assert_eq!(out.amount(), Decimal(1000 * ONE));
    assert_eq!(out.resource_address(), XRD);
    assert_eq!(s.friends.len(), 2);
    assert_eq!(s.withdraw(nft), Err(SavingsError::UnknownNft));
}

#[test]
fn test_only_friends_can_deposit() {
    let (mut s, delivered) = setup();
    assert!(s.deposit(xrd(1), delivered[0].1).is_ok());
    assert!(s.deposit(xrd(1), delivered[1].1).is_ok());
    let stranger = NonFungible { resource: ResourceAddress(77), id: 0 };
    assert_eq!(s.deposit(xrd(1), stranger), Err(SavingsError::InvalidNft));
    let forged = NonFungible { resource: NFT, id: 99 };
    assert_eq!(s.deposit(xrd(1), forged), Err(SavingsError::UnknownNft));
    assert_eq!(s.savings, Decimal(2 * ONE));
}

#[test]
fn lib_test_close_early() {
    let (mut s, _) = setup();
    let some = Proof { resource: NFT, amount: Decimal(2 * ONE) };
    assert_eq!(s.close_early(some), Err(SavingsError::NotAllFriends));
    let all = Proof { resource: NFT, amount: Decimal(3 * ONE) };
    assert_eq!(s.close_early(all), Ok(()));
    assert!(s.goal_achieved);
    assert_eq!(s.close_early(all), Err(SavingsError::GoalAchieved));
}

#[test]
fn deposit_records_the_last_amount() {
    let (mut s, delivered) = setup();
    let nft = delivered[2].1;
    s.deposit(xrd(3), nft).unwrap();
    s.deposit(xrd(4), nft).unwrap();
    assert_eq!(s.friends[2].savings, Decimal(4 * ONE));
    assert_eq!(s.savings, Decimal(7 * ONE));
    let wrong = Bucket::new(ResourceAddress(5), Decimal(ONE)).unwrap();
    assert_eq!(s.deposit(wrong, nft), Err(SavingsError::ResourceMismatch));
}

#[test]
fn amount_bound_works() {
    let mut s = SaveWithFriends::instantiate_amount_bound(Decimal(10 * ONE), NFT, XRD);
    assert_eq!(s.friends.len(), 0);
    let first = s.register_friend().unwrap();
    let second = s.register_friend().unwrap();
    assert_eq!(first, NonFungible { resource: NFT, id: 0 });
    assert_eq!(second, NonFungible { resource: NFT, id: 1 });
    s.deposit(xrd(10), second).unwrap();
    assert!(s.goal_achieved);
    assert_eq!(s.withdraw(second).unwrap().amount(), Decimal(10 * ONE));
    // ids are not reused after a token is burnt
    assert_eq!(s.register_friend().unwrap().id, 2);
}
