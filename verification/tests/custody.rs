use defi::crowdsourcing::{CampaignError, CampaignStatus, CrowdsourcingCampaign};
use defi::decimal::Decimal;
use defi::donations::{DonationError, Donations};
use defi::insurance::{Insurance, InsuranceError};
use defi::resource::{Bucket, ComponentAddress, Proof, ResourceAddress};
use defi::timelock::{TimeLock, TimeLockError};

const ONE: i128 = 1_000_000_000_000_000_000;
const XRD: u64 = 100;

fn fundraiser() -> Proof {
    Proof { resource: ResourceAddress(1), amount: units(1) }
}

fn units(n: i128) -> Decimal {
    Decimal(n * ONE)
}

fn xrd(n: i128) -> Bucket {
    Bucket::new(ResourceAddress(XRD), units(n)).unwrap()
}

#[test]
fn time_lock_charges_its_fee_and_releases_after_the_end() {
    let (mut tl, minter) = TimeLock::new(units(2), ResourceAddress(1), ResourceAddress(XRD));
    assert_eq!((minter.resource_address(), minter.amount()), (ResourceAddress(1), units(1)));
    let badge = tl.lock(xrd(100), 10, 5, ResourceAddress(2)).unwrap();
    assert_eq!((badge.resource_address(), badge.amount()), (ResourceAddress(2), units(1)));
    let entry = tl.lock_of(ResourceAddress(2)).unwrap();
    assert_eq!((entry.amount, entry.ends), (units(98), 15));
    assert_eq!(tl.release(badge, 15).err(), Some(TimeLockError::StillLocked));
    let back = tl.release(badge, 16).unwrap();
    assert_eq!((back.resource_address(), back.amount()), (ResourceAddress(XRD), units(98)));
    assert_eq!(tl.release(badge, 17).err(), Some(TimeLockError::UnknownBadge));
    let minter_proof = Proof { resource: ResourceAddress(1), amount: units(1) };
    assert_eq!(tl.claim(Proof { resource: ResourceAddress(2), amount: units(1) }).err(), Some(TimeLockError::Unauthorized));
    assert_eq!(tl.claim(minter_proof).unwrap().amount(), units(2));
    assert_eq!(tl.claim(minter_proof).unwrap().amount(), units(0));
}

#[test]
fn time_lock_refuses_bad_locks() {
    let (mut tl, _) = TimeLock::new(units(2), ResourceAddress(1), ResourceAddress(XRD));
    assert_eq!(tl.lock(xrd(0), 10, 5, ResourceAddress(2)).err(), Some(TimeLockError::ZeroAmount));
    assert_eq!(tl.lock(xrd(1), 0, 5, ResourceAddress(2)).err(), Some(TimeLockError::ZeroDuration));
    assert_eq!(tl.lock(xrd(1), u64::MAX, 5, ResourceAddress(2)).err(), Some(TimeLockError::Overflow));
    let other = Bucket::new(ResourceAddress(7), units(1)).unwrap();
    assert_eq!(tl.lock(other, 1, 5, ResourceAddress(2)).err(), Some(TimeLockError::WrongResource));
    let (mut greedy, _) = TimeLock::new(units(200), ResourceAddress(1), ResourceAddress(XRD));
    assert_eq!(greedy.lock(xrd(1), 1, 5, ResourceAddress(2)).err(), Some(TimeLockError::FeeOutOfRange));
    assert_eq!(tl.lock_of(ResourceAddress(2)), None);
}

#[test]
fn campaign_collects_pledges_until_it_succeeds() {
    let (mut c, badge) = CrowdsourcingCampaign::new(units(100), 10, 0, ResourceAddress(1), ResourceAddress(XRD)).unwrap();
    assert_eq!(badge.resource_address(), ResourceAddress(1));
    let p1 = c.pledge(xrd(60), 1, ResourceAddress(2)).unwrap();
    let _p2 = c.pledge(xrd(50), 2, ResourceAddress(3)).unwrap();
    assert_eq!(
        c.status(4),
        Some(CampaignStatus { pledged: units(110), patrons: 2, ends_in: Some(6), collected: units(110) })
    );
    assert_eq!(c.withdraw(fundraiser(), 10).err(), Some(CampaignError::CampaignNotEnded));
    assert_eq!(c.recall_pledge(p1, 11).err(), Some(CampaignError::CampaignSucceeded));
    assert_eq!(c.withdraw(Proof { resource: ResourceAddress(XRD), amount: units(1) }, 11).err(), Some(CampaignError::Unauthorized));
    assert_eq!(c.withdraw(fundraiser(), 11).unwrap().amount(), units(110));
    assert_eq!(c.status(11).unwrap().ends_in, None);
}

#[test]
fn patrons_take_back_pledges_of_a_failing_campaign() {
    let (mut c, _) = CrowdsourcingCampaign::new(units(100), 10, 0, ResourceAddress(1), ResourceAddress(XRD)).unwrap();
    let p1 = c.pledge(xrd(60), 1, ResourceAddress(2)).unwrap();
    assert_eq!(c.pledge(xrd(0), 1, ResourceAddress(3)).err(), Some(CampaignError::ZeroPledge));
    assert_eq!(c.pledge(xrd(5), 10, ResourceAddress(3)).err(), Some(CampaignError::CampaignEnded));
    let other = Bucket::new(ResourceAddress(7), units(5)).unwrap();
    assert_eq!(c.pledge(other, 1, ResourceAddress(3)).err(), Some(CampaignError::WrongResource));
    assert_eq!(c.withdraw(fundraiser(), 11).err(), Some(CampaignError::GoalNotReached));
    let back = c.recall_pledge(p1, 11).unwrap();
    assert_eq!((back.resource_address(), back.amount()), (ResourceAddress(XRD), units(60)));
    assert_eq!(c.recall_pledge(p1, 11).err(), Some(CampaignError::NoPledge));
    assert_eq!(c.status(11).unwrap().patrons, 0);
    assert!(CrowdsourcingCampaign::new(units(1), u64::MAX, 1, ResourceAddress(1), ResourceAddress(XRD)).is_err());
}

#[test]
fn test_donations() {
    let owner = ComponentAddress(9);
    let (mut d, admin) = Donations::new(units(10), ResourceAddress(1), ResourceAddress(XRD));
    assert_eq!(admin.amount(), units(1));
    d.make_badge(
        owner,
        String::from("Test ID"),
        String::from("Test Title"),
        String::from("Test Desription"),
        String::from("Test URL"),
        units(10),
        units(10),
        ResourceAddress(2),
    )
    .unwrap();
    let badges = d.get_badges(owner).unwrap();
    assert_eq!(badges, vec![ResourceAddress(2)]);
    let donation = d.donate(owner, badges[0], xrd(50)).unwrap();
    assert_eq!((donation.badge.resource_address(), donation.badge.amount()), (ResourceAddress(2), units(1)));
    assert_eq!(donation.change.amount(), units(40));
    assert_eq!(donation.to_owner.amount(), units(9));
    assert_eq!(d.withdraw(units(1)).unwrap().amount(), units(1));
}

#[test]
fn donations_refuse_bad_requests() {
    let owner = ComponentAddress(9);
    let (mut d, _) = Donations::new(units(10), ResourceAddress(1), ResourceAddress(XRD));
    let s = || String::from("x");
    assert_eq!(d.make_badge(owner, s(), s(), s(), s(), units(1), units(0), ResourceAddress(2)), Err(DonationError::ZeroSupply));
    assert_eq!(d.make_badge(owner, s(), s(), s(), s(), units(0), units(1), ResourceAddress(2)), Err(DonationError::ZeroPrice));
    assert_eq!(
        d.make_badge(owner, s(), s(), s(), s(), units(1), Decimal(ONE / 2), ResourceAddress(2)),
        Err(DonationError::SupplyNotWhole)
    );
    assert_eq!(d.get_badges(owner).err(), Some(DonationError::NoBadgesForOwner));
    d.make_badge(owner, s(), s(), s(), s(), units(10), units(1), ResourceAddress(2)).unwrap();
    assert_eq!(d.donate(owner, ResourceAddress(2), Bucket::new(ResourceAddress(7), units(10)).unwrap()).err(), Some(DonationError::NotXrd));
    assert_eq!(d.donate(owner, ResourceAddress(3), xrd(10)).err(), Some(DonationError::NoSuchBadge));
    assert_eq!(d.donate(owner, ResourceAddress(2), xrd(9)).err(), Some(DonationError::NotEnoughPaid));
    d.donate(owner, ResourceAddress(2), xrd(10)).unwrap();
    assert_eq!(d.donate(owner, ResourceAddress(2), xrd(10)).err(), Some(DonationError::NoBadgeAvailable));
    // a sold-out offer is no longer listed
    assert_eq!(d.get_badges(owner).unwrap(), Vec::<ResourceAddress>::new());
    assert_eq!(d.withdraw(units(2)).err(), Some(DonationError::InvalidWithdrawal));
}

#[test]
fn insurer_locks_coverage_and_pays_claims() {
    let insurer = ComponentAddress(9);
    let policy = ResourceAddress(2);
    let (mut ins, badge) = Insurance::new(xrd(1000), ResourceAddress(1), ResourceAddress(XRD)).unwrap();
    assert_eq!(badge.amount(), units(1));
    ins.make_policy(String::from("FIRE"), units(100), units(5), 10, units(3), policy).unwrap();
    assert_eq!((ins.assets(), ins.locked()), (units(700), units(300)));
    let change = ins.purchase(policy, insurer, xrd(20), 1, ResourceAddress(3)).unwrap();
    assert_eq!(change.amount(), units(15));
    assert_eq!((ins.assets(), ins.locked()), (units(705), units(300)));
    assert_eq!(ins.purchase(policy, insurer, xrd(20), 1, ResourceAddress(4)).err(), Some(InsuranceError::AlreadyInsured));
    assert_eq!(ins.approve(insurer, policy, units(70), 5).unwrap().amount(), units(70));
    assert_eq!(ins.approve(insurer, policy, units(40), 5).err(), Some(InsuranceError::InvalidAmount));
    assert_eq!(ins.approve(insurer, policy, units(10), 12).err(), Some(InsuranceError::PolicyExpired));
    assert_eq!(ins.burn_purchases(insurer, policy, 11), Err(InsuranceError::PolicyNotExpired));
    ins.burn_purchases(insurer, policy, 12).unwrap();
    assert_eq!((ins.assets(), ins.locked()), (units(735), units(200)));
    ins.burn_policies(policy).unwrap();
    assert_eq!((ins.assets(), ins.locked()), (units(935), units(0)));
    assert_eq!(ins.burn_policies(policy), Err(InsuranceError::NoPolicy));
    assert_eq!(ins.withdraw(units(935)).unwrap().amount(), units(935));
}

#[test]
fn insurer_refuses_bad_requests() {
    assert_eq!(Insurance::new(xrd(0), ResourceAddress(1), ResourceAddress(XRD)).err(), Some(InsuranceError::ZeroBaseAssets));
    let other = Bucket::new(ResourceAddress(7), units(5)).unwrap();
    assert_eq!(Insurance::new(other, ResourceAddress(1), ResourceAddress(XRD)).err(), Some(InsuranceError::NotXrd));
    let (mut ins, _) = Insurance::new(xrd(100), ResourceAddress(1), ResourceAddress(XRD)).unwrap();
    let t = || String::from("FLOOD");
    assert_eq!(ins.make_policy(t(), units(0), units(1), 1, units(1), ResourceAddress(2)), Err(InsuranceError::ZeroCoverage));
    assert_eq!(ins.make_policy(t(), units(1), units(0), 1, units(1), ResourceAddress(2)), Err(InsuranceError::ZeroPrice));
    assert_eq!(ins.make_policy(t(), units(1), units(1), 0, units(1), ResourceAddress(2)), Err(InsuranceError::ZeroDuration));
    assert_eq!(ins.make_policy(t(), units(1), units(1), 1, units(0), ResourceAddress(2)), Err(InsuranceError::ZeroSupply));
    assert_eq!(ins.make_policy(t(), units(60), units(1), 1, units(2), ResourceAddress(2)), Err(InsuranceError::NotEnoughAssets));
    ins.make_policy(t(), units(50), units(1), 1, units(1), ResourceAddress(2)).unwrap();
    assert_eq!(ins.purchase(ResourceAddress(5), ComponentAddress(9), xrd(1), 0, ResourceAddress(3)).err(), Some(InsuranceError::NoPolicy));
    assert_eq!(ins.purchase(ResourceAddress(2), ComponentAddress(9), xrd(0), 0, ResourceAddress(3)).err(), Some(InsuranceError::NotEnoughPaid));
    ins.purchase(ResourceAddress(2), ComponentAddress(9), xrd(1), 0, ResourceAddress(3)).unwrap();
    assert_eq!(ins.purchase(ResourceAddress(2), ComponentAddress(8), xrd(1), 0, ResourceAddress(4)).err(), Some(InsuranceError::NoPolicyAvailable));
    assert_eq!(ins.approve(ComponentAddress(8), ResourceAddress(2), units(1), 0).err(), Some(InsuranceError::NoPurchase));
    assert_eq!(ins.deposit(xrd(0)), Err(InsuranceError::ZeroDeposit));
    assert_eq!(ins.withdraw(units(52)).err(), Some(InsuranceError::NotEnoughAssets));
}
