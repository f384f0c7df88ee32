use defi::decimal::Decimal;
use defi::lending::{AutoLend, LendError, LoanDue, LoanTerms, User};
use defi::platform::User as PlatformUser;
use defi::platform::{LendingPlatform, PlatformError};
use defi::resource::{Bucket, ComponentAddress, Proof, ResourceAddress};

const ONE: i128 = 1_000_000_000_000_000_000;
const USD: ResourceAddress = ResourceAddress(10);
const TRANSIENT: ResourceAddress = ResourceAddress(11);
const USER_BADGE: ResourceAddress = ResourceAddress(12);

fn dec(s: &str) -> Decimal {
    let (w, f) = match s.find('.') {
        Some(i) => (&s[..i], &s[i + 1..]),
        None => (s, ""),
    };
    let mut frac = String::from(f);
    while frac.len() < 18 {
        frac.push('0');
    }
    Decimal(w.parse::<i128>().unwrap() * ONE + frac.parse::<i128>().unwrap())
}

fn usd(s: &str) -> Bucket {
    Bucket::new(USD, dec(s)).unwrap()
}

fn badge_proof() -> Proof {
    Proof { resource: USER_BADGE, amount: dec("1") }
}

fn user(deposit: &str, deposit_rate: &str, borrow: &str, borrow_rate: &str) -> User {
    User {
        deposit_balance: dec(deposit),
        deposit_interest_rate: dec(deposit_rate),
        deposit_last_update: 0,
        borrow_balance: dec(borrow),
        borrow_interest_rate: dec(borrow_rate),
        borrow_last_update: 0,
    }
}

fn pool() -> AutoLend {
    let mut p = AutoLend::instantiate_autolend(USD, TRANSIENT);
    let badge = p.new_user(USER_BADGE);
    assert_eq!(badge.amount(), dec("1"));
    p
}

#[test]
fn test_deposit_and_redeem() {
    let mut p = pool();
    p.deposit(badge_proof(), usd("100"), 0).unwrap();
    assert_eq!(p.get_user(USER_BADGE).unwrap(), user("100", "0.01", "0", "0"));
    p.set_deposit_interest_rate(dec("0.05"));
    p.deposit(badge_proof(), usd("100"), 0).unwrap();
    assert_eq!(p.get_user(USER_BADGE).unwrap(), user("201", "0.02990049751243781", "0", "0"));
    let out = p.redeem(badge_proof(), dec("150"), 0).unwrap();
    assert_eq!(p.get_user(USER_BADGE).unwrap(), user("51", "0.02990049751243781", "0", "0"));
    // 150 plus one epoch of interest at the blended rate
    assert_eq!(out.amount(), dec("154.4850746268656715"));
    assert_eq!(out.resource_address(), USD);
}

#[test]
fn test_borrow_and_repay() {
    let mut p = pool();
    p.deposit(badge_proof(), usd("1000"), 0).unwrap();
    assert_eq!(p.get_user(USER_BADGE).unwrap(), user("1000", "0.01", "0", "0"));
    let (loan1, terms1) = p.borrow(badge_proof(), dec("100"), 0).unwrap();
    assert_eq!(loan1.amount(), dec("100"));
    assert_eq!(terms1, LoanTerms { resource: TRANSIENT, data: LoanDue { amount_due: dec("100") } });
    assert_eq!(p.get_user(USER_BADGE).unwrap(), user("1000", "0.01", "100", "0.02"));
    p.set_borrow_interest_rate(dec("0.05"));
    let (_loan2, terms2) = p.borrow(badge_proof(), dec("100"), 0).unwrap();
    assert_eq!(p.get_user(USER_BADGE).unwrap(), user("1000", "0.01", "202", "0.034851485148514851"));
    let change = p.repay(badge_proof(), usd("150"), terms1, 0).unwrap();
    assert_eq!(change.amount(), dec("0"));
    assert_eq!(p.get_user(USER_BADGE).unwrap(), user("1000", "0.01", "59.039999999999999902", "0.034851485148514851"));
    let change = p.repay(badge_proof(), usd("1000"), terms2, 0).unwrap();
    assert_eq!(p.get_user(USER_BADGE).unwrap(), user("1000", "0.01", "0", "0"));
    assert!(change.amount().0 > 0);
}

#[test]
fn lending_refuses_bad_requests() {
    let mut p = pool();
    let no_badge = Proof { resource: USER_BADGE, amount: dec("0") };
    assert_eq!(p.deposit(no_badge, usd("1"), 0), Err(LendError::InvalidProof));
    assert_eq!(p.redeem(badge_proof(), dec("1"), 0).err(), Some(LendError::UserNotFound));
    p.deposit(badge_proof(), usd("10"), 0).unwrap();
    let wrong = Bucket::new(ResourceAddress(99), dec("1")).unwrap();
    assert_eq!(p.deposit(badge_proof(), wrong, 0), Err(LendError::ResourceMismatch));
    assert_eq!(p.redeem(badge_proof(), dec("20"), 0).err(), Some(LendError::InsufficientLiquidity));
    let fake = LoanTerms { resource: ResourceAddress(98), data: LoanDue { amount_due: dec("1") } };
    assert_eq!(p.repay(badge_proof(), usd("1"), fake, 0).err(), Some(LendError::InvalidLoanTerms));
    let terms = LoanTerms { resource: TRANSIENT, data: LoanDue { amount_due: dec("5") } };
    assert_eq!(p.repay(badge_proof(), usd("1"), terms, 0).err(), Some(LendError::InsufficientRepayment));
    assert_eq!(p.liquidate(USER_BADGE, usd("1"), 0).err(), Some(LendError::NoBorrow));
    assert_eq!(p.check_deposit_balance(badge_proof()), Ok(dec("10")));
}

#[test]
fn liquidation_needs_low_collateral_ratio() {
    let mut p = pool();
    p.deposit(badge_proof(), usd("1000"), 0).unwrap();
    p.borrow(badge_proof(), dec("100"), 0).unwrap();
    // the minimum ratio is zero, so no position is under-collateralized
    assert_eq!(p.liquidate(USER_BADGE, usd("10"), 0).err(), Some(LendError::LiquidationNotAllowed));
}

#[test]
fn repay_returns_what_exceeds_the_debt() {
    let mut u = user("0", "0", "100", "0.02");
    let change = u.on_repay(dec("150"), 0).unwrap();
    // 100 plus 2 of interest is owed; 48 comes back
    assert_eq!(change, dec("48"));
    assert_eq!(u.borrow_balance, dec("0"));
    assert_eq!(u.borrow_interest_rate, dec("0"));
    let mut v = user("0", "0", "100", "0.02");
    assert_eq!(v.on_repay(dec("40"), 0).unwrap(), dec("0"));
    assert_eq!(v.borrow_balance, dec("62"));
}

#[test]
fn interest_counts_epochs_since_update() {
    let u = user("100", "0.01", "0", "0");
    assert_eq!(u.deposit_time_elapsed(4), 5);
    assert_eq!(u.get_collateral_ratio(0), Ok(None));
    let w = user("200", "0", "100", "0");
    assert_eq!(w.get_collateral_ratio(3), Ok(Some(dec("2"))));
    assert_eq!(w.check_collateral_ratio(dec("3"), 3), Err(LendError::CollateralRatioTooLow));
    assert_eq!(w.check_collateral_ratio(dec("2"), 3), Ok(()));
}

#[test]
fn platform_balances_add_up() {
    let mut u = PlatformUser::new(ResourceAddress(1));
    let xrd = ResourceAddress(5);
    u.increase_deposit_balance(xrd, dec("10"));
    u.increase_deposit_balance(xrd, dec("5"));
    assert_eq!(u.deposit_balances.get(&5), Some(&dec("15")));
    u.decrease_deposit_balance(xrd, dec("4"));
    assert_eq!(u.deposit_balances.get(&5), Some(&dec("11")));
    u.increase_borrowed_balance(xrd, dec("3"));
    assert_eq!(u.decrease_borrowed_balance(xrd, dec("1")), dec("2"));
    assert_eq!(u.borrow_balances.get(&5), Some(&dec("2")));
    // a loan with no record is set to the amount
    assert_eq!(u.decrease_borrowed_balance(ResourceAddress(6), dec("7")), dec("7"));
    assert_eq!(u.borrow_balances.get(&6), Some(&dec("7")));
}

#[test]
fn platform_lends_against_weighted_deposits() {
    let xrd = ResourceAddress(5);
    let badge = ResourceAddress(20);
    let auth = Proof { resource: badge, amount: dec("1") };
    let (mut p, admin) = LendingPlatform::new(ResourceAddress(1));
    assert_eq!(admin.amount(), dec("1"));
    let b = p.new_user(badge);
    assert_eq!((b.resource_address(), b.amount()), (badge, dec("1")));
    let root = Proof { resource: ResourceAddress(1), amount: dec("1") };
    assert_eq!(p.new_asset(auth, xrd, dec("0.5")), Err(PlatformError::Unauthorized));
    p.new_asset(root, xrd, dec("0.5")).unwrap();
    assert_eq!(p.new_asset(root, xrd, dec("0.5")), Err(PlatformError::AssetExists));
    assert_eq!(p.new_asset(root, ResourceAddress(6), dec("1.5")), Err(PlatformError::InvalidLtv));

    p.deposit_asset(auth, Bucket::new(xrd, dec("100")).unwrap()).unwrap();
    assert_eq!(p.liquidity_of(xrd), Some(dec("100")));
    // half of 100 is all the collateral
    assert_eq!(p.borrow_asset(auth, xrd, dec("60")).err(), Some(PlatformError::NotEnoughCollateral));
    assert_eq!(p.borrow_asset(auth, xrd, dec("40")).unwrap().amount(), dec("40"));
    assert_eq!(p.borrow_asset(auth, xrd, dec("20")).err(), Some(PlatformError::NotEnoughCollateral));
    assert_eq!(p.user(badge).unwrap().borrow_balances.get(&5), Some(&dec("40")));

    p.repay_asset(auth, Bucket::new(xrd, dec("15")).unwrap()).unwrap();
    assert_eq!(p.user(badge).unwrap().borrow_balances.get(&5), Some(&dec("25")));
    assert_eq!(p.repay_asset(auth, Bucket::new(xrd, dec("30")).unwrap()), Err(PlatformError::NegativeLoanBalance));
    assert_eq!(p.withdrawal_asset(auth, xrd, dec("30")).unwrap().amount(), dec("30"));
    assert_eq!(p.user(badge).unwrap().deposit_balances.get(&5), Some(&dec("70")));
    assert_eq!(p.liquidity_of(xrd), Some(dec("45")));
    assert_eq!(p.withdrawal_asset(auth, xrd, dec("80")).err(), Some(PlatformError::InsufficientLiquidity));
    assert_eq!(p.withdrawal_asset(auth, ResourceAddress(7), dec("1")).err(), Some(PlatformError::NoLiquidity));

    // a deposit of an asset with no ratio cannot be valued
    p.deposit_asset(auth, Bucket::new(ResourceAddress(6), dec("10")).unwrap()).unwrap();
    assert_eq!(p.borrow_asset(auth, xrd, dec("1")).err(), Some(PlatformError::CollateralError));
    let stranger = Proof { resource: ResourceAddress(21), amount: dec("1") };
    assert_eq!(p.deposit_asset(stranger, Bucket::new(xrd, dec("1")).unwrap()), Err(PlatformError::UnknownUser));
}
