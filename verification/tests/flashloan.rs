use defi::decimal::Decimal;
use defi::flashloan::{Caller, FlashLoan, FlashLoanError};
use defi::loanpool::{FlashLoanPool, FlashLoanService, LoanPoolError, LoanPromise};
use defi::resource::{Bucket, ComponentAddress, Proof, ResourceAddress};

const ONE: i128 = 1_000_000_000_000_000_000;
const XRD: u64 = 100;

fn units(n: i128) -> Decimal {
    Decimal(n * ONE)
}

fn xrd(n: i128) -> Bucket {
    Bucket::new(ResourceAddress(XRD), units(n)).unwrap()
}

#[test]
fn loan_comes_back_with_interest() {
    let mut lender = FlashLoan::new(xrd(10000), units(5));
    assert_eq!(lender.request_loan(units(10000)).err(), Some(FlashLoanError::NotEnoughFunds));
    let (loan, terms) = lender.request_loan(units(1000)).unwrap();
    assert_eq!(loan.amount(), units(1000));
    assert_eq!(lender.funds, units(9000));
    assert_eq!(lender.repay(xrd(1049), terms).err(), Some(FlashLoanError::NotRepaid));
    let change = lender.repay(xrd(1100), terms).unwrap();
    assert_eq!(change.amount(), units(50));
    assert_eq!(lender.funds, units(10050));
}

#[test]
fn caller_profits_from_its_opportunity() {
    let mut lender = FlashLoan::new(xrd(10000), units(5));
    assert_eq!(Caller::new(ComponentAddress(1), xrd(1000), ResourceAddress(XRD)).err(), Some(FlashLoanError::OpportunityTooSmall));
    let mut caller = Caller::new(ComponentAddress(1), xrd(1500), ResourceAddress(XRD)).unwrap();
    let change = caller.call(&mut lender).unwrap();
    assert_eq!(change.amount(), units(450));
    assert_eq!(lender.funds, units(10050));
    assert_eq!(caller.hidden_vault, units(1000));
    assert_eq!(caller.opportunity, units(0));
}

#[test]
fn a_failed_repayment_undoes_the_whole_call() {
    let mut lender = FlashLoan::new(xrd(10000), units(5));
    let mut caller = Caller::new(ComponentAddress(1), xrd(1040), ResourceAddress(XRD)).unwrap();
    assert_eq!(caller.call(&mut lender).err(), Some(FlashLoanError::NotRepaid));
    assert_eq!(lender.funds, units(10000));
    assert_eq!(caller.hidden_vault, units(0));
    assert_eq!(caller.opportunity, units(1040));
}

#[test]
fn loan_service_counts_liquidity_in_lp_tokens() {
    use_loan_service();
}

fn use_loan_service() {
    let mut svc = FlashLoanService::new(
        ResourceAddress(XRD),
        String::from("LP"),
        String::from("Loan pool LP"),
        ResourceAddress(60),
        ResourceAddress(61),
        ResourceAddress(62),
        ResourceAddress(63),
    );
    let lp = svc.add_liquidity(xrd(100)).unwrap();
    assert_eq!((lp.resource_address(), lp.amount()), (ResourceAddress(61), units(100)));

    let (loan, promise) = svc.flashloanpool.take_loan(units(50)).unwrap();
    assert_eq!(loan.amount(), units(50));
    assert_eq!(promise.terms.amount_due, Decimal(50 * ONE + ONE / 2));
    assert_eq!(svc.flashloanpool.repay_loan(xrd(50), promise).err(), Some(LoanPoolError::InsufficientRepayment));
    let forged = LoanPromise { resource: ResourceAddress(7), terms: promise.terms };
    assert_eq!(svc.flashloanpool.repay_loan(xrd(51), forged).err(), Some(LoanPoolError::WrongTerms));
    let change = svc.flashloanpool.repay_loan(xrd(51), promise).unwrap();
    assert_eq!(change.amount(), Decimal(ONE / 2));
    assert_eq!(svc.flashloanpool.available_liquidity(), Decimal(100 * ONE + ONE / 2));

    svc.simulate_fee(Bucket::new(ResourceAddress(XRD), Decimal(99 * ONE + ONE / 2)).unwrap()).unwrap();
    // 100 LP tokens for 200 pooled: half an LP token per token
    let lp2 = svc.add_liquidity(xrd(200)).unwrap();
    assert_eq!(lp2.amount(), units(100));
    let out = svc.remove_liquidity(Bucket::new(ResourceAddress(61), units(100)).unwrap()).unwrap();
    assert_eq!(out.amount(), units(200));
    assert_eq!(svc.flashloanpool.available_liquidity(), units(200));
    assert_eq!(svc.poolmanager.lp_supply, units(100));
    assert_eq!(svc.remove_liquidity(xrd(1)).err(), Some(LoanPoolError::WrongToken));
    assert_eq!(svc.add_liquidity(Bucket::new(ResourceAddress(7), units(1)).unwrap()).err(), Some(LoanPoolError::WrongResource));
    // only the holder of the pool's admin badge adds or removes liquidity
    let mut pool = svc.flashloanpool;
    let stranger = Proof { resource: ResourceAddress(63), amount: units(1) };
    assert_eq!(pool.add_liquidity(stranger, xrd(1)), Err(LoanPoolError::Unauthorized));
    assert_eq!(pool.remove_liquidity(stranger, units(1)).err(), Some(LoanPoolError::Unauthorized));
    let admin = Proof { resource: ResourceAddress(62), amount: units(1) };
    assert_eq!(pool.remove_liquidity(admin, units(1)).unwrap().amount(), units(1));
    assert_eq!(
        FlashLoanPool::instantiate_default(ResourceAddress(XRD), Decimal(0), ResourceAddress(60), ResourceAddress(62)).err(),
        Some(LoanPoolError::NonPositiveFee)
    );
}
