//! A flash loan: a lender hands out tokens that must come back, with
//! interest, before the transaction ends; and a borrower that uses such a
//! loan to pay for an opportunity and repays the lender out of what the
//! opportunity gives.
use vstd::prelude::*;
use crate::decimal::{dec_of, dec_one, ddiv, dmul, whole, Decimal};
use crate::resource::{group_bucket, Bucket, ComponentAddress, ResourceAddress};

verus! {

broadcast use group_bucket;

/// Why a flash loan call is refused. A refused call changes nothing.
#[derive(Clone, Copy, Debug, PartialEq, Eq, Structural)]
pub enum FlashLoanError {
    /// The lender can only lend less than it holds.
    NotEnoughFunds,
    /// The amount is negative.
    InvalidAmount,
    /// An amount does not fit.
    Overflow,
    /// Less came back than the loan and its interest.
    NotRepaid,
    /// The tokens are not of the lender's resource.
    WrongResource,
    /// An opportunity must be worth more than a thousand XRD.
    OpportunityTooSmall,
    NotXrd,
    /// The opportunity costs a thousand XRD.
    PaymentTooSmall,
}

/// A loan that is out: the amount lent.
#[derive(Clone, Copy, Debug, PartialEq, Eq, Structural)]
pub struct LoanTerms {
    pub amount: Decimal,
}

/// What must come back for a loan of `amount` at `interest` percent: the
/// amount times one plus the interest over a hundred.
pub open spec fn amount_due(amount: Decimal, interest: Decimal) -> Option<Decimal> {
    match dec_of(ddiv(interest@, 100 * dec_one())) {
        None => None,
        Some(rate) => match dec_of(rate@ + dec_one()) {
            None => None,
            Some(factor) => dec_of(dmul(amount@, factor@)),
        },
    }
}

/// A lender of the tokens it holds, at `interest` percent per loan.
pub struct FlashLoan {
    pub interest: Decimal,
    pub resource: ResourceAddress,
    pub funds: Decimal,
}

impl FlashLoan {
    /// A lender of the tokens in `tokens`.
    pub fn new(tokens: Bucket, interest: Decimal) -> (r: FlashLoan)
        ensures
            r.interest == interest,
            r.resource == tokens.res(),
            r.funds == tokens.amt(),
    {
        FlashLoan { interest, resource: tokens.resource_address(), funds: tokens.amount() }
    }

    /// Lends `amount`, which must be less than the lender holds. The loan
    /// must come back through `repay` in the same transaction.
    pub fn request_loan(&mut self, amount: Decimal) -> (r: Result<(Bucket, LoanTerms), FlashLoanError>)
        ensures
            r is Err ==> *final(self) == *old(self),
            if amount@ >= old(self).funds@ {
                r == Err::<(Bucket, LoanTerms), FlashLoanError>(FlashLoanError::NotEnoughFunds)
            } else if amount@ < 0 {
                r == Err::<(Bucket, LoanTerms), FlashLoanError>(FlashLoanError::InvalidAmount)
            } else {
                &&& r == Ok::<(Bucket, LoanTerms), FlashLoanError>(
                    (Bucket::spec_new(old(self).resource, amount), LoanTerms { amount }),
                )
                &&& final(self).funds@ == old(self).funds@ - amount@
                &&& final(self).interest == old(self).interest
                &&& final(self).resource == old(self).resource
            },
    {
        if amount.0 >= self.funds.0 {
            return Err(FlashLoanError::NotEnoughFunds);
        }
        if amount.0 < 0 {
            return Err(FlashLoanError::InvalidAmount);
        }
        self.funds = Decimal(self.funds.0 - amount.0);
        Ok((Bucket::of(self.resource, amount), LoanTerms { amount }))
    }

    /// Takes back the loan of `terms` and its interest out of `returned`,
    /// and gives the change.
    pub fn repay(&mut self, returned: Bucket, terms: LoanTerms) -> (r: Result<Bucket, FlashLoanError>)
        ensures
            r is Err ==> *final(self) == *old(self),
            match amount_due(terms.amount, old(self).interest) {
                None => r == Err::<Bucket, FlashLoanError>(FlashLoanError::Overflow),
                Some(due) => if returned.amt()@ < due@ {
                    r == Err::<Bucket, FlashLoanError>(FlashLoanError::NotRepaid)
                } else if due@ < 0 {
                    r == Err::<Bucket, FlashLoanError>(FlashLoanError::InvalidAmount)
                } else if returned.res() != old(self).resource {
                    r == Err::<Bucket, FlashLoanError>(FlashLoanError::WrongResource)
                } else if dec_of(old(self).funds@ + due@) is None {
                    r == Err::<Bucket, FlashLoanError>(FlashLoanError::Overflow)
                } else {
                    &&& r == Ok::<Bucket, FlashLoanError>(
                        Bucket::spec_new(returned.res(), Decimal((returned.amt()@ - due@) as i128)),
                    )
                    &&& final(self).funds@ == old(self).funds@ + due@
                    &&& final(self).interest == old(self).interest
                    &&& final(self).resource == old(self).resource
                }
            },
    {
        let rate = match self.interest.checked_div(Decimal(100 * 1_000_000_000_000_000_000)) {
            Some(x) => x,
            None => return Err(FlashLoanError::Overflow),
        };
        let factor = match rate.checked_add(Decimal(1_000_000_000_000_000_000)) {
            Some(x) => x,
            None => return Err(FlashLoanError::Overflow),
        };
        let due = match terms.amount.checked_mul(factor) {
            Some(x) => x,
            None => return Err(FlashLoanError::Overflow),
        };
        let back = returned.amount();
        if back.0 < due.0 {
            return Err(FlashLoanError::NotRepaid);
        }
        if due.0 < 0 {
            return Err(FlashLoanError::InvalidAmount);
        }
        if returned.resource_address() != self.resource {
            return Err(FlashLoanError::WrongResource);
        }
        let funds = match self.funds.checked_add(due) {
            Some(x) => x,
            None => return Err(FlashLoanError::Overflow),
        };
        self.funds = funds;
        Ok(Bucket::of(returned.resource_address(), Decimal(back.0 - due.0)))
    }
}

/// A borrower with an opportunity: paying a thousand XRD for it gives the
/// XRD it holds.
pub struct Caller {
    pub loaner_component: ComponentAddress,
    pub xrd: ResourceAddress,
    pub hidden_vault: Decimal,
    pub opportunity: Decimal,
}

/// The loan the borrower asks for, and the price of its opportunity.
pub open spec fn loan_size() -> Decimal {
    whole(1000)
}

impl Caller {
    /// A borrower from `loaner_component` with the XRD in `opportunity`,
    /// which must be more than a thousand.
    pub fn new(loaner_component: ComponentAddress, opportunity: Bucket, xrd: ResourceAddress) -> (r: Result<
        Caller,
        FlashLoanError,
    >)
        ensures
            opportunity.amt()@ <= loan_size()@ ==> r == Err::<Caller, FlashLoanError>(
                FlashLoanError::OpportunityTooSmall,
            ),
            opportunity.amt()@ > loan_size()@ && opportunity.res() != xrd ==> r == Err::<Caller, FlashLoanError>(
                FlashLoanError::NotXrd,
            ),
            opportunity.amt()@ > loan_size()@ && opportunity.res() == xrd ==> r == Ok::<Caller, FlashLoanError>(
                Caller { loaner_component, xrd, hidden_vault: Decimal(0), opportunity: opportunity.amt() },
            ),
    {
        let amount = opportunity.amount();
        if amount.0 <= 1000 * 1_000_000_000_000_000_000 {
            return Err(FlashLoanError::OpportunityTooSmall);
        }
        if opportunity.resource_address() != xrd {
            return Err(FlashLoanError::NotXrd);
        }
        Ok(Caller { loaner_component, xrd, hidden_vault: Decimal(0), opportunity: amount })
    }

    /// Pays for the opportunity with `payment`, which must be at least a
    /// thousand XRD, and gives all that the opportunity holds.
    fn get_opportunity(&mut self, payment: Bucket) -> (r: Result<Bucket, FlashLoanError>)
        requires
            old(self).opportunity@ >= 0,
        ensures
            r is Err ==> *final(self) == *old(self),
            if payment.amt()@ < loan_size()@ {
                r == Err::<Bucket, FlashLoanError>(FlashLoanError::PaymentTooSmall)
            } else if payment.res() != old(self).xrd {
                r == Err::<Bucket, FlashLoanError>(FlashLoanError::NotXrd)
            } else if dec_of(old(self).hidden_vault@ + payment.amt()@) is None {
                r == Err::<Bucket, FlashLoanError>(FlashLoanError::Overflow)
            } else {
                &&& r == Ok::<Bucket, FlashLoanError>(Bucket::spec_new(old(self).xrd, old(self).opportunity))
                &&& final(self).hidden_vault@ == old(self).hidden_vault@ + payment.amt()@
                &&& final(self).opportunity@ == 0
                &&& final(self).xrd == old(self).xrd
                &&& final(self).loaner_component == old(self).loaner_component
            },
    {
        let paid = payment.amount();
        if paid.0 < 1000 * 1_000_000_000_000_000_000 {
            return Err(FlashLoanError::PaymentTooSmall);
        }
        if payment.resource_address() != self.xrd {
            return Err(FlashLoanError::NotXrd);
        }
        let hidden = match self.hidden_vault.checked_add(paid) {
            Some(h) => h,
            None => return Err(FlashLoanError::Overflow),
        };
        self.hidden_vault = hidden;
        let all = self.opportunity;
        self.opportunity = Decimal(0);
        Ok(Bucket::of(self.xrd, all))
    }

    /// What the borrower does with a loan: pays for its opportunity and
    /// gives what the opportunity holds.
    pub fn execute(&mut self, loan: Bucket) -> (r: Result<Bucket, FlashLoanError>)
        requires
            old(self).opportunity@ >= 0,
        ensures
            r is Err ==> *final(self) == *old(self),
            if loan.amt()@ < loan_size()@ {
                r == Err::<Bucket, FlashLoanError>(FlashLoanError::PaymentTooSmall)
            } else if loan.res() != old(self).xrd {
                r == Err::<Bucket, FlashLoanError>(FlashLoanError::NotXrd)
            } else if dec_of(old(self).hidden_vault@ + loan.amt()@) is None {
                r == Err::<Bucket, FlashLoanError>(FlashLoanError::Overflow)
            } else {
                &&& r == Ok::<Bucket, FlashLoanError>(Bucket::spec_new(old(self).xrd, old(self).opportunity))
                &&& final(self).hidden_vault@ == old(self).hidden_vault@ + loan.amt()@
                &&& final(self).opportunity@ == 0
                &&& final(self).xrd == old(self).xrd
                &&& final(self).loaner_component == old(self).loaner_component
            },
    {
        self.get_opportunity(loan)
    }

    /// Borrows a thousand from `loaner`, pays for the opportunity with it,
    /// repays the loan and its interest out of what the opportunity gave,
    /// and gives the change. It all happens or none of it does.
    pub fn call(&mut self, loaner: &mut FlashLoan) -> (r: Result<Bucket, FlashLoanError>)
        requires
            old(self).opportunity@ >= 0,
        ensures
            r is Err ==> *final(self) == *old(self) && *final(loaner) == *old(loaner),
            if loan_size()@ >= old(loaner).funds@ {
                r == Err::<Bucket, FlashLoanError>(FlashLoanError::NotEnoughFunds)
            } else if old(loaner).resource != old(self).xrd {
                r == Err::<Bucket, FlashLoanError>(FlashLoanError::NotXrd)
            } else if dec_of(old(self).hidden_vault@ + loan_size()@) is None {
                r == Err::<Bucket, FlashLoanError>(FlashLoanError::Overflow)
            } else {
                match amount_due(loan_size(), old(loaner).interest) {
                    None => r == Err::<Bucket, FlashLoanError>(FlashLoanError::Overflow),
                    Some(due) => if old(self).opportunity@ < due@ {
                        r == Err::<Bucket, FlashLoanError>(FlashLoanError::NotRepaid)
                    } else if due@ < 0 {
                        r == Err::<Bucket, FlashLoanError>(FlashLoanError::InvalidAmount)
                    } else if dec_of(old(loaner).funds@ - loan_size()@ + due@) is None {
                        r == Err::<Bucket, FlashLoanError>(FlashLoanError::Overflow)
                    } else {
                        &&& r == Ok::<Bucket, FlashLoanError>(
                            Bucket::spec_new(old(self).xrd, Decimal((old(self).opportunity@ - due@) as i128)),
                        )
                        &&& final(loaner).funds@ == old(loaner).funds@ + due@ - loan_size()@
                        &&& final(loaner).interest == old(loaner).interest
                        &&& final(loaner).resource == old(loaner).resource
                        &&& final(self).hidden_vault@ == old(self).hidden_vault@ + loan_size()@
                        &&& final(self).opportunity@ == 0
                        &&& final(self).xrd == old(self).xrd
                        &&& final(self).loaner_component == old(self).loaner_component
                    },
                }
            },
    {
        let saved_self = Caller {
            loaner_component: self.loaner_component,
            xrd: self.xrd,
            hidden_vault: self.hidden_vault,
            opportunity: self.opportunity,
        };
        let saved_loaner = FlashLoan { interest: loaner.interest, resource: loaner.resource, funds: loaner.funds };
        assert(loan_size()@ == 1000 * 1_000_000_000_000_000_000);
        let (loan, terms) = match loaner.request_loan(Decimal(1000 * 1_000_000_000_000_000_000)) {
            Ok(x) => x,
            Err(e) => return Err(e),
        };
        assert(loan.res() == saved_loaner.resource);
        assert(loan.amt()@ == loan_size()@);
        let result = match self.execute(loan) {
            Ok(b) => b,
            Err(e) => {
                *loaner = saved_loaner;
                return Err(e);
            },
        };
        assert(result.res() == self.xrd);
        assert(result.amt() == saved_self.opportunity);
        match loaner.repay(result, terms) {
            Ok(change) => Ok(change),
            Err(e) => {
                *loaner = saved_loaner;
                *self = saved_self;
                Err(e)
            },
        }
    }
}

} // verus!
