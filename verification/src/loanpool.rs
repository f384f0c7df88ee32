//! A flash loan pool whose liquidity is counted in LP tokens: the pool
//! lends for a fee and is paid back within the transaction, a manager
//! mints and burns LP tokens at the ratio of LP tokens to pooled tokens,
//! and a service puts the two together.
use vstd::prelude::*;
use crate::decimal::{dec_of, dec_one, ddiv, dmul, whole, Decimal};
use crate::resource::{group_bucket, Bucket, Proof, ResourceAddress};

verus! {

broadcast use group_bucket;

/// Why a call is refused. A refused call changes nothing.
#[derive(Clone, Copy, Debug, PartialEq, Eq, Structural)]
pub enum LoanPoolError {
    /// The loan fee must be positive.
    NonPositiveFee,
    /// The tokens are not of the pool's resource.
    WrongResource,
    /// The pool holds less than asked, or the amount is negative.
    NotEnoughLiquidity,
    /// An amount does not fit, or a division by zero.
    Arithmetic,
    /// The loan terms are not of this pool.
    WrongTerms,
    /// Less came back than is due.
    InsufficientRepayment,
    /// The LP tokens are not of this manager.
    WrongToken,
    /// The call needs a proof of the admin badge.
    Unauthorized,
}

/// What a loan owes: the amount lent, the fee and their sum.
#[derive(Clone, Copy, Debug, PartialEq, Eq, Structural)]
pub struct LoanDue {
    pub amount_due: Decimal,
    pub loan_amount: Decimal,
    pub fees: Decimal,
}

/// The token that stands for a loan until it is repaid: it cannot be
/// kept, only burned by the pool when the loan comes back.
#[derive(Clone, Copy, Debug, PartialEq, Eq, Structural)]
pub struct LoanPromise {
    pub resource: ResourceAddress,
    pub terms: LoanDue,
}

/// A pool of one resource that lends it for a fee of `loan_fee_rate` times
/// the loan.
#[derive(Clone, Copy, Debug, PartialEq, Eq, Structural)]
pub struct FlashLoanPool {
    /// The badge that alone adds and removes liquidity.
    pub admin_badge: ResourceAddress,
    pub loan_fee_rate: Decimal,
    pub resource: ResourceAddress,
    pub liquidity: Decimal,
    pub transient_resource: ResourceAddress,
}

/// The terms of a loan of `amount` at `rate`.
pub open spec fn loan_terms(amount: Decimal, rate: Decimal) -> Option<LoanDue> {
    match dec_of(dmul(amount@, rate@)) {
        None => None,
        Some(fees) => match dec_of(fees@ + amount@) {
            None => None,
            Some(due) => Some(LoanDue { amount_due: due, loan_amount: amount, fees }),
        },
    }
}

impl FlashLoanPool {
    /// An empty pool of `pool_resource` lending at `loan_fee_rate`; its loan
    /// promises are tokens of `transient_resource`, and its admin badge,
    /// which goes to the caller, of `admin_badge`.
    pub fn instantiate_default(
        pool_resource: ResourceAddress,
        loan_fee_rate: Decimal,
        transient_resource: ResourceAddress,
        admin_badge: ResourceAddress,
    ) -> (r: Result<(FlashLoanPool, Bucket), LoanPoolError>)
        ensures
            loan_fee_rate@ <= 0 ==> r == Err::<(FlashLoanPool, Bucket), LoanPoolError>(LoanPoolError::NonPositiveFee),
            loan_fee_rate@ > 0 ==> r == Ok::<(FlashLoanPool, Bucket), LoanPoolError>(
                (
                    FlashLoanPool { admin_badge, loan_fee_rate, resource: pool_resource, liquidity: Decimal(0), transient_resource },
                    Bucket::spec_new(admin_badge, whole(1)),
                ),
            ),
    {
        if loan_fee_rate.0 <= 0 {
            return Err(LoanPoolError::NonPositiveFee);
        }
        Ok(
            (
                FlashLoanPool { admin_badge, loan_fee_rate, resource: pool_resource, liquidity: Decimal(0), transient_resource },
                Bucket::of(admin_badge, Decimal(1_000_000_000_000_000_000)),
            ),
        )
    }

    /// The tokens the pool holds.
    pub fn available_liquidity(&self) -> (r: Decimal)
        ensures
            r == self.liquidity,
    {
        self.liquidity
    }

    /// Puts the tokens in `tokens` into the pool.
    pub fn add_liquidity(&mut self, auth: Proof, tokens: Bucket) -> (r: Result<(), LoanPoolError>)
        ensures
            !(auth.shows(old(self).admin_badge)) ==> r == Err::<(), LoanPoolError>(LoanPoolError::Unauthorized) && *final(self) == *old(self),
            (auth.shows(old(self).admin_badge)) ==> (if tokens.res() != old(self).resource {
                r == Err::<(), LoanPoolError>(LoanPoolError::WrongResource) && *final(self) == *old(self)
            } else if dec_of(old(self).liquidity@ + tokens.amt()@) is None {
                r == Err::<(), LoanPoolError>(LoanPoolError::Arithmetic) && *final(self) == *old(self)
            } else {
                r is Ok && *final(self) == (FlashLoanPool {
                    liquidity: Decimal((old(self).liquidity@ + tokens.amt()@) as i128),
                    ..*old(self)
                })
            }),
    {
        if !auth.check(self.admin_badge) {
            return Err(LoanPoolError::Unauthorized);
        }
        if tokens.resource_address() != self.resource {
            return Err(LoanPoolError::WrongResource);
        }
        match self.liquidity.checked_add(tokens.amount()) {
            Some(x) => {
                self.liquidity = x;
                Ok(())
            },
            None => Err(LoanPoolError::Arithmetic),
        }
    }

    /// Takes `tokens` out of the pool.
    pub fn remove_liquidity(&mut self, auth: Proof, tokens: Decimal) -> (r: Result<Bucket, LoanPoolError>)
        ensures
            !(auth.shows(old(self).admin_badge)) ==> r == Err::<Bucket, LoanPoolError>(LoanPoolError::Unauthorized) && *final(self) == *old(self),
            (auth.shows(old(self).admin_badge)) ==> (if 0 <= tokens@ <= old(self).liquidity@ {
                &&& r == Ok::<Bucket, LoanPoolError>(Bucket::spec_new(old(self).resource, tokens))
                &&& *final(self) == (FlashLoanPool {
                    liquidity: Decimal((old(self).liquidity@ - tokens@) as i128),
                    ..*old(self)
                })
            } else {
                r == Err::<Bucket, LoanPoolError>(LoanPoolError::NotEnoughLiquidity) && *final(self) == *old(self)
            }),
    {
        if !auth.check(self.admin_badge) {
            return Err(LoanPoolError::Unauthorized);
        }
        if tokens.0 < 0 || tokens.0 > self.liquidity.0 {
            return Err(LoanPoolError::NotEnoughLiquidity);
        }
        self.liquidity = Decimal(self.liquidity.0 - tokens.0);
        Ok(Bucket::of(self.resource, tokens))
    }

    /// Lends `loan_amount` against a promise to repay it and its fee in the
    /// same transaction.
    pub fn take_loan(&mut self, loan_amount: Decimal) -> (r: Result<(Bucket, LoanPromise), LoanPoolError>)
        ensures
            r is Err ==> *final(self) == *old(self),
            if loan_amount@ > old(self).liquidity@ || loan_amount@ < 0 {
                r == Err::<(Bucket, LoanPromise), LoanPoolError>(LoanPoolError::NotEnoughLiquidity)
            } else {
                match loan_terms(loan_amount, old(self).loan_fee_rate) {
                    None => r == Err::<(Bucket, LoanPromise), LoanPoolError>(LoanPoolError::Arithmetic),
                    Some(terms) => {
                        &&& r == Ok::<(Bucket, LoanPromise), LoanPoolError>(
                            (
                                Bucket::spec_new(old(self).resource, loan_amount),
                                LoanPromise { resource: old(self).transient_resource, terms },
                            ),
                        )
                        &&& *final(self) == (FlashLoanPool {
                            liquidity: Decimal((old(self).liquidity@ - loan_amount@) as i128),
                            ..*old(self)
                        })
                    },
                }
            },
    {
        if loan_amount.0 > self.liquidity.0 || loan_amount.0 < 0 {
            return Err(LoanPoolError::NotEnoughLiquidity);
        }
        let fees = match loan_amount.checked_mul(self.loan_fee_rate) {
            Some(f) => f,
            None => return Err(LoanPoolError::Arithmetic),
        };
        let due = match fees.checked_add(loan_amount) {
            Some(d) => d,
            None => return Err(LoanPoolError::Arithmetic),
        };
        self.liquidity = Decimal(self.liquidity.0 - loan_amount.0);
        Ok(
            (
                Bucket::of(self.resource, loan_amount),
                LoanPromise {
                    resource: self.transient_resource,
                    terms: LoanDue { amount_due: due, loan_amount, fees },
                },
            ),
        )
    }

    /// Takes what `loan_terms` says is due out of `loan_repayment`, burns
    /// the promise and gives the change.
    pub fn repay_loan(&mut self, loan_repayment: Bucket, loan_terms: LoanPromise) -> (r: Result<Bucket, LoanPoolError>)
        ensures
            r is Err ==> *final(self) == *old(self),
            if loan_terms.resource != old(self).transient_resource {
                r == Err::<Bucket, LoanPoolError>(LoanPoolError::WrongTerms)
            } else if loan_repayment.amt()@ < loan_terms.terms.amount_due@ {
                r == Err::<Bucket, LoanPoolError>(LoanPoolError::InsufficientRepayment)
            } else if loan_terms.terms.amount_due@ < 0 {
                r == Err::<Bucket, LoanPoolError>(LoanPoolError::NotEnoughLiquidity)
            } else if loan_repayment.res() != old(self).resource {
                r == Err::<Bucket, LoanPoolError>(LoanPoolError::WrongResource)
            } else if dec_of(old(self).liquidity@ + loan_terms.terms.amount_due@) is None {
                r == Err::<Bucket, LoanPoolError>(LoanPoolError::Arithmetic)
            } else {
                &&& r == Ok::<Bucket, LoanPoolError>(
                    Bucket::spec_new(
                        loan_repayment.res(),
                        Decimal((loan_repayment.amt()@ - loan_terms.terms.amount_due@) as i128),
                    ),
                )
                &&& *final(self) == (FlashLoanPool {
                    liquidity: Decimal((old(self).liquidity@ + loan_terms.terms.amount_due@) as i128),
                    ..*old(self)
                })
            },
    {
        if loan_terms.resource != self.transient_resource {
            return Err(LoanPoolError::WrongTerms);
        }
        let due = loan_terms.terms.amount_due;
        let paid = loan_repayment.amount();
        if paid.0 < due.0 {
            return Err(LoanPoolError::InsufficientRepayment);
        }
        if due.0 < 0 {
            return Err(LoanPoolError::NotEnoughLiquidity);
        }
        if loan_repayment.resource_address() != self.resource {
            return Err(LoanPoolError::WrongResource);
        }
        match self.liquidity.checked_add(due) {
            Some(x) => {
                self.liquidity = x;
                Ok(Bucket::of(loan_repayment.resource_address(), Decimal(paid.0 - due.0)))
            },
            None => Err(LoanPoolError::Arithmetic),
        }
    }
}

/// A loan repaid with exactly what is due leaves the pool richer by the
/// fee and nothing else.
pub proof fn lemma_loan_round_trip(p: FlashLoanPool, amount: Decimal)
    requires
        0 <= amount@ <= p.liquidity@,
        p.loan_fee_rate@ >= 0,
        loan_terms(amount, p.loan_fee_rate) is Some,
        dec_of(p.liquidity@ + loan_terms(amount, p.loan_fee_rate)->Some_0.fees@) is Some,
    ensures
        ({
            let terms = loan_terms(amount, p.loan_fee_rate)->Some_0;
            &&& terms.amount_due@ == amount@ + terms.fees@
            &&& terms.fees@ >= 0
            &&& (p.liquidity@ - amount@) + terms.amount_due@ == p.liquidity@ + terms.fees@
        }),
{
    assert(amount@ * p.loan_fee_rate@ >= 0) by (nonlinear_arith)
        requires
            amount@ >= 0,
            p.loan_fee_rate@ >= 0,
    ;
}

/// Mints and burns the LP tokens of a pool at the ratio of LP tokens in
/// circulation to tokens pooled.
pub struct PoolManager {
    /// The badge that alone calls the manager.
    pub admin_badge: ResourceAddress,
    pub lp_resource: ResourceAddress,
    pub lp_symbol: String,
    pub lp_name: String,
    pub lp_per_asset_ratio: Decimal,
    /// The LP tokens in circulation.
    pub lp_supply: Decimal,
}

/// The ratio of LP tokens to pooled tokens: the supply over the pool, or
/// one when no LP token circulates.
pub open spec fn adjusted_ratio(supply: Decimal, pool_amount: Decimal) -> Option<Decimal> {
    if supply@ != 0 {
        if pool_amount@ == 0 {
            None
        } else {
            dec_of(ddiv(supply@, pool_amount@))
        }
    } else {
        Some(Decimal(dec_one() as i128))
    }
}

impl PoolManager {
    /// A manager of the LP tokens of `lp_resource`, with none in
    /// circulation; its admin badge, which goes to the caller, is of
    /// `admin_badge`.
    pub fn new(lp_symbol: String, lp_name: String, lp_resource: ResourceAddress, admin_badge: ResourceAddress) -> (r: (
        PoolManager,
        Bucket,
    ))
        ensures
            r.0.admin_badge == admin_badge,
            r.0.lp_resource == lp_resource,
            r.0.lp_symbol == lp_symbol,
            r.0.lp_name == lp_name,
            r.0.lp_per_asset_ratio@ == dec_one(),
            r.0.lp_supply@ == 0,
            r.1 == Bucket::spec_new(admin_badge, whole(1)),
    {
        (
            PoolManager {
                admin_badge,
                lp_resource,
                lp_symbol,
                lp_name,
                lp_per_asset_ratio: Decimal(1_000_000_000_000_000_000),
                lp_supply: Decimal(0),
            },
            Bucket::of(admin_badge, Decimal(1_000_000_000_000_000_000)),
        )
    }

    /// Sets the ratio of LP tokens to the `pool_amount` tokens pooled.
    pub fn ajust_lp_per_asset_ratio(&mut self, auth: Proof, pool_amount: Decimal) -> (r: Result<(), LoanPoolError>)
        ensures
            !(auth.shows(old(self).admin_badge)) ==> r == Err::<(), LoanPoolError>(LoanPoolError::Unauthorized) && *final(self) == *old(self),
            (auth.shows(old(self).admin_badge)) ==> (match adjusted_ratio(old(self).lp_supply, pool_amount) {
                None => r == Err::<(), LoanPoolError>(LoanPoolError::Arithmetic) && *final(self) == *old(self),
                Some(ratio) => {
                    &&& r is Ok
                    &&& final(self).lp_per_asset_ratio == ratio
                    &&& final(self).lp_supply == old(self).lp_supply
                    &&& final(self).lp_resource == old(self).lp_resource
                    &&& final(self).lp_symbol == old(self).lp_symbol
                    &&& final(self).lp_name == old(self).lp_name && final(self).admin_badge == old(self).admin_badge
                },
            }),
    {
        if !auth.check(self.admin_badge) {
            return Err(LoanPoolError::Unauthorized);
        }
        if self.lp_supply.0 != 0 {
            match self.lp_supply.checked_div(pool_amount) {
                Some(x) => {
                    self.lp_per_asset_ratio = x;
                    Ok(())
                },
                None => Err(LoanPoolError::Arithmetic),
            }
        } else {
            self.lp_per_asset_ratio = Decimal(1_000_000_000_000_000_000);
            Ok(())
        }
    }

    /// Mints the LP tokens for `tokens` added to a pool that held
    /// `pool_amount`: the tokens times the ratio.
    pub fn add_liquidity(&mut self, auth: Proof, tokens: Decimal, pool_amount: Decimal) -> (r: Result<Bucket, LoanPoolError>)
        ensures
            !(auth.shows(old(self).admin_badge)) ==> r == Err::<Bucket, LoanPoolError>(LoanPoolError::Unauthorized) && *final(self) == *old(self),
            r is Err ==> *final(self) == *old(self),
            (auth.shows(old(self).admin_badge)) ==> (r is Ok ==> final(self).lp_symbol == old(self).lp_symbol && final(self).lp_name == old(self).lp_name && final(self).admin_badge == old(self).admin_badge),
            (auth.shows(old(self).admin_badge)) ==> (match adjusted_ratio(old(self).lp_supply, pool_amount) {
                None => r == Err::<Bucket, LoanPoolError>(LoanPoolError::Arithmetic),
                Some(ratio) => match dec_of(dmul(tokens@, ratio@)) {
                    None => r == Err::<Bucket, LoanPoolError>(LoanPoolError::Arithmetic),
                    Some(minted) => if minted@ < 0 || dec_of(old(self).lp_supply@ + minted@) is None {
                        r == Err::<Bucket, LoanPoolError>(LoanPoolError::Arithmetic)
                    } else {
                        &&& r == Ok::<Bucket, LoanPoolError>(Bucket::spec_new(old(self).lp_resource, minted))
                        &&& final(self).lp_supply@ == old(self).lp_supply@ + minted@
                        &&& final(self).lp_per_asset_ratio == ratio
                        &&& final(self).lp_resource == old(self).lp_resource
                    }
                },
            }),
    {
        if !auth.check(self.admin_badge) {
            return Err(LoanPoolError::Unauthorized);
        }
        let saved_ratio = self.lp_per_asset_ratio;
        match self.ajust_lp_per_asset_ratio(auth, pool_amount) {
            Ok(()) => {},
            Err(e) => return Err(e),
        }
        let minted = match tokens.checked_mul(self.lp_per_asset_ratio) {
            Some(m) => m,
            None => {
                self.lp_per_asset_ratio = saved_ratio;
                return Err(LoanPoolError::Arithmetic);
            },
        };
        if minted.0 < 0 {
            self.lp_per_asset_ratio = saved_ratio;
            return Err(LoanPoolError::Arithmetic);
        }
        match self.lp_supply.checked_add(minted) {
            Some(s) => {
                self.lp_supply = s;
                Ok(Bucket::of(self.lp_resource, minted))
            },
            None => {
                self.lp_per_asset_ratio = saved_ratio;
                Err(LoanPoolError::Arithmetic)
            },
        }
    }

    /// Burns the LP tokens in `lp_tokens` and gives how many pooled tokens
    /// they stand for, at most the `pool_amount` pooled.
    pub fn remove_liquidity(&mut self, auth: Proof, lp_tokens: Bucket, pool_amount: Decimal) -> (r: Result<Decimal, LoanPoolError>)
        ensures
            !(auth.shows(old(self).admin_badge)) ==> r == Err::<Decimal, LoanPoolError>(LoanPoolError::Unauthorized) && *final(self) == *old(self),
            r is Err ==> *final(self) == *old(self),
            (auth.shows(old(self).admin_badge)) ==> (r is Ok ==> final(self).lp_symbol == old(self).lp_symbol && final(self).lp_name == old(self).lp_name && final(self).admin_badge == old(self).admin_badge
                && final(self).lp_resource == old(self).lp_resource),
            (auth.shows(old(self).admin_badge)) ==> (match adjusted_ratio(old(self).lp_supply, pool_amount) {
                None => r == Err::<Decimal, LoanPoolError>(LoanPoolError::Arithmetic),
                Some(ratio) => if lp_tokens.res() != old(self).lp_resource {
                    r == Err::<Decimal, LoanPoolError>(LoanPoolError::WrongToken)
                } else if ratio@ == 0 {
                    r == Err::<Decimal, LoanPoolError>(LoanPoolError::Arithmetic)
                } else {
                    match dec_of(ddiv(lp_tokens.amt()@, ratio@)) {
                        None => r == Err::<Decimal, LoanPoolError>(LoanPoolError::Arithmetic),
                        Some(to_remove) => if dec_of(old(self).lp_supply@ - lp_tokens.amt()@) is None {
                            r == Err::<Decimal, LoanPoolError>(LoanPoolError::Arithmetic)
                        } else {
                            &&& r == Ok::<Decimal, LoanPoolError>(
                                if to_remove@ <= pool_amount@ {
                                    to_remove
                                } else {
                                    pool_amount
                                },
                            )
                            &&& final(self).lp_supply@ == old(self).lp_supply@ - lp_tokens.amt()@
                            &&& final(self).lp_per_asset_ratio@ == (if pool_amount@ == 0 {
                                dec_one()
                            } else {
                                ratio@
                            })
                        },
                    }
                },
            }),
    {
        if !auth.check(self.admin_badge) {
            return Err(LoanPoolError::Unauthorized);
        }
        let saved_ratio = self.lp_per_asset_ratio;
        match self.ajust_lp_per_asset_ratio(auth, pool_amount) {
            Ok(()) => {},
            Err(e) => return Err(e),
        }
        if lp_tokens.resource_address() != self.lp_resource {
            self.lp_per_asset_ratio = saved_ratio;
            return Err(LoanPoolError::WrongToken);
        }
        let to_remove = match lp_tokens.amount().checked_div(self.lp_per_asset_ratio) {
            Some(x) => x,
            None => {
                self.lp_per_asset_ratio = saved_ratio;
                return Err(LoanPoolError::Arithmetic);
            },
        };
        let withdrawn = if to_remove.0 <= pool_amount.0 {
            to_remove
        } else {
            pool_amount
        };
        let supply = match self.lp_supply.checked_sub(lp_tokens.amount()) {
            Some(s) => s,
            None => {
                self.lp_per_asset_ratio = saved_ratio;
                return Err(LoanPoolError::Arithmetic);
            },
        };
        self.lp_supply = supply;
        if pool_amount.0 == 0 {
            self.lp_per_asset_ratio = Decimal(1_000_000_000_000_000_000);
        }
        Ok(withdrawn)
    }
}

/// A flash loan pool at a fee of one percent whose liquidity is counted by
/// a pool manager's LP tokens.
pub struct FlashLoanService {
    pub flashloanpool: FlashLoanPool,
    pub poolmanager: PoolManager,
}

impl FlashLoanService {
    /// A proof of the pool's admin badge, which the service holds.
    fn pool_admin_proof(&self) -> (r: Proof)
        ensures
            r.shows(self.flashloanpool.admin_badge),
    {
        Proof { resource: self.flashloanpool.admin_badge, amount: Decimal(1_000_000_000_000_000_000) }
    }

    /// A proof of the manager's admin badge, which the service holds.
    fn manager_admin_proof(&self) -> (r: Proof)
        ensures
            r.shows(self.poolmanager.admin_badge),
    {
        Proof { resource: self.poolmanager.admin_badge, amount: Decimal(1_000_000_000_000_000_000) }
    }

    /// A service for `pool_resource`, lending at one percent; the pool's
    /// promises, the LP tokens and the two admin badges are of the given
    /// resources.
    pub fn new(
        pool_resource: ResourceAddress,
        lp_symbol: String,
        lp_name: String,
        transient_resource: ResourceAddress,
        lp_resource: ResourceAddress,
        pool_admin_badge: ResourceAddress,
        manager_admin_badge: ResourceAddress,
    ) -> (r: FlashLoanService)
        ensures
            r.flashloanpool == (FlashLoanPool {
                admin_badge: pool_admin_badge,
                loan_fee_rate: Decimal(10_000_000_000_000_000),
                resource: pool_resource,
                liquidity: Decimal(0),
                transient_resource,
            }),
            r.poolmanager.admin_badge == manager_admin_badge,
            r.poolmanager.lp_resource == lp_resource,
            r.poolmanager.lp_supply@ == 0,
            r.poolmanager.lp_per_asset_ratio@ == dec_one(),
    {
        let flashloanpool = FlashLoanPool {
            admin_badge: pool_admin_badge,
            loan_fee_rate: Decimal(10_000_000_000_000_000),
            resource: pool_resource,
            liquidity: Decimal(0),
            transient_resource,
        };
        let (poolmanager, _badge) = PoolManager::new(lp_symbol, lp_name, lp_resource, manager_admin_badge);
        FlashLoanService { flashloanpool, poolmanager }
    }

    /// Adds the tokens in `tokens` to the pool and gives the LP tokens for
    /// them, priced at the pool's liquidity before.
    pub fn add_liquidity(&mut self, tokens: Bucket) -> (r: Result<Bucket, LoanPoolError>)
        ensures
            r is Err ==> *final(self) == *old(self),
            ({
                let pool = old(self).flashloanpool.liquidity;
                let supply = old(self).poolmanager.lp_supply;
                if tokens.res() != old(self).flashloanpool.resource {
                    r == Err::<Bucket, LoanPoolError>(LoanPoolError::WrongResource)
                } else if dec_of(pool@ + tokens.amt()@) is None {
                    r == Err::<Bucket, LoanPoolError>(LoanPoolError::Arithmetic)
                } else {
                    match adjusted_ratio(supply, pool) {
                        None => r == Err::<Bucket, LoanPoolError>(LoanPoolError::Arithmetic),
                        Some(ratio) => match dec_of(dmul(tokens.amt()@, ratio@)) {
                            None => r == Err::<Bucket, LoanPoolError>(LoanPoolError::Arithmetic),
                            Some(minted) => if minted@ < 0 || dec_of(supply@ + minted@) is None {
                                r == Err::<Bucket, LoanPoolError>(LoanPoolError::Arithmetic)
                            } else {
                                &&& r == Ok::<Bucket, LoanPoolError>(
                                    Bucket::spec_new(old(self).poolmanager.lp_resource, minted),
                                )
                                &&& final(self).flashloanpool == (FlashLoanPool {
                                    liquidity: Decimal((pool@ + tokens.amt()@) as i128),
                                    ..old(self).flashloanpool
                                })
                                &&& final(self).poolmanager.lp_supply@ == supply@ + minted@
                                &&& final(self).poolmanager.lp_per_asset_ratio == ratio
                                &&& final(self).poolmanager.lp_resource == old(self).poolmanager.lp_resource
                                &&& final(self).poolmanager.lp_symbol == old(self).poolmanager.lp_symbol
                                &&& final(self).poolmanager.lp_name == old(self).poolmanager.lp_name
                                &&& final(self).poolmanager.admin_badge == old(self).poolmanager.admin_badge
                            },
                        },
                    }
                }
            }),
    {
        let total = self.flashloanpool.available_liquidity();
        let amount = tokens.amount();
        let saved = self.flashloanpool;
        match self.flashloanpool.add_liquidity(self.pool_admin_proof(), tokens) {
            Ok(()) => {},
            Err(e) => return Err(e),
        }
        match self.poolmanager.add_liquidity(self.manager_admin_proof(), amount, total) {
            Ok(lp) => Ok(lp),
            Err(e) => {
                self.flashloanpool = saved;
                Err(e)
            },
        }
    }

    /// Burns the LP tokens in `lp_tokens` and gives the pooled tokens they
    /// stand for.
    pub fn remove_liquidity(&mut self, lp_tokens: Bucket) -> (r: Result<Bucket, LoanPoolError>)
        ensures
            r is Err ==> *final(self) == *old(self),
            ({
                let pool = old(self).flashloanpool.liquidity;
                let supply = old(self).poolmanager.lp_supply;
                match adjusted_ratio(supply, pool) {
                    None => r == Err::<Bucket, LoanPoolError>(LoanPoolError::Arithmetic),
                    Some(ratio) => if lp_tokens.res() != old(self).poolmanager.lp_resource {
                        r == Err::<Bucket, LoanPoolError>(LoanPoolError::WrongToken)
                    } else if ratio@ == 0 {
                        r == Err::<Bucket, LoanPoolError>(LoanPoolError::Arithmetic)
                    } else {
                        match dec_of(ddiv(lp_tokens.amt()@, ratio@)) {
                            None => r == Err::<Bucket, LoanPoolError>(LoanPoolError::Arithmetic),
                            Some(to_remove) => {
                                let out = if to_remove@ <= pool@ {
                                    to_remove
                                } else {
                                    pool
                                };
                                if dec_of(supply@ - lp_tokens.amt()@) is None {
                                    r == Err::<Bucket, LoanPoolError>(LoanPoolError::Arithmetic)
                                } else if out@ < 0 {
                                    r == Err::<Bucket, LoanPoolError>(LoanPoolError::NotEnoughLiquidity)
                                } else {
                                    &&& r == Ok::<Bucket, LoanPoolError>(
                                        Bucket::spec_new(old(self).flashloanpool.resource, out),
                                    )
                                    &&& final(self).flashloanpool == (FlashLoanPool {
                                        liquidity: Decimal((pool@ - out@) as i128),
                                        ..old(self).flashloanpool
                                    })
                                    &&& final(self).poolmanager.lp_supply@ == supply@ - lp_tokens.amt()@
                                    &&& final(self).poolmanager.lp_per_asset_ratio@ == (if pool@ == 0 {
                                        dec_one()
                                    } else {
                                        ratio@
                                    })
                                    &&& final(self).poolmanager.lp_resource == old(self).poolmanager.lp_resource
                                    &&& final(self).poolmanager.lp_symbol == old(self).poolmanager.lp_symbol
                                    &&& final(self).poolmanager.lp_name == old(self).poolmanager.lp_name
                                &&& final(self).poolmanager.admin_badge == old(self).poolmanager.admin_badge
                                }
                            },
                        }
                    },
                }
            }),
    {
        let total = self.flashloanpool.available_liquidity();
        let saved_supply = self.poolmanager.lp_supply;
        let saved_ratio = self.poolmanager.lp_per_asset_ratio;
        let amount = match self.poolmanager.remove_liquidity(self.manager_admin_proof(), lp_tokens, total) {
            Ok(a) => a,
            Err(e) => return Err(e),
        };
        match self.flashloanpool.remove_liquidity(self.pool_admin_proof(), amount) {
            Ok(b) => Ok(b),
            Err(e) => {
                self.poolmanager.lp_supply = saved_supply;
                self.poolmanager.lp_per_asset_ratio = saved_ratio;
                Err(e)
            },
        }
    }

    /// Adds `tokens` to the pool without minting LP tokens, as a fee earned
    /// would.
    pub fn simulate_fee(&mut self, tokens: Bucket) -> (r: Result<(), LoanPoolError>)
        ensures
            final(self).poolmanager == old(self).poolmanager,
            match r {
                Ok(()) => final(self).flashloanpool.liquidity@ == old(self).flashloanpool.liquidity@ + tokens.amt()@
                    && tokens.res() == old(self).flashloanpool.resource,
                Err(_) => final(self).flashloanpool == old(self).flashloanpool,
            },
    {
        self.flashloanpool.add_liquidity(self.pool_admin_proof(), tokens)
    }
}

} // verus!
