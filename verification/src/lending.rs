//! A lending pool of one reserve resource: users deposit to earn interest
//! and borrow against their deposits; loans are handed out with a transient
//! token of the amount due, which must come back with the repayment.
//! Interest accrues per epoch, counted from the last update plus one.
use vstd::prelude::*;
use crate::bignum::{abs, in_i128, tdiv};
use crate::decimal::{dec_of, dec_one, Decimal, ONE_UNITS, opt_add, opt_div, opt_mul, opt_sub};
use crate::resource::{group_bucket, Bucket, Proof, ResourceAddress};

verus! {

broadcast use group_bucket;

/// Why the lending pool refuses a request.
#[derive(Clone, Copy, Debug, PartialEq, Eq, Structural)]
pub enum LendError {
    /// The proof shows no user badge.
    InvalidProof,
    /// No user with this id.
    UserNotFound,
    /// The user's collateral ratio would fall below the minimum.
    CollateralRatioTooLow,
    /// The user is not under-collateralized.
    LiquidationNotAllowed,
    /// The user has no loan.
    NoBorrow,
    /// The repayment exceeds the share of the debt that may be liquidated.
    MaxLiquidationExceeded,
    /// A liquidation must cover the debt without change.
    LiquidationLeavesChange,
    /// The loan terms are not the pool's transient token.
    InvalidLoanTerms,
    /// The repayment is less than the amount due.
    InsufficientRepayment,
    /// The bucket holds another resource than the reserve.
    ResourceMismatch,
    /// The pool holds less than must be paid out.
    InsufficientLiquidity,
    /// A negative amount would be taken out of a vault or a bucket.
    InvalidAmount,
    /// A computation divides by zero or leaves the decimal range.
    Arithmetic,
}

/// A user's account: deposit and loan, each with its interest rate and the
/// epoch it was last brought up to date.
#[derive(Clone, Copy, Debug, PartialEq, Eq, Structural)]
pub struct User {
    pub deposit_balance: Decimal,
    pub deposit_interest_rate: Decimal,
    pub deposit_last_update: u64,
    pub borrow_balance: Decimal,
    pub borrow_interest_rate: Decimal,
    pub borrow_last_update: u64,
}

/// The epochs of interest from `last` to `now`: one more than their
/// difference.
pub open spec fn elapsed(now: u64, last: u64) -> int {
    now - last + 1
}

/// Whether `now` is an epoch from which interest since `last` can be
/// counted: not before it, and short of overflowing the count.
pub open spec fn epoch_ok(now: u64, last: u64) -> bool {
    last <= now && now - last < u64::MAX
}

/// `balance * rate * epochs`, each product rounded toward zero.
pub open spec fn interest(balance: Decimal, rate: Decimal, epochs: int) -> Option<Decimal> {
    opt_mul(opt_mul(Some(balance), Some(rate)), dec_of(epochs * dec_one()))
}

/// A balance with its interest added.
pub open spec fn accrued(balance: Decimal, rate: Decimal, epochs: int) -> Option<Decimal> {
    opt_add(Some(balance), interest(balance, rate, epochs))
}

/// The rate of a balance and an addition to it, weighted by their sizes.
pub open spec fn blended_rate(balance: Decimal, rate: Decimal, amount: Decimal, new_rate: Decimal) -> Option<Decimal> {
    opt_div(
        opt_add(opt_mul(Some(balance), Some(rate)), opt_mul(Some(amount), Some(new_rate))),
        opt_add(Some(balance), Some(amount)),
    )
}

/// The collateral ratio of a user: deposit over loan, both with interest;
/// `None` inside when there is no loan.
pub open spec fn collateral_ratio(u: User, now: u64) -> Option<Option<Decimal>> {
    if u.borrow_balance@ == 0 {
        Some(None)
    } else {
        match opt_div(
            accrued(u.deposit_balance, u.deposit_interest_rate, elapsed(now, u.deposit_last_update)),
            accrued(u.borrow_balance, u.borrow_interest_rate, elapsed(now, u.borrow_last_update)),
        ) {
            Some(r) => Some(Some(r)),
            None => None,
        }
    }
}

/// A deposit of `amount` at `rate`: interest so far is added, the rate
/// becomes the weighted one, and the amount is added.
pub open spec fn deposit_spec(u: User, amount: Decimal, rate: Decimal, now: u64) -> Option<User> {
    match accrued(u.deposit_balance, u.deposit_interest_rate, elapsed(now, u.deposit_last_update)) {
        None => None,
        Some(b) => match (blended_rate(b, u.deposit_interest_rate, amount, rate), opt_add(Some(b), Some(amount))) {
            (Some(r), Some(b2)) => Some(User { deposit_balance: b2, deposit_interest_rate: r, deposit_last_update: now, ..u }),
            _ => None,
        },
    }
}

/// A loan of `amount` at `rate`, in the same way as a deposit.
pub open spec fn borrow_spec(u: User, amount: Decimal, rate: Decimal, now: u64) -> Option<User> {
    match accrued(u.borrow_balance, u.borrow_interest_rate, elapsed(now, u.borrow_last_update)) {
        None => None,
        Some(b) => match (blended_rate(b, u.borrow_interest_rate, amount, rate), opt_add(Some(b), Some(amount))) {
            (Some(r), Some(b2)) => Some(User { borrow_balance: b2, borrow_interest_rate: r, borrow_last_update: now, ..u }),
            _ => None,
        },
    }
}

/// A repayment of `amount`: the loan with interest is reduced by it; what
/// exceeds the loan is handed back and the loan is closed.
pub open spec fn repay_spec(u: User, amount: Decimal, now: u64) -> Option<(User, Decimal)> {
    match accrued(u.borrow_balance, u.borrow_interest_rate, elapsed(now, u.borrow_last_update)) {
        None => None,
        Some(b) => if b@ < amount@ {
            match dec_of(amount@ - b@) {
                Some(c) => Some((User { borrow_balance: Decimal(0), borrow_interest_rate: Decimal(0), borrow_last_update: now, ..u }, c)),
                None => None,
            }
        } else {
            match dec_of(b@ - amount@) {
                Some(d) => Some((User { borrow_balance: d, borrow_last_update: now, ..u }, Decimal(0))),
                None => None,
            }
        },
    }
}

impl User {
    /// The epochs of interest on the deposit.
    pub fn deposit_time_elapsed(&self, now: u64) -> (r: u64)
        requires
            epoch_ok(now, self.deposit_last_update),
        ensures
            r == elapsed(now, self.deposit_last_update),
    {
        now - self.deposit_last_update + 1
    }

    /// The epochs of interest on the loan.
    pub fn borrow_time_elapsed(&self, now: u64) -> (r: u64)
        requires
            epoch_ok(now, self.borrow_last_update),
        ensures
            r == elapsed(now, self.borrow_last_update),
    {
        now - self.borrow_last_update + 1
    }

    fn checked_accrued(balance: Decimal, rate: Decimal, epochs: u64) -> (r: Option<Decimal>)
        ensures
            r == accrued(balance, rate, epochs as int),
    {
        let t = Decimal((epochs as i128) * ONE_UNITS);
        match balance.checked_mul(rate) {
            Some(p) => match p.checked_mul(t) {
                Some(i) => balance.checked_add(i),
                None => None,
            },
            None => None,
        }
    }

    fn checked_blend(balance: Decimal, rate: Decimal, amount: Decimal, new_rate: Decimal) -> (r: Option<Decimal>)
        ensures
            r == blended_rate(balance, rate, amount, new_rate),
    {
        let a = match balance.checked_mul(rate) {
            Some(v) => v,
            None => return None,
        };
        let b = match amount.checked_mul(new_rate) {
            Some(v) => v,
            None => return None,
        };
        let n = match a.checked_add(b) {
            Some(v) => v,
            None => return None,
        };
        let d = match balance.checked_add(amount) {
            Some(v) => v,
            None => return None,
        };
        n.checked_div(d)
    }

    /// The collateral ratio: deposit over loan, both with interest; `None`
    /// when there is no loan.
    pub fn get_collateral_ratio(&self, now: u64) -> (r: Result<Option<Decimal>, LendError>)
        requires
            self.borrow_balance@ != 0 ==> epoch_ok(now, self.deposit_last_update) && epoch_ok(now, self.borrow_last_update),
        ensures
            match collateral_ratio(*self, now) {
                Some(v) => r == Ok::<Option<Decimal>, LendError>(v),
                None => r == Err::<Option<Decimal>, LendError>(LendError::Arithmetic),
            },
    {
        if self.borrow_balance.is_zero() {
            return Ok(None);
        }
        let collateral = Self::checked_accrued(self.deposit_balance, self.deposit_interest_rate, self.deposit_time_elapsed(now));
        let loan = Self::checked_accrued(self.borrow_balance, self.borrow_interest_rate, self.borrow_time_elapsed(now));
        match (collateral, loan) {
            (Some(c), Some(l)) => match c.checked_div(l) {
                Some(q) => Ok(Some(q)),
                None => Err(LendError::Arithmetic),
            },
            _ => Err(LendError::Arithmetic),
        }
    }

    /// Refuses a collateral ratio below `min_collateral_ratio`; a user
    /// without a loan passes.
    pub fn check_collateral_ratio(&self, min_collateral_ratio: Decimal, now: u64) -> (r: Result<(), LendError>)
        requires
            self.borrow_balance@ != 0 ==> epoch_ok(now, self.deposit_last_update) && epoch_ok(now, self.borrow_last_update),
        ensures
            match collateral_ratio(*self, now) {
                None => r == Err::<(), LendError>(LendError::Arithmetic),
                Some(None) => r == Ok::<(), LendError>(()),
                Some(Some(q)) => if q@ >= min_collateral_ratio@ {
                    r == Ok::<(), LendError>(())
                } else {
                    r == Err::<(), LendError>(LendError::CollateralRatioTooLow)
                },
            },
    {
        match self.get_collateral_ratio(now)? {
            Some(q) => if q.0 >= min_collateral_ratio.0 {
                Ok(())
            } else {
                Err(LendError::CollateralRatioTooLow)
            },
            None => Ok(()),
        }
    }

    /// Adds a deposit of `amount` at `interest_rate`.
    pub fn on_deposit(&mut self, amount: Decimal, interest_rate: Decimal, now: u64) -> (r: Result<(), LendError>)
        requires
            epoch_ok(now, old(self).deposit_last_update),
        ensures
            match deposit_spec(*old(self), amount, interest_rate, now) {
                Some(u) => r is Ok && *final(self) == u,
                None => r == Err::<(), LendError>(LendError::Arithmetic) && *final(self) == *old(self),
            },
    {
        let b = match Self::checked_accrued(self.deposit_balance, self.deposit_interest_rate, self.deposit_time_elapsed(now)) {
            Some(v) => v,
            None => return Err(LendError::Arithmetic),
        };
        let rate = match Self::checked_blend(b, self.deposit_interest_rate, amount, interest_rate) {
            Some(v) => v,
            None => return Err(LendError::Arithmetic),
        };
        let b2 = match b.checked_add(amount) {
            Some(v) => v,
            None => return Err(LendError::Arithmetic),
        };
        self.deposit_balance = b2;
        self.deposit_interest_rate = rate;
        self.deposit_last_update = now;
        Ok(())
    }

    /// Takes `amount` off the deposit and returns it with its interest.
    pub fn on_redeem(&mut self, amount: Decimal, now: u64) -> (r: Result<Decimal, LendError>)
        requires
            epoch_ok(now, old(self).deposit_last_update),
        ensures
            match (dec_of(old(self).deposit_balance@ - amount@), accrued(amount, old(self).deposit_interest_rate, elapsed(now, old(self).deposit_last_update))) {
                (Some(b), Some(v)) => r == Ok::<Decimal, LendError>(v) && *final(self) == (User { deposit_balance: b, ..*old(self) }),
                _ => r == Err::<Decimal, LendError>(LendError::Arithmetic) && *final(self) == *old(self),
            },
    {
        let b = match self.deposit_balance.checked_sub(amount) {
            Some(v) => v,
            None => return Err(LendError::Arithmetic),
        };
        let v = match Self::checked_accrued(amount, self.deposit_interest_rate, self.deposit_time_elapsed(now)) {
            Some(v) => v,
            None => return Err(LendError::Arithmetic),
        };
        self.deposit_balance = b;
        Ok(v)
    }

    /// Adds a loan of `amount` at `interest_rate`.
    pub fn on_borrow(&mut self, amount: Decimal, interest_rate: Decimal, now: u64) -> (r: Result<(), LendError>)
        requires
            epoch_ok(now, old(self).borrow_last_update),
        ensures
            match borrow_spec(*old(self), amount, interest_rate, now) {
                Some(u) => r is Ok && *final(self) == u,
                None => r == Err::<(), LendError>(LendError::Arithmetic) && *final(self) == *old(self),
            },
    {
        let b = match Self::checked_accrued(self.borrow_balance, self.borrow_interest_rate, self.borrow_time_elapsed(now)) {
            Some(v) => v,
            None => return Err(LendError::Arithmetic),
        };
        let rate = match Self::checked_blend(b, self.borrow_interest_rate, amount, interest_rate) {
            Some(v) => v,
            None => return Err(LendError::Arithmetic),
        };
        let b2 = match b.checked_add(amount) {
            Some(v) => v,
            None => return Err(LendError::Arithmetic),
        };
        self.borrow_balance = b2;
        self.borrow_interest_rate = rate;
        self.borrow_last_update = now;
        Ok(())
    }

    /// Repays `amount` of the loan with its interest; returns what exceeds
    /// the loan. What is repaid and not returned is exactly what the loan
    /// goes down by.
    pub fn on_repay(&mut self, amount: Decimal, now: u64) -> (r: Result<Decimal, LendError>)
        requires
            epoch_ok(now, old(self).borrow_last_update),
        ensures
            match repay_spec(*old(self), amount, now) {
                Some((u, c)) => r == Ok::<Decimal, LendError>(c) && *final(self) == u,
                None => r == Err::<Decimal, LendError>(LendError::Arithmetic) && *final(self) == *old(self),
            },
            r matches Ok(c) ==> accrued(old(self).borrow_balance, old(self).borrow_interest_rate, elapsed(now, old(self).borrow_last_update))
                matches Some(b) && b@ - final(self).borrow_balance@ == amount@ - c@,
    {
        let b = match Self::checked_accrued(self.borrow_balance, self.borrow_interest_rate, self.borrow_time_elapsed(now)) {
            Some(v) => v,
            None => return Err(LendError::Arithmetic),
        };
        if b.0 < amount.0 {
            let c = match amount.checked_sub(b) {
                Some(v) => v,
                None => return Err(LendError::Arithmetic),
            };
            self.borrow_balance = Decimal(0);
            self.borrow_interest_rate = Decimal(0);
            self.borrow_last_update = now;
            Ok(c)
        } else {
            let d = match b.checked_sub(amount) {
                Some(v) => v,
                None => return Err(LendError::Arithmetic),
            };
            self.borrow_balance = d;
            self.borrow_last_update = now;
            Ok(Decimal(0))
        }
    }

    /// Repays `amount` of the loan on the user's behalf and takes it, with
    /// the bonus, off the deposit; returns what is taken.
    pub fn on_liquidate(&mut self, amount: Decimal, bonus_percent: Decimal, now: u64) -> (r: Result<Decimal, LendError>)
        requires
            epoch_ok(now, old(self).borrow_last_update),
        ensures
            match repay_spec(*old(self), amount, now) {
                None => r == Err::<Decimal, LendError>(LendError::Arithmetic) && *final(self) == *old(self),
                Some((u, c)) => if c@ != 0 {
                    r == Err::<Decimal, LendError>(LendError::LiquidationLeavesChange) && *final(self) == *old(self)
                } else {
                    match opt_mul(Some(amount), dec_of(bonus_percent@ + dec_one())) {
                        None => r == Err::<Decimal, LendError>(LendError::Arithmetic) && *final(self) == *old(self),
                        Some(t) => match dec_of(u.deposit_balance@ - t@) {
                            None => r == Err::<Decimal, LendError>(LendError::Arithmetic) && *final(self) == *old(self),
                            Some(d) => r == Ok::<Decimal, LendError>(t) && *final(self) == (User { deposit_balance: d, ..u }),
                        },
                    }
                },
            },
    {
        let saved = *self;
        let c = match self.on_repay(amount, now) {
            Ok(c) => c,
            Err(e) => return Err(e),
        };
        if c.0 != 0 {
            *self = saved;
            return Err(LendError::LiquidationLeavesChange);
        }
        let factor = match bonus_percent.checked_add(Decimal(ONE_UNITS)) {
            Some(v) => v,
            None => {
                *self = saved;
                return Err(LendError::Arithmetic);
            },
        };
        let t = match amount.checked_mul(factor) {
            Some(v) => v,
            None => {
                *self = saved;
                return Err(LendError::Arithmetic);
            },
        };
        let d = match self.deposit_balance.checked_sub(t) {
            Some(v) => v,
            None => {
                *self = saved;
                return Err(LendError::Arithmetic);
            },
        };
        self.deposit_balance = d;
        Ok(t)
    }
}

/// The transient token that comes with a loan: it cannot be deposited, so
/// it must come back, and be burnt, with the repayment.
#[derive(Clone, Copy, Debug, PartialEq, Eq, Structural)]
pub struct LoanDue {
    pub amount_due: Decimal,
}

/// A loan token as handed out: its resource and its data.
#[derive(Clone, Copy, Debug, PartialEq, Eq, Structural)]
pub struct LoanTerms {
    pub resource: ResourceAddress,
    pub data: LoanDue,
}

/// A user's account under the resource address of their badge.
#[derive(Clone, Copy, Debug, PartialEq, Eq, Structural)]
pub struct UserEntry {
    pub id: ResourceAddress,
    pub user: User,
}

/// The position of the account of `id`.
pub open spec fn user_index(s: Seq<UserEntry>, id: ResourceAddress) -> Option<int> {
    if exists|i: int| 0 <= i < s.len() && (#[trigger] s[i]).id == id {
        Some(choose|i: int| 0 <= i < s.len() && (#[trigger] s[i]).id == id)
    } else {
        None
    }
}

/// The accounts after the account of `id` is set to `u`.
pub open spec fn upsert(s: Seq<UserEntry>, id: ResourceAddress, u: User) -> Seq<UserEntry> {
    match user_index(s, id) {
        Some(i) => s.update(i, UserEntry { id, user: u }),
        None => s.push(UserEntry { id, user: u }),
    }
}

/// The accounts and the reserve the pool holds.
pub ghost struct LendState {
    pub users: Seq<UserEntry>,
    pub pool: Decimal,
}

/// The account of a user, identified by the badge a proof shows.
pub open spec fn user_of(st: LendState, proof: Proof) -> Result<User, LendError> {
    if proof.amount@ <= 0 {
        Err(LendError::InvalidProof)
    } else {
        match user_index(st.users, proof.resource) {
            None => Err(LendError::UserNotFound),
            Some(i) => Ok(st.users[i].user),
        }
    }
}

/// Whether the collateral ratio of `u` can be computed at `now`.
pub open spec fn ratio_epochs_ok(u: User, now: u64) -> bool {
    u.borrow_balance@ != 0 ==> epoch_ok(now, u.deposit_last_update) && epoch_ok(now, u.borrow_last_update)
}

/// The outcome of the collateral check of `u` against `min`.
pub open spec fn ratio_check(u: User, min: Decimal, now: u64) -> Result<(), LendError> {
    if !ratio_epochs_ok(u, now) {
        Err(LendError::Arithmetic)
    } else {
        match collateral_ratio(u, now) {
            None => Err(LendError::Arithmetic),
            Some(None) => Ok(()),
            Some(Some(q)) => if q@ >= min@ {
                Ok(())
            } else {
                Err(LendError::CollateralRatioTooLow)
            },
        }
    }
}

/// Taking `amount` out of the pool.
pub open spec fn pool_take(st: LendState, amount: Decimal) -> Result<Decimal, LendError> {
    if amount@ < 0 {
        Err(LendError::InvalidAmount)
    } else if amount@ > st.pool@ {
        Err(LendError::InsufficientLiquidity)
    } else {
        Ok(Decimal((st.pool@ - amount@) as i128))
    }
}

/// A deposit of `tokens` by the user behind `proof`: the pool after it.
pub open spec fn deposit_tx(st: LendState, reserve: ResourceAddress, rate: Decimal, proof: Proof, tokens: Bucket, now: u64) -> Result<
    LendState,
    LendError,
> {
    if proof.amount@ <= 0 {
        Err(LendError::InvalidProof)
    } else {
        let amount = tokens.amt();
        let nu = match user_index(st.users, proof.resource) {
            Some(i) => if !epoch_ok(now, st.users[i].user.deposit_last_update) {
                Err(LendError::Arithmetic)
            } else {
                match deposit_spec(st.users[i].user, amount, rate, now) {
                    Some(u2) => Ok(u2),
                    None => Err(LendError::Arithmetic),
                }
            },
            None => Ok(User {
                deposit_balance: amount,
                deposit_interest_rate: rate,
                deposit_last_update: now,
                borrow_balance: Decimal(0),
                borrow_interest_rate: Decimal(0),
                borrow_last_update: now,
            }),
        };
        match nu {
            Err(e) => Err(e),
            Ok(u2) => if tokens.res() != reserve {
                Err(LendError::ResourceMismatch)
            } else {
                match dec_of(st.pool@ + amount@) {
                    None => Err(LendError::Arithmetic),
                    Some(p) => Ok(LendState { users: upsert(st.users, proof.resource, u2), pool: p }),
                }
            },
        }
    }
}

/// A redemption of `amount` of the deposit: the pool after it and what is
/// paid out, the amount with its interest.
pub open spec fn redeem_tx(st: LendState, min: Decimal, proof: Proof, amount: Decimal, now: u64) -> Result<(LendState, Decimal), LendError> {
    match user_of(st, proof) {
        Err(e) => Err(e),
        Ok(u) => if !epoch_ok(now, u.deposit_last_update) {
            Err(LendError::Arithmetic)
        } else {
            match (dec_of(u.deposit_balance@ - amount@), accrued(amount, u.deposit_interest_rate, elapsed(now, u.deposit_last_update))) {
                (Some(b), Some(v)) => {
                    let u1 = User { deposit_balance: b, ..u };
                    match ratio_check(u1, min, now) {
                        Err(e) => Err(e),
                        Ok(_) => match pool_take(st, v) {
                            Err(e) => Err(e),
                            Ok(p) => Ok((LendState { users: upsert(st.users, proof.resource, u1), pool: p }, v)),
                        },
                    }
                },
                _ => Err(LendError::Arithmetic),
            }
        },
    }
}

/// A loan of `requested`: the pool after it and the loan token.
pub open spec fn borrow_tx(st: LendState, rate: Decimal, min: Decimal, transient: ResourceAddress, proof: Proof, requested: Decimal, now: u64) -> Result<
    (LendState, LoanTerms),
    LendError,
> {
    match user_of(st, proof) {
        Err(e) => Err(e),
        Ok(u) => if !epoch_ok(now, u.borrow_last_update) {
            Err(LendError::Arithmetic)
        } else {
            match borrow_spec(u, requested, rate, now) {
                None => Err(LendError::Arithmetic),
                Some(u1) => match ratio_check(u1, min, now) {
                    Err(e) => Err(e),
                    Ok(_) => match pool_take(st, requested) {
                        Err(e) => Err(e),
                        Ok(p) => Ok((
                            LendState { users: upsert(st.users, proof.resource, u1), pool: p },
                            LoanTerms { resource: transient, data: LoanDue { amount_due: requested } },
                        )),
                    },
                },
            }
        },
    }
}

/// A repayment with `repaid` against the loan token `terms`: the pool after
/// it and the change handed back.
pub open spec fn repay_tx(st: LendState, reserve: ResourceAddress, transient: ResourceAddress, proof: Proof, repaid: Bucket, terms: LoanTerms, now: u64) -> Result<
    (LendState, Decimal),
    LendError,
> {
    if proof.amount@ <= 0 {
        Err(LendError::InvalidProof)
    } else if terms.resource != transient {
        Err(LendError::InvalidLoanTerms)
    } else if repaid.amt()@ < terms.data.amount_due@ {
        Err(LendError::InsufficientRepayment)
    } else {
        match user_index(st.users, proof.resource) {
            None => Err(LendError::UserNotFound),
            Some(i) => {
                let u = st.users[i].user;
                if !epoch_ok(now, u.borrow_last_update) {
                    Err(LendError::Arithmetic)
                } else {
                    match repay_spec(u, repaid.amt(), now) {
                        None => Err(LendError::Arithmetic),
                        Some((u1, c)) => if c@ < 0 || c@ > repaid.amt()@ {
                            Err(LendError::InvalidAmount)
                        } else if repaid.res() != reserve {
                            Err(LendError::ResourceMismatch)
                        } else {
                            match dec_of(st.pool@ + (repaid.amt()@ - c@)) {
                                None => Err(LendError::Arithmetic),
                                Some(p) => Ok((LendState { users: upsert(st.users, proof.resource, u1), pool: p }, c)),
                            }
                        },
                    }
                }
            },
        }
    }
}

/// A liquidation of the account of `user_id` with `repaid`: the pool after
/// it and what is paid out of the user's deposit.
pub open spec fn liquidate_tx(st: LendState, min: Decimal, max_liq: Decimal, user_id: ResourceAddress, repaid: Bucket, now: u64) -> Result<
    (LendState, Decimal),
    LendError,
> {
    match user_index(st.users, user_id) {
        None => Err(LendError::UserNotFound),
        Some(i) => {
            let u = st.users[i].user;
            if !ratio_epochs_ok(u, now) {
                Err(LendError::Arithmetic)
            } else {
                match collateral_ratio(u, now) {
                    None => Err(LendError::Arithmetic),
                    Some(None) => Err(LendError::NoBorrow),
                    Some(Some(q)) => if q@ > min@ {
                        Err(LendError::LiquidationNotAllowed)
                    } else {
                        match opt_mul(Some(u.borrow_balance), Some(max_liq)) {
                            None => Err(LendError::Arithmetic),
                            Some(lim) => if repaid.amt()@ > lim@ {
                                Err(LendError::MaxLiquidationExceeded)
                            } else {
                                match repay_spec(u, repaid.amt(), now) {
                                    None => Err(LendError::Arithmetic),
                                    Some((u1, c)) => if c@ != 0 {
                                        Err(LendError::LiquidationLeavesChange)
                                    } else {
                                        match opt_mul(Some(repaid.amt()), dec_of(max_liq@ + dec_one())) {
                                            None => Err(LendError::Arithmetic),
                                            Some(t) => match dec_of(u1.deposit_balance@ - t@) {
                                                None => Err(LendError::Arithmetic),
                                                Some(d) => match pool_take(st, t) {
                                                    Err(e) => Err(e),
                                                    Ok(p) => Ok((
                                                        LendState { users: upsert(st.users, user_id, User { deposit_balance: d, ..u1 }), pool: p },
                                                        t,
                                                    )),
                                                },
                                            },
                                        }
                                    },
                                }
                            },
                        }
                    },
                }
            }
        },
    }
}

/// A lending pool with one reserve resource.
pub struct AutoLend {
    pub reserve_resource: ResourceAddress,
    pub liquidity_pool: Decimal,
    pub min_collateral_ratio: Decimal,
    pub max_liquidation_percent: Decimal,
    pub liquidation_bonus: Decimal,
    pub users: Vec<UserEntry>,
    pub deposit_interest_rate: Decimal,
    pub borrow_interest_rate: Decimal,
    pub transient_resource_address: ResourceAddress,
}

impl AutoLend {
    pub open spec fn state(&self) -> LendState {
        LendState { users: self.users@, pool: self.liquidity_pool }
    }

    /// The pool is not negative and each badge has one account.
    pub open spec fn wf(&self) -> bool {
        &&& self.liquidity_pool@ >= 0
        &&& forall|i: int, j: int| 0 <= i < j < self.users@.len() ==> (#[trigger] self.users@[i]).id != (#[trigger] self.users@[j]).id
    }

    /// The parameters, which only the setters change.
    pub open spec fn same_params(&self, o: &Self) -> bool {
        &&& self.reserve_resource == o.reserve_resource
        &&& self.min_collateral_ratio == o.min_collateral_ratio
        &&& self.max_liquidation_percent == o.max_liquidation_percent
        &&& self.liquidation_bonus == o.liquidation_bonus
        &&& self.deposit_interest_rate == o.deposit_interest_rate
        &&& self.borrow_interest_rate == o.borrow_interest_rate
        &&& self.transient_resource_address == o.transient_resource_address
    }

    /// A pool of `reserve_address` with no minimum collateral ratio, half of
    /// a loan liquidatable at once with a bonus of 5%, and interest of 1% on
    /// deposits and 2% on loans per epoch.
    pub fn instantiate_autolend(reserve_address: ResourceAddress, transient_resource_address: ResourceAddress) -> (r: AutoLend)
        ensures
            r.wf(),
            r.reserve_resource == reserve_address,
            r.liquidity_pool@ == 0,
            r.min_collateral_ratio@ == 0,
            r.max_liquidation_percent@ == 500_000_000_000_000_000,
            r.liquidation_bonus@ == 50_000_000_000_000_000,
            r.users@.len() == 0,
            r.deposit_interest_rate@ == 10_000_000_000_000_000,
            r.borrow_interest_rate@ == 20_000_000_000_000_000,
            r.transient_resource_address == transient_resource_address,
    {
        AutoLend {
            reserve_resource: reserve_address,
            liquidity_pool: Decimal(0),
            min_collateral_ratio: Decimal(0),
            max_liquidation_percent: Decimal(500_000_000_000_000_000),
            liquidation_bonus: Decimal(50_000_000_000_000_000),
            users: Vec::new(),
            deposit_interest_rate: Decimal(10_000_000_000_000_000),
            borrow_interest_rate: Decimal(20_000_000_000_000_000),
            transient_resource_address,
        }
    }

    /// A new user badge: one unit of a fresh resource.
    pub fn new_user(&self, badge_resource: ResourceAddress) -> (r: Bucket)
        ensures
            r == Bucket::spec_new(badge_resource, Decimal(ONE_UNITS)),
    {
        Bucket::of(badge_resource, Decimal(ONE_UNITS))
    }

    fn find_user(&self, id: ResourceAddress) -> (r: Option<usize>)
        requires
            self.wf(),
        ensures
            match r {
                Some(i) => i < self.users@.len() && user_index(self.users@, id) == Some(i as int),
                None => user_index(self.users@, id) is None,
            },
    {
        let ghost s = self.users@;
        let mut i: usize = 0;
        while i < self.users.len()
            invariant
                i <= s.len(),
                s == self.users@,
                self.wf(),
                forall|j: int| 0 <= j < i ==> (#[trigger] s[j]).id != id,
            decreases s.len() - i,
        {
            if self.users[i].id == id {
                proof {
                    let c = choose|c: int| 0 <= c < s.len() && (#[trigger] s[c]).id == id;
                    if c > i {
                        assert(s[i as int].id != s[c].id);
                    }
                }
                return Some(i);
            }
            i = i + 1;
        }
        None
    }

    /// Sets the account of `id` to `u`, creating it when missing.
    fn store_user(&mut self, id: ResourceAddress, u: User)
        requires
            old(self).wf(),
        ensures
            final(self).wf(),
            final(self).users@ == upsert(old(self).users@, id, u),
            final(self).liquidity_pool == old(self).liquidity_pool,
            final(self).same_params(old(self)),
    {
        let ghost s = self.users@;
        match self.find_user(id) {
            Some(i) => {
                self.users.set(i, UserEntry { id, user: u });
                proof {
                    let t = self.users@;
                    assert forall|a: int, b: int| 0 <= a < b < t.len() implies (#[trigger] t[a]).id != (#[trigger] t[b]).id by {
                        assert(s[a].id != s[b].id);
                    }
                }
            },
            None => {
                self.users.push(UserEntry { id, user: u });
                proof {
                    let t = self.users@;
                    assert forall|a: int, b: int| 0 <= a < b < t.len() implies (#[trigger] t[a]).id != (#[trigger] t[b]).id by {
                        if b == s.len() {
                            assert(t[a] == s[a]);
                            if s[a].id == id {
                                assert(user_index(s, id) is Some);
                            }
                        } else {
                            assert(t[a] == s[a] && t[b] == s[b]);
                        }
                    }
                }
            },
        }
    }

    /// The account behind a proof of a user badge.
    fn user_from_proof(&self, user_auth: Proof) -> (r: Result<User, LendError>)
        requires
            self.wf(),
        ensures
            r == user_of(self.state(), user_auth),
    {
        if user_auth.amount.0 <= 0 {
            return Err(LendError::InvalidProof);
        }
        match self.find_user(user_auth.resource) {
            Some(i) => Ok(self.users[i].user),
            None => Err(LendError::UserNotFound),
        }
    }

    /// The account of `user_id`.
    pub fn get_user(&self, user_id: ResourceAddress) -> (r: Result<User, LendError>)
        requires
            self.wf(),
        ensures
            match user_index(self.users@, user_id) {
                Some(i) => r == Ok::<User, LendError>(self.users@[i].user),
                None => r == Err::<User, LendError>(LendError::UserNotFound),
            },
    {
        match self.find_user(user_id) {
            Some(i) => Ok(self.users[i].user),
            None => Err(LendError::UserNotFound),
        }
    }

    /// The deposit balance of the user behind the proof.
    pub fn check_deposit_balance(&self, user_auth: Proof) -> (r: Result<Decimal, LendError>)
        requires
            self.wf(),
        ensures
            match user_of(self.state(), user_auth) {
                Ok(u) => r == Ok::<Decimal, LendError>(u.deposit_balance),
                Err(e) => r == Err::<Decimal, LendError>(e),
            },
    {
        let u = self.user_from_proof(user_auth)?;
        Ok(u.deposit_balance)
    }

    /// Sets the interest rate of new deposits.
    pub fn set_deposit_interest_rate(&mut self, rate: Decimal)
        ensures
            *final(self) == (AutoLend { deposit_interest_rate: rate, users: final(self).users, ..*old(self) }),
            final(self).users@ == old(self).users@,
    {
        self.deposit_interest_rate = rate;
    }

    /// Sets the interest rate of new loans.
    pub fn set_borrow_interest_rate(&mut self, rate: Decimal)
        ensures
            *final(self) == (AutoLend { borrow_interest_rate: rate, users: final(self).users, ..*old(self) }),
            final(self).users@ == old(self).users@,
    {
        self.borrow_interest_rate = rate;
    }
    /// Deposits `reserve_tokens` for the user behind the proof, opening an
    /// account at the current deposit rate when there is none.
    pub fn deposit(&mut self, user_auth: Proof, reserve_tokens: Bucket, now: u64) -> (r: Result<(), LendError>)
        requires
            old(self).wf(),
        ensures
            final(self).wf(),
            final(self).same_params(old(self)),
            match deposit_tx(old(self).state(), old(self).reserve_resource, old(self).deposit_interest_rate, user_auth, reserve_tokens, now) {
                Ok(st) => r is Ok && final(self).state() == st,
                Err(e) => r == Err::<(), LendError>(e) && final(self).state() == old(self).state(),
            },
    {
        if user_auth.amount.0 <= 0 {
            return Err(LendError::InvalidProof);
        }
        let id = user_auth.resource;
        let amount = reserve_tokens.amount();
        let rate = self.deposit_interest_rate;
        let u2 = match self.find_user(id) {
            Some(i) => {
                let mut u = self.users[i].user;
                if !(u.deposit_last_update <= now && now - u.deposit_last_update < u64::MAX) {
                    return Err(LendError::Arithmetic);
                }
                u.on_deposit(amount, rate, now)?;
                u
            },
            None => User {
                deposit_balance: amount,
                deposit_interest_rate: rate,
                deposit_last_update: now,
                borrow_balance: Decimal(0),
                borrow_interest_rate: Decimal(0),
                borrow_last_update: now,
            },
        };
        if reserve_tokens.resource_address() != self.reserve_resource {
            return Err(LendError::ResourceMismatch);
        }
        let p = match self.liquidity_pool.checked_add(amount) {
            Some(v) => v,
            None => return Err(LendError::Arithmetic),
        };
        self.store_user(id, u2);
        self.liquidity_pool = p;
        Ok(())
    }

    fn checked_ratio(u: &User, min: Decimal, now: u64) -> (r: Result<(), LendError>)
        ensures
            r == ratio_check(*u, min, now),
    {
        if u.borrow_balance.0 != 0 {
            if !(u.deposit_last_update <= now && now - u.deposit_last_update < u64::MAX) {
                return Err(LendError::Arithmetic);
            }
            if !(u.borrow_last_update <= now && now - u.borrow_last_update < u64::MAX) {
                return Err(LendError::Arithmetic);
            }
        }
        u.check_collateral_ratio(min, now)
    }

    fn take_from_pool(&self, amount: Decimal) -> (r: Result<Decimal, LendError>)
        requires
            self.wf(),
        ensures
            r == pool_take(self.state(), amount),
    {
        if amount.0 < 0 {
            return Err(LendError::InvalidAmount);
        }
        if amount.0 > self.liquidity_pool.0 {
            return Err(LendError::InsufficientLiquidity);
        }
        Ok(Decimal(self.liquidity_pool.0 - amount.0))
    }

    /// Redeems `amount` of the deposit, with its interest, as long as the
    /// collateral ratio stays at the minimum or above.
    pub fn redeem(&mut self, user_auth: Proof, amount: Decimal, now: u64) -> (r: Result<Bucket, LendError>)
        requires
            old(self).wf(),
        ensures
            final(self).wf(),
            final(self).same_params(old(self)),
            match redeem_tx(old(self).state(), old(self).min_collateral_ratio, user_auth, amount, now) {
                Ok((st, v)) => r == Ok::<Bucket, LendError>(Bucket::spec_new(old(self).reserve_resource, v)) && final(self).state() == st,
                Err(e) => r == Err::<Bucket, LendError>(e) && final(self).state() == old(self).state(),
            },
    {
        let mut u = self.user_from_proof(user_auth)?;
        if !(u.deposit_last_update <= now && now - u.deposit_last_update < u64::MAX) {
            return Err(LendError::Arithmetic);
        }
        let v = u.on_redeem(amount, now)?;
        Self::checked_ratio(&u, self.min_collateral_ratio, now)?;
        let p = self.take_from_pool(v)?;
        self.store_user(user_auth.resource, u);
        self.liquidity_pool = p;
        Ok(Bucket::of(self.reserve_resource, v))
    }

    /// Lends `requested` out of the pool at the current loan rate, as long
    /// as the collateral ratio stays at the minimum or above; the loan token
    /// records the amount due.
    pub fn borrow(&mut self, user_auth: Proof, requested: Decimal, now: u64) -> (r: Result<(Bucket, LoanTerms), LendError>)
        requires
            old(self).wf(),
        ensures
            final(self).wf(),
            final(self).same_params(old(self)),
            match borrow_tx(old(self).state(), old(self).borrow_interest_rate, old(self).min_collateral_ratio, old(self).transient_resource_address, user_auth, requested, now) {
                Ok((st, t)) => r == Ok::<(Bucket, LoanTerms), LendError>((Bucket::spec_new(old(self).reserve_resource, requested), t))
                    && final(self).state() == st,
                Err(e) => r == Err::<(Bucket, LoanTerms), LendError>(e) && final(self).state() == old(self).state(),
            },
    {
        let mut u = self.user_from_proof(user_auth)?;
        if !(u.borrow_last_update <= now && now - u.borrow_last_update < u64::MAX) {
            return Err(LendError::Arithmetic);
        }
        u.on_borrow(requested, self.borrow_interest_rate, now)?;
        Self::checked_ratio(&u, self.min_collateral_ratio, now)?;
        let p = self.take_from_pool(requested)?;
        self.store_user(user_auth.resource, u);
        self.liquidity_pool = p;
        let terms = LoanTerms { resource: self.transient_resource_address, data: LoanDue { amount_due: requested } };
        Ok((Bucket::of(self.reserve_resource, requested), terms))
    }

    /// Repays a loan with `repaid`, which must cover the amount due of the
    /// loan token; what exceeds the whole debt is handed back.
    pub fn repay(&mut self, user_auth: Proof, repaid: Bucket, loan_terms: LoanTerms, now: u64) -> (r: Result<Bucket, LendError>)
        requires
            old(self).wf(),
        ensures
            final(self).wf(),
            final(self).same_params(old(self)),
            match repay_tx(old(self).state(), old(self).reserve_resource, old(self).transient_resource_address, user_auth, repaid, loan_terms, now) {
                Ok((st, c)) => r == Ok::<Bucket, LendError>(Bucket::spec_new(repaid.res(), c)) && final(self).state() == st,
                Err(e) => r == Err::<Bucket, LendError>(e) && final(self).state() == old(self).state(),
            },
    {
        if user_auth.amount.0 <= 0 {
            return Err(LendError::InvalidProof);
        }
        if loan_terms.resource != self.transient_resource_address {
            return Err(LendError::InvalidLoanTerms);
        }
        let paid = repaid.amount();
        if paid.0 < loan_terms.data.amount_due.0 {
            return Err(LendError::InsufficientRepayment);
        }
        let mut u = match self.find_user(user_auth.resource) {
            Some(i) => self.users[i].user,
            None => return Err(LendError::UserNotFound),
        };
        if !(u.borrow_last_update <= now && now - u.borrow_last_update < u64::MAX) {
            return Err(LendError::Arithmetic);
        }
        let c = u.on_repay(paid, now)?;
        if c.0 < 0 || c.0 > paid.0 {
            return Err(LendError::InvalidAmount);
        }
        if repaid.resource_address() != self.reserve_resource {
            return Err(LendError::ResourceMismatch);
        }
        let p = match self.liquidity_pool.checked_add(Decimal(paid.0 - c.0)) {
            Some(v) => v,
            None => return Err(LendError::Arithmetic),
        };
        self.store_user(user_auth.resource, u);
        self.liquidity_pool = p;
        Ok(Bucket::of(repaid.resource_address(), c))
    }

    /// Liquidates part of an under-collateralized position: `repaid` pays
    /// down the loan, and the same amount plus the bonus, taken off the
    /// user's deposit, is paid out.
    pub fn liquidate(&mut self, user_id: ResourceAddress, repaid: Bucket, now: u64) -> (r: Result<Bucket, LendError>)
        requires
            old(self).wf(),
        ensures
            final(self).wf(),
            final(self).same_params(old(self)),
            match liquidate_tx(old(self).state(), old(self).min_collateral_ratio, old(self).max_liquidation_percent, user_id, repaid, now) {
                Ok((st, t)) => r == Ok::<Bucket, LendError>(Bucket::spec_new(old(self).reserve_resource, t)) && final(self).state() == st,
                Err(e) => r == Err::<Bucket, LendError>(e) && final(self).state() == old(self).state(),
            },
    {
        let mut u = match self.find_user(user_id) {
            Some(i) => self.users[i].user,
            None => return Err(LendError::UserNotFound),
        };
        if u.borrow_balance.0 != 0 {
            if !(u.deposit_last_update <= now && now - u.deposit_last_update < u64::MAX) {
                return Err(LendError::Arithmetic);
            }
            if !(u.borrow_last_update <= now && now - u.borrow_last_update < u64::MAX) {
                return Err(LendError::Arithmetic);
            }
        }
        match u.get_collateral_ratio(now)? {
            Some(q) => if q.0 > self.min_collateral_ratio.0 {
                return Err(LendError::LiquidationNotAllowed);
            },
            None => return Err(LendError::NoBorrow),
        }
        let lim = match u.borrow_balance.checked_mul(self.max_liquidation_percent) {
            Some(v) => v,
            None => return Err(LendError::Arithmetic),
        };
        let amount = repaid.amount();
        if amount.0 > lim.0 {
            return Err(LendError::MaxLiquidationExceeded);
        }
        let t = u.on_liquidate(amount, self.max_liquidation_percent, now)?;
        let p = self.take_from_pool(t)?;
        self.store_user(user_id, u);
        self.liquidity_pool = p;
        Ok(Bucket::of(self.reserve_resource, t))
    }
}

/// Truncating `z * 10^18` back by `10^18` gives `z` again.
proof fn lemma_tdiv_scaled(z: int)
    ensures
        tdiv(z * dec_one(), dec_one()) == z,
{
    let u = dec_one();
    assert(abs(z * u) == abs(z) * u) by (nonlinear_arith)
        requires
            u > 0,
            abs(z) == (if z < 0 { -z } else { z }),
            abs(z * u) == (if z * u < 0 { -(z * u) } else { z * u }),
    {
        if z < 0 {
            assert(z * u < 0) by (nonlinear_arith)
                requires
                    z < 0,
                    u > 0,
            ;
        } else {
            assert(z * u >= 0) by (nonlinear_arith)
                requires
                    z >= 0,
                    u > 0,
            ;
        }
    }
    vstd::arithmetic::div_mod::lemma_div_multiples_vanish(abs(z), u);
    assert(u * abs(z) == abs(z) * u) by (nonlinear_arith);
    if z < 0 {
        assert(z * u < 0) by (nonlinear_arith)
            requires
                z < 0,
                u > 0,
        ;
    }
}

/// Interest grows with time: over `epochs` epochs a balance earns `epochs`
/// times the interest of one epoch, `balance * rate` (rounded toward zero),
/// so the balance with its interest is
/// `balance + epochs * balance * rate`.
pub proof fn lemma_accrued_is_linear_in_epochs(balance: Decimal, rate: Decimal, epochs: int)
    requires
        accrued(balance, rate, epochs) is Some,
    ensures
        accrued(balance, rate, epochs)->Some_0@ == balance@ + epochs * tdiv(balance@ * rate@, dec_one()),
{
    let m = tdiv(balance@ * rate@, dec_one());
    assert(m * (epochs * dec_one()) == (m * epochs) * dec_one()) by (nonlinear_arith);
    lemma_tdiv_scaled(m * epochs);
    assert(epochs * m == m * epochs) by (nonlinear_arith);
}

/// Redeeming later pays more: at a rate that earns something each epoch,
/// the amount handed back for the same redemption grows strictly with the
/// epoch at which it is made.
pub proof fn lemma_redeem_later_pays_more(u: User, amount: Decimal, now1: u64, now2: u64)
    requires
        epoch_ok(now1, u.deposit_last_update),
        epoch_ok(now2, u.deposit_last_update),
        now1 < now2,
        tdiv(amount@ * u.deposit_interest_rate@, dec_one()) > 0,
        accrued(amount, u.deposit_interest_rate, elapsed(now1, u.deposit_last_update)) is Some,
        accrued(amount, u.deposit_interest_rate, elapsed(now2, u.deposit_last_update)) is Some,
    ensures
        accrued(amount, u.deposit_interest_rate, elapsed(now2, u.deposit_last_update))->Some_0@
            > accrued(amount, u.deposit_interest_rate, elapsed(now1, u.deposit_last_update))->Some_0@,
{
    let e1 = elapsed(now1, u.deposit_last_update);
    let e2 = elapsed(now2, u.deposit_last_update);
    let m = tdiv(amount@ * u.deposit_interest_rate@, dec_one());
    lemma_accrued_is_linear_in_epochs(amount, u.deposit_interest_rate, e1);
    lemma_accrued_is_linear_in_epochs(amount, u.deposit_interest_rate, e2);
    assert(e2 * m > e1 * m) by (nonlinear_arith)
        requires
            e2 > e1,
            m > 0,
    ;
}

} // verus!
