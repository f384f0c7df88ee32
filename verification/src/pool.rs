//! A pool of one resource: contributors receive pool units in proportion to
//! what the pool holds (in its vault and lent out), redeem them for their
//! share, and anyone may take a flash loan, handed out with its terms, to
//! be repaid with a fee. The terms are plain values here: that they cannot
//! be kept or deposited, so that a loan must come back within its
//! transaction, is a rule of the ledger that this model records (in the
//! roles of the terms resource) but does not enforce.
use vstd::prelude::*;
use crate::bignum::{in_i128, tdiv};
use crate::decimal::{dec_of, dec_one, in_precise, pdec_one, pdiv, pmul, Decimal, PreciseDecimal};
use crate::resource::{group_bucket, Bucket, ComponentAddress, Proof, ResourceAddress};

verus! {

broadcast use group_bucket;

/// Why the pool refuses a request.
#[derive(Clone, Copy, Debug, PartialEq, Eq, Structural)]
pub enum PoolError {
    /// The bucket holds another resource than the one expected.
    ResourceMismatch,
    /// The pool's vault holds less than requested.
    NotEnoughLiquidity,
    /// The repayment is less than the amount due.
    InsufficientRepayment,
    /// A negative amount would be taken or minted, or more pool units
    /// burnt than exist.
    InvalidAmount,
    /// A computation divides by zero or leaves the decimal range.
    Arithmetic,
    /// The method is the admin's, and no proof of the admin badge was shown.
    Unauthorized,
}

/// What the pool's metadata records, locked when it is made: the pooled
/// resource and the pool unit resource.
#[derive(Clone, Copy, Debug, PartialEq, Eq, Structural)]
pub struct PoolMetadata {
    pub pool_res_address: ResourceAddress,
    pub pool_unit_res_address: ResourceAddress,
}

/// The roles on a resource the pool makes: the component that alone mints
/// and burns it, whether it may be deposited, and the badge that sets its
/// metadata. None of these can be changed.
#[derive(Clone, Copy, Debug, PartialEq, Eq, Structural)]
pub struct ResourceRoles {
    pub minter: ComponentAddress,
    pub burner: ComponentAddress,
    pub depositable: bool,
    pub metadata_setter: ResourceAddress,
}

/// The terms of a flash loan, handed out with the loan and handed back
/// with the repayment.
#[derive(Clone, Copy, Debug, PartialEq, Eq, Structural)]
pub struct FlashloanTerm {
    pub amount_due: Decimal,
    pub loan_amount: Decimal,
    pub fee_amount: Decimal,
}

/// Pool units per unit of the pooled resource, as a precise decimal: the
/// unit supply over what the pool holds in its vault and outside of it, or
/// one while it holds nothing.
pub open spec fn pool_unit_ratio(liquidity: int, external: int, supply: int) -> Option<int> {
    let total = liquidity + external;
    if !in_i128(total) {
        None
    } else if total != 0 {
        let q = pdiv(supply * dec_one(), total * dec_one());
        if in_precise(q) {
            Some(q)
        } else {
            None
        }
    } else {
        Some(pdec_one())
    }
}

/// The pool units minted for a contribution of `amount`.
pub open spec fn contribution_units(liquidity: int, external: int, supply: int, amount: int) -> Result<int, PoolError> {
    match pool_unit_ratio(liquidity, external, supply) {
        None => Err(PoolError::Arithmetic),
        Some(r) => {
            let p = pmul(amount * dec_one(), r);
            if !in_precise(p) || !in_i128(tdiv(p, dec_one())) {
                Err(PoolError::Arithmetic)
            } else {
                Ok(tdiv(p, dec_one()))
            }
        },
    }
}

/// The amount of the pooled resource that `units` pool units redeem.
pub open spec fn redemption_amount(liquidity: int, external: int, supply: int, units: int) -> Result<int, PoolError> {
    match pool_unit_ratio(liquidity, external, supply) {
        None => Err(PoolError::Arithmetic),
        Some(r) => if r == 0 {
            Err(PoolError::Arithmetic)
        } else {
            let q = pdiv(units * dec_one(), r);
            if !in_precise(q) || !in_i128(tdiv(q, dec_one())) {
                Err(PoolError::Arithmetic)
            } else {
                Ok(tdiv(q, dec_one()))
            }
        },
    }
}

/// Taking a flash loan: the vault after it and the terms.
pub open spec fn take_flashloan_spec(liquidity: int, loan: int, fee: int) -> Result<(int, FlashloanTerm), PoolError> {
    if loan > liquidity {
        Err(PoolError::NotEnoughLiquidity)
    } else if !in_i128(fee + loan) {
        Err(PoolError::Arithmetic)
    } else if loan < 0 {
        Err(PoolError::InvalidAmount)
    } else {
        Ok((
            liquidity - loan,
            FlashloanTerm {
                amount_due: Decimal((fee + loan) as i128),
                loan_amount: Decimal(loan as i128),
                fee_amount: Decimal(fee as i128),
            },
        ))
    }
}

/// Repaying a flash loan with `paid` of `paid_resource`: the vault after it
/// and the change handed back.
pub open spec fn repay_flashloan_spec(
    liquidity: int,
    pool_resource: ResourceAddress,
    paid_resource: ResourceAddress,
    paid: int,
    terms: FlashloanTerm,
) -> Result<(int, int), PoolError> {
    if paid < terms.amount_due@ {
        Err(PoolError::InsufficientRepayment)
    } else if terms.amount_due@ < 0 {
        Err(PoolError::InvalidAmount)
    } else if paid_resource != pool_resource {
        Err(PoolError::ResourceMismatch)
    } else if !in_i128(liquidity + terms.amount_due@) {
        Err(PoolError::Arithmetic)
    } else {
        Ok((liquidity + terms.amount_due@, paid - terms.amount_due@))
    }
}

/// The vault and the liquidity in use outside after `amount` is withdrawn,
/// counted as in use outside when `external` holds.
pub open spec fn after_withdraw(liquidity: int, external_amount: int, amount: int, external: bool) -> (int, int) {
    (liquidity - amount, if external { external_amount + amount } else { external_amount })
}

/// The vault and the liquidity in use outside after `amount` is deposited,
/// coming back from use outside when `external` holds.
pub open spec fn after_deposit(liquidity: int, external_amount: int, amount: int, external: bool) -> (int, int) {
    (liquidity + amount, if external { external_amount - amount } else { external_amount })
}

/// A pool of one resource with its own pool unit resource. Depositing,
/// withdrawing and counting liquidity in use outside of the pool are for
/// the holder of the admin badge; the rest is open to all.
pub struct OneResourcePoolExtended {
    address: ComponentAddress,
    admin_badge: ResourceAddress,
    owner_badge: ResourceAddress,
    flashloan_term_resource: ResourceAddress,
    pool_resource: ResourceAddress,
    pool_unit_resource: ResourceAddress,
    /// The vault of the pooled resource.
    liquidity: Decimal,
    /// What is in use outside of the pool.
    external_liquidity_amount: Decimal,
    /// The pool units in existence.
    pool_unit_supply: Decimal,
}

impl OneResourcePoolExtended {
    pub closed spec fn pool_res(&self) -> ResourceAddress {
        self.pool_resource
    }

    pub closed spec fn unit_res(&self) -> ResourceAddress {
        self.pool_unit_resource
    }

    pub closed spec fn liquidity_amount(&self) -> int {
        self.liquidity@
    }

    pub closed spec fn external_amount(&self) -> int {
        self.external_liquidity_amount@
    }

    pub closed spec fn unit_supply(&self) -> int {
        self.pool_unit_supply@
    }

    /// The vault and the unit supply are not negative.
    pub closed spec fn wf(&self) -> bool {
        self.liquidity@ >= 0 && self.pool_unit_supply@ >= 0
    }

    /// The component's own address.
    pub closed spec fn component(&self) -> ComponentAddress {
        self.address
    }

    /// The badge of the admin role.
    pub closed spec fn admin(&self) -> ResourceAddress {
        self.admin_badge
    }

    /// The badge of the owner, who sets metadata.
    pub closed spec fn owner(&self) -> ResourceAddress {
        self.owner_badge
    }

    /// The resource of the flash loan terms.
    pub closed spec fn term_res(&self) -> ResourceAddress {
        self.flashloan_term_resource
    }

    /// The component's metadata.
    pub open spec fn metadata(&self) -> PoolMetadata {
        PoolMetadata { pool_res_address: self.pool_res(), pool_unit_res_address: self.unit_res() }
    }

    /// The roles on the pool units: the component alone mints and burns
    /// them, and they move freely.
    pub open spec fn unit_roles(&self) -> ResourceRoles {
        ResourceRoles { minter: self.component(), burner: self.component(), depositable: true, metadata_setter: self.owner() }
    }

    /// The roles on the flash loan terms: the component alone mints and
    /// burns them, and they can never be deposited.
    pub open spec fn term_roles(&self) -> ResourceRoles {
        ResourceRoles { minter: self.component(), burner: self.component(), depositable: false, metadata_setter: self.owner() }
    }

    /// Whether `auth` proves the admin badge.
    pub open spec fn is_admin(&self, auth: Proof) -> bool {
        auth.resource == self.admin() && auth.amount@ > 0
    }

    pub open spec fn same_resources(&self, o: &Self) -> bool {
        &&& self.pool_res() == o.pool_res()
        &&& self.unit_res() == o.unit_res()
        &&& self.component() == o.component()
        &&& self.admin() == o.admin()
        &&& self.owner() == o.owner()
        &&& self.term_res() == o.term_res()
    }

    /// An empty pool of `pool_res_address` at `address`, whose admin role
    /// is held by `admin_badge` and whose owner is `owner_badge`; its pool
    /// units are `pool_unit_res_address` and its flash loan terms
    /// `flashloan_term_res_address`, both made for it with no supply.
    pub fn instantiate(
        pool_res_address: ResourceAddress,
        admin_badge: ResourceAddress,
        owner_badge: ResourceAddress,
        address: ComponentAddress,
        pool_unit_res_address: ResourceAddress,
        flashloan_term_res_address: ResourceAddress,
    ) -> (r: Self)
        ensures
            r.wf(),
            r.pool_res() == pool_res_address,
            r.unit_res() == pool_unit_res_address,
            r.component() == address,
            r.admin() == admin_badge,
            r.owner() == owner_badge,
            r.term_res() == flashloan_term_res_address,
            r.metadata() == (PoolMetadata { pool_res_address, pool_unit_res_address }),
            r.unit_roles() == (ResourceRoles { minter: address, burner: address, depositable: true, metadata_setter: owner_badge }),
            r.term_roles() == (ResourceRoles { minter: address, burner: address, depositable: false, metadata_setter: owner_badge }),
            r.liquidity_amount() == 0,
            r.external_amount() == 0,
            r.unit_supply() == 0,
    {
        OneResourcePoolExtended {
            address,
            admin_badge,
            owner_badge,
            flashloan_term_resource: flashloan_term_res_address,
            pool_resource: pool_res_address,
            pool_unit_resource: pool_unit_res_address,
            liquidity: Decimal(0),
            external_liquidity_amount: Decimal(0),
            pool_unit_supply: Decimal(0),
        }
    }

    /// Pool units per unit of the pooled resource.
    pub fn get_pool_unit_ratio(&self) -> (r: Option<PreciseDecimal>)
        ensures
            match pool_unit_ratio(self.liquidity_amount(), self.external_amount(), self.unit_supply()) {
                Some(q) => r matches Some(p) && p@ == q,
                None => r is None,
            },
    {
        let total = match self.liquidity.checked_add(self.external_liquidity_amount) {
            Some(t) => t,
            None => return None,
        };
        if total.0 != 0 {
            PreciseDecimal::from_decimal(self.pool_unit_supply).checked_div(&PreciseDecimal::from_decimal(total))
        } else {
            Some(PreciseDecimal::one())
        }
    }

    /// What the vault holds and what is in use outside of the pool.
    pub fn get_pooled_amount(&self) -> (r: (Decimal, Decimal))
        ensures
            r.0@ == self.liquidity_amount(),
            r.1@ == self.external_amount(),
    {
        (self.liquidity, self.external_liquidity_amount)
    }

    /// Adds `assets` to the pool and mints pool units for them at the
    /// current ratio.
    pub fn contribute(&mut self, assets: Bucket) -> (r: Result<Bucket, PoolError>)
        requires
            old(self).wf(),
        ensures
            final(self).wf(),
            final(self).same_resources(old(self)),
            final(self).external_amount() == old(self).external_amount(),
            ({
                let (l, e, s, x) = (old(self).liquidity_amount(), old(self).external_amount(), old(self).unit_supply(), assets.amt()@);
                if assets.res() != old(self).pool_res() {
                    r == Err::<Bucket, PoolError>(PoolError::ResourceMismatch)
                } else {
                    match contribution_units(l, e, s, x) {
                        Err(err) => r == Err::<Bucket, PoolError>(err),
                        Ok(u) => if u < 0 {
                            r == Err::<Bucket, PoolError>(PoolError::InvalidAmount)
                        } else if !in_i128(l + x) || !in_i128(s + u) {
                            r == Err::<Bucket, PoolError>(PoolError::Arithmetic)
                        } else {
                            &&& r == Ok::<Bucket, PoolError>(Bucket::spec_new(old(self).unit_res(), Decimal(u as i128)))
                            &&& final(self).liquidity_amount() == l + x
                            &&& final(self).unit_supply() == s + u
                        },
                    }
                }
            }),
            r is Err ==> *final(self) == *old(self),
    {
        if assets.resource_address() != self.pool_resource {
            return Err(PoolError::ResourceMismatch);
        }
        let x = assets.amount();
        let ratio = match self.get_pool_unit_ratio() {
            Some(q) => q,
            None => return Err(PoolError::Arithmetic),
        };
        let product = match PreciseDecimal::from_decimal(x).checked_mul(&ratio) {
            Some(p) => p,
            None => return Err(PoolError::Arithmetic),
        };
        let units = match product.truncate() {
            Some(u) => u,
            None => return Err(PoolError::Arithmetic),
        };
        if units.0 < 0 {
            return Err(PoolError::InvalidAmount);
        }
        let liquidity = match self.liquidity.checked_add(x) {
            Some(v) => v,
            None => return Err(PoolError::Arithmetic),
        };
        let supply = match self.pool_unit_supply.checked_add(units) {
            Some(v) => v,
            None => return Err(PoolError::Arithmetic),
        };
        self.liquidity = liquidity;
        self.pool_unit_supply = supply;
        Ok(Bucket::of(self.pool_unit_resource, units))
    }

    /// Burns the pool units and pays out their share of the pool.
    pub fn redeem(&mut self, pool_units: Bucket) -> (r: Result<Bucket, PoolError>)
        requires
            old(self).wf(),
        ensures
            final(self).wf(),
            final(self).same_resources(old(self)),
            final(self).external_amount() == old(self).external_amount(),
            ({
                let (l, e, s, u) = (old(self).liquidity_amount(), old(self).external_amount(), old(self).unit_supply(), pool_units.amt()@);
                if pool_units.res() != old(self).unit_res() {
                    r == Err::<Bucket, PoolError>(PoolError::ResourceMismatch)
                } else {
                    match redemption_amount(l, e, s, u) {
                        Err(err) => r == Err::<Bucket, PoolError>(err),
                        Ok(a) => if u > s {
                            r == Err::<Bucket, PoolError>(PoolError::InvalidAmount)
                        } else if a > l {
                            r == Err::<Bucket, PoolError>(PoolError::NotEnoughLiquidity)
                        } else if a < 0 {
                            r == Err::<Bucket, PoolError>(PoolError::InvalidAmount)
                        } else {
                            &&& r == Ok::<Bucket, PoolError>(Bucket::spec_new(old(self).pool_res(), Decimal(a as i128)))
                            &&& final(self).liquidity_amount() == l - a
                            &&& final(self).unit_supply() == s - u
                        },
                    }
                }
            }),
            r is Err ==> *final(self) == *old(self),
    {
        if pool_units.resource_address() != self.pool_unit_resource {
            return Err(PoolError::ResourceMismatch);
        }
        let u = pool_units.amount();
        let ratio = match self.get_pool_unit_ratio() {
            Some(q) => q,
            None => return Err(PoolError::Arithmetic),
        };
        let quotient = match PreciseDecimal::from_decimal(u).checked_div(&ratio) {
            Some(q) => q,
            None => return Err(PoolError::Arithmetic),
        };
        let amount = match quotient.truncate() {
            Some(a) => a,
            None => return Err(PoolError::Arithmetic),
        };
        if u.0 > self.pool_unit_supply.0 {
            return Err(PoolError::InvalidAmount);
        }
        if amount.0 > self.liquidity.0 {
            return Err(PoolError::NotEnoughLiquidity);
        }
        if amount.0 < 0 {
            return Err(PoolError::InvalidAmount);
        }
        self.pool_unit_supply = Decimal(self.pool_unit_supply.0 - u.0);
        self.liquidity = Decimal(self.liquidity.0 - amount.0);
        Ok(Bucket::of(self.pool_resource, amount))
    }

    /// Takes `amount` out of the vault; when the liquidity goes to use
    /// outside of the pool, it is counted as such.
    pub fn withdraw(&mut self, auth: Proof, amount: Decimal, external_liquidity_withdraw: bool) -> (r: Result<Bucket, PoolError>)
        requires
            old(self).wf(),
        ensures
            final(self).wf(),
            !old(self).is_admin(auth) ==> r == Err::<Bucket, PoolError>(PoolError::Unauthorized) && *final(self) == *old(self),
            final(self).same_resources(old(self)),
            final(self).unit_supply() == old(self).unit_supply(),
            old(self).is_admin(auth) ==> (({
                let (l, e) = (old(self).liquidity_amount(), old(self).external_amount());
                let e2 = if external_liquidity_withdraw { e + amount@ } else { e };
                if !in_i128(e2) {
                    r == Err::<Bucket, PoolError>(PoolError::Arithmetic)
                } else if amount@ < 0 {
                    r == Err::<Bucket, PoolError>(PoolError::InvalidAmount)
                } else if amount@ > l {
                    r == Err::<Bucket, PoolError>(PoolError::NotEnoughLiquidity)
                } else {
                    &&& r == Ok::<Bucket, PoolError>(Bucket::spec_new(old(self).pool_res(), amount))
                    &&& (final(self).liquidity_amount(), final(self).external_amount()) == after_withdraw(
                        l,
                        e,
                        amount@,
                        external_liquidity_withdraw,
                    )
                }
            })),
            r is Err ==> *final(self) == *old(self),
    {
        if auth.resource != self.admin_badge || auth.amount.0 <= 0 {
            return Err(PoolError::Unauthorized);
        }
        let external = if external_liquidity_withdraw {
            match self.external_liquidity_amount.checked_add(amount) {
                Some(v) => v,
                None => return Err(PoolError::Arithmetic),
            }
        } else {
            self.external_liquidity_amount
        };
        if amount.0 < 0 {
            return Err(PoolError::InvalidAmount);
        }
        if amount.0 > self.liquidity.0 {
            return Err(PoolError::NotEnoughLiquidity);
        }
        self.external_liquidity_amount = external;
        self.liquidity = Decimal(self.liquidity.0 - amount.0);
        Ok(Bucket::of(self.pool_resource, amount))
    }

    /// Puts `assets` into the vault; when they come back from use outside
    /// of the pool, they no longer count as such.
    pub fn deposit(&mut self, auth: Proof, assets: Bucket, external_liquidity_deposit: bool) -> (r: Result<(), PoolError>)
        requires
            old(self).wf(),
        ensures
            final(self).wf(),
            !old(self).is_admin(auth) ==> r == Err::<(), PoolError>(PoolError::Unauthorized) && *final(self) == *old(self),
            final(self).same_resources(old(self)),
            final(self).unit_supply() == old(self).unit_supply(),
            old(self).is_admin(auth) ==> (({
                let (l, e, x) = (old(self).liquidity_amount(), old(self).external_amount(), assets.amt()@);
                let e2 = if external_liquidity_deposit { e - x } else { e };
                if !in_i128(e2) {
                    r == Err::<(), PoolError>(PoolError::Arithmetic)
                } else if assets.res() != old(self).pool_res() {
                    r == Err::<(), PoolError>(PoolError::ResourceMismatch)
                } else if !in_i128(l + x) {
                    r == Err::<(), PoolError>(PoolError::Arithmetic)
                } else {
                    &&& r is Ok
                    &&& (final(self).liquidity_amount(), final(self).external_amount()) == after_deposit(
                        l,
                        e,
                        x,
                        external_liquidity_deposit,
                    )
                }
            })),
            r is Err ==> *final(self) == *old(self),
    {
        if auth.resource != self.admin_badge || auth.amount.0 <= 0 {
            return Err(PoolError::Unauthorized);
        }
        let x = assets.amount();
        let external = if external_liquidity_deposit {
            match self.external_liquidity_amount.checked_sub(x) {
                Some(v) => v,
                None => return Err(PoolError::Arithmetic),
            }
        } else {
            self.external_liquidity_amount
        };
        if assets.resource_address() != self.pool_resource {
            return Err(PoolError::ResourceMismatch);
        }
        let liquidity = match self.liquidity.checked_add(x) {
            Some(v) => v,
            None => return Err(PoolError::Arithmetic),
        };
        self.external_liquidity_amount = external;
        self.liquidity = liquidity;
        Ok(())
    }

    /// Counts `amount` more as in use outside of the pool.
    pub fn add_external_liquidity(&mut self, auth: Proof, amount: Decimal) -> (r: Result<(), PoolError>)
        requires
            old(self).wf(),
        ensures
            final(self).wf(),
            !old(self).is_admin(auth) ==> r == Err::<(), PoolError>(PoolError::Unauthorized) && *final(self) == *old(self),
            final(self).same_resources(old(self)),
            final(self).liquidity_amount() == old(self).liquidity_amount(),
            final(self).unit_supply() == old(self).unit_supply(),
            old(self).is_admin(auth) ==> (in_i128(old(self).external_amount() + amount@) ==> r is Ok && final(self).external_amount()
                == old(self).external_amount() + amount@),
            old(self).is_admin(auth) ==> (!in_i128(old(self).external_amount() + amount@) ==> r == Err::<(), PoolError>(PoolError::Arithmetic)
                && *final(self) == *old(self)),
    {
        if auth.resource != self.admin_badge || auth.amount.0 <= 0 {
            return Err(PoolError::Unauthorized);
        }
        match self.external_liquidity_amount.checked_add(amount) {
            Some(v) => {
                self.external_liquidity_amount = v;
                Ok(())
            },
            None => Err(PoolError::Arithmetic),
        }
    }

    /// Counts `amount` less as in use outside of the pool.
    pub fn remove_external_liquidity(&mut self, auth: Proof, amount: Decimal) -> (r: Result<(), PoolError>)
        requires
            old(self).wf(),
        ensures
            final(self).wf(),
            !old(self).is_admin(auth) ==> r == Err::<(), PoolError>(PoolError::Unauthorized) && *final(self) == *old(self),
            final(self).same_resources(old(self)),
            final(self).liquidity_amount() == old(self).liquidity_amount(),
            final(self).unit_supply() == old(self).unit_supply(),
            old(self).is_admin(auth) ==> (in_i128(old(self).external_amount() - amount@) ==> r is Ok && final(self).external_amount()
                == old(self).external_amount() - amount@),
            old(self).is_admin(auth) ==> (!in_i128(old(self).external_amount() - amount@) ==> r == Err::<(), PoolError>(PoolError::Arithmetic)
                && *final(self) == *old(self)),
    {
        if auth.resource != self.admin_badge || auth.amount.0 <= 0 {
            return Err(PoolError::Unauthorized);
        }
        match self.external_liquidity_amount.checked_sub(amount) {
            Some(v) => {
                self.external_liquidity_amount = v;
                Ok(())
            },
            None => Err(PoolError::Arithmetic),
        }
    }

    /// Lends `loan_amount` out of the vault, with the terms of repayment:
    /// the loan plus `fee_amount`.
    pub fn take_flashloan(&mut self, loan_amount: Decimal, fee_amount: Decimal) -> (r: Result<(Bucket, FlashloanTerm), PoolError>)
        requires
            old(self).wf(),
        ensures
            final(self).wf(),
            final(self).same_resources(old(self)),
            final(self).external_amount() == old(self).external_amount(),
            final(self).unit_supply() == old(self).unit_supply(),
            match take_flashloan_spec(old(self).liquidity_amount(), loan_amount@, fee_amount@) {
                Ok((l, t)) => r == Ok::<(Bucket, FlashloanTerm), PoolError>((Bucket::spec_new(old(self).pool_res(), loan_amount), t))
                    && final(self).liquidity_amount() == l,
                Err(e) => r == Err::<(Bucket, FlashloanTerm), PoolError>(e) && *final(self) == *old(self),
            },
    {
        if loan_amount.0 > self.liquidity.0 {
            return Err(PoolError::NotEnoughLiquidity);
        }
        let due = match fee_amount.checked_add(loan_amount) {
            Some(v) => v,
            None => return Err(PoolError::Arithmetic),
        };
        if loan_amount.0 < 0 {
            return Err(PoolError::InvalidAmount);
        }
        self.liquidity = Decimal(self.liquidity.0 - loan_amount.0);
        let terms = FlashloanTerm { amount_due: due, fee_amount, loan_amount };
        Ok((Bucket::of(self.pool_resource, loan_amount), terms))
    }

    /// Takes the amount due out of the repayment into the vault and hands
    /// back the change.
    pub fn repay_flashloan(&mut self, loan_repayment: Bucket, loan_terms: FlashloanTerm) -> (r: Result<Bucket, PoolError>)
        requires
            old(self).wf(),
        ensures
            final(self).wf(),
            final(self).same_resources(old(self)),
            final(self).external_amount() == old(self).external_amount(),
            final(self).unit_supply() == old(self).unit_supply(),
            match repay_flashloan_spec(old(self).liquidity_amount(), old(self).pool_res(), loan_repayment.res(), loan_repayment.amt()@, loan_terms) {
                Ok((l, change)) => r == Ok::<Bucket, PoolError>(Bucket::spec_new(loan_repayment.res(), Decimal(change as i128)))
                    && final(self).liquidity_amount() == l,
                Err(e) => r == Err::<Bucket, PoolError>(e) && *final(self) == *old(self),
            },
    {
        let mut repayment = loan_repayment;
        if repayment.amount().0 < loan_terms.amount_due.0 {
            return Err(PoolError::InsufficientRepayment);
        }
        if loan_terms.amount_due.0 < 0 {
            return Err(PoolError::InvalidAmount);
        }
        if repayment.resource_address() != self.pool_resource {
            return Err(PoolError::ResourceMismatch);
        }
        let liquidity = match self.liquidity.checked_add(loan_terms.amount_due) {
            Some(v) => v,
            None => return Err(PoolError::Arithmetic),
        };
        let _ = repayment.take(loan_terms.amount_due);
        self.liquidity = liquidity;
        Ok(repayment)
    }
}

/// A flash loan repaid with at least the amount due, in the pooled
/// resource, leaves the vault richer by the fee than it was before the
/// loan, and hands back what was paid beyond the amount due.
pub proof fn lemma_flashloan_round_trip(liquidity: int, pool_resource: ResourceAddress, loan: int, fee: int, paid: int)
    requires
        take_flashloan_spec(liquidity, loan, fee) is Ok,
        fee + loan >= 0,
        paid >= fee + loan,
        in_i128(liquidity),
        in_i128(liquidity + fee),
    ensures
        ({
            let (l1, terms) = take_flashloan_spec(liquidity, loan, fee).unwrap();
            repay_flashloan_spec(l1, pool_resource, pool_resource, paid, terms) == Ok::<(int, int), PoolError>(
                (liquidity + fee, paid - (fee + loan)))
        }),
{
    let (l1, terms) = take_flashloan_spec(liquidity, loan, fee).unwrap();
    assert(terms.amount_due@ == fee + loan);
}

/// For a non-negative `a` and a positive `b`, `tdiv(a, b)` is the floor of
/// `a / b`.
proof fn lemma_floor(a: int, b: int)
    requires
        a >= 0,
        b > 0,
    ensures
        tdiv(a, b) >= 0,
        tdiv(a, b) * b <= a < (tdiv(a, b) + 1) * b,
{
    vstd::arithmetic::div_mod::lemma_fundamental_div_mod(a, b);
    vstd::arithmetic::div_mod::lemma_mod_bound(a, b);
    vstd::arithmetic::div_mod::lemma_div_pos_is_pos(a, b);
    assert(tdiv(a, b) * b <= a < (tdiv(a, b) + 1) * b) by (nonlinear_arith)
        requires
            a == b * (a / b) + a % b,
            0 <= a % b < b,
            tdiv(a, b) == a / b,
    ;
}

/// A contribution of `amount` to a pool holding `liquidity` in its vault
/// and `external` outside, with `supply` pool units out, keeps the ratio
/// of units to pooled tokens up to rounding: the units per token do not
/// rise, so the units already out are not diluted, and they do not fall
/// below the ratio before, less two units of the ratio's last digit.
pub proof fn lemma_contribution_keeps_ratio(liquidity: int, external: int, supply: int, amount: int)
    requires
        liquidity + external > 0,
        supply >= 0,
        amount >= 0,
        contribution_units(liquidity, external, supply, amount) is Ok,
    ensures
        ({
            let t = liquidity + external;
            let u = contribution_units(liquidity, external, supply, amount)->Ok_0;
            let r = pool_unit_ratio(liquidity, external, supply)->Some_0;
            &&& u >= 0
            &&& (supply + u) * t <= supply * (t + amount)
            &&& (supply + u) * pdec_one() + 2 * pdec_one() > r * (t + amount)
        }),
{
    let t = liquidity + external;
    let du = dec_one();
    let pu = pdec_one();
    let r = pool_unit_ratio(liquidity, external, supply)->Some_0;
    assert(r == tdiv(supply * du * pu, t * du));
    assert(0 <= supply * du * pu) by (nonlinear_arith)
        requires
            supply >= 0,
            du > 0,
            pu > 0,
    ;
    assert(t * du > 0) by (nonlinear_arith)
        requires
            t > 0,
            du > 0,
    ;
    lemma_floor(supply * du * pu, t * du);
    assert(r * t <= supply * pu) by (nonlinear_arith)
        requires
            r * (t * du) <= supply * du * pu,
            du > 0,
    ;
    let p = tdiv(amount * du * r, pu);
    assert(0 <= amount * du * r) by (nonlinear_arith)
        requires
            amount >= 0,
            du > 0,
            r >= 0,
    ;
    lemma_floor(amount * du * r, pu);
    let u = tdiv(p, du);
    lemma_floor(p, du);
    assert(u == contribution_units(liquidity, external, supply, amount)->Ok_0);
    // the units minted are at most the amount at the rounded ratio
    assert(u * pu <= amount * r) by (nonlinear_arith)
        requires
            u * du <= p,
            p * pu <= amount * du * r,
            du > 0,
            pu > 0,
    ;
    assert(u * t <= supply * amount) by (nonlinear_arith)
        requires
            u * pu <= amount * r,
            r * t <= supply * pu,
            amount >= 0,
            t > 0,
            pu > 0,
    ;
    assert((supply + u) * t <= supply * (t + amount)) by (nonlinear_arith)
        requires
            u * t <= supply * amount,
    ;
    assert(amount * r < u * pu + 2 * pu) by (nonlinear_arith)
        requires
            p < (u + 1) * du,
            amount * du * r < (p + 1) * pu,
            du > 0,
            du < pu,
    ;
    assert((supply + u) * pu + 2 * pu > r * (t + amount)) by (nonlinear_arith)
        requires
            amount * r < u * pu + 2 * pu,
            r * t <= supply * pu,
    ;
}

/// Depositing what a withdrawal took, with the same flag, gives back the
/// vault and the liquidity in use outside as they were, so the pool-unit
/// ratio too; a withdrawal for use outside alone already keeps their sum.
pub proof fn lemma_withdraw_then_deposit(liquidity: int, external_amount: int, amount: int, external: bool)
    ensures
        ({
            let (l1, e1) = after_withdraw(liquidity, external_amount, amount, external);
            &&& after_deposit(l1, e1, amount, external) == (liquidity, external_amount)
            &&& external ==> l1 + e1 == liquidity + external_amount
        }),
{
}

/// A contribution to a pool that holds nothing and has no units out mints
/// one unit per token, and leaves the ratio at one.
pub proof fn lemma_contribution_to_empty_pool(liquidity: int, external: int, amount: int)
    requires
        liquidity + external == 0,
        amount >= 0,
        contribution_units(liquidity, external, 0, amount) is Ok,
        in_i128(liquidity + amount + external),
    ensures
        contribution_units(liquidity, external, 0, amount) == Ok::<int, PoolError>(amount),
        pool_unit_ratio(liquidity, external, 0) == Some(pdec_one()),
        pool_unit_ratio(liquidity + amount, external, amount) == Some(pdec_one()),
{
    let du = dec_one();
    let pu = pdec_one();
    assert(tdiv(amount * du * pu, pu) == amount * du) by {
        vstd::arithmetic::div_mod::lemma_div_multiples_vanish(amount * du, pu);
        assert(amount * du * pu == pu * (amount * du)) by (nonlinear_arith);
        assert(amount * du >= 0) by (nonlinear_arith)
            requires
                amount >= 0,
                du > 0,
        ;
    }
    assert(tdiv(amount * du, du) == amount) by {
        vstd::arithmetic::div_mod::lemma_div_multiples_vanish(amount, du);
        assert(amount * du == du * amount) by (nonlinear_arith);
    }
    if amount > 0 {
        assert(amount * du > 0) by (nonlinear_arith)
            requires
                amount > 0,
                du > 0,
        ;
        assert(tdiv(amount * du * pu, amount * du) == pu) by {
            vstd::arithmetic::div_mod::lemma_div_multiples_vanish(pu, amount * du);
            assert(amount * du * pu == (amount * du) * pu);
            assert((amount * du) * pu == pu * (amount * du)) by (nonlinear_arith);
        }
        assert(in_precise(pu)) by {
            crate::bignum::lemma_pow2_values();
            crate::bignum::lemma_pow2_add(127, 128);
            let a = crate::bignum::pow2(127);
            let b = crate::bignum::pow2(128);
            assert(a * b >= a) by (nonlinear_arith)
                requires
                    a > 0,
                    b == 2 * a,
            ;
        }
    }
}

} // verus!
