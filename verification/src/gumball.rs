//! A gumball machine: it holds gumballs, which only come in whole numbers,
//! and the XRD it has collected, and sells gumballs at a price.
use vstd::prelude::*;
use crate::bignum::in_i128;
use crate::decimal::{dec_of, dec_one, ddiv, dmul, Decimal, ONE_UNITS};
use crate::resource::{group_bucket, Bucket, Proof, ResourceAddress};

verus! {

broadcast use group_bucket;

/// Why the machine refuses a request. A refused request changes nothing.
#[derive(Clone, Copy, Debug, PartialEq, Eq, Structural)]
pub enum GumballError {
    /// A vault holds less than requested.
    InsufficientFunds,
    /// A negative amount, or a fraction of a gumball.
    InvalidAmount,
    /// A computation divides by zero or leaves the decimal range.
    Arithmetic,
    /// The call needs the admin badge, and no proof of it was shown.
    Unauthorized,
    /// The payment is not in XRD.
    WrongResource,
    /// The price is not positive, so no number of gumballs can be bought.
    InvalidPrice,
}

/// The gumballs a new machine starts with: a thousand, in units.
pub const INITIAL_GUMBALL_UNITS: i128 = 1_000_000_000_000_000_000_000;

/// Whether an amount is a whole, non-negative number of gumballs.
pub open spec fn whole_amount(a: int) -> bool {
    a >= 0 && a % dec_one() == 0
}

/// How many whole gumballs `amount` buys at a positive `price`: the most
/// it can pay for.
pub open spec fn gumballs_bought(amount: int, price: int) -> int {
    amount / price
}

/// Whether `auth` proves the admin badge `admin`.
pub open spec fn is_admin(auth: Proof, admin: ResourceAddress) -> bool {
    auth.resource == admin && auth.amount@ > 0
}

/// A gumball machine. The holder of its admin badge alone may set the
/// price, withdraw the XRD collected, mint gumballs and count them; buying
/// is open to all.
pub struct GumballMachine {
    pub admin_badge: ResourceAddress,
    pub gumball_resource: ResourceAddress,
    pub gumball_vault: Decimal,
    pub price: Decimal,
    pub radix_resource: ResourceAddress,
    pub collected_xrd: Decimal,
}

impl GumballMachine {
    /// Both vaults are not negative.
    pub open spec fn wf(&self) -> bool {
        self.gumball_vault@ >= 0 && self.collected_xrd@ >= 0
    }

    /// A machine with a thousand gumballs, selling them at `price`. Its one
    /// admin badge, of `admin_badge`, goes to the caller.
    pub fn instantiate_gumball_machine(
        price: Decimal,
        admin_badge: ResourceAddress,
        gumball_resource: ResourceAddress,
        radix_resource: ResourceAddress,
    ) -> (r: (GumballMachine, Bucket))
        ensures
            r.0.wf(),
            r.0 == (GumballMachine {
                admin_badge,
                gumball_resource,
                gumball_vault: Decimal(INITIAL_GUMBALL_UNITS),
                price,
                radix_resource,
                collected_xrd: Decimal(0),
            }),
            r.1 == Bucket::spec_new(admin_badge, Decimal(ONE_UNITS)),
    {
        let m = GumballMachine {
            admin_badge,
            gumball_resource,
            gumball_vault: Decimal(INITIAL_GUMBALL_UNITS),
            price,
            radix_resource,
            collected_xrd: Decimal(0),
        };
        (m, Bucket::of(admin_badge, Decimal(ONE_UNITS)))
    }

    /// Sets a new price; the admin only.
    pub fn set_price(&mut self, auth: Proof, price: Decimal) -> (r: Result<(), GumballError>)
        ensures
            !is_admin(auth, old(self).admin_badge) ==> r == Err::<(), GumballError>(GumballError::Unauthorized)
                && *final(self) == *old(self),
            is_admin(auth, old(self).admin_badge) ==> r is Ok && *final(self) == (GumballMachine { price, ..*old(self) }),
    {
        if !(auth.resource == self.admin_badge && auth.amount.0 > 0) {
            return Err(GumballError::Unauthorized);
        }
        self.price = price;
        Ok(())
    }

    /// Takes `amount` of the collected XRD out of the machine; the admin
    /// only.
    pub fn withdraw(&mut self, auth: Proof, amount: Decimal) -> (r: Result<Bucket, GumballError>)
        requires
            old(self).wf(),
        ensures
            final(self).wf(),
            r is Err ==> *final(self) == *old(self),
            if !is_admin(auth, old(self).admin_badge) {
                r == Err::<Bucket, GumballError>(GumballError::Unauthorized)
            } else if amount@ < 0 {
                r == Err::<Bucket, GumballError>(GumballError::InvalidAmount)
            } else if amount@ > old(self).collected_xrd@ {
                r == Err::<Bucket, GumballError>(GumballError::InsufficientFunds)
            } else {
                r == Ok::<Bucket, GumballError>(Bucket::spec_new(old(self).radix_resource, amount))
                    && *final(self) == (GumballMachine {
                    collected_xrd: Decimal((old(self).collected_xrd@ - amount@) as i128),
                    ..*old(self)
                })
            },
    {
        if !(auth.resource == self.admin_badge && auth.amount.0 > 0) {
            return Err(GumballError::Unauthorized);
        }
        if amount.0 < 0 {
            return Err(GumballError::InvalidAmount);
        }
        if amount.0 > self.collected_xrd.0 {
            return Err(GumballError::InsufficientFunds);
        }
        self.collected_xrd = Decimal(self.collected_xrd.0 - amount.0);
        Ok(Bucket::of(self.radix_resource, amount))
    }

    /// Mints `number` more gumballs into the machine; the admin only.
    pub fn mint_gumballs(&mut self, auth: Proof, number: Decimal) -> (r: Result<(), GumballError>)
        requires
            old(self).wf(),
        ensures
            final(self).wf(),
            r is Err ==> *final(self) == *old(self),
            if !is_admin(auth, old(self).admin_badge) {
                r == Err::<(), GumballError>(GumballError::Unauthorized)
            } else if !whole_amount(number@) {
                r == Err::<(), GumballError>(GumballError::InvalidAmount)
            } else if !in_i128(old(self).gumball_vault@ + number@) {
                r == Err::<(), GumballError>(GumballError::Arithmetic)
            } else {
                r is Ok && *final(self) == (GumballMachine {
                    gumball_vault: Decimal((old(self).gumball_vault@ + number@) as i128),
                    ..*old(self)
                })
            },
    {
        if !(auth.resource == self.admin_badge && auth.amount.0 > 0) {
            return Err(GumballError::Unauthorized);
        }
        if number.0 < 0 || number.0 % ONE_UNITS != 0 {
            return Err(GumballError::InvalidAmount);
        }
        match self.gumball_vault.checked_add(number) {
            Some(v) => {
                self.gumball_vault = v;
                Ok(())
            },
            None => Err(GumballError::Arithmetic),
        }
    }

    /// The number of gumballs in the machine; the admin only.
    pub fn check_gumballs(&self, auth: Proof) -> (r: Result<Decimal, GumballError>)
        ensures
            r == if is_admin(auth, self.admin_badge) {
                Ok::<Decimal, GumballError>(self.gumball_vault)
            } else {
                Err::<Decimal, GumballError>(GumballError::Unauthorized)
            },
    {
        if !(auth.resource == self.admin_badge && auth.amount.0 > 0) {
            return Err(GumballError::Unauthorized);
        }
        Ok(self.gumball_vault)
    }

    /// Buys with the XRD in `payment` the most whole gumballs it pays for at
    /// the price: their price goes into the XRD collected, and the gumballs
    /// come back with the change. A payment below the price buys nothing
    /// and comes back whole.
    pub fn buy_gumball(&mut self, payment: Bucket) -> (r: Result<(Bucket, Bucket), GumballError>)
        requires
            old(self).wf(),
        ensures
            final(self).wf(),
            r is Err ==> *final(self) == *old(self),
            ({
                let amount = payment.amt()@;
                let price = old(self).price@;
                let n = gumballs_bought(amount, price);
                if payment.res() != old(self).radix_resource {
                    r == Err::<(Bucket, Bucket), GumballError>(GumballError::WrongResource)
                } else if price <= 0 {
                    r == Err::<(Bucket, Bucket), GumballError>(GumballError::InvalidPrice)
                } else if amount < price {
                    &&& r == Ok::<(Bucket, Bucket), GumballError>(
                        (Bucket::spec_new(old(self).gumball_resource, Decimal(0)), payment),
                    )
                    &&& *final(self) == *old(self)
                } else if n * dec_one() > old(self).gumball_vault@ {
                    r == Err::<(Bucket, Bucket), GumballError>(GumballError::InsufficientFunds)
                } else if !in_i128(old(self).collected_xrd@ + n * price) {
                    r == Err::<(Bucket, Bucket), GumballError>(GumballError::Arithmetic)
                } else {
                    &&& r == Ok::<(Bucket, Bucket), GumballError>(
                        (
                            Bucket::spec_new(old(self).gumball_resource, Decimal((n * dec_one()) as i128)),
                            Bucket::spec_new(old(self).radix_resource, Decimal((amount - n * price) as i128)),
                        ),
                    )
                    &&& *final(self) == (GumballMachine {
                        gumball_vault: Decimal((old(self).gumball_vault@ - n * dec_one()) as i128),
                        collected_xrd: Decimal((old(self).collected_xrd@ + n * price) as i128),
                        ..*old(self)
                    })
                }
            }),
    {
        if payment.resource_address() != self.radix_resource {
            return Err(GumballError::WrongResource);
        }
        let price = self.price.0;
        if price <= 0 {
            return Err(GumballError::InvalidPrice);
        }
        let amount = payment.amount().0;
        if amount < price {
            return Ok((Bucket::empty(self.gumball_resource), payment));
        }
        let n: i128 = amount / price;
        proof {
            assert(0 <= n * price <= amount) by (nonlinear_arith)
                requires
                    n == amount / price,
                    price > 0,
                    amount >= 0,
            ;
        }
        let cost: i128 = n * price;
        if n > self.gumball_vault.0 / ONE_UNITS {
            proof {
                assert(n * dec_one() > self.gumball_vault@) by (nonlinear_arith)
                    requires
                        n > self.gumball_vault@ / dec_one(),
                        self.gumball_vault@ >= 0,
                ;
            }
            return Err(GumballError::InsufficientFunds);
        }
        proof {
            assert(n * dec_one() <= self.gumball_vault@) by (nonlinear_arith)
                requires
                    n <= self.gumball_vault@ / dec_one(),
                    self.gumball_vault@ >= 0,
            ;
        }
        let units: i128 = n * ONE_UNITS;
        let collected = match self.collected_xrd.checked_add(Decimal(cost)) {
            Some(c) => c,
            None => return Err(GumballError::Arithmetic),
        };
        self.collected_xrd = collected;
        self.gumball_vault = Decimal(self.gumball_vault.0 - units);
        Ok((Bucket::of(self.gumball_resource, Decimal(units)), Bucket::of(self.radix_resource, Decimal(amount - cost))))
    }
}

} // verus!
