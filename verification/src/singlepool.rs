//! Liquidity pools of a single token: providers receive LP tokens for what
//! they bring, and LP tokens redeem a share of the pool, together with the
//! fees it collected.
use vstd::prelude::*;
use crate::decimal::{dec_of, dec_one, ddiv, dmul, Decimal};
use crate::resource::{group_bucket, Bucket, ResourceAddress, ResourceType};

verus! {

broadcast use group_bucket;

/// Why a pool call is refused. A refused call changes nothing.
#[derive(Clone, Copy, Debug, PartialEq, Eq, Structural)]
pub enum SinglePoolError {
    /// The tokens are not of the pool's resource.
    WrongResource,
    /// The LP tokens are not of this pool.
    WrongToken,
    /// An amount does not fit, is negative where it cannot be, or a division
    /// by zero.
    Arithmetic,
    /// The pool holds less than is to be taken.
    NotEnoughLiquidity,
    /// A pool starts with some tokens.
    EmptyTokens,
    /// A pool holds fungible tokens.
    NonFungible,
}

/// A pool of one token that also keeps the fees paid to it; its LP tokens
/// redeem a share of both.
#[derive(Clone, Copy, Debug, PartialEq, Eq, Structural)]
pub struct SingleTokenLiquidityPool {
    pub resource: ResourceAddress,
    pub pool: Decimal,
    pub fees: Decimal,
    pub lp_token: ResourceAddress,
    /// The LP tokens in circulation.
    pub lp_supply: Decimal,
}

/// Redeeming `lp` LP tokens: the pool after and the tokens paid out, the
/// same share of the fees and of the pool as of the LP tokens.
pub open spec fn single_remove_spec(p: SingleTokenLiquidityPool, lp: Bucket) -> Result<
    (SingleTokenLiquidityPool, Decimal),
    SinglePoolError,
> {
    if lp.res() != p.lp_token {
        Err(SinglePoolError::WrongToken)
    } else if p.lp_supply@ == 0 {
        Err(SinglePoolError::Arithmetic)
    } else {
        match (
            dec_of(ddiv(lp.amt()@, p.lp_supply@)),
            dec_of(p.lp_supply@ - lp.amt()@),
        ) {
            (Some(share), Some(supply)) => match (dec_of(dmul(p.fees@, share@)), dec_of(dmul(p.pool@, share@))) {
                (Some(f), Some(t)) => if !(0 <= f@ <= p.fees@) || !(0 <= t@ <= p.pool@) {
                    Err(SinglePoolError::NotEnoughLiquidity)
                } else {
                    match dec_of(f@ + t@) {
                        None => Err(SinglePoolError::Arithmetic),
                        Some(out) => Ok(
                            (
                                SingleTokenLiquidityPool {
                                    fees: Decimal((p.fees@ - f@) as i128),
                                    pool: Decimal((p.pool@ - t@) as i128),
                                    lp_supply: supply,
                                    ..p
                                },
                                out,
                            ),
                        ),
                    }
                },
                _ => Err(SinglePoolError::Arithmetic),
            },
            _ => Err(SinglePoolError::Arithmetic),
        }
    }
}

impl SingleTokenLiquidityPool {
    /// A pool of the tokens in `initial_funds`, with `lp_initial_supply` LP
    /// tokens of `lp_token`, a resource made for it, which go to the caller.
    pub fn new(initial_funds: Bucket, lp_initial_supply: Decimal, lp_token: ResourceAddress) -> (r: Result<
        (SingleTokenLiquidityPool, Bucket),
        SinglePoolError,
    >)
        ensures
            lp_initial_supply@ < 0 ==> r == Err::<(SingleTokenLiquidityPool, Bucket), SinglePoolError>(
                SinglePoolError::Arithmetic,
            ),
            lp_initial_supply@ >= 0 ==> r == Ok::<(SingleTokenLiquidityPool, Bucket), SinglePoolError>(
                (
                    SingleTokenLiquidityPool {
                        resource: initial_funds.res(),
                        pool: initial_funds.amt(),
                        fees: Decimal(0),
                        lp_token,
                        lp_supply: lp_initial_supply,
                    },
                    Bucket::spec_new(lp_token, lp_initial_supply),
                ),
            ),
    {
        if lp_initial_supply.0 < 0 {
            return Err(SinglePoolError::Arithmetic);
        }
        let p = SingleTokenLiquidityPool {
            resource: initial_funds.resource_address(),
            pool: initial_funds.amount(),
            fees: Decimal(0),
            lp_token,
            lp_supply: lp_initial_supply,
        };
        Ok((p, Bucket::of(lp_token, lp_initial_supply)))
    }

    /// Keeps the fees in `fees` for the providers.
    pub fn add_fees(&mut self, fees: Bucket) -> (r: Result<(), SinglePoolError>)
        ensures
            if fees.res() != old(self).resource {
                r == Err::<(), SinglePoolError>(SinglePoolError::WrongResource) && *final(self) == *old(self)
            } else if dec_of(old(self).fees@ + fees.amt()@) is None {
                r == Err::<(), SinglePoolError>(SinglePoolError::Arithmetic) && *final(self) == *old(self)
            } else {
                r is Ok && *final(self) == (SingleTokenLiquidityPool {
                    fees: Decimal((old(self).fees@ + fees.amt()@) as i128),
                    ..*old(self)
                })
            },
    {
        if fees.resource_address() != self.resource {
            return Err(SinglePoolError::WrongResource);
        }
        match self.fees.checked_add(fees.amount()) {
            Some(f) => {
                self.fees = f;
                Ok(())
            },
            None => Err(SinglePoolError::Arithmetic),
        }
    }

    /// Adds the tokens in `liquidity` to the pool, and mints the same share
    /// of the LP tokens in circulation as the tokens are of the pool before.
    pub fn add_liquidity(&mut self, liquidity: Bucket) -> (r: Result<Bucket, SinglePoolError>)
        ensures
            r is Err ==> *final(self) == *old(self),
            if old(self).pool@ == 0 {
                r == Err::<Bucket, SinglePoolError>(SinglePoolError::Arithmetic)
            } else if liquidity.res() != old(self).resource {
                r == Err::<Bucket, SinglePoolError>(SinglePoolError::WrongResource)
            } else {
                match (
                    dec_of(ddiv(liquidity.amt()@, old(self).pool@)),
                    dec_of(old(self).pool@ + liquidity.amt()@),
                ) {
                    (Some(share), Some(pool)) => match dec_of(dmul(old(self).lp_supply@, share@)) {
                        Some(minted) => if minted@ < 0 || dec_of(old(self).lp_supply@ + minted@) is None {
                            r == Err::<Bucket, SinglePoolError>(SinglePoolError::Arithmetic)
                        } else {
                            &&& r == Ok::<Bucket, SinglePoolError>(Bucket::spec_new(old(self).lp_token, minted))
                            &&& *final(self) == (SingleTokenLiquidityPool {
                                pool,
                                lp_supply: Decimal((old(self).lp_supply@ + minted@) as i128),
                                ..*old(self)
                            })
                        },
                        None => r == Err::<Bucket, SinglePoolError>(SinglePoolError::Arithmetic),
                    },
                    _ => r == Err::<Bucket, SinglePoolError>(SinglePoolError::Arithmetic),
                }
            },
    {
        if self.pool.0 == 0 {
            return Err(SinglePoolError::Arithmetic);
        }
        if liquidity.resource_address() != self.resource {
            return Err(SinglePoolError::WrongResource);
        }
        let share = liquidity.amount().checked_div(self.pool);
        let pool = self.pool.checked_add(liquidity.amount());
        match (share, pool) {
            (Some(share), Some(pool)) => match self.lp_supply.checked_mul(share) {
                Some(minted) => {
                    if minted.0 < 0 {
                        return Err(SinglePoolError::Arithmetic);
                    }
                    match self.lp_supply.checked_add(minted) {
                        Some(s) => {
                            self.pool = pool;
                            self.lp_supply = s;
                            Ok(Bucket::of(self.lp_token, minted))
                        },
                        None => Err(SinglePoolError::Arithmetic),
                    }
                },
                None => Err(SinglePoolError::Arithmetic),
            },
            _ => Err(SinglePoolError::Arithmetic),
        }
    }

    /// Redeems the LP tokens in `lp_tokens` for their share of the fees and
    /// of the pool.
    pub fn remove_liquidity(&mut self, lp_tokens: Bucket) -> (r: Result<Bucket, SinglePoolError>)
        ensures
            match single_remove_spec(*old(self), lp_tokens) {
                Ok((p, out)) => r == Ok::<Bucket, SinglePoolError>(Bucket::spec_new(old(self).resource, out))
                    && *final(self) == p,
                Err(e) => r == Err::<Bucket, SinglePoolError>(e) && *final(self) == *old(self),
            },
    {
        if lp_tokens.resource_address() != self.lp_token {
            return Err(SinglePoolError::WrongToken);
        }
        if self.lp_supply.0 == 0 {
            return Err(SinglePoolError::Arithmetic);
        }
        let share = lp_tokens.amount().checked_div(self.lp_supply);
        let supply = self.lp_supply.checked_sub(lp_tokens.amount());
        match (share, supply) {
            (Some(share), Some(supply)) => match (self.fees.checked_mul(share), self.pool.checked_mul(share)) {
                (Some(f), Some(t)) => {
                    if f.0 < 0 || f.0 > self.fees.0 || t.0 < 0 || t.0 > self.pool.0 {
                        return Err(SinglePoolError::NotEnoughLiquidity);
                    }
                    match f.checked_add(t) {
                        Some(out) => {
                            self.fees = Decimal(self.fees.0 - f.0);
                            self.pool = Decimal(self.pool.0 - t.0);
                            self.lp_supply = supply;
                            Ok(Bucket::of(self.resource, out))
                        },
                        None => Err(SinglePoolError::Arithmetic),
                    }
                },
                _ => Err(SinglePoolError::Arithmetic),
            },
            _ => Err(SinglePoolError::Arithmetic),
        }
    }
}

/// A pool of one token whose LP tokens are minted and burned at the ratio
/// of LP tokens to tokens pooled; fees collected raise the tokens each LP
/// token stands for.
#[derive(Clone, Copy, Debug, PartialEq, Eq, Structural)]
pub struct LiquidityPool {
    pub resource: ResourceAddress,
    pub pool: Decimal,
    pub lp_resource_address: ResourceAddress,
    pub lp_per_asset_ratio: Decimal,
    /// The LP tokens in circulation.
    pub lp_supply: Decimal,
}

impl LiquidityPool {
    /// A pool of the tokens in `tokens`, which must be fungible and not
    /// none, with as many LP tokens of `lp_resource_address`, a resource
    /// made for it, which go to the caller.
    pub fn new(tokens: Bucket, token_type: ResourceType, lp_resource_address: ResourceAddress) -> (r: Result<
        (LiquidityPool, Bucket),
        SinglePoolError,
    >)
        ensures
            tokens.amt()@ == 0 ==> r == Err::<(LiquidityPool, Bucket), SinglePoolError>(SinglePoolError::EmptyTokens),
            tokens.amt()@ != 0 && token_type is NonFungible ==> r == Err::<(LiquidityPool, Bucket), SinglePoolError>(
                SinglePoolError::NonFungible,
            ),
            tokens.amt()@ != 0 && token_type is Fungible ==> r == Ok::<(LiquidityPool, Bucket), SinglePoolError>(
                (
                    LiquidityPool {
                        resource: tokens.res(),
                        pool: tokens.amt(),
                        lp_resource_address,
                        lp_per_asset_ratio: Decimal(dec_one() as i128),
                        lp_supply: tokens.amt(),
                    },
                    Bucket::spec_new(lp_resource_address, tokens.amt()),
                ),
            ),
    {
        if tokens.is_empty() {
            return Err(SinglePoolError::EmptyTokens);
        }
        match token_type {
            ResourceType::NonFungible => return Err(SinglePoolError::NonFungible),
            ResourceType::Fungible { .. } => {},
        }
        let amount = tokens.amount();
        let p = LiquidityPool {
            resource: tokens.resource_address(),
            pool: amount,
            lp_resource_address,
            lp_per_asset_ratio: Decimal(1_000_000_000_000_000_000),
            lp_supply: amount,
        };
        Ok((p, Bucket::of(lp_resource_address, amount)))
    }

    /// Adds the tokens in `tokens` to the pool and mints their amount times
    /// the ratio in LP tokens.
    pub fn add_liquidity(&mut self, tokens: Bucket) -> (r: Result<Bucket, SinglePoolError>)
        ensures
            r is Err ==> *final(self) == *old(self),
            match dec_of(dmul(tokens.amt()@, old(self).lp_per_asset_ratio@)) {
                None => r == Err::<Bucket, SinglePoolError>(SinglePoolError::Arithmetic),
                Some(minted) => if minted@ < 0 || dec_of(old(self).lp_supply@ + minted@) is None {
                    r == Err::<Bucket, SinglePoolError>(SinglePoolError::Arithmetic)
                } else if tokens.res() != old(self).resource {
                    r == Err::<Bucket, SinglePoolError>(SinglePoolError::WrongResource)
                } else if dec_of(old(self).pool@ + tokens.amt()@) is None {
                    r == Err::<Bucket, SinglePoolError>(SinglePoolError::Arithmetic)
                } else {
                    &&& r == Ok::<Bucket, SinglePoolError>(Bucket::spec_new(old(self).lp_resource_address, minted))
                    &&& *final(self) == (LiquidityPool {
                        pool: Decimal((old(self).pool@ + tokens.amt()@) as i128),
                        lp_supply: Decimal((old(self).lp_supply@ + minted@) as i128),
                        ..*old(self)
                    })
                },
            },
    {
        let minted = match tokens.amount().checked_mul(self.lp_per_asset_ratio) {
            Some(m) => m,
            None => return Err(SinglePoolError::Arithmetic),
        };
        if minted.0 < 0 {
            return Err(SinglePoolError::Arithmetic);
        }
        let supply = match self.lp_supply.checked_add(minted) {
            Some(s) => s,
            None => return Err(SinglePoolError::Arithmetic),
        };
        if tokens.resource_address() != self.resource {
            return Err(SinglePoolError::WrongResource);
        }
        let pool = match self.pool.checked_add(tokens.amount()) {
            Some(p) => p,
            None => return Err(SinglePoolError::Arithmetic),
        };
        self.pool = pool;
        self.lp_supply = supply;
        Ok(Bucket::of(self.lp_resource_address, minted))
    }

    /// Adds the fee in `tokens` to the pool and sets the ratio to the LP
    /// tokens in circulation over the tokens pooled.
    pub fn add_collected_fee(&mut self, tokens: Bucket) -> (r: Result<(), SinglePoolError>)
        ensures
            r is Err ==> *final(self) == *old(self),
            if tokens.res() != old(self).resource {
                r == Err::<(), SinglePoolError>(SinglePoolError::WrongResource)
            } else {
                match dec_of(old(self).pool@ + tokens.amt()@) {
                    None => r == Err::<(), SinglePoolError>(SinglePoolError::Arithmetic),
                    Some(pool) => if old(self).lp_supply@ != 0 {
                        if pool@ == 0 {
                            r == Err::<(), SinglePoolError>(SinglePoolError::Arithmetic)
                        } else {
                            match dec_of(ddiv(old(self).lp_supply@, pool@)) {
                                None => r == Err::<(), SinglePoolError>(SinglePoolError::Arithmetic),
                                Some(ratio) => r is Ok && *final(self) == (LiquidityPool {
                                    pool,
                                    lp_per_asset_ratio: ratio,
                                    ..*old(self)
                                }),
                            }
                        }
                    } else {
                        r is Ok && *final(self) == (LiquidityPool {
                            pool,
                            lp_per_asset_ratio: Decimal(dec_one() as i128),
                            ..*old(self)
                        })
                    },
                }
            },
    {
        if tokens.resource_address() != self.resource {
            return Err(SinglePoolError::WrongResource);
        }
        let pool = match self.pool.checked_add(tokens.amount()) {
            Some(p) => p,
            None => return Err(SinglePoolError::Arithmetic),
        };
        if self.lp_supply.0 != 0 {
            match self.lp_supply.checked_div(pool) {
                Some(ratio) => {
                    self.pool = pool;
                    self.lp_per_asset_ratio = ratio;
                    Ok(())
                },
                None => Err(SinglePoolError::Arithmetic),
            }
        } else {
            self.pool = pool;
            self.lp_per_asset_ratio = Decimal(1_000_000_000_000_000_000);
            Ok(())
        }
    }

    /// Redeems the LP tokens in `lp_tokens` for the tokens they stand for at
    /// the ratio, at most all the pool holds.
    pub fn remove_liquidity(&mut self, lp_tokens: Bucket) -> (r: Result<Bucket, SinglePoolError>)
        ensures
            r is Err ==> *final(self) == *old(self),
            if lp_tokens.res() != old(self).lp_resource_address {
                r == Err::<Bucket, SinglePoolError>(SinglePoolError::WrongToken)
            } else if old(self).lp_per_asset_ratio@ == 0 {
                r == Err::<Bucket, SinglePoolError>(SinglePoolError::Arithmetic)
            } else {
                match dec_of(ddiv(lp_tokens.amt()@, old(self).lp_per_asset_ratio@)) {
                    None => r == Err::<Bucket, SinglePoolError>(SinglePoolError::Arithmetic),
                    Some(to_remove) => {
                        let out = if to_remove@ <= old(self).pool@ {
                            to_remove
                        } else {
                            old(self).pool
                        };
                        if out@ < 0 || dec_of(old(self).lp_supply@ - lp_tokens.amt()@) is None {
                            r == Err::<Bucket, SinglePoolError>(SinglePoolError::Arithmetic)
                        } else {
                            let pool = old(self).pool@ - out@;
                            &&& r == Ok::<Bucket, SinglePoolError>(Bucket::spec_new(old(self).resource, out))
                            &&& *final(self) == (LiquidityPool {
                                pool: Decimal(pool as i128),
                                lp_supply: Decimal((old(self).lp_supply@ - lp_tokens.amt()@) as i128),
                                lp_per_asset_ratio: if pool == 0 {
                                    Decimal(dec_one() as i128)
                                } else {
                                    old(self).lp_per_asset_ratio
                                },
                                ..*old(self)
                            })
                        }
                    },
                }
            },
    {
        if lp_tokens.resource_address() != self.lp_resource_address {
            return Err(SinglePoolError::WrongToken);
        }
        let to_remove = match lp_tokens.amount().checked_div(self.lp_per_asset_ratio) {
            Some(x) => x,
            None => return Err(SinglePoolError::Arithmetic),
        };
        let out = if to_remove.0 <= self.pool.0 {
            to_remove
        } else {
            self.pool
        };
        if out.0 < 0 {
            return Err(SinglePoolError::Arithmetic);
        }
        let supply = match self.lp_supply.checked_sub(lp_tokens.amount()) {
            Some(s) => s,
            None => return Err(SinglePoolError::Arithmetic),
        };
        self.pool = Decimal(self.pool.0 - out.0);
        self.lp_supply = supply;
        if self.pool.0 == 0 {
            self.lp_per_asset_ratio = Decimal(1_000_000_000_000_000_000);
        }
        Ok(Bucket::of(self.resource, out))
    }
}

} // verus!
