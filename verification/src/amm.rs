//! A constant-product exchange of token pairs with weighted pools: each pool
//! holds reserves of two tokens, prices swaps by `x * y = k` less a fee kept
//! by the pool, and issues tracking tokens for the share of its liquidity.
use vstd::prelude::*;
use crate::bignum::tdiv;
use crate::decimal::{
    dec_one, dec_of, ddiv, dmul, opt_add, opt_div, opt_mul, opt_sub, whole, Decimal,
};
use crate::resource::{sort_buckets, sorted_pair, Bucket, ResourceAddress};

verus! {

broadcast use crate::resource::group_bucket;

/// Why a pool or the exchange refuses a request.
#[derive(Clone, Copy, Debug, PartialEq, Eq, Structural)]
pub enum DexError {
    /// A pool needs two different tokens.
    SameToken,
    /// Both tokens of a pool must be fungible.
    NonFungible,
    /// The two token weights add up to more than one.
    WeightTooHigh,
    /// A bucket that must hold tokens is empty.
    EmptyBucket,
    /// The fee is not between 0 and 100.
    InvalidFee,
    /// The amounts supplied are not in the proportion of the token weights.
    WeightMismatch,
    /// The resource does not belong to the pool.
    NotInPool,
    /// The pool holds less than is asked of it.
    InsufficientLiquidity,
    /// The tracking tokens are not those of the pool.
    WrongTrackingToken,
    /// A swap would give less than the minimum asked for.
    MinAmountNotMet,
    /// The input does not cover the output asked for.
    InsufficientInput,
    /// An amount to move is negative.
    InvalidAmount,
    /// A computation divides by zero or leaves the decimal range.
    Arithmetic,
    /// No pool trades the two tokens.
    PoolNotFound,
    /// A pool already trades the two tokens.
    PoolExists,
    /// Another pool already issues this tracking token.
    TrackingTokenInUse,
}

/// Turns a missing decimal into an arithmetic error.
pub fn arith(o: Option<Decimal>) -> (r: Result<Decimal, DexError>)
    ensures
        r == (match o {
            Some(v) => Ok(v),
            None => Err(DexError::Arithmetic),
        }),
{
    match o {
        Some(v) => Ok(v),
        None => Err(DexError::Arithmetic),
    }
}

/// A liquidity pool of two tokens. `address1` is the greater address.
#[derive(Clone, Copy, Debug, PartialEq, Eq, Structural)]
pub struct LiquidityPool {
    pub address1: ResourceAddress,
    pub reserve1: Decimal,
    pub address2: ResourceAddress,
    pub reserve2: Decimal,
    pub tracking_token_address: ResourceAddress,
    /// Total supply of the tracking tokens.
    pub tracking_supply: Decimal,
    /// The share of each swap, between 0 and 100, kept by the pool.
    pub fee_to_pool: Decimal,
    pub token_1_weight: Decimal,
    pub token_2_weight: Decimal,
    pub total_token_weight: Decimal,
}

/// `100` as a decimal.
pub open spec fn hundred() -> Decimal {
    whole(100)
}

/// The share of an input that is traded after the fee: `(100 - fee) / 100`.
pub open spec fn fee_modifier(fee: Decimal) -> Option<Decimal> {
    opt_div(opt_sub(Some(hundred()), Some(fee)), Some(hundred()))
}

/// `dy = dx * r * y / (x + r * dx)`: what `dx` of the input buys from
/// reserves `x` of the input and `y` of the output.
pub open spec fn output_amount(x: Decimal, y: Decimal, dx: Decimal, fee: Decimal) -> Option<Decimal> {
    let r = fee_modifier(fee);
    opt_div(opt_mul(opt_mul(Some(dx), r), Some(y)), opt_add(Some(x), opt_mul(r, Some(dx))))
}

/// `dx = dy * x / (r * (y - dy))`: the input that buys `dy` of the output.
pub open spec fn input_amount(x: Decimal, y: Decimal, dy: Decimal, fee: Decimal) -> Option<Decimal> {
    let r = fee_modifier(fee);
    opt_div(opt_mul(Some(dy), Some(x)), opt_mul(r, opt_sub(Some(y), Some(dy))))
}

impl LiquidityPool {
    /// The pool names two different tokens, the greater first, and holds
    /// non-negative reserves.
    pub open spec fn wf(&self) -> bool {
        &&& self.address1.0 > self.address2.0
        &&& self.reserve1@ >= 0
        &&& self.reserve2@ >= 0
    }

    /// Two states of one pool: the same tokens and tracking token.
    pub open spec fn same_tokens(&self, o: LiquidityPool) -> bool {
        &&& self.address1 == o.address1
        &&& self.address2 == o.address2
        &&& self.tracking_token_address == o.tracking_token_address
    }

    pub open spec fn has(&self, a: ResourceAddress) -> bool {
        a == self.address1 || a == self.address2
    }

    /// The reserve of a token of the pool.
    pub open spec fn reserve_of(&self, a: ResourceAddress) -> Decimal {
        if a == self.address1 {
            self.reserve1
        } else {
            self.reserve2
        }
    }

    /// Refuses an address that is not one of the pool's two tokens.
    pub fn assert_belongs_to_pool(&self, address: ResourceAddress) -> (r: Result<(), DexError>)
        ensures
            self.has(address) ==> r is Ok,
            !self.has(address) ==> r == Err::<(), DexError>(DexError::NotInPool),
    {
        if self.belongs_to_pool(address) {
            Ok(())
        } else {
            Err(DexError::NotInPool)
        }
    }

    /// The pool's two token weights and its fee.
    pub fn get_pool_info(&self) -> (r: (Decimal, Decimal, Decimal))
        ensures
            r == (self.token_1_weight, self.token_2_weight, self.fee_to_pool),
    {
        (self.token_1_weight, self.token_2_weight, self.fee_to_pool)
    }

    /// The weight of the pool's first token.
    pub fn token_1_weight(&self) -> (r: Decimal)
        ensures
            r == self.token_1_weight,
    {
        self.token_1_weight
    }

    /// The weight of the pool's second token.
    pub fn token_2_weight(&self) -> (r: Decimal)
        ensures
            r == self.token_2_weight,
    {
        self.token_2_weight
    }

    /// The share of each swap kept by the pool.
    pub fn fee_to_pool(&self) -> (r: Decimal)
        ensures
            r == self.fee_to_pool,
    {
        self.fee_to_pool
    }

    /// The resource of the pool's tracking tokens.
    pub fn tracking_token_address(&self) -> (r: ResourceAddress)
        ensures
            r == self.tracking_token_address,
    {
        self.tracking_token_address
    }

    /// The other token of the pool.
    pub open spec fn other_of(&self, a: ResourceAddress) -> ResourceAddress {
        if a == self.address1 {
            self.address2
        } else {
            self.address1
        }
    }

    /// The pool with the reserve of `a` set to `v`.
    pub open spec fn with_reserve(self, a: ResourceAddress, v: Decimal) -> LiquidityPool {
        if a == self.address1 {
            LiquidityPool { reserve1: v, ..self }
        } else {
            LiquidityPool { reserve2: v, ..self }
        }
    }

    /// Whether the address belongs to one of the two tokens of the pool.
    pub fn belongs_to_pool(&self, address: ResourceAddress) -> (r: bool)
        ensures
            r == self.has(address),
    {
        address == self.address1 || address == self.address2
    }

    /// The other token of the pool.
    pub fn other_resource_address(&self, resource_address: ResourceAddress) -> (r: Result<ResourceAddress, DexError>)
        ensures
            r == (if self.has(resource_address) {
                Ok(self.other_of(resource_address))
            } else {
                Err(DexError::NotInPool)
            }),
    {
        if !self.belongs_to_pool(resource_address) {
            return Err(DexError::NotInPool);
        }
        if resource_address == self.address1 {
            Ok(self.address2)
        } else {
            Ok(self.address1)
        }
    }

    /// The addresses of the two tokens, the greater first.
    pub fn addresses(&self) -> (r: (ResourceAddress, ResourceAddress))
        ensures
            r == (self.address1, self.address2),
    {
        (self.address1, self.address2)
    }

    /// The product of the two reserves, `k` in `x * y = k`.
    pub fn k(&self) -> (r: Option<Decimal>)
        ensures
            r == dec_of(dmul(self.reserve1@, self.reserve2@)),
    {
        self.reserve1.checked_mul(self.reserve2)
    }

    /// The reserve of a token of the pool.
    pub fn reserve_of_exec(&self, a: ResourceAddress) -> (r: Decimal)
        ensures
            r == self.reserve_of(a),
    {
        self.reserve(a)
    }

    fn reserve(&self, a: ResourceAddress) -> (r: Decimal)
        ensures
            r == self.reserve_of(a),
    {
        if a == self.address1 {
            self.reserve1
        } else {
            self.reserve2
        }
    }

    /// `(100 - fee) / 100`.
    fn fee_mod(&self) -> (r: Result<Decimal, DexError>)
        ensures
            r == (match fee_modifier(self.fee_to_pool) {
                Some(v) => Ok(v),
                None => Err(DexError::Arithmetic),
            }),
    {
        let h = Decimal::from_u64(100);
        let d = arith(h.checked_sub(self.fee_to_pool))?;
        arith(d.checked_div(h))
    }

    /// The output that `input_amount` of `input_resource_address` buys.
    pub fn calculate_output_amount(&self, input_resource_address: ResourceAddress, input_amount: Decimal) -> (r: Result<Decimal, DexError>)
        ensures
            r == (if !self.has(input_resource_address) {
                Err(DexError::NotInPool)
            } else {
                match output_amount(
                    self.reserve_of(input_resource_address),
                    self.reserve_of(self.other_of(input_resource_address)),
                    input_amount,
                    self.fee_to_pool,
                ) {
                    Some(v) => Ok(v),
                    None => Err(DexError::Arithmetic),
                }
            }),
    {
        let other = self.other_resource_address(input_resource_address)?;
        let x = self.reserve(input_resource_address);
        let y = self.reserve(other);
        let dx = input_amount;
        let r = self.fee_mod()?;
        let num = arith(arith(dx.checked_mul(r))?.checked_mul(y))?;
        let den = arith(x.checked_add(arith(r.checked_mul(dx))?))?;
        arith(num.checked_div(den))
    }

    /// The input of the other token that buys `output_amount` of
    /// `output_resource_address`.
    pub fn calculate_input_amount(&self, output_resource_address: ResourceAddress, output_amount: Decimal) -> (r: Result<Decimal, DexError>)
        ensures
            r == (if !self.has(output_resource_address) {
                Err(DexError::NotInPool)
            } else {
                match input_amount(
                    self.reserve_of(self.other_of(output_resource_address)),
                    self.reserve_of(output_resource_address),
                    output_amount,
                    self.fee_to_pool,
                ) {
                    Some(v) => Ok(v),
                    None => Err(DexError::Arithmetic),
                }
            }),
    {
        let other = self.other_resource_address(output_resource_address)?;
        let x = self.reserve(other);
        let y = self.reserve(output_resource_address);
        let dy = output_amount;
        let r = self.fee_mod()?;
        let num = arith(dy.checked_mul(x))?;
        let den = arith(r.checked_mul(arith(y.checked_sub(dy))?))?;
        arith(num.checked_div(den))
    }
}


/// The first check that the creation of a pool fails, if any.
pub open spec fn new_pool_error(
    token_1_weight: Decimal,
    token_2_weight: Decimal,
    token1: Bucket,
    token2: Bucket,
    fee_to_pool: Decimal,
    token1_fungible: bool,
    token2_fungible: bool,
) -> Option<DexError> {
    let total = opt_add(Some(token1.amt()), Some(token2.amt()));
    let w1 = opt_div(Some(token1.amt()), total);
    let w2 = opt_div(Some(token2.amt()), total);
    let wsum = opt_add(Some(token_1_weight), Some(token_2_weight));
    if token1.res() == token2.res() {
        Some(DexError::SameToken)
    } else if !token1_fungible || !token2_fungible {
        Some(DexError::NonFungible)
    } else if wsum is None {
        Some(DexError::Arithmetic)
    } else if wsum.unwrap()@ > whole(1)@ {
        Some(DexError::WeightTooHigh)
    } else if token1.amt()@ == 0 || token2.amt()@ == 0 {
        Some(DexError::EmptyBucket)
    } else if fee_to_pool@ < 0 || fee_to_pool@ > hundred()@ {
        Some(DexError::InvalidFee)
    } else if w1 is None || w2 is None || opt_add(w1, w2) is None {
        Some(DexError::Arithmetic)
    } else if opt_add(w1, w2) != wsum || w1 != Some(token_1_weight) || w2 != Some(token_2_weight) {
        Some(DexError::WeightMismatch)
    } else {
        None
    }
}

impl LiquidityPool {
    /// The pool after a deposit of `bucket`.
    pub open spec fn deposit_spec(self, bucket: Bucket) -> Result<LiquidityPool, DexError> {
        if !self.has(bucket.res()) {
            Err(DexError::NotInPool)
        } else {
            match dec_of(self.reserve_of(bucket.res())@ + bucket.amt()@) {
                Some(v) => Ok(self.with_reserve(bucket.res(), v)),
                None => Err(DexError::Arithmetic),
            }
        }
    }

    /// The pool after a withdrawal of `amount` of `a`, and the bucket
    /// withdrawn.
    pub open spec fn withdraw_spec(self, a: ResourceAddress, amount: Decimal) -> Result<(LiquidityPool, Bucket), DexError> {
        if !self.has(a) {
            Err(DexError::NotInPool)
        } else if self.reserve_of(a)@ < amount@ {
            Err(DexError::InsufficientLiquidity)
        } else if amount@ < 0 {
            Err(DexError::InvalidAmount)
        } else {
            Ok((
                self.with_reserve(a, Decimal((self.reserve_of(a)@ - amount@) as i128)),
                Bucket::spec_new(a, amount),
            ))
        }
    }

    /// The pool after a swap of `tokens`, and the tokens bought.
    pub open spec fn swap_spec(self, tokens: Bucket) -> Result<(LiquidityPool, Bucket), DexError> {
        let a = tokens.res();
        if !self.has(a) {
            Err(DexError::NotInPool)
        } else {
            match output_amount(self.reserve_of(a), self.reserve_of(self.other_of(a)), tokens.amt(), self.fee_to_pool) {
                None => Err(DexError::Arithmetic),
                Some(out) => match self.withdraw_spec(self.other_of(a), out) {
                    Err(e) => Err(e),
                    Ok((p1, bought)) => match p1.deposit_spec(tokens) {
                        Err(e) => Err(e),
                        Ok(p2) => Ok((p2, bought)),
                    },
                },
            }
        }
    }

    /// A swap that must give at least `min_amount_out`.
    pub open spec fn swap_exact_spec(self, tokens: Bucket, min_amount_out: Decimal) -> Result<(LiquidityPool, Bucket), DexError> {
        if !self.has(tokens.res()) {
            Err(DexError::NotInPool)
        } else {
            match self.swap_spec(tokens) {
                Err(e) => Err(e),
                Ok((p, bought)) => if bought.amt()@ >= min_amount_out@ {
                    Ok((p, bought))
                } else {
                    Err(DexError::MinAmountNotMet)
                },
            }
        }
    }

    /// A swap that buys exactly `output_amount`: the pool after it, the
    /// tokens bought and the input left over.
    pub open spec fn swap_for_exact_spec(self, tokens: Bucket, output_amount: Decimal) -> Result<(LiquidityPool, Bucket, Bucket), DexError> {
        let a = tokens.res();
        if !self.has(a) {
            Err(DexError::NotInPool)
        } else {
            let b = self.other_of(a);
            match input_amount(self.reserve_of(a), self.reserve_of(b), output_amount, self.fee_to_pool) {
                None => Err(DexError::Arithmetic),
                Some(needed) => if tokens.amt()@ < needed@ {
                    Err(DexError::InsufficientInput)
                } else if needed@ < 0 {
                    Err(DexError::InvalidAmount)
                } else {
                    match self.deposit_spec(Bucket::spec_new(a, needed)) {
                        Err(e) => Err(e),
                        Ok(p1) => match p1.withdraw_spec(b, output_amount) {
                            Err(e) => Err(e),
                            Ok((p2, bought)) => Ok((
                                p2,
                                bought,
                                Bucket::spec_new(a, Decimal((tokens.amt()@ - needed@) as i128)),
                            )),
                        },
                    }
                }
            }
        }
    }

    /// Redeeming tracking tokens for their share of both reserves.
    pub open spec fn remove_liquidity_spec(self, tracking_tokens: Bucket) -> Result<(LiquidityPool, Bucket, Bucket), DexError> {
        if tracking_tokens.res() != self.tracking_token_address {
            Err(DexError::WrongTrackingToken)
        } else {
            let pct = opt_div(Some(tracking_tokens.amt()), Some(self.tracking_supply));
            let supply = dec_of(self.tracking_supply@ - tracking_tokens.amt()@);
            let amount1 = opt_mul(Some(self.reserve1), pct);
            if pct is None || supply is None || amount1 is None {
                Err(DexError::Arithmetic)
            } else {
                let p0 = LiquidityPool { tracking_supply: supply.unwrap(), ..self };
                match p0.withdraw_spec(self.address1, amount1.unwrap()) {
                    Err(e) => Err(e),
                    Ok((p1, b1)) => match opt_mul(Some(p1.reserve2), pct) {
                        None => Err(DexError::Arithmetic),
                        Some(amount2) => match p1.withdraw_spec(self.address2, amount2) {
                            Err(e) => Err(e),
                            Ok((p2, b2)) => Ok((p2, b1, b2)),
                        },
                    },
                }
            }
        }
    }
}

impl LiquidityPool {
    /// Creates a pool from two buckets of different fungible tokens, whose
    /// amounts are in the proportion of the two weights, and returns it with
    /// the first 100 tracking tokens.
    pub fn new(
        token_1_weight: Decimal,
        token_2_weight: Decimal,
        token1: Bucket,
        token2: Bucket,
        fee_to_pool: Decimal,
        token1_fungible: bool,
        token2_fungible: bool,
        tracking_token_address: ResourceAddress,
    ) -> (r: Result<(LiquidityPool, Bucket), DexError>)
        ensures
            match new_pool_error(token_1_weight, token_2_weight, token1, token2, fee_to_pool, token1_fungible, token2_fungible) {
                Some(e) => r == Err::<(LiquidityPool, Bucket), DexError>(e),
                None => r matches Ok((pool, tt)) && {
                    let (b1, b2) = if token1.res() == sorted_pair(token1.res(), token2.res()).0 {
                        (token1, token2)
                    } else {
                        (token2, token1)
                    };
                    &&& pool.wf()
                    &&& pool.address1 == b1.res() && pool.reserve1 == b1.amt()
                    &&& pool.address2 == b2.res() && pool.reserve2 == b2.amt()
                    &&& pool.tracking_token_address == tracking_token_address
                    &&& pool.tracking_supply == whole(100)
                    &&& pool.fee_to_pool == fee_to_pool
                    &&& pool.token_1_weight == token_1_weight
                    &&& pool.token_2_weight == token_2_weight
                    &&& Some(pool.total_token_weight) == opt_add(Some(token_1_weight), Some(token_2_weight))
                    &&& tt == Bucket::spec_new(tracking_token_address, whole(100))
                },
            },
    {
        if token1.resource_address() == token2.resource_address() {
            return Err(DexError::SameToken);
        }
        if !token1_fungible || !token2_fungible {
            return Err(DexError::NonFungible);
        }
        let wsum = arith(token_1_weight.checked_add(token_2_weight))?;
        if wsum.0 > Decimal::one().0 {
            return Err(DexError::WeightTooHigh);
        }
        if token1.is_empty() || token2.is_empty() {
            return Err(DexError::EmptyBucket);
        }
        let hundred = Decimal::from_u64(100);
        if fee_to_pool.0 < 0 || fee_to_pool.0 > hundred.0 {
            return Err(DexError::InvalidFee);
        }
        let total = arith(token1.amount().checked_add(token2.amount()))?;
        let w1 = arith(token1.amount().checked_div(total))?;
        let w2 = arith(token2.amount().checked_div(total))?;
        let bsum = arith(w1.checked_add(w2))?;
        if bsum != wsum || w1 != token_1_weight || w2 != token_2_weight {
            return Err(DexError::WeightMismatch);
        }
        let (bucket1, bucket2) = sort_buckets(token1, token2);
        bucket1.check_non_negative();
        bucket2.check_non_negative();
        let pool = LiquidityPool {
            address1: bucket1.resource_address(),
            reserve1: bucket1.amount(),
            address2: bucket2.resource_address(),
            reserve2: bucket2.amount(),
            tracking_token_address,
            tracking_supply: Decimal::from_u64(100),
            fee_to_pool,
            token_1_weight,
            token_2_weight,
            total_token_weight: wsum,
        };
        Ok((pool, Bucket::of(tracking_token_address, Decimal::from_u64(100))))
    }
}


/// The amounts of the two sorted buckets that join the reserves `m` and `n`:
/// all of both when the pool is empty on the first side or the proportions
/// match, else as much as keeps the proportion of the reserves.
pub open spec fn liquidity_amounts(m: Decimal, n: Decimal, dm: Decimal, dn: Decimal) -> Option<(Decimal, Decimal)> {
    let mn = opt_div(Some(m), Some(n));
    let d = opt_div(Some(dm), Some(dn));
    if mn is None || d is None {
        None
    } else if m@ == 0 || mn == d {
        Some((dm, dn))
    } else if mn.unwrap()@ < d.unwrap()@ {
        match opt_div(opt_mul(Some(dn), Some(m)), Some(n)) {
            Some(a1) => Some((a1, dn)),
            None => None,
        }
    } else {
        match opt_div(opt_mul(Some(dm), Some(n)), Some(m)) {
            Some(a2) => Some((dm, a2)),
            None => None,
        }
    }
}

impl LiquidityPool {
    /// The first weight check that added liquidity fails, if any.
    pub open spec fn add_liquidity_error(self, token1: Bucket, token2: Bucket) -> Option<DexError> {
        let total = opt_add(Some(token1.amt()), Some(token2.amt()));
        let w1 = opt_div(Some(token1.amt()), total);
        let w2 = opt_div(Some(token2.amt()), total);
        let s1 = opt_add(w1, w2);
        let s2 = opt_add(Some(self.token_1_weight), Some(self.token_2_weight));
        if !self.has(token1.res()) || !self.has(token2.res()) {
            Some(DexError::NotInPool)
        } else if token1.amt()@ == 0 || token2.amt()@ == 0 {
            Some(DexError::EmptyBucket)
        } else if s1 is None || s2 is None {
            Some(DexError::Arithmetic)
        } else if s1 != s2 || w1 != Some(self.token_1_weight) || w2 != Some(self.token_2_weight) {
            Some(DexError::WeightMismatch)
        } else {
            None
        }
    }

    /// Adding liquidity: the pool after it, what is left of the two buckets
    /// (sorted by address, the greater first) and the tracking tokens issued.
    pub open spec fn add_liquidity_spec(self, token1: Bucket, token2: Bucket) -> Result<(LiquidityPool, Bucket, Bucket, Bucket), DexError> {
        match self.add_liquidity_error(token1, token2) {
            Some(e) => Err(e),
            None => {
                let (b1, b2) = if token1.res() == sorted_pair(token1.res(), token2.res()).0 {
                    (token1, token2)
                } else {
                    (token2, token1)
                };
                let m = self.reserve_of(b1.res());
                let n = self.reserve_of(b2.res());
                match liquidity_amounts(m, n, b1.amt(), b2.amt()) {
                    None => Err(DexError::Arithmetic),
                    Some((a1, a2)) => if a1@ < 0 || a2@ < 0 {
                        Err(DexError::InvalidAmount)
                    } else if a1@ > b1.amt()@ || a2@ > b2.amt()@ {
                        Err(DexError::InsufficientInput)
                    } else {
                        match self.deposit_spec(Bucket::spec_new(b1.res(), a1)) {
                            Err(e) => Err(e),
                            Ok(p1) => match p1.deposit_spec(Bucket::spec_new(b2.res(), a2)) {
                                Err(e) => Err(e),
                                Ok(p2) => {
                                    let t = if self.tracking_supply@ == 0 {
                                        Some(whole(100))
                                    } else {
                                        opt_div(opt_mul(Some(a1), Some(self.tracking_supply)), Some(m))
                                    };
                                    match t {
                                        None => Err(DexError::Arithmetic),
                                        Some(t) => if t@ < 0 {
                                            Err(DexError::InvalidAmount)
                                        } else {
                                            match dec_of(self.tracking_supply@ + t@) {
                                                None => Err(DexError::Arithmetic),
                                                Some(supply) => Ok((
                                                    LiquidityPool { tracking_supply: supply, ..p2 },
                                                    Bucket::spec_new(b1.res(), Decimal((b1.amt()@ - a1@) as i128)),
                                                    Bucket::spec_new(b2.res(), Decimal((b2.amt()@ - a2@) as i128)),
                                                    Bucket::spec_new(self.tracking_token_address, t),
                                                )),
                                            }
                                        },
                                    }
                                },
                            },
                        }
                    },
                }
            },
        }
    }
}

/// The amounts of two sorted buckets that join the reserves.
fn compute_liquidity_amounts(m: Decimal, n: Decimal, dm: Decimal, dn: Decimal) -> (r: Result<(Decimal, Decimal), DexError>)
    ensures
        r == (match liquidity_amounts(m, n, dm, dn) {
            Some(v) => Ok::<(Decimal, Decimal), DexError>(v),
            None => Err(DexError::Arithmetic),
        }),
{
    let mn = arith(m.checked_div(n))?;
    let d = arith(dm.checked_div(dn))?;
    if m.0 == 0 || mn == d {
        Ok((dm, dn))
    } else if mn.0 < d.0 {
        Ok((arith(arith(dn.checked_mul(m))?.checked_div(n))?, dn))
    } else {
        Ok((dm, arith(arith(dm.checked_mul(n))?.checked_div(m))?))
    }
}

impl LiquidityPool {
    /// Checks that the two buckets belong to the pool, are not empty and are
    /// in the proportion of the token weights.
    pub fn check_add_liquidity(&self, token1: Bucket, token2: Bucket) -> (r: Result<(), DexError>)
        ensures
            r == (match self.add_liquidity_error(token1, token2) {
                Some(e) => Err(e),
                None => Ok(()),
            }),
    {
        if !self.belongs_to_pool(token1.resource_address()) || !self.belongs_to_pool(token2.resource_address()) {
            return Err(DexError::NotInPool);
        }
        if token1.is_empty() || token2.is_empty() {
            return Err(DexError::EmptyBucket);
        }
        let total = arith(token1.amount().checked_add(token2.amount()))?;
        let w1 = arith(token1.amount().checked_div(total))?;
        let w2 = arith(token2.amount().checked_div(total))?;
        let s1 = arith(w1.checked_add(w2))?;
        let s2 = arith(self.token_1_weight.checked_add(self.token_2_weight))?;
        if s1 != s2 || w1 != self.token_1_weight || w2 != self.token_2_weight {
            return Err(DexError::WeightMismatch);
        }
        Ok(())
    }
}

impl LiquidityPool {
    fn set_reserve(&mut self, a: ResourceAddress, v: Decimal)
        ensures
            *final(self) == old(self).with_reserve(a, v),
    {
        if a == self.address1 {
            self.reserve1 = v;
        } else {
            self.reserve2 = v;
        }
    }

    /// Puts a bucket into the reserve of its token.
    pub fn deposit(&mut self, bucket: Bucket) -> (r: Result<(), DexError>)
        requires
            old(self).wf(),
        ensures
            final(self).wf(),
            final(self).same_tokens(*old(self)),
            match old(self).deposit_spec(bucket) {
                Ok(p) => r is Ok && *final(self) == p,
                Err(e) => r == Err::<(), DexError>(e) && *final(self) == *old(self),
            },
    {
        let a = bucket.resource_address();
        if !self.belongs_to_pool(a) {
            return Err(DexError::NotInPool);
        }
        bucket.check_non_negative();
        let v = arith(self.reserve(a).checked_add(bucket.amount()))?;
        self.set_reserve(a, v);
        Ok(())
    }

    /// Takes `amount` of `resource_address` out of its reserve.
    pub fn withdraw(&mut self, resource_address: ResourceAddress, amount: Decimal) -> (r: Result<Bucket, DexError>)
        requires
            old(self).wf(),
        ensures
            final(self).wf(),
            final(self).same_tokens(*old(self)),
            match old(self).withdraw_spec(resource_address, amount) {
                Ok((p, b)) => r == Ok::<Bucket, DexError>(b) && *final(self) == p,
                Err(e) => r == Err::<Bucket, DexError>(e) && *final(self) == *old(self),
            },
    {
        if !self.belongs_to_pool(resource_address) {
            return Err(DexError::NotInPool);
        }
        let cur = self.reserve(resource_address);
        if cur.0 < amount.0 {
            return Err(DexError::InsufficientLiquidity);
        }
        if amount.0 < 0 {
            return Err(DexError::InvalidAmount);
        }
        self.set_reserve(resource_address, Decimal(cur.0 - amount.0));
        Ok(Bucket::of(resource_address, amount))
    }

    /// Swaps all of `tokens` for the other token of the pool, at the price
    /// of the constant-product rule less the pool's fee.
    pub fn swap(&mut self, tokens: Bucket) -> (r: Result<Bucket, DexError>)
        requires
            old(self).wf(),
        ensures
            final(self).wf(),
            final(self).same_tokens(*old(self)),
            match old(self).swap_spec(tokens) {
                Ok((p, b)) => r == Ok::<Bucket, DexError>(b) && *final(self) == p,
                Err(e) => r == Err::<Bucket, DexError>(e) && *final(self) == *old(self),
            },
    {
        let a = tokens.resource_address();
        if !self.belongs_to_pool(a) {
            return Err(DexError::NotInPool);
        }
        let out = self.calculate_output_amount(a, tokens.amount())?;
        let other = self.other_resource_address(a)?;
        let mut p = *self;
        let bought = p.withdraw(other, out)?;
        p.deposit(tokens)?;
        *self = p;
        Ok(bought)
    }

    /// Swaps all of `tokens`, refusing when less than `min_amount_out`
    /// would come back.
    pub fn swap_exact_tokens_for_tokens(&mut self, tokens: Bucket, min_amount_out: Decimal) -> (r: Result<Bucket, DexError>)
        requires
            old(self).wf(),
        ensures
            final(self).wf(),
            final(self).same_tokens(*old(self)),
            match old(self).swap_exact_spec(tokens, min_amount_out) {
                Ok((p, b)) => r == Ok::<Bucket, DexError>(b) && *final(self) == p,
                Err(e) => r == Err::<Bucket, DexError>(e) && *final(self) == *old(self),
            },
    {
        if !self.belongs_to_pool(tokens.resource_address()) {
            return Err(DexError::NotInPool);
        }
        let mut p = *self;
        let bought = p.swap(tokens)?;
        if bought.amount().0 < min_amount_out.0 {
            return Err(DexError::MinAmountNotMet);
        }
        *self = p;
        Ok(bought)
    }

    /// Buys exactly `output_amount` of the other token with as much of
    /// `tokens` as that takes; returns the tokens bought and the rest of the
    /// input.
    pub fn swap_tokens_for_exact_tokens(&mut self, tokens: Bucket, output_amount: Decimal) -> (r: Result<(Bucket, Bucket), DexError>)
        requires
            old(self).wf(),
        ensures
            final(self).wf(),
            final(self).same_tokens(*old(self)),
            match old(self).swap_for_exact_spec(tokens, output_amount) {
                Ok((p, b, rest)) => r == Ok::<(Bucket, Bucket), DexError>((b, rest)) && *final(self) == p,
                Err(e) => r == Err::<(Bucket, Bucket), DexError>(e) && *final(self) == *old(self),
            },
    {
        let a = tokens.resource_address();
        if !self.belongs_to_pool(a) {
            return Err(DexError::NotInPool);
        }
        let b = self.other_resource_address(a)?;
        let needed = self.calculate_input_amount(b, output_amount)?;
        if tokens.amount().0 < needed.0 {
            return Err(DexError::InsufficientInput);
        }
        if needed.0 < 0 {
            return Err(DexError::InvalidAmount);
        }
        let mut rest = tokens;
        let taken = match rest.take(needed) {
            Some(t) => t,
            None => return Err(DexError::InvalidAmount),
        };
        let mut p = *self;
        p.deposit(taken)?;
        let bought = p.withdraw(b, output_amount)?;
        *self = p;
        Ok((bought, rest))
    }

    /// Burns `tracking_tokens` and pays out their share of both reserves.
    pub fn remove_liquidity(&mut self, tracking_tokens: Bucket) -> (r: Result<(Bucket, Bucket), DexError>)
        requires
            old(self).wf(),
        ensures
            final(self).wf(),
            final(self).same_tokens(*old(self)),
            match old(self).remove_liquidity_spec(tracking_tokens) {
                Ok((p, b1, b2)) => r == Ok::<(Bucket, Bucket), DexError>((b1, b2)) && *final(self) == p,
                Err(e) => r == Err::<(Bucket, Bucket), DexError>(e) && *final(self) == *old(self),
            },
    {
        if tracking_tokens.resource_address() != self.tracking_token_address {
            return Err(DexError::WrongTrackingToken);
        }
        let amount = tracking_tokens.amount();
        let pct = arith(amount.checked_div(self.tracking_supply))?;
        let supply = arith(self.tracking_supply.checked_sub(amount))?;
        let amount1 = arith(self.reserve1.checked_mul(pct))?;
        let mut p = *self;
        p.tracking_supply = supply;
        let b1 = p.withdraw(self.address1, amount1)?;
        let amount2 = arith(p.reserve2.checked_mul(pct))?;
        let b2 = p.withdraw(self.address2, amount2)?;
        *self = p;
        Ok((b1, b2))
    }

    /// Adds liquidity from two buckets in the proportion of the token
    /// weights; returns what is left of the buckets (the greater address
    /// first) and the tracking tokens issued for the share added.
    pub fn add_liquidity(&mut self, token1: Bucket, token2: Bucket) -> (r: Result<(Bucket, Bucket, Bucket), DexError>)
        requires
            old(self).wf(),
        ensures
            final(self).wf(),
            final(self).same_tokens(*old(self)),
            match old(self).add_liquidity_spec(token1, token2) {
                Ok((p, b1, b2, t)) => r == Ok::<(Bucket, Bucket, Bucket), DexError>((b1, b2, t)) && *final(self) == p,
                Err(e) => r == Err::<(Bucket, Bucket, Bucket), DexError>(e) && *final(self) == *old(self),
            },
    {
        self.check_add_liquidity(token1, token2)?;
        let (mut bucket1, mut bucket2) = sort_buckets(token1, token2);
        let dm = bucket1.amount();
        let dn = bucket2.amount();
        let m = self.reserve(bucket1.resource_address());
        let n = self.reserve(bucket2.resource_address());
        let (amount1, amount2) = compute_liquidity_amounts(m, n, dm, dn)?;
        if amount1.0 < 0 || amount2.0 < 0 {
            return Err(DexError::InvalidAmount);
        }
        if amount1.0 > dm.0 || amount2.0 > dn.0 {
            return Err(DexError::InsufficientInput);
        }
        let part1 = match bucket1.take(amount1) {
            Some(b) => b,
            None => return Err(DexError::InvalidAmount),
        };
        let part2 = match bucket2.take(amount2) {
            Some(b) => b,
            None => return Err(DexError::InvalidAmount),
        };
        let mut p = *self;
        p.deposit(part1)?;
        p.deposit(part2)?;
        let tracking_amount = if self.tracking_supply.0 == 0 {
            Decimal::from_u64(100)
        } else {
            arith(arith(amount1.checked_mul(self.tracking_supply))?.checked_div(m))?
        };
        if tracking_amount.0 < 0 {
            return Err(DexError::InvalidAmount);
        }
        p.tracking_supply = arith(self.tracking_supply.checked_add(tracking_amount))?;
        *self = p;
        Ok((bucket1, bucket2, Bucket::of(self.tracking_token_address, tracking_amount)))
    }
}


/// The exchange: a set of pools, at most one for each pair of tokens.
pub struct Radex {
    pools: Vec<LiquidityPool>,
}

impl View for Radex {
    type V = Seq<LiquidityPool>;

    closed spec fn view(&self) -> Seq<LiquidityPool> {
        self.pools@
    }
}

/// The pair of tokens a pool trades, the greater address first.
pub open spec fn pair_of(p: LiquidityPool) -> (ResourceAddress, ResourceAddress) {
    (p.address1, p.address2)
}

impl Radex {
    /// Every pool is well formed, and no two pools share a pair of tokens
    /// or a tracking token.
    pub open spec fn wf(&self) -> bool {
        &&& forall|i: int| 0 <= i < self@.len() ==> #[trigger] self@[i].wf()
        &&& forall|i: int, j: int|
            0 <= i < j < self@.len() ==> pair_of(#[trigger] self@[i]) != pair_of(#[trigger] self@[j])
                && self@[i].tracking_token_address != self@[j].tracking_token_address
    }

    /// The index of the pool that trades `pair`.
    pub open spec fn pool_index(&self, pair: (ResourceAddress, ResourceAddress)) -> Option<int> {
        if exists|i: int| 0 <= i < self@.len() && pair_of(#[trigger] self@[i]) == pair {
            Some(choose|i: int| 0 <= i < self@.len() && pair_of(#[trigger] self@[i]) == pair)
        } else {
            None
        }
    }

    /// The index of the pool that issues tracking token `t`.
    pub open spec fn tracking_index(&self, t: ResourceAddress) -> Option<int> {
        if exists|i: int| 0 <= i < self@.len() && (#[trigger] self@[i]).tracking_token_address == t {
            Some(choose|i: int| 0 <= i < self@.len() && (#[trigger] self@[i]).tracking_token_address == t)
        } else {
            None
        }
    }

    /// The outcome of a pool operation at pool `i`: the exchange with that
    /// pool replaced on success, unchanged on failure.
    pub open spec fn apply<T>(self_old: Seq<LiquidityPool>, self_new: Seq<LiquidityPool>, i: int, res: Result<(LiquidityPool, T), DexError>, r: Result<T, DexError>) -> bool {
        match res {
            Ok((p, out)) => r == Ok::<T, DexError>(out) && self_new == self_old.update(i, p),
            Err(e) => r == Err::<T, DexError>(e) && self_new == self_old,
        }
    }

    pub fn new() -> (r: Radex)
        ensures
            r.wf(),
            r@ == Seq::<LiquidityPool>::empty(),
    {
        Radex { pools: Vec::new() }
    }

    /// The pool that trades the two tokens, in either order.
    pub fn pool(&self, a: ResourceAddress, b: ResourceAddress) -> (r: Option<LiquidityPool>)
        requires
            self.wf(),
        ensures
            r == (match self.pool_index(sorted_pair(a, b)) {
                Some(i) => Some(self@[i]),
                None => None,
            }),
    {
        match self.find_pool(a, b) {
            Some(i) => Some(self.pools[i]),
            None => None,
        }
    }

    fn find_pool(&self, a: ResourceAddress, b: ResourceAddress) -> (r: Option<usize>)
        requires
            self.wf(),
        ensures
            match r {
                Some(i) => self.pool_index(sorted_pair(a, b)) == Some(i as int) && i < self@.len(),
                None => self.pool_index(sorted_pair(a, b)) is None,
            },
    {
        let pair = crate::resource::sort_addresses(a, b);
        let mut i: usize = 0;
        while i < self.pools.len()
            invariant
                self.wf(),
                i <= self@.len(),
                pair == sorted_pair(a, b),
                forall|j: int| 0 <= j < i ==> pair_of(#[trigger] self@[j]) != pair,
            decreases self@.len() - i,
        {
            if self.pools[i].address1 == pair.0 && self.pools[i].address2 == pair.1 {
                proof {
                    let k = choose|k: int| 0 <= k < self@.len() && pair_of(#[trigger] self@[k]) == pair;
                    if k != i {
                        if k < i {
                            assert(pair_of(self@[k]) != pair_of(self@[i as int]));
                        } else {
                            assert(pair_of(self@[i as int]) != pair_of(self@[k]));
                        }
                    }
                }
                return Some(i);
            }
            i = i + 1;
        }
        None
    }

    fn find_tracking(&self, t: ResourceAddress) -> (r: Option<usize>)
        requires
            self.wf(),
        ensures
            match r {
                Some(i) => self.tracking_index(t) == Some(i as int) && i < self@.len(),
                None => self.tracking_index(t) is None,
            },
    {
        let mut i: usize = 0;
        while i < self.pools.len()
            invariant
                self.wf(),
                i <= self@.len(),
                forall|j: int| 0 <= j < i ==> (#[trigger] self@[j]).tracking_token_address != t,
            decreases self@.len() - i,
        {
            if self.pools[i].tracking_token_address == t {
                proof {
                    let k = choose|k: int| 0 <= k < self@.len() && (#[trigger] self@[k]).tracking_token_address == t;
                    if k != i {
                        if k < i {
                            assert(self@[k].tracking_token_address != self@[i as int].tracking_token_address);
                        } else {
                            assert(self@[i as int].tracking_token_address != self@[k].tracking_token_address);
                        }
                    }
                }
                return Some(i);
            }
            i = i + 1;
        }
        None
    }

    /// Refuses when no pool trades the two tokens.
    pub fn assert_pool_exists(&self, address1: ResourceAddress, address2: ResourceAddress) -> (r: Result<(), DexError>)
        requires
            self.wf(),
        ensures
            r == (if self.pool_index(sorted_pair(address1, address2)) is Some {
                Ok(())
            } else {
                Err(DexError::PoolNotFound)
            }),
    {
        match self.find_pool(address1, address2) {
            Some(_) => Ok(()),
            None => Err(DexError::PoolNotFound),
        }
    }

    /// A swap of a bucket of `a` for `b` and a swap of a bucket of `b` for
    /// `a` are served by the same pool: the exchange finds a pool by the
    /// sorted pair of the two addresses, whichever of them is the input.
    pub proof fn lemma_swap_routes_both_ways(&self, t1: Bucket, t2: Bucket, a: ResourceAddress, b: ResourceAddress)
        requires
            t1.res() == a,
            t2.res() == b,
        ensures
            self.pool_index(sorted_pair(t1.res(), b)) == self.pool_index(sorted_pair(t2.res(), a)),
    {
        crate::resource::lemma_sort_addresses_symmetric(a, b);
    }

    proof fn lemma_update_wf(&self, i: int, p: LiquidityPool)
        requires
            self.wf(),
            0 <= i < self@.len(),
            p.wf(),
            p.same_tokens(self@[i]),
        ensures
            ({
                let s = self@.update(i, p);
                &&& forall|k: int| 0 <= k < s.len() ==> #[trigger] s[k].wf()
                &&& forall|k: int, j: int|
                    0 <= k < j < s.len() ==> pair_of(#[trigger] s[k]) != pair_of(#[trigger] s[j])
                        && s[k].tracking_token_address != s[j].tracking_token_address
            }),
    {
        let s = self@.update(i, p);
        assert forall|k: int, j: int| 0 <= k < j < s.len() implies pair_of(#[trigger] s[k]) != pair_of(#[trigger] s[j])
            && s[k].tracking_token_address != s[j].tracking_token_address by {
            assert(pair_of(self@[k]) != pair_of(self@[j]));
        }
    }

    /// Creates a pool for two tokens that no pool trades yet; returns the
    /// first tracking tokens of the pool.
    pub fn new_liquidity_pool(
        &mut self,
        token1: Bucket,
        token2: Bucket,
        token_1_weight: Decimal,
        token_2_weight: Decimal,
        fee_to_pool: Decimal,
        token1_fungible: bool,
        token2_fungible: bool,
        tracking_token_address: ResourceAddress,
    ) -> (r: Result<Bucket, DexError>)
        requires
            old(self).wf(),
        ensures
            final(self).wf(),
            old(self).pool_index(sorted_pair(token1.res(), token2.res())) is Some ==> r
                == Err::<Bucket, DexError>(DexError::PoolExists) && final(self)@ == old(self)@,
            old(self).pool_index(sorted_pair(token1.res(), token2.res())) is None && old(self).tracking_index(tracking_token_address) is Some
                ==> r == Err::<Bucket, DexError>(DexError::TrackingTokenInUse) && final(self)@ == old(self)@,
            old(self).pool_index(sorted_pair(token1.res(), token2.res())) is None && old(self).tracking_index(tracking_token_address) is None
                ==> match new_pool_error(token_1_weight, token_2_weight, token1, token2, fee_to_pool, token1_fungible, token2_fungible) {
                Some(e) => r == Err::<Bucket, DexError>(e) && final(self)@ == old(self)@,
                None => r == Ok::<Bucket, DexError>(Bucket::spec_new(tracking_token_address, whole(100)))
                    && final(self)@.len() == old(self)@.len() + 1
                    && final(self)@.drop_last() == old(self)@
                    && pair_of(final(self)@.last()) == sorted_pair(token1.res(), token2.res()),
            },
    {
        if self.find_pool(token1.resource_address(), token2.resource_address()).is_some() {
            return Err(DexError::PoolExists);
        }
        if self.find_tracking(tracking_token_address).is_some() {
            return Err(DexError::TrackingTokenInUse);
        }
        let (pool, tracking) = LiquidityPool::new(
            token_1_weight,
            token_2_weight,
            token1,
            token2,
            fee_to_pool,
            token1_fungible,
            token2_fungible,
            tracking_token_address,
        )?;
        let ghost old_pools = self@;
        proof {
            assert(pair_of(pool) == sorted_pair(token1.res(), token2.res()));
            assert forall|i: int| 0 <= i < old_pools.len() implies pair_of(#[trigger] old_pools[i]) != pair_of(pool)
                && old_pools[i].tracking_token_address != pool.tracking_token_address by {
                if pair_of(old_pools[i]) == pair_of(pool) {
                    assert(self.pool_index(sorted_pair(token1.res(), token2.res())) is Some);
                }
                if old_pools[i].tracking_token_address == pool.tracking_token_address {
                    assert(self.tracking_index(tracking_token_address) is Some);
                }
            }
        }
        self.pools.push(pool);
        proof {
            assert(self@.drop_last() =~= old_pools);
            assert forall|i: int, j: int| 0 <= i < j < self@.len() implies pair_of(#[trigger] self@[i]) != pair_of(#[trigger] self@[j])
                && self@[i].tracking_token_address != self@[j].tracking_token_address by {
                if j == self@.len() - 1 {
                    assert(self@[i] == old_pools[i]);
                } else {
                    assert(self@[i] == old_pools[i]);
                    assert(self@[j] == old_pools[j]);
                }
            }
        }
        Ok(tracking)
    }

    /// Adds liquidity to the pool of the two tokens.
    pub fn add_liquidity(&mut self, token1: Bucket, token2: Bucket) -> (r: Result<(Bucket, Bucket, Bucket), DexError>)
        requires
            old(self).wf(),
        ensures
            final(self).wf(),
            match old(self).pool_index(sorted_pair(token1.res(), token2.res())) {
                None => r == Err::<(Bucket, Bucket, Bucket), DexError>(DexError::PoolNotFound) && final(self)@ == old(self)@,
                Some(i) => match old(self)@[i].add_liquidity_spec(token1, token2) {
                    Ok((p, b1, b2, t)) => r == Ok::<(Bucket, Bucket, Bucket), DexError>((b1, b2, t))
                        && final(self)@ == old(self)@.update(i, p),
                    Err(e) => r == Err::<(Bucket, Bucket, Bucket), DexError>(e) && final(self)@ == old(self)@,
                },
            },
    {
        let i = match self.find_pool(token1.resource_address(), token2.resource_address()) {
            Some(i) => i,
            None => return Err(DexError::PoolNotFound),
        };
        let mut pool = self.pools[i];
        let out = pool.add_liquidity(token1, token2)?;
        proof {
            self.lemma_update_wf(i as int, pool);
        }
        self.pools.set(i, pool);
        Ok(out)
    }

    /// Swaps all of `tokens` for `output_resource_address` in the pool of
    /// the two tokens.
    pub fn swap(&mut self, tokens: Bucket, output_resource_address: ResourceAddress) -> (r: Result<Bucket, DexError>)
        requires
            old(self).wf(),
        ensures
            final(self).wf(),
            match old(self).pool_index(sorted_pair(tokens.res(), output_resource_address)) {
                None => r == Err::<Bucket, DexError>(DexError::PoolNotFound) && final(self)@ == old(self)@,
                Some(i) => Radex::apply(old(self)@, final(self)@, i, old(self)@[i].swap_spec(tokens), r),
            },
    {
        self.assert_pool_exists(tokens.resource_address(), output_resource_address)?;
        let i = match self.find_pool(tokens.resource_address(), output_resource_address) {
            Some(i) => i,
            None => return Err(DexError::PoolNotFound),
        };
        let mut pool = self.pools[i];
        let out = pool.swap(tokens)?;
        proof {
            self.lemma_update_wf(i as int, pool);
        }
        self.pools.set(i, pool);
        Ok(out)
    }

    /// Swaps all of `tokens`, refusing when less than `min_amount_out` of
    /// `output_resource_address` would come back.
    pub fn swap_exact_tokens_for_tokens(
        &mut self,
        tokens: Bucket,
        output_resource_address: ResourceAddress,
        min_amount_out: Decimal,
    ) -> (r: Result<Bucket, DexError>)
        requires
            old(self).wf(),
        ensures
            final(self).wf(),
            match old(self).pool_index(sorted_pair(tokens.res(), output_resource_address)) {
                None => r == Err::<Bucket, DexError>(DexError::PoolNotFound) && final(self)@ == old(self)@,
                Some(i) => Radex::apply(old(self)@, final(self)@, i, old(self)@[i].swap_exact_spec(tokens, min_amount_out), r),
            },
    {
        self.assert_pool_exists(tokens.resource_address(), output_resource_address)?;
        let i = match self.find_pool(tokens.resource_address(), output_resource_address) {
            Some(i) => i,
            None => return Err(DexError::PoolNotFound),
        };
        let mut pool = self.pools[i];
        let out = pool.swap_exact_tokens_for_tokens(tokens, min_amount_out)?;
        proof {
            self.lemma_update_wf(i as int, pool);
        }
        self.pools.set(i, pool);
        Ok(out)
    }

    /// Buys exactly `output_amount` of `output_resource_address` with as
    /// much of `tokens` as that takes.
    pub fn swap_tokens_for_exact_tokens(
        &mut self,
        tokens: Bucket,
        output_resource_address: ResourceAddress,
        output_amount: Decimal,
    ) -> (r: Result<(Bucket, Bucket), DexError>)
        requires
            old(self).wf(),
        ensures
            final(self).wf(),
            match old(self).pool_index(sorted_pair(tokens.res(), output_resource_address)) {
                None => r == Err::<(Bucket, Bucket), DexError>(DexError::PoolNotFound) && final(self)@ == old(self)@,
                Some(i) => match old(self)@[i].swap_for_exact_spec(tokens, output_amount) {
                    Ok((p, b, rest)) => r == Ok::<(Bucket, Bucket), DexError>((b, rest))
                        && final(self)@ == old(self)@.update(i, p),
                    Err(e) => r == Err::<(Bucket, Bucket), DexError>(e) && final(self)@ == old(self)@,
                },
            },
    {
        self.assert_pool_exists(tokens.resource_address(), output_resource_address)?;
        let i = match self.find_pool(tokens.resource_address(), output_resource_address) {
            Some(i) => i,
            None => return Err(DexError::PoolNotFound),
        };
        let mut pool = self.pools[i];
        let out = pool.swap_tokens_for_exact_tokens(tokens, output_amount)?;
        proof {
            self.lemma_update_wf(i as int, pool);
        }
        self.pools.set(i, pool);
        Ok(out)
    }

    /// Redeems tracking tokens at the pool that issued them.
    pub fn remove_liquidity(&mut self, tracking_tokens: Bucket) -> (r: Result<(Bucket, Bucket), DexError>)
        requires
            old(self).wf(),
        ensures
            final(self).wf(),
            match old(self).tracking_index(tracking_tokens.res()) {
                None => r == Err::<(Bucket, Bucket), DexError>(DexError::WrongTrackingToken) && final(self)@ == old(self)@,
                Some(i) => match old(self)@[i].remove_liquidity_spec(tracking_tokens) {
                    Ok((p, b1, b2)) => r == Ok::<(Bucket, Bucket), DexError>((b1, b2))
                        && final(self)@ == old(self)@.update(i, p),
                    Err(e) => r == Err::<(Bucket, Bucket), DexError>(e) && final(self)@ == old(self)@,
                },
            },
    {
        let i = match self.find_tracking(tracking_tokens.resource_address()) {
            Some(i) => i,
            None => return Err(DexError::WrongTrackingToken),
        };
        let mut pool = self.pools[i];
        let out = pool.remove_liquidity(tracking_tokens)?;
        proof {
            self.lemma_update_wf(i as int, pool);
        }
        self.pools.set(i, pool);
        Ok(out)
    }
}


proof fn lemma_floor_div_bounds(p: int, q: int)
    requires
        p >= 0,
        q > 0,
    ensures
        tdiv(p, q) == p / q,
        0 <= p / q,
        (p / q) * q <= p,
        p < (p / q + 1) * q,
{
    vstd::arithmetic::div_mod::lemma_fundamental_div_mod(p, q);
    vstd::arithmetic::div_mod::lemma_div_pos_is_pos(p, q);
    vstd::arithmetic::div_mod::lemma_mod_pos_bound(p, q);
    assert((p / q) * q == q * (p / q)) by (nonlinear_arith);
    assert((p / q + 1) * q == q * (p / q) + q) by (nonlinear_arith);
}

/// The output of a swap follows `dy = dx * r * y / (x + r * dx)` with
/// `r = (100 - fee) / 100`, up to rounding: with `b = dx * (100 - fee)`
/// (both sides counted in units of 10^-18, `h` standing for 100), the
/// output is never more than `b * y / (h * x + b)`, and it falls short of
/// it by less than a rounding error of the order of `y * 10^-18`.
pub proof fn lemma_output_amount_follows_fee(x: Decimal, y: Decimal, dx: Decimal, fee: Decimal)
    requires
        x@ >= 0,
        y@ >= 0,
        dx@ >= 0,
        0 <= fee@ <= hundred()@,
        output_amount(x, y, dx, fee) is Some,
    ensures
        ({
            let dy = output_amount(x, y, dx, fee)->Some_0@;
            let h = hundred()@;
            let u = dec_one();
            let b = dx@ * (h - fee@);
            &&& 0 <= dy <= y@
            &&& dy * (h * x@ + b) <= b * y@
            &&& (dy + 1) * (h * x@ + b) * u + h * (dx@ + u) * y@ + h * u * u > b * u * y@
        }),
{
    let u = dec_one();
    let h = hundred()@;
    assert(h == 100 * u);
    let f = fee@;
    let xv = x@;
    let yv = y@;
    let d = dx@;
    let b = d * (h - f);
    let rn = (h - f) * u;
    assert(0 <= rn) by (nonlinear_arith)
        requires
            rn == (h - f) * u,
            f <= h,
            u > 0,
    ;
    lemma_floor_div_bounds(rn, h);
    let r = rn / h;
    assert(fee_modifier(fee)->Some_0@ == r);
    lemma_floor_div_bounds(d * r, u);
    assert(0 <= d * r) by (nonlinear_arith)
        requires
            d >= 0,
            r >= 0,
    ;
    assert(r * d == d * r) by (nonlinear_arith);
    let a = (d * r) / u;
    assert(0 <= a * yv) by (nonlinear_arith)
        requires
            a >= 0,
            yv >= 0,
    ;
    lemma_floor_div_bounds(a * yv, u);
    let num = (a * yv) / u;
    let den = xv + a;
    assert(den != 0);
    assert(0 <= num * u) by (nonlinear_arith)
        requires
            num >= 0,
            u > 0,
    ;
    lemma_floor_div_bounds(num * u, den);
    let dy = (num * u) / den;
    assert(output_amount(x, y, dx, fee)->Some_0@ == dy);
    // the traded part of the input is at most b / h
    assert(a * h <= b) by (nonlinear_arith)
        requires
            a * u <= d * r,
            r * h <= (h - f) * u,
            b == d * (h - f),
            d >= 0,
            a >= 0,
            h > 0,
            u > 0,
    ;
    assert(dy * den <= a * yv) by (nonlinear_arith)
        requires
            dy * den <= num * u,
            num * u <= a * yv,
    ;
    assert(dy <= yv) by (nonlinear_arith)
        requires
            dy * (xv + a) <= a * yv,
            xv >= 0,
            a >= 0,
            yv >= 0,
            xv + a > 0,
    ;
    assert(dy * (h * xv + b) <= b * yv) by (nonlinear_arith)
        requires
            dy * (xv + a) <= a * yv,
            a * h <= b,
            dy <= yv,
            dy >= 0,
            xv >= 0,
            h > 0,
    ;
    // and at least b / h, less the rounding of the fee modifier and of the
    // traded part
    let c = dy + 1;
    assert(c * (xv + a) > a * yv - u) by (nonlinear_arith)
        requires
            num * u < c * (xv + a),
            a * yv < (num + 1) * u,
    ;
    assert(a * h * u > b * u - d * h - h * u) by (nonlinear_arith)
        requires
            d * r < (a + 1) * u,
            rn < (r + 1) * h,
            rn == (h - f) * u,
            b == d * (h - f),
            d >= 0,
            h > 0,
            u > 0,
    ;
    if yv >= c {
        assert(c * xv > a * (yv - c) - u) by (nonlinear_arith)
            requires
                c * (xv + a) > a * yv - u,
        ;
        assert(c * xv * (h * u) > (a * (yv - c) - u) * (h * u)) by (nonlinear_arith)
            requires
                c * xv > a * (yv - c) - u,
                h * u > 0,
        ;
        assert((a * (yv - c) - u) * (h * u) == a * h * u * (yv - c) - h * u * u) by (nonlinear_arith);
        assert(a * h * u * (yv - c) >= (b * u - d * h - h * u) * (yv - c)) by (nonlinear_arith)
            requires
                a * h * u > b * u - d * h - h * u,
                yv - c >= 0,
        ;
        assert((b * u - d * h - h * u) * (yv - c) == b * u * yv - b * u * c - h * (d + u) * (yv - c)) by (nonlinear_arith);
        assert(h * (d + u) * (yv - c) <= h * (d + u) * yv) by (nonlinear_arith)
            requires
                c > 0,
                d >= 0,
                h > 0,
                u > 0,
        ;
        assert(c * (h * xv + b) * u == c * xv * (h * u) + b * u * c) by (nonlinear_arith);
    } else {
        assert(c * (h * xv + b) * u + h * (d + u) * yv + h * u * u > b * u * yv) by (nonlinear_arith)
            requires
                c > yv,
                yv >= 0,
                b >= 0,
                xv >= 0,
                d >= 0,
                h > 0,
                u > 0,
        {
            assert(c * b * u >= yv * b * u) by (nonlinear_arith)
                requires
                    c > yv,
                    b * u >= 0,
            ;
            assert(c * (h * xv) * u >= 0) by (nonlinear_arith)
                requires
                    c > 0,
                    h * xv >= 0,
                    u > 0,
            ;
            assert(h * (d + u) * yv >= 0) by (nonlinear_arith)
                requires
                    h > 0,
                    d + u > 0,
                    yv >= 0,
            ;
            assert(c * (h * xv + b) * u == c * (h * xv) * u + c * b * u) by (nonlinear_arith);
        }
    }
}

/// The input that buys `dy` follows `dx = dy * x / (r * (y - dy))` with
/// `r = (100 - fee) / 100`, up to rounding: with `c = h - fee` (`h` standing
/// for 100, all in units of 10^-18), `dx * c * (y - dy)` reaches
/// `dy * x * h` but for the rounding of one unit, and `dx` exceeds the
/// formula only by the rounding of the fee modifier and of the divisor.
pub proof fn lemma_input_amount_follows_fee(x: Decimal, y: Decimal, dy: Decimal, fee: Decimal)
    requires
        x@ >= 0,
        0 <= dy@ <= y@,
        0 <= fee@ <= hundred()@,
        input_amount(x, y, dy, fee) is Some,
    ensures
        ({
            let dx = input_amount(x, y, dy, fee)->Some_0@;
            let h = hundred()@;
            let u = dec_one();
            let c = h - fee@;
            let s = y@ - dy@;
            &&& dx >= 0
            &&& (dx + 1) * c * s + u * h > dy@ * x@ * h
            &&& dx * (c * s * u - h * s - h * u) <= dy@ * x@ * h * u
        }),
{
    let u = dec_one();
    let h = hundred()@;
    assert(h == 100 * u);
    let f = fee@;
    let c = h - f;
    let s = y@ - dy@;
    let a = dy@ * x@;
    let rn = c * u;
    assert(0 <= rn) by (nonlinear_arith)
        requires
            rn == c * u,
            c >= 0,
            u > 0,
    ;
    lemma_floor_div_bounds(rn, h);
    let r = rn / h;
    assert(fee_modifier(fee)->Some_0@ == r);
    assert(0 <= a) by (nonlinear_arith)
        requires
            a == dy@ * x@,
            dy@ >= 0,
            x@ >= 0,
    ;
    lemma_floor_div_bounds(a, u);
    let num = a / u;
    assert(0 <= r * s) by (nonlinear_arith)
        requires
            r >= 0,
            s >= 0,
    ;
    lemma_floor_div_bounds(r * s, u);
    let den = (r * s) / u;
    assert(den != 0);
    assert(den > 0);
    assert(0 <= num * u) by (nonlinear_arith)
        requires
            num >= 0,
            u > 0,
    ;
    lemma_floor_div_bounds(num * u, den);
    let dx = (num * u) / den;
    assert(input_amount(x, y, dy, fee)->Some_0@ == dx);
    // lower side: the divisor is at most c * s / h
    assert(den * h <= c * s) by (nonlinear_arith)
        requires
            den * u <= r * s,
            r * h <= c * u,
            s >= 0,
            h > 0,
            u > 0,
    {
        assert(den * u * h <= r * s * h) by (nonlinear_arith)
            requires
                den * u <= r * s,
                h > 0,
        ;
        assert(r * s * h <= c * u * s) by (nonlinear_arith)
            requires
                r * h <= c * u,
                s >= 0,
        ;
        assert(den * h * u <= c * s * u);
        assert(den * h <= c * s) by (nonlinear_arith)
            requires
                den * h * u <= c * s * u,
                u > 0,
        ;
    }
    assert((dx + 1) * c * s + u * h > a * h) by (nonlinear_arith)
        requires
            num * u < (dx + 1) * den,
            a < (num + 1) * u,
            den * h <= c * s,
            dx + 1 > 0,
            h > 0,
    {
        assert((dx + 1) * den * h > (a - u) * h) by (nonlinear_arith)
            requires
                num * u < (dx + 1) * den,
                a < (num + 1) * u,
                h > 0,
        ;
        assert((dx + 1) * (den * h) <= (dx + 1) * (c * s)) by (nonlinear_arith)
            requires
                den * h <= c * s,
                dx + 1 > 0,
        ;
    }
    // upper side: the divisor is at least c * s / h less the roundings
    assert(den * u * h > c * u * s - h * s - u * h) by (nonlinear_arith)
        requires
            r * s < (den + 1) * u,
            rn < (r + 1) * h,
            rn == c * u,
            s >= 0,
            h > 0,
    {
        assert(r * s * h < (den + 1) * u * h) by (nonlinear_arith)
            requires
                r * s < (den + 1) * u,
                h > 0,
        ;
        assert(r * h * s >= (c * u - h) * s) by (nonlinear_arith)
            requires
                c * u < (r + 1) * h,
                s >= 0,
        ;
    }
    assert(dx * (c * s * u - h * s - h * u) <= a * h * u) by (nonlinear_arith)
        requires
            dx * den <= num * u,
            num * u <= a,
            den * u * h > c * u * s - h * s - u * h,
            dx >= 0,
            h > 0,
            u > 0,
    {
        assert(dx * (c * s * u - h * s - h * u) <= dx * (den * u * h)) by (nonlinear_arith)
            requires
                den * u * h > c * u * s - h * s - u * h,
                dx >= 0,
        ;
        assert(dx * (den * u * h) <= a * u * h) by (nonlinear_arith)
            requires
                dx * den <= a,
                u * h > 0,
        ;
    }
}

/// A swap pays out what the constant-product formula with the pool's fee
/// gives: with `x` and `y` the reserves of the input and the output token,
/// `dx` the input, `h` a hundred and `b = dx * (h - fee)`, the tokens
/// bought are at most `b * y / (h * x + b)`, and less than it only by a
/// rounding error.
pub proof fn lemma_swap_follows_fee(pool: LiquidityPool, tokens: Bucket)
    requires
        pool.wf(),
        tokens.amt()@ >= 0,
        0 <= pool.fee_to_pool@ <= hundred()@,
        pool.swap_spec(tokens) is Ok,
    ensures
        ({
            let a = tokens.res();
            let x = pool.reserve_of(a)@;
            let y = pool.reserve_of(pool.other_of(a))@;
            let dx = tokens.amt()@;
            let dy = pool.swap_spec(tokens).unwrap().1.amt()@;
            let h = hundred()@;
            let u = dec_one();
            let b = dx * (h - pool.fee_to_pool@);
            &&& pool.swap_spec(tokens).unwrap().1.res() == pool.other_of(a)
            &&& 0 <= dy <= y
            &&& dy * (h * x + b) <= b * y
            &&& (dy + 1) * (h * x + b) * u + h * (dx + u) * y + h * u * u > b * u * y
        }),
{
    let a = tokens.res();
    let o = pool.other_of(a);
    assert(pool.has(a));
    assert(pool.reserve_of(a)@ >= 0 && pool.reserve_of(o)@ >= 0);
    let out = output_amount(pool.reserve_of(a), pool.reserve_of(o), tokens.amt(), pool.fee_to_pool);
    assert(out is Some);
    let (p1, bought) = pool.withdraw_spec(o, out->Some_0).unwrap();
    assert(bought == Bucket::spec_new(o, out->Some_0));
    assert(pool.swap_spec(tokens).unwrap().1 == bought);
    lemma_output_amount_follows_fee(pool.reserve_of(a), pool.reserve_of(o), tokens.amt(), pool.fee_to_pool);
}

/// A swap never lowers the product of the two reserves: the output is
/// rounded down at every step and the fee stays in the pool.
pub proof fn lemma_swap_keeps_product(pool: LiquidityPool, tokens: Bucket)
    requires
        pool.wf(),
        tokens.amt()@ >= 0,
        0 <= pool.fee_to_pool@ <= hundred()@,
        pool.swap_spec(tokens) is Ok,
    ensures
        ({
            let p = pool.swap_spec(tokens).unwrap().0;
            p.reserve1@ * p.reserve2@ >= pool.reserve1@ * pool.reserve2@
        }),
{
    let a_addr = tokens.res();
    let b_addr = pool.other_of(a_addr);
    let x = pool.reserve_of(a_addr)@;
    let y = pool.reserve_of(b_addr)@;
    let dx = tokens.amt()@;
    let one = dec_one();
    let h = hundred()@;
    assert(h == 100 * one);
    let fee = pool.fee_to_pool@;
    let rn = (h - fee) * one;
    lemma_floor_div_bounds(rn, h);
    let r = rn / h;
    assert((h - fee) * one <= h * one) by (nonlinear_arith)
        requires
            0 <= fee,
            one > 0,
    ;
    assert(r <= one) by (nonlinear_arith)
        requires
            r * h <= h * one,
            h > 0,
    ;
    lemma_floor_div_bounds(dx * r, one);
    let a = (dx * r) / one;
    assert(a <= dx) by (nonlinear_arith)
        requires
            a * one <= dx * r,
            r <= one,
            dx >= 0,
            one > 0,
            a >= 0,
    ;
    assert(r * dx == dx * r) by (nonlinear_arith);
    lemma_floor_div_bounds(a * y, one);
    let num = (a * y) / one;
    let den = x + a;
    let out = output_amount(pool.reserve_of(a_addr), pool.reserve_of(b_addr), tokens.amt(), pool.fee_to_pool);
    assert(out is Some);
    assert(den != 0);
    lemma_floor_div_bounds(num * one, den);
    let dy = (num * one) / den;
    assert(out.unwrap()@ == dy);
    assert(dy * den <= a * y) by (nonlinear_arith)
        requires
            dy * den <= num * one,
            num * one <= a * y,
    ;
    assert((x + dx) * (y - dy) >= x * y) by (nonlinear_arith)
        requires
            dy * (x + a) <= a * y,
            0 <= a <= dx,
            0 <= dy <= y,
            x >= 0,
    ;
    let p = pool.swap_spec(tokens).unwrap().0;
    assert(p.reserve_of(a_addr)@ == x + dx);
    assert(p.reserve_of(b_addr)@ == y - dy);
    if a_addr == pool.address1 {
        assert(p.reserve1@ * p.reserve2@ == (x + dx) * (y - dy));
        assert(pool.reserve1@ * pool.reserve2@ == x * y);
    } else {
        assert(p.reserve1@ * p.reserve2@ == (y - dy) * (x + dx));
        assert(pool.reserve1@ * pool.reserve2@ == y * x);
        assert((y - dy) * (x + dx) == (x + dx) * (y - dy)) by (nonlinear_arith);
        assert(y * x == x * y) by (nonlinear_arith);
    }
}

} // verus!
