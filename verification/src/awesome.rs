//! A two-token exchange with a swap fee, liquidity tokens for its providers
//! and a loyalty token handed to each swapper while the supply lasts.
use vstd::prelude::*;
use crate::bignum::{in_i128, tdiv};
use crate::decimal::{dec_of, dec_one, ddiv, dmul, Decimal, ONE_UNITS, opt_add, opt_div, opt_mul, opt_sub};
use crate::resource::{group_bucket, Bucket, ResourceAddress};

verus! {

broadcast use group_bucket;

/// Why the exchange refuses a request.
#[derive(Clone, Copy, Debug, PartialEq, Eq, Structural)]
pub enum AwesomeError {
    /// A bucket holds a resource that does not belong to the pool.
    InvalidResource,
    /// The pool needs some of each token to start.
    EmptyBucket,
    /// The fee must be between zero and one.
    InvalidFee,
    /// A vault or a bucket holds less than must be taken out of it.
    InsufficientFunds,
    /// A negative amount would be taken or minted.
    InvalidAmount,
    /// A computation divides by zero or leaves the decimal range.
    Arithmetic,
}

/// The liquidity tokens minted for the first provider: a hundred.
pub const INITIAL_LP_UNITS: i128 = 100_000_000_000_000_000_000;

/// The loyalty tokens the exchange starts with: ten million.
pub const INITIAL_REWARD_UNITS: i128 = 10_000_000_000_000_000_000_000_000;

/// The exchange's state: its two vaults, its liquidity token supply and
/// its loyalty tokens.
#[derive(Clone, Copy, Debug, PartialEq, Eq, Structural)]
pub struct AwesomeDex {
    pub resource_a: ResourceAddress,
    pub vault_a: Decimal,
    pub resource_b: ResourceAddress,
    pub vault_b: Decimal,
    pub lp_tokens_resource_address: ResourceAddress,
    pub lp_supply: Decimal,
    pub reward_resource: ResourceAddress,
    pub reward_tokens_vault: Decimal,
    pub fee: Decimal,
}

/// What a swap of `x` pays out of a pool holding `inp` of the input token
/// and `out` of the output token: `out * (1 - fee) * x / (inp + x * (1 - fee))`,
/// each step rounded toward zero.
pub open spec fn swap_output(out: Decimal, inp: Decimal, x: Decimal, fee: Decimal) -> Option<Decimal> {
    let keep = dec_of(dec_one() - fee@);
    opt_div(opt_mul(opt_mul(Some(out), keep), Some(x)), opt_add(Some(inp), opt_mul(Some(x), keep)))
}

/// The amounts of a deposit of `dm` and `dn` that go into vaults holding
/// `m` and `n`: all of it into an empty pool or at the pool's ratio, else
/// the larger side cut down to the pool's ratio.
pub open spec fn deposit_amounts(m: Decimal, n: Decimal, dm: Decimal, dn: Decimal) -> Option<(Decimal, Decimal)> {
    if m@ == 0 || n@ == 0 {
        Some((dm, dn))
    } else {
        match (opt_div(Some(m), Some(n)), opt_div(Some(dm), Some(dn))) {
            (Some(r1), Some(r2)) => if r1 == r2 {
                Some((dm, dn))
            } else if r1@ < r2@ {
                match opt_div(opt_mul(Some(dn), Some(m)), Some(n)) {
                    Some(a) => Some((a, dn)),
                    None => None,
                }
            } else {
                match opt_div(opt_mul(Some(dm), Some(n)), Some(m)) {
                    Some(b) => Some((dm, b)),
                    None => None,
                }
            },
            _ => None,
        }
    }
}

/// The liquidity tokens minted for a deposit of `amount_a` into a vault
/// that held `m`: a hundred while none exist, else the same share of the
/// supply.
pub open spec fn lp_minted(supply: Decimal, amount_a: Decimal, m: Decimal) -> Option<Decimal> {
    if supply@ == 0 {
        Some(Decimal(INITIAL_LP_UNITS))
    } else {
        opt_div(opt_mul(Some(amount_a), Some(supply)), Some(m))
    }
}

/// The sum of two decimals, when it fits.
pub open spec fn sum(a: Decimal, b: Decimal) -> Option<Decimal> {
    dec_of(a@ + b@)
}

/// A swap: the exchange after it, the output and the reward.
pub open spec fn swap_spec(d: AwesomeDex, input: Bucket) -> Result<(AwesomeDex, Bucket, Bucket), AwesomeError> {
    let x = input.amt();
    if input.res() != d.resource_a && input.res() != d.resource_b {
        Err(AwesomeError::InvalidResource)
    } else {
        let a_in = input.res() == d.resource_a;
        let (inp, out, out_res) = if a_in {
            (d.vault_a, d.vault_b, d.resource_b)
        } else {
            (d.vault_b, d.vault_a, d.resource_a)
        };
        match swap_output(out, inp, x, d.fee) {
            None => Err(AwesomeError::Arithmetic),
            Some(o) => match sum(inp, x) {
                None => Err(AwesomeError::Arithmetic),
                Some(inp2) => if o@ < 0 {
                    Err(AwesomeError::InvalidAmount)
                } else if o@ > out@ {
                    Err(AwesomeError::InsufficientFunds)
                } else {
                    let out2 = Decimal((out@ - o@) as i128);
                    let reward = if d.reward_tokens_vault@ != 0 { ONE_UNITS as int } else { 0 };
                    if reward > d.reward_tokens_vault@ {
                        Err(AwesomeError::InsufficientFunds)
                    } else {
                        let d2 = if a_in {
                            AwesomeDex { vault_a: inp2, vault_b: out2, ..d }
                        } else {
                            AwesomeDex { vault_b: inp2, vault_a: out2, ..d }
                        };
                        Ok((
                            AwesomeDex { reward_tokens_vault: Decimal((d.reward_tokens_vault@ - reward) as i128), ..d2 },
                            Bucket::spec_new(out_res, o),
                            Bucket::spec_new(d.reward_resource, Decimal(reward as i128)),
                        ))
                    }
                },
            },
        }
    }
}

/// Adding liquidity: the exchange after it, what is left of the two
/// buckets (token A first) and the liquidity tokens minted.
pub open spec fn add_liquidity_spec(d: AwesomeDex, b1: Bucket, b2: Bucket) -> Result<(AwesomeDex, Bucket, Bucket, Bucket), AwesomeError> {
    if !((b1.res() == d.resource_a && b2.res() == d.resource_b) || (b1.res() == d.resource_b && b2.res() == d.resource_a)) {
        Err(AwesomeError::InvalidResource)
    } else {
        let (ba, bb) = if b1.res() == d.resource_a && b2.res() == d.resource_b {
            (b1, b2)
        } else {
            (b2, b1)
        };
        let (dm, dn, m, n) = (ba.amt(), bb.amt(), d.vault_a, d.vault_b);
        match deposit_amounts(m, n, dm, dn) {
            None => Err(AwesomeError::Arithmetic),
            Some((x, y)) => if x@ < 0 {
                Err(AwesomeError::InvalidAmount)
            } else if x@ > dm@ {
                Err(AwesomeError::InsufficientFunds)
            } else if sum(m, x) is None {
                Err(AwesomeError::Arithmetic)
            } else if y@ < 0 {
                Err(AwesomeError::InvalidAmount)
            } else if y@ > dn@ {
                Err(AwesomeError::InsufficientFunds)
            } else if sum(n, y) is None {
                Err(AwesomeError::Arithmetic)
            } else {
                match lp_minted(d.lp_supply, x, m) {
                    None => Err(AwesomeError::Arithmetic),
                    Some(l) => if l@ < 0 {
                        Err(AwesomeError::InvalidAmount)
                    } else {
                        match sum(d.lp_supply, l) {
                            None => Err(AwesomeError::Arithmetic),
                            Some(s2) => Ok((
                                AwesomeDex { vault_a: sum(m, x).unwrap(), vault_b: sum(n, y).unwrap(), lp_supply: s2, ..d },
                                Bucket::spec_new(d.resource_a, Decimal((dm@ - x@) as i128)),
                                Bucket::spec_new(d.resource_b, Decimal((dn@ - y@) as i128)),
                                Bucket::spec_new(d.lp_tokens_resource_address, l),
                            )),
                        }
                    },
                }
            },
        }
    }
}

/// Removing liquidity: the exchange after it and the two tokens paid out,
/// each the burnt share of the supply times its vault.
pub open spec fn remove_liquidity_spec(d: AwesomeDex, lp: Bucket) -> Result<(AwesomeDex, Bucket, Bucket), AwesomeError> {
    if lp.res() != d.lp_tokens_resource_address {
        Err(AwesomeError::InvalidResource)
    } else {
        match opt_div(Some(lp.amt()), Some(d.lp_supply)) {
            None => Err(AwesomeError::Arithmetic),
            Some(share) => if lp.amt()@ > d.lp_supply@ {
                Err(AwesomeError::InvalidAmount)
            } else {
                match opt_mul(Some(d.vault_a), Some(share)) {
                    None => Err(AwesomeError::Arithmetic),
                    Some(ta) => if ta@ < 0 {
                        Err(AwesomeError::InvalidAmount)
                    } else if ta@ > d.vault_a@ {
                        Err(AwesomeError::InsufficientFunds)
                    } else {
                        let va = Decimal((d.vault_a@ - ta@) as i128);
                        match opt_mul(Some(d.vault_b), Some(share)) {
                            None => Err(AwesomeError::Arithmetic),
                            Some(tb) => if tb@ < 0 {
                                Err(AwesomeError::InvalidAmount)
                            } else if tb@ > d.vault_b@ {
                                Err(AwesomeError::InsufficientFunds)
                            } else {
                                Ok((
                                    AwesomeDex {
                                        vault_a: va,
                                        vault_b: Decimal((d.vault_b@ - tb@) as i128),
                                        lp_supply: Decimal((d.lp_supply@ - lp.amt()@) as i128),
                                        ..d
                                    },
                                    Bucket::spec_new(d.resource_a, ta),
                                    Bucket::spec_new(d.resource_b, tb),
                                ))
                            },
                        }
                    },
                }
            },
        }
    }
}

impl AwesomeDex {
    /// Vaults and supplies are not negative.
    pub open spec fn wf(&self) -> bool {
        &&& self.vault_a@ >= 0
        &&& self.vault_b@ >= 0
        &&& self.lp_supply@ >= 0
        &&& self.reward_tokens_vault@ >= 0
    }

    /// A pool of the two buckets with the given swap fee; the creator gets a
    /// hundred liquidity tokens.
    pub fn instantiate_awesome(
        bucket_a: Bucket,
        bucket_b: Bucket,
        fee: Decimal,
        lp_tokens_resource_address: ResourceAddress,
        reward_resource: ResourceAddress,
    ) -> (r: Result<(AwesomeDex, Bucket), AwesomeError>)
        ensures
            bucket_a.amt()@ == 0 || bucket_b.amt()@ == 0 ==> r == Err::<(AwesomeDex, Bucket), AwesomeError>(AwesomeError::EmptyBucket),
            bucket_a.amt()@ != 0 && bucket_b.amt()@ != 0 && !(0 <= fee@ <= dec_one()) ==> r == Err::<(AwesomeDex, Bucket), AwesomeError>(
                AwesomeError::InvalidFee),
            bucket_a.amt()@ != 0 && bucket_b.amt()@ != 0 && 0 <= fee@ <= dec_one() ==> r == Ok::<(AwesomeDex, Bucket), AwesomeError>((
                AwesomeDex {
                    resource_a: bucket_a.res(),
                    vault_a: bucket_a.amt(),
                    resource_b: bucket_b.res(),
                    vault_b: bucket_b.amt(),
                    lp_tokens_resource_address,
                    lp_supply: Decimal(INITIAL_LP_UNITS),
                    reward_resource,
                    reward_tokens_vault: Decimal(INITIAL_REWARD_UNITS),
                    fee,
                },
                Bucket::spec_new(lp_tokens_resource_address, Decimal(INITIAL_LP_UNITS)),
            )),
            r matches Ok((d, _)) ==> d.wf(),
    {
        if bucket_a.is_empty() || bucket_b.is_empty() {
            return Err(AwesomeError::EmptyBucket);
        }
        if fee.0 < 0 || fee.0 > ONE_UNITS {
            return Err(AwesomeError::InvalidFee);
        }
        let d = AwesomeDex {
            resource_a: bucket_a.resource_address(),
            vault_a: bucket_a.amount(),
            resource_b: bucket_b.resource_address(),
            vault_b: bucket_b.amount(),
            lp_tokens_resource_address,
            lp_supply: Decimal(INITIAL_LP_UNITS),
            reward_resource,
            reward_tokens_vault: Decimal(INITIAL_REWARD_UNITS),
            fee,
        };
        Ok((d, Bucket::of(lp_tokens_resource_address, Decimal(INITIAL_LP_UNITS))))
    }

    /// Swaps the input for the other token of the pool at the
    /// constant-product rate after the fee, and hands out one loyalty token
    /// while any are left.
    pub fn swap(&mut self, input_tokens: Bucket) -> (r: Result<(Bucket, Bucket), AwesomeError>)
        requires
            old(self).wf(),
        ensures
            final(self).wf(),
            match swap_spec(*old(self), input_tokens) {
                Ok((d, o, w)) => r == Ok::<(Bucket, Bucket), AwesomeError>((o, w)) && *final(self) == d,
                Err(e) => r == Err::<(Bucket, Bucket), AwesomeError>(e) && *final(self) == *old(self),
            },
    {
        let res = input_tokens.resource_address();
        let x = input_tokens.amount();
        if res != self.resource_a && res != self.resource_b {
            return Err(AwesomeError::InvalidResource);
        }
        let a_in = res == self.resource_a;
        let (inp, out, out_res) = if a_in {
            (self.vault_a, self.vault_b, self.resource_b)
        } else {
            (self.vault_b, self.vault_a, self.resource_a)
        };
        let keep = match Decimal(ONE_UNITS).checked_sub(self.fee) {
            Some(v) => v,
            None => return Err(AwesomeError::Arithmetic),
        };
        let num = match out.checked_mul(keep) {
            Some(v) => match v.checked_mul(x) {
                Some(w) => w,
                None => return Err(AwesomeError::Arithmetic),
            },
            None => return Err(AwesomeError::Arithmetic),
        };
        let den = match x.checked_mul(keep) {
            Some(v) => match inp.checked_add(v) {
                Some(w) => w,
                None => return Err(AwesomeError::Arithmetic),
            },
            None => return Err(AwesomeError::Arithmetic),
        };
        let o = match num.checked_div(den) {
            Some(v) => v,
            None => return Err(AwesomeError::Arithmetic),
        };
        let inp2 = match inp.checked_add(x) {
            Some(v) => v,
            None => return Err(AwesomeError::Arithmetic),
        };
        if o.0 < 0 {
            return Err(AwesomeError::InvalidAmount);
        }
        if o.0 > out.0 {
            return Err(AwesomeError::InsufficientFunds);
        }
        let out2 = Decimal(out.0 - o.0);
        let reward: i128 = if self.reward_tokens_vault.0 != 0 { ONE_UNITS } else { 0 };
        if reward > self.reward_tokens_vault.0 {
            return Err(AwesomeError::InsufficientFunds);
        }
        if a_in {
            self.vault_a = inp2;
            self.vault_b = out2;
        } else {
            self.vault_b = inp2;
            self.vault_a = out2;
        }
        self.reward_tokens_vault = Decimal(self.reward_tokens_vault.0 - reward);
        Ok((Bucket::of(out_res, o), Bucket::of(self.reward_resource, Decimal(reward))))
    }
    fn compute_deposit(m: Decimal, n: Decimal, dm: Decimal, dn: Decimal) -> (r: Option<(Decimal, Decimal)>)
        ensures
            r == deposit_amounts(m, n, dm, dn),
    {
        if m.0 == 0 || n.0 == 0 {
            return Some((dm, dn));
        }
        let r1 = match m.checked_div(n) {
            Some(v) => v,
            None => return None,
        };
        let r2 = match dm.checked_div(dn) {
            Some(v) => v,
            None => return None,
        };
        if r1.0 == r2.0 {
            Some((dm, dn))
        } else if r1.0 < r2.0 {
            match dn.checked_mul(m) {
                Some(p) => match p.checked_div(n) {
                    Some(a) => Some((a, dn)),
                    None => None,
                },
                None => None,
            }
        } else {
            match dm.checked_mul(n) {
                Some(p) => match p.checked_div(m) {
                    Some(b) => Some((dm, b)),
                    None => None,
                },
                None => None,
            }
        }
    }

    /// Deposits both tokens at the pool's ratio, keeping back what exceeds
    /// it, and mints liquidity tokens for the deposit. Returns what is left
    /// of token A, of token B, and the liquidity tokens.
    pub fn add_liquidity(&mut self, bucket_a: Bucket, bucket_b: Bucket) -> (r: Result<(Bucket, Bucket, Bucket), AwesomeError>)
        requires
            old(self).wf(),
        ensures
            final(self).wf(),
            match add_liquidity_spec(*old(self), bucket_a, bucket_b) {
                Ok((d, ra, rb, l)) => r == Ok::<(Bucket, Bucket, Bucket), AwesomeError>((ra, rb, l)) && *final(self) == d,
                Err(e) => r == Err::<(Bucket, Bucket, Bucket), AwesomeError>(e) && *final(self) == *old(self),
            },
    {
        let (ba, bb) = if bucket_a.resource_address() == self.resource_a && bucket_b.resource_address() == self.resource_b {
            (bucket_a, bucket_b)
        } else if bucket_a.resource_address() == self.resource_b && bucket_b.resource_address() == self.resource_a {
            (bucket_b, bucket_a)
        } else {
            return Err(AwesomeError::InvalidResource);
        };
        let dm = ba.amount();
        let dn = bb.amount();
        let m = self.vault_a;
        let n = self.vault_b;
        let (x, y) = match Self::compute_deposit(m, n, dm, dn) {
            Some(v) => v,
            None => return Err(AwesomeError::Arithmetic),
        };
        if x.0 < 0 {
            return Err(AwesomeError::InvalidAmount);
        }
        if x.0 > dm.0 {
            return Err(AwesomeError::InsufficientFunds);
        }
        let m2 = match m.checked_add(x) {
            Some(v) => v,
            None => return Err(AwesomeError::Arithmetic),
        };
        if y.0 < 0 {
            return Err(AwesomeError::InvalidAmount);
        }
        if y.0 > dn.0 {
            return Err(AwesomeError::InsufficientFunds);
        }
        let n2 = match n.checked_add(y) {
            Some(v) => v,
            None => return Err(AwesomeError::Arithmetic),
        };
        let l = if self.lp_supply.0 == 0 {
            Decimal(INITIAL_LP_UNITS)
        } else {
            match x.checked_mul(self.lp_supply) {
                Some(p) => match p.checked_div(m) {
                    Some(v) => v,
                    None => return Err(AwesomeError::Arithmetic),
                },
                None => return Err(AwesomeError::Arithmetic),
            }
        };
        if l.0 < 0 {
            return Err(AwesomeError::InvalidAmount);
        }
        let s2 = match self.lp_supply.checked_add(l) {
            Some(v) => v,
            None => return Err(AwesomeError::Arithmetic),
        };
        self.vault_a = m2;
        self.vault_b = n2;
        self.lp_supply = s2;
        Ok((
            Bucket::of(self.resource_a, Decimal(dm.0 - x.0)),
            Bucket::of(self.resource_b, Decimal(dn.0 - y.0)),
            Bucket::of(self.lp_tokens_resource_address, l),
        ))
    }

    /// Burns the liquidity tokens and pays out their share of both vaults.
    pub fn remove_liquidity(&mut self, lp_tokens: Bucket) -> (r: Result<(Bucket, Bucket), AwesomeError>)
        requires
            old(self).wf(),
        ensures
            final(self).wf(),
            match remove_liquidity_spec(*old(self), lp_tokens) {
                Ok((d, ta, tb)) => r == Ok::<(Bucket, Bucket), AwesomeError>((ta, tb)) && *final(self) == d,
                Err(e) => r == Err::<(Bucket, Bucket), AwesomeError>(e) && *final(self) == *old(self),
            },
    {
        if lp_tokens.resource_address() != self.lp_tokens_resource_address {
            return Err(AwesomeError::InvalidResource);
        }
        let u = lp_tokens.amount();
        let share = match u.checked_div(self.lp_supply) {
            Some(v) => v,
            None => return Err(AwesomeError::Arithmetic),
        };
        if u.0 > self.lp_supply.0 {
            return Err(AwesomeError::InvalidAmount);
        }
        let ta = match self.vault_a.checked_mul(share) {
            Some(v) => v,
            None => return Err(AwesomeError::Arithmetic),
        };
        if ta.0 < 0 {
            return Err(AwesomeError::InvalidAmount);
        }
        if ta.0 > self.vault_a.0 {
            return Err(AwesomeError::InsufficientFunds);
        }
        let tb = match self.vault_b.checked_mul(share) {
            Some(v) => v,
            None => return Err(AwesomeError::Arithmetic),
        };
        if tb.0 < 0 {
            return Err(AwesomeError::InvalidAmount);
        }
        if tb.0 > self.vault_b.0 {
            return Err(AwesomeError::InsufficientFunds);
        }
        self.vault_a = Decimal(self.vault_a.0 - ta.0);
        self.vault_b = Decimal(self.vault_b.0 - tb.0);
        self.lp_supply = Decimal(self.lp_supply.0 - u.0);
        Ok((Bucket::of(self.resource_a, ta), Bucket::of(self.resource_b, tb)))
    }
}

/// For a non-negative `a` and a positive `b`, `tdiv(a, b)` is the floor of
/// `a / b`.
proof fn lemma_floor(a: int, b: int)
    requires
        a >= 0,
        b > 0,
    ensures
        tdiv(a, b) >= 0,
        tdiv(a, b) * b <= a < (tdiv(a, b) + 1) * b,
{
    vstd::arithmetic::div_mod::lemma_fundamental_div_mod(a, b);
    vstd::arithmetic::div_mod::lemma_mod_bound(a, b);
    vstd::arithmetic::div_mod::lemma_div_pos_is_pos(a, b);
    assert(tdiv(a, b) == a / b);
    assert(tdiv(a, b) * b <= a < (tdiv(a, b) + 1) * b) by (nonlinear_arith)
        requires
            a == b * (a / b) + a % b,
            0 <= a % b < b,
            tdiv(a, b) == a / b,
    ;
}

/// What a swap pays follows `out * (1 - fee) * x / (inp + x * (1 - fee))`
/// up to rounding: with `k = 1 - fee` and everything counted in units of
/// 10^-18 (`u` standing for one), the payout `o` satisfies
/// `o * (inp + x * k) <= out * k * x` but for the rounding of `x * k`, and
/// it falls short of the formula by less than a rounding error.
pub proof fn lemma_swap_output_follows_fee(out: Decimal, inp: Decimal, x: Decimal, fee: Decimal)
    requires
        out@ >= 0,
        inp@ >= 0,
        x@ >= 0,
        0 <= fee@ <= dec_one(),
        swap_output(out, inp, x, fee) is Some,
    ensures
        ({
            let o = swap_output(out, inp, x, fee)->Some_0@;
            let u = dec_one();
            let k = u - fee@;
            &&& o >= 0
            &&& o * (inp@ * u + x@ * k) <= out@ * k * x@ + o * u
            &&& (o + 1) * (inp@ * u + x@ * k) + u * (x@ + u) > out@ * k * x@
        }),
{
    let u = dec_one();
    let k = u - fee@;
    let ov = out@;
    let iv = inp@;
    let xv = x@;
    assert(0 <= ov * k) by (nonlinear_arith)
        requires
            ov >= 0,
            k >= 0,
    ;
    lemma_floor(ov * k, u);
    let m1 = dmul(ov, k);
    assert(0 <= m1 * xv) by (nonlinear_arith)
        requires
            m1 >= 0,
            xv >= 0,
    ;
    lemma_floor(m1 * xv, u);
    let n = dmul(m1, xv);
    assert(0 <= xv * k) by (nonlinear_arith)
        requires
            xv >= 0,
            k >= 0,
    ;
    lemma_floor(xv * k, u);
    let kx = dmul(xv, k);
    let den = iv + kx;
    assert(den != 0);
    assert(den > 0);
    assert(0 <= n * u) by (nonlinear_arith)
        requires
            n >= 0,
            u > 0,
    ;
    lemma_floor(n * u, den);
    let o = ddiv(n, den);
    assert(swap_output(out, inp, x, fee)->Some_0@ == o);
    // upper side
    assert(o * den * u <= ov * k * xv) by (nonlinear_arith)
        requires
            o * den <= n * u,
            n * u <= m1 * xv,
            m1 * u <= ov * k,
            xv >= 0,
            u > 0,
    {
        assert(o * den * u <= m1 * xv * u) by (nonlinear_arith)
            requires
                o * den <= m1 * xv,
                u > 0,
        ;
        assert(m1 * xv * u <= ov * k * xv) by (nonlinear_arith)
            requires
                m1 * u <= ov * k,
                xv >= 0,
        ;
    }
    assert(o * (iv * u + xv * k) <= o * den * u + o * u) by (nonlinear_arith)
        requires
            xv * k < (kx + 1) * u,
            den == iv + kx,
            o >= 0,
    ;
    // lower side
    assert((o + 1) * den * u > ov * k * xv - u * xv - u * u) by (nonlinear_arith)
        requires
            n * u < (o + 1) * den,
            m1 * xv < (n + 1) * u,
            ov * k < (m1 + 1) * u,
            xv >= 0,
            u > 0,
    {
        assert((o + 1) * den * u > n * u * u) by (nonlinear_arith)
            requires
                n * u < (o + 1) * den,
                u > 0,
        ;
        assert(n * u * u > m1 * xv * u - u * u) by (nonlinear_arith)
            requires
                m1 * xv < (n + 1) * u,
                u > 0,
        ;
        assert(m1 * xv * u >= ov * k * xv - u * xv) by (nonlinear_arith)
            requires
                ov * k < (m1 + 1) * u,
                xv >= 0,
        ;
    }
    assert((o + 1) * (iv * u + xv * k) >= (o + 1) * den * u) by (nonlinear_arith)
        requires
            kx * u <= xv * k,
            den == iv + kx,
            o + 1 > 0,
    ;
}

/// A swap pays out of the other vault what the formula gives with the
/// exchange's own fee: with `inp` and `out` the vaults of the input and the
/// output token before it, `x` the input and `k = 1 - fee` (in units of
/// 10^-18, `u` standing for one), the payout `o` is at most
/// `out * k * x / (inp + x * k)` but for rounding, and short of it only by
/// a rounding error.
pub proof fn lemma_swap_pays_fee_formula(d: AwesomeDex, input: Bucket)
    requires
        d.wf(),
        0 <= d.fee@ <= dec_one(),
        input.amt()@ >= 0,
        swap_spec(d, input) is Ok,
    ensures
        ({
            let (_, ob, _) = swap_spec(d, input)->Ok_0;
            let a_in = input.res() == d.resource_a;
            let (inp, out) = if a_in { (d.vault_a@, d.vault_b@) } else { (d.vault_b@, d.vault_a@) };
            let o = ob.amt()@;
            let x = input.amt()@;
            let u = dec_one();
            let kept = u - d.fee@;
            &&& ob.res() == (if a_in { d.resource_b } else { d.resource_a })
            &&& 0 <= o <= out
            &&& o * (inp * u + x * kept) <= out * kept * x + o * u
            &&& (o + 1) * (inp * u + x * kept) + u * (x + u) > out * kept * x
        }),
{
    let a_in = input.res() == d.resource_a;
    let (_, ob, _) = swap_spec(d, input)->Ok_0;
    if a_in {
        let o = swap_output(d.vault_b, d.vault_a, input.amt(), d.fee);
        assert(o is Some);
        assert(sum(d.vault_a, input.amt()) is Some);
        assert(ob == Bucket::spec_new(d.resource_b, o->Some_0));
        assert(Bucket::spec_new(d.resource_b, o->Some_0).res() == d.resource_b);
        assert(ob.amt() == o->Some_0);
        lemma_swap_output_follows_fee(d.vault_b, d.vault_a, input.amt(), d.fee);
    } else {
        let o = swap_output(d.vault_a, d.vault_b, input.amt(), d.fee);
        assert(o is Some);
        assert(sum(d.vault_b, input.amt()) is Some);
        assert(ob == Bucket::spec_new(d.resource_a, o->Some_0));
        assert(Bucket::spec_new(d.resource_a, o->Some_0).res() == d.resource_a);
        assert(ob.amt() == o->Some_0);
        lemma_swap_output_follows_fee(d.vault_a, d.vault_b, input.amt(), d.fee);
    }
}

/// A swap at a fee between zero and one keeps the product of the two vaults
/// up to rounding: the product after it, plus the output vault before, is
/// at least the product before (both counted in units of 10^-18, so the
/// product of the two amounts falls by at most 10^-18 times the output
/// vault); at a zero fee the product never falls.
/// Neither vault goes negative, and the input vault grows by the input.
pub proof fn lemma_swap_keeps_product(d: AwesomeDex, input: Bucket)
    requires
        d.wf(),
        0 <= d.fee@ <= dec_one(),
        input.amt()@ >= 0,
        swap_spec(d, input) is Ok,
    ensures
        ({
            let d2 = swap_spec(d, input)->Ok_0.0;
            let a_in = input.res() == d.resource_a;
            let (i0, o0, i1, o1) = if a_in {
                (d.vault_a@, d.vault_b@, d2.vault_a@, d2.vault_b@)
            } else {
                (d.vault_b@, d.vault_a@, d2.vault_b@, d2.vault_a@)
            };
            &&& i1 == i0 + input.amt()@
            &&& 0 <= o1 <= o0
            &&& i1 * o1 + o0 >= i0 * o0
            &&& d.fee@ == 0 ==> i1 * o1 >= i0 * o0
        }),
{
    let u = dec_one();
    let a_in = input.res() == d.resource_a;
    let (inp, out) = if a_in {
        (d.vault_a@, d.vault_b@)
    } else {
        (d.vault_b@, d.vault_a@)
    };
    let x = input.amt()@;
    let k = u - d.fee@;
    let m1 = dmul(out, k);
    let n = dmul(m1, x);
    let kx = dmul(x, k);
    let den = inp + kx;
    let o = ddiv(n, den);
    let (d2, ob, _) = swap_spec(d, input)->Ok_0;
    assert(ob.res() == (if a_in { d.resource_b } else { d.resource_a }));
    assert(ob.amt()@ == o);
    assert(0 <= k <= u);
    lemma_floor(out * k, u);
    assert(0 <= out * k) by (nonlinear_arith)
        requires
            out >= 0,
            k >= 0,
    ;
    assert(m1 >= 0);
    assert(0 <= m1 * x) by (nonlinear_arith)
        requires
            m1 >= 0,
            x >= 0,
    ;
    lemma_floor(m1 * x, u);
    assert(0 <= x * k) by (nonlinear_arith)
        requires
            x >= 0,
            k >= 0,
    ;
    lemma_floor(x * k, u);
    assert(den > 0);
    assert(0 <= n * u) by (nonlinear_arith)
        requires
            n >= 0,
            u > 0,
    ;
    lemma_floor(n * u, den);
    // the payout times the fee-adjusted input balance is below the output
    // vault times the input after the fee, plus one
    assert(m1 * x * u <= out * k * x) by (nonlinear_arith)
        requires
            m1 * u <= out * k,
            x >= 0,
    ;
    assert(out * (x * k) <= out * ((kx + 1) * u)) by (nonlinear_arith)
        requires
            x * k < (kx + 1) * u,
            out >= 0,
    ;
    assert(o * den * u <= out * (kx + 1) * u) by (nonlinear_arith)
        requires
            o * den <= n * u,
            n * u <= m1 * x,
            m1 * x * u <= out * k * x,
            out * (x * k) <= out * ((kx + 1) * u),
            u > 0,
    ;
    assert(o * den <= out * (kx + 1)) by (nonlinear_arith)
        requires
            o * den * u <= out * (kx + 1) * u,
            u > 0,
    ;
    assert(kx <= x) by (nonlinear_arith)
        requires
            kx * u <= x * k,
            k <= u,
            x >= 0,
            u > 0,
    ;
    assert(0 <= o <= out);
    assert((inp + x) * (out - o) + out >= inp * out) by (nonlinear_arith)
        requires
            o * (inp + kx) <= out * (kx + 1),
            kx <= x,
            o <= out,
    ;
    if d.fee@ == 0 {
        assert(k == u);
        assert(kx == x) by (nonlinear_arith)
            requires
                kx * u <= x * u < (kx + 1) * u,
                u > 0,
        ;
        assert(m1 == out) by (nonlinear_arith)
            requires
                m1 * u <= out * u < (m1 + 1) * u,
                u > 0,
        ;
        assert((inp + x) * (out - o) >= inp * out) by (nonlinear_arith)
            requires
                o * (inp + x) <= n * u,
                n * u <= out * x,
        ;
    }
}

} // verus!
