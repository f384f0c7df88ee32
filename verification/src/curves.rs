//! Bonding curve components and the automated market maker that uses one:
//! buying mints continuous tokens against reserve tokens put into the
//! reserve, selling burns them and pays reserve tokens out, both priced by
//! the curve.
use vstd::prelude::*;
use crate::bignum::{in_i128, ipow, tdiv, Number};
use crate::bonding::{
    calculate_curve_return, calculate_price, decimal_from_number, decimal_of_fixed,
    get_initial_supply, get_mint_amount, get_return_amount, initial_supply_fixed, mint_fixed,
    number_from_decimal, ratio_units, return_defined, return_fixed, to_fixed,
};
use crate::decimal::{Decimal, ONE_UNITS};
use crate::resource::{group_bucket, Bucket, Proof, ResourceAddress};

verus! {

broadcast use group_bucket;

/// Why a curve or the market maker refuses a request.
#[derive(Clone, Copy, Debug, PartialEq, Eq, Structural)]
pub enum BondingError {
    /// The reserve ratio's denominator is zero.
    ZeroDenominator,
    /// An amount, or a minimum to receive, is negative.
    NegativeAmount,
    /// The curve's formula divides by zero or takes an undefined root.
    Undefined,
    /// The curve's formula gives a negative amount.
    NegativeResult,
    /// The market maker needs an initial reserve.
    EmptyReserve,
    /// The bucket holds another resource than the one expected.
    ResourceMismatch,
    /// A vault or the supply holds less than must be taken out of it.
    InsufficientFunds,
    /// A sum leaves the decimal range.
    Arithmetic,
}

/// A curve whose reserve is a fixed fraction `n / d` of the market cap,
/// computed with `precision_bits` fractional bits.
#[derive(Clone, Copy, Debug, PartialEq, Eq, Structural)]
pub struct RatioBondingCurve {
    pub reserve_ratio_n: u32,
    pub reserve_ratio_d: u32,
    pub precision_bits: u16,
}

/// The reserve returned for selling `c`, as `get_return_amount` computes
/// it, or why it cannot be.
pub open spec fn return_outcome(c: int, r: int, s: int, n: u32, d: u32, p: nat) -> Result<Decimal, BondingError> {
    if c < 0 || r < 0 || s < 0 {
        Err(BondingError::NegativeAmount)
    } else if c == 0 {
        Ok(Decimal(0))
    } else if !return_defined(c, s, n, d, p) {
        Err(BondingError::Undefined)
    } else if return_fixed(c, r, s, n, d, p) < 0 {
        Err(BondingError::NegativeResult)
    } else {
        Ok(decimal_of_fixed(return_fixed(c, r, s, n, d, p), p))
    }
}

/// The continuous tokens minted for `c`, or why they cannot be computed.
pub open spec fn mint_outcome(c: int, r: int, s: int, n: u32, d: u32, p: nat) -> Result<Decimal, BondingError> {
    if c < 0 || r < 0 || s < 0 {
        Err(BondingError::NegativeAmount)
    } else if c == 0 {
        Ok(Decimal(0))
    } else if r == 0 {
        Err(BondingError::Undefined)
    } else {
        Ok(decimal_of_fixed(mint_fixed(c, r, s, n, d, p), p))
    }
}

/// The initial supply for a reserve of `c`, or why it cannot be computed.
pub open spec fn initial_outcome(c: int, n: u32, d: u32, p: nat) -> Result<Decimal, BondingError> {
    if c < 0 {
        Err(BondingError::NegativeAmount)
    } else if c == 0 {
        Ok(Decimal(0))
    } else if n == 0 {
        Err(BondingError::Undefined)
    } else {
        Ok(decimal_of_fixed(initial_supply_fixed(c, n, d, p), p))
    }
}

/// The price at reserve `r` and supply `s`: `r / s / n * d` on the
/// fixed-point numbers, or why it cannot be computed.
pub open spec fn price_outcome(r: int, s: int, n: u32, d: u32, p: nat) -> Result<Decimal, BondingError> {
    if s == 0 || n == 0 {
        Err(BondingError::Undefined)
    } else {
        Ok(decimal_of_fixed(tdiv(tdiv(to_fixed(r, p), to_fixed(s, p)), ratio_units(n)) * ratio_units(d), p))
    }
}

impl RatioBondingCurve {
    /// A curve of ratio `n / d`; a zero ratio is kept as `0 / 1`.
    pub fn new(reserve_ratio_n: u32, reserve_ratio_d: u32, precision_bits: u16) -> (r: Result<RatioBondingCurve, BondingError>)
        ensures
            reserve_ratio_d == 0 ==> r == Err::<RatioBondingCurve, BondingError>(BondingError::ZeroDenominator),
            reserve_ratio_d != 0 ==> r == Ok::<RatioBondingCurve, BondingError>(RatioBondingCurve {
                reserve_ratio_n,
                reserve_ratio_d: if reserve_ratio_n == 0 { 1 } else { reserve_ratio_d },
                precision_bits,
            }),
    {
        if reserve_ratio_d == 0 {
            return Err(BondingError::ZeroDenominator);
        }
        let reserve_ratio_d = if reserve_ratio_n == 0 { 1 } else { reserve_ratio_d };
        Ok(RatioBondingCurve { reserve_ratio_n, reserve_ratio_d, precision_bits })
    }

    /// The continuous supply minted for an initial reserve.
    pub fn get_initial_supply(&self, collateral_amount: Decimal) -> (r: Result<Decimal, BondingError>)
        requires
            self.reserve_ratio_d != 0,
        ensures
            r == initial_outcome(collateral_amount@, self.reserve_ratio_n, self.reserve_ratio_d, self.precision_bits as nat),
    {
        if collateral_amount.0 < 0 {
            return Err(BondingError::NegativeAmount);
        }
        if collateral_amount.0 != 0 && self.reserve_ratio_n == 0 {
            return Err(BondingError::Undefined);
        }
        Ok(get_initial_supply(collateral_amount, self.reserve_ratio_n, self.reserve_ratio_d, self.precision_bits))
    }

    /// The continuous tokens minted for `collateral_amount` of reserve.
    pub fn get_mint_amount(&self, collateral_amount: Decimal, reserve_amount: Decimal, supply_amount: Decimal) -> (r: Result<
        Decimal,
        BondingError,
    >)
        requires
            self.reserve_ratio_d != 0,
        ensures
            r == mint_outcome(
                collateral_amount@,
                reserve_amount@,
                supply_amount@,
                self.reserve_ratio_n,
                self.reserve_ratio_d,
                self.precision_bits as nat,
            ),
    {
        if collateral_amount.0 < 0 || reserve_amount.0 < 0 || supply_amount.0 < 0 {
            return Err(BondingError::NegativeAmount);
        }
        if collateral_amount.0 != 0 && reserve_amount.0 == 0 {
            return Err(BondingError::Undefined);
        }
        Ok(get_mint_amount(
            collateral_amount,
            reserve_amount,
            supply_amount,
            self.reserve_ratio_n,
            self.reserve_ratio_d,
            self.precision_bits,
        ))
    }

    /// The reserve returned for `continuous_amount` continuous tokens.
    pub fn get_return_amount(&self, continuous_amount: Decimal, reserve_amount: Decimal, supply_amount: Decimal) -> (r: Result<
        Decimal,
        BondingError,
    >)
        requires
            self.reserve_ratio_d != 0,
        ensures
            r == return_outcome(
                continuous_amount@,
                reserve_amount@,
                supply_amount@,
                self.reserve_ratio_n,
                self.reserve_ratio_d,
                self.precision_bits as nat,
            ),
    {
        if continuous_amount.0 < 0 || reserve_amount.0 < 0 || supply_amount.0 < 0 {
            return Err(BondingError::NegativeAmount);
        }
        if continuous_amount.0 == 0 {
            return Ok(Decimal(0));
        }
        let n = self.reserve_ratio_n;
        let d = self.reserve_ratio_d;
        let p = self.precision_bits;
        let c = number_from_decimal(continuous_amount, p);
        let r = number_from_decimal(reserve_amount, p);
        let s = number_from_decimal(supply_amount, p);
        let base = s.sub(&c);
        if n == 0 {
            return Err(BondingError::Undefined);
        }
        if base.pow(d).is_negative() && n % 2 == 0 {
            return Err(BondingError::Undefined);
        }
        if s.pow(d).is_negative() && n % 2 == 0 {
            return Err(BondingError::Undefined);
        }
        if s.pow(d).is_zero() {
            return Err(BondingError::Undefined);
        }
        let result = calculate_curve_return(&c, &r, &s, n, d);
        if result.is_negative() {
            return Err(BondingError::NegativeResult);
        }
        Ok(get_return_amount(continuous_amount, reserve_amount, supply_amount, n, d, p))
    }

    /// The price of a continuous token.
    pub fn get_price(&self, reserve_amount: Decimal, supply_amount: Decimal) -> (r: Result<Decimal, BondingError>)
        ensures
            r == price_outcome(reserve_amount@, supply_amount@, self.reserve_ratio_n, self.reserve_ratio_d, self.precision_bits as nat),
    {
        let r = number_from_decimal(reserve_amount, self.precision_bits);
        let s = number_from_decimal(supply_amount, self.precision_bits);
        if supply_amount.0 == 0 || self.reserve_ratio_n == 0 {
            return Err(BondingError::Undefined);
        }
        proof {
            crate::bonding::lemma_fixed_nonzero(supply_amount@, self.precision_bits as nat);
        }
        let price = calculate_price(&r, &s, self.reserve_ratio_n, self.reserve_ratio_d);
        match decimal_from_number(&price, self.precision_bits) {
            Some(v) => Ok(v),
            None => Err(BondingError::Arithmetic),
        }
    }
}

/// The flat curve: one continuous token for one reserve token, both ways.
#[derive(Clone, Copy, Debug, PartialEq, Eq, Structural)]
pub struct BasicBondingCurve {}

impl BasicBondingCurve {
    pub fn new() -> (r: BasicBondingCurve)
        ensures
            r == (BasicBondingCurve {}),
    {
        BasicBondingCurve {}
    }

    pub fn get_mint_amount(&self, collateral_amount: Decimal, _reserve_amount: Decimal, _supply_amount: Decimal) -> (r: Decimal)
        ensures
            r == collateral_amount,
    {
        collateral_amount
    }

    pub fn get_return_amount(&self, continuous_amount: Decimal, _reserve_amount: Decimal, _supply_amount: Decimal) -> (r: Decimal)
        ensures
            r == continuous_amount,
    {
        continuous_amount
    }

    pub fn get_initial_supply(&self, collateral_amount: Decimal) -> (r: Decimal)
        ensures
            r == collateral_amount,
    {
        collateral_amount
    }

    /// Always one.
    pub fn get_price(&self, _reserve_amount: Decimal, _supply_amount: Decimal) -> (r: Decimal)
        ensures
            r@ == ONE_UNITS,
    {
        Decimal(ONE_UNITS)
    }

    pub fn get_sale_quote(&self, continuous_amount: Decimal, _reserve_amount: Decimal, _supply_amount: Decimal) -> (r: Decimal)
        ensures
            r == continuous_amount,
    {
        continuous_amount
    }

    pub fn get_buy_quote(&self, collateral_amount: Decimal, _reserve_amount: Decimal, _supply_amount: Decimal) -> (r: Decimal)
        ensures
            r == collateral_amount,
    {
        collateral_amount
    }
}

/// The curve a market maker prices with.
#[derive(Clone, Copy, Debug, PartialEq, Eq, Structural)]
pub enum Curve {
    Ratio(RatioBondingCurve),
    Basic(BasicBondingCurve),
}

impl Curve {
    /// A ratio curve has a denominator other than zero.
    pub open spec fn wf(&self) -> bool {
        self matches Curve::Ratio(c) ==> c.reserve_ratio_d != 0
    }

    pub open spec fn initial(&self, c: int) -> Result<Decimal, BondingError> {
        match self {
            Curve::Ratio(k) => initial_outcome(c, k.reserve_ratio_n, k.reserve_ratio_d, k.precision_bits as nat),
            Curve::Basic(_) => Ok(Decimal(c as i128)),
        }
    }

    pub open spec fn mint(&self, c: int, r: int, s: int) -> Result<Decimal, BondingError> {
        match self {
            Curve::Ratio(k) => mint_outcome(c, r, s, k.reserve_ratio_n, k.reserve_ratio_d, k.precision_bits as nat),
            Curve::Basic(_) => Ok(Decimal(c as i128)),
        }
    }

    pub open spec fn refund(&self, c: int, r: int, s: int) -> Result<Decimal, BondingError> {
        match self {
            Curve::Ratio(k) => return_outcome(c, r, s, k.reserve_ratio_n, k.reserve_ratio_d, k.precision_bits as nat),
            Curve::Basic(_) => Ok(Decimal(c as i128)),
        }
    }

    pub open spec fn price(&self, r: int, s: int) -> Result<Decimal, BondingError> {
        match self {
            Curve::Ratio(k) => price_outcome(r, s, k.reserve_ratio_n, k.reserve_ratio_d, k.precision_bits as nat),
            Curve::Basic(_) => Ok(Decimal(ONE_UNITS)),
        }
    }

    pub fn get_initial_supply(&self, c: Decimal) -> (r: Result<Decimal, BondingError>)
        requires
            self.wf(),
        ensures
            r == self.initial(c@),
    {
        match self {
            Curve::Ratio(k) => k.get_initial_supply(c),
            Curve::Basic(b) => Ok(b.get_initial_supply(c)),
        }
    }

    pub fn get_mint_amount(&self, c: Decimal, r: Decimal, s: Decimal) -> (res: Result<Decimal, BondingError>)
        requires
            self.wf(),
        ensures
            res == self.mint(c@, r@, s@),
    {
        match self {
            Curve::Ratio(k) => k.get_mint_amount(c, r, s),
            Curve::Basic(b) => Ok(b.get_mint_amount(c, r, s)),
        }
    }

    pub fn get_return_amount(&self, c: Decimal, r: Decimal, s: Decimal) -> (res: Result<Decimal, BondingError>)
        requires
            self.wf(),
        ensures
            res == self.refund(c@, r@, s@),
    {
        match self {
            Curve::Ratio(k) => k.get_return_amount(c, r, s),
            Curve::Basic(b) => Ok(b.get_return_amount(c, r, s)),
        }
    }

    pub fn get_price(&self, r: Decimal, s: Decimal) -> (res: Result<Decimal, BondingError>)
        ensures
            res == self.price(r@, s@),
    {
        match self {
            Curve::Ratio(k) => k.get_price(r, s),
            Curve::Basic(b) => Ok(b.get_price(r, s)),
        }
    }
}

/// The curve a market maker uses when given none: a reserve ratio of 1/5
/// at 384 bits of precision.
pub open spec fn default_curve() -> Curve {
    Curve::Ratio(RatioBondingCurve { reserve_ratio_n: 1, reserve_ratio_d: 5, precision_bits: 384 })
}

/// An automated market maker on a bonding curve: it holds the reserve and
/// mints and burns the continuous token.
#[derive(Clone, Copy, Debug, PartialEq, Eq, Structural)]
pub struct BondingAMM {
    pub reserve_resource: ResourceAddress,
    pub reserve: Decimal,
    pub continuous_resource: ResourceAddress,
    /// The continuous tokens in existence.
    pub continuous_supply: Decimal,
    pub bonding_curve: Curve,
}

impl BondingAMM {
    /// The reserve and the supply are not negative, and the curve is sound.
    pub open spec fn wf(&self) -> bool {
        self.reserve@ >= 0 && self.continuous_supply@ >= 0 && self.bonding_curve.wf()
    }

    /// A market maker with the initial reserve, on the given curve or on
    /// the default one; returns it with the initial supply of continuous
    /// tokens, minted for the creator.
    pub fn new(initial_reserve: Bucket, continuous_resource: ResourceAddress, bonding_curve: Option<Curve>) -> (r: Result<
        (BondingAMM, Bucket),
        BondingError,
    >)
        requires
            bonding_curve matches Some(c) ==> c.wf(),
        ensures
            ({
                let curve = match bonding_curve {
                    Some(c) => c,
                    None => default_curve(),
                };
                if initial_reserve.amt()@ == 0 {
                    r == Err::<(BondingAMM, Bucket), BondingError>(BondingError::EmptyReserve)
                } else {
                    match curve.initial(initial_reserve.amt()@) {
                        Err(e) => r == Err::<(BondingAMM, Bucket), BondingError>(e),
                        Ok(supply) => if supply@ < 0 {
                            r == Err::<(BondingAMM, Bucket), BondingError>(BondingError::NegativeResult)
                        } else {
                            r == Ok::<(BondingAMM, Bucket), BondingError>((
                                BondingAMM {
                                    reserve_resource: initial_reserve.res(),
                                    reserve: initial_reserve.amt(),
                                    continuous_resource,
                                    continuous_supply: supply,
                                    bonding_curve: curve,
                                },
                                Bucket::spec_new(continuous_resource, supply),
                            ))
                        },
                    }
                }
            }),
            r matches Ok((a, _)) ==> a.wf(),
    {
        if initial_reserve.is_empty() {
            return Err(BondingError::EmptyReserve);
        }
        let curve = match bonding_curve {
            Some(c) => c,
            None => Curve::Ratio(RatioBondingCurve { reserve_ratio_n: 1, reserve_ratio_d: 5, precision_bits: 384 }),
        };
        let supply = curve.get_initial_supply(initial_reserve.amount())?;
        if supply.0 < 0 {
            return Err(BondingError::NegativeResult);
        }
        let amm = BondingAMM {
            reserve_resource: initial_reserve.resource_address(),
            reserve: initial_reserve.amount(),
            continuous_resource,
            continuous_supply: supply,
            bonding_curve: curve,
        };
        Ok((amm, Bucket::of(continuous_resource, supply)))
    }

    /// A market maker on the default curve.
    pub fn new_default(initial_reserve: Bucket, continuous_resource: ResourceAddress) -> (r: Result<(BondingAMM, Bucket), BondingError>)
        ensures
            r == Self::new_outcome(initial_reserve, continuous_resource, default_curve()),
            r matches Ok((a, _)) ==> a.wf(),
    {
        Self::new(initial_reserve, continuous_resource, None)
    }

    /// A market maker on the given curve.
    pub fn new_with_curve(initial_reserve: Bucket, continuous_resource: ResourceAddress, bonding_curve: Curve) -> (r: Result<
        (BondingAMM, Bucket),
        BondingError,
    >)
        requires
            bonding_curve.wf(),
        ensures
            r == Self::new_outcome(initial_reserve, continuous_resource, bonding_curve),
            r matches Ok((a, _)) ==> a.wf(),
    {
        Self::new(initial_reserve, continuous_resource, Some(bonding_curve))
    }

    /// What `new` gives for the initial reserve on `curve`.
    pub open spec fn new_outcome(initial_reserve: Bucket, continuous_resource: ResourceAddress, curve: Curve) -> Result<
        (BondingAMM, Bucket),
        BondingError,
    > {
        if initial_reserve.amt()@ == 0 {
            Err(BondingError::EmptyReserve)
        } else {
            match curve.initial(initial_reserve.amt()@) {
                Err(e) => Err(e),
                Ok(supply) => if supply@ < 0 {
                    Err(BondingError::NegativeResult)
                } else {
                    Ok((
                        BondingAMM {
                            reserve_resource: initial_reserve.res(),
                            reserve: initial_reserve.amt(),
                            continuous_resource,
                            continuous_supply: supply,
                            bonding_curve: curve,
                        },
                        Bucket::spec_new(continuous_resource, supply),
                    ))
                },
            }
        }
    }
}

/// Buying with `collateral`, wanting at least `minimum`: the market maker
/// after it, the continuous tokens minted and the reserve tokens handed
/// back (all of them when the curve gives nothing, or less than the
/// minimum).
pub open spec fn buy_spec(a: BondingAMM, collateral: Bucket, minimum: Decimal) -> Result<(BondingAMM, Bucket, Bucket), BondingError> {
    let x = collateral.amt()@;
    if collateral.res() != a.reserve_resource {
        Err(BondingError::ResourceMismatch)
    } else if minimum@ < 0 {
        Err(BondingError::NegativeAmount)
    } else if x == 0 {
        Ok((a, Bucket::spec_new(a.continuous_resource, Decimal(0)), collateral))
    } else {
        match a.bonding_curve.mint(x, a.reserve@, a.continuous_supply@) {
            Err(e) => Err(e),
            Ok(m) => if m@ == 0 || m@ < minimum@ {
                Ok((a, Bucket::spec_new(a.continuous_resource, Decimal(0)), collateral))
            } else if !in_i128(a.reserve@ + x) || !in_i128(a.continuous_supply@ + m@) {
                Err(BondingError::Arithmetic)
            } else {
                Ok((
                    BondingAMM {
                        reserve: Decimal((a.reserve@ + x) as i128),
                        continuous_supply: Decimal((a.continuous_supply@ + m@) as i128),
                        ..a
                    },
                    Bucket::spec_new(a.continuous_resource, m),
                    Bucket::spec_new(a.reserve_resource, Decimal(0)),
                ))
            },
        }
    }
}

/// Selling `continuous`, wanting at least `minimum`: the market maker after
/// it, the reserve tokens paid out and the continuous tokens handed back
/// (all of them when the curve gives nothing, or less than the minimum).
pub open spec fn sell_spec(a: BondingAMM, continuous: Bucket, minimum: Decimal) -> Result<(BondingAMM, Bucket, Bucket), BondingError> {
    let x = continuous.amt()@;
    if continuous.res() != a.continuous_resource {
        Err(BondingError::ResourceMismatch)
    } else if minimum@ < 0 {
        Err(BondingError::NegativeAmount)
    } else if x == 0 {
        Ok((a, Bucket::spec_new(a.reserve_resource, Decimal(0)), continuous))
    } else {
        match a.bonding_curve.refund(x, a.reserve@, a.continuous_supply@) {
            Err(e) => Err(e),
            Ok(v) => if v@ == 0 || v@ < minimum@ {
                Ok((a, Bucket::spec_new(a.reserve_resource, Decimal(0)), continuous))
            } else if x > a.continuous_supply@ || v@ > a.reserve@ {
                Err(BondingError::InsufficientFunds)
            } else {
                Ok((
                    BondingAMM {
                        reserve: Decimal((a.reserve@ - v@) as i128),
                        continuous_supply: Decimal((a.continuous_supply@ - x) as i128),
                        ..a
                    },
                    Bucket::spec_new(a.reserve_resource, v),
                    Bucket::spec_new(a.continuous_resource, Decimal(0)),
                ))
            },
        }
    }
}

/// On the flat curve, selling what a purchase minted pays back exactly what
/// was paid and restores the market maker.
pub proof fn lemma_basic_round_trip(a: BondingAMM, collateral: Bucket)
    requires
        a.wf(),
        a.bonding_curve is Basic,
        buy_spec(a, collateral, Decimal(0)) matches Ok((_, minted, _)) && minted.amt()@ != 0,
    ensures
        ({
            let (a2, minted, _) = buy_spec(a, collateral, Decimal(0)).unwrap();
            sell_spec(a2, minted, Decimal(0)) == Ok::<(BondingAMM, Bucket, Bucket), BondingError>((
                a,
                Bucket::spec_new(a.reserve_resource, collateral.amt()),
                Bucket::spec_new(a.continuous_resource, Decimal(0)),
            ))
        }),
{
    let (a2, minted, _) = buy_spec(a, collateral, Decimal(0)).unwrap();
    assert(minted.amt() == collateral.amt());
    assert(a2.reserve@ == a.reserve@ + collateral.amt()@);
    assert(a2.continuous_supply@ == a.continuous_supply@ + collateral.amt()@);
    let b = sell_spec(a2, minted, Decimal(0)).unwrap();
    assert(b.0 == a);
}

impl BondingAMM {
    /// Buys continuous tokens with `collateral`: the curve prices the
    /// purchase; when it gives nothing or less than `minimum_to_receive`,
    /// the collateral is handed back instead of failing. Returns the
    /// continuous tokens and the reserve tokens handed back.
    pub fn buy(&mut self, collateral: Bucket, minimum_to_receive: Decimal) -> (r: Result<(Bucket, Bucket), BondingError>)
        requires
            old(self).wf(),
        ensures
            final(self).wf(),
            match buy_spec(*old(self), collateral, minimum_to_receive) {
                Ok((a, b1, b2)) => r == Ok::<(Bucket, Bucket), BondingError>((b1, b2)) && *final(self) == a,
                Err(e) => r == Err::<(Bucket, Bucket), BondingError>(e) && *final(self) == *old(self),
            },
    {
        if collateral.resource_address() != self.reserve_resource {
            return Err(BondingError::ResourceMismatch);
        }
        if minimum_to_receive.0 < 0 {
            return Err(BondingError::NegativeAmount);
        }
        let x = collateral.amount();
        if x.0 == 0 {
            return Ok((Bucket::empty(self.continuous_resource), collateral));
        }
        let m = self.get_buy_quote_amount(x)?;
        if m.0 == 0 || m.0 < minimum_to_receive.0 {
            return Ok((Bucket::empty(self.continuous_resource), collateral));
        }
        let reserve = match self.reserve.checked_add(x) {
            Some(v) => v,
            None => return Err(BondingError::Arithmetic),
        };
        let supply = match self.continuous_supply.checked_add(m) {
            Some(v) => v,
            None => return Err(BondingError::Arithmetic),
        };
        self.reserve = reserve;
        self.continuous_supply = supply;
        Ok((Bucket::of(self.continuous_resource, m), Bucket::empty(self.reserve_resource)))
    }

    /// Sells continuous tokens for reserve tokens: the curve prices the
    /// sale; when it gives nothing or less than `minimum_to_receive`, the
    /// tokens are handed back instead of failing. Returns the reserve
    /// tokens and the continuous tokens handed back.
    pub fn sell(&mut self, continuous: Bucket, minimum_to_receive: Decimal) -> (r: Result<(Bucket, Bucket), BondingError>)
        requires
            old(self).wf(),
        ensures
            final(self).wf(),
            match sell_spec(*old(self), continuous, minimum_to_receive) {
                Ok((a, b1, b2)) => r == Ok::<(Bucket, Bucket), BondingError>((b1, b2)) && *final(self) == a,
                Err(e) => r == Err::<(Bucket, Bucket), BondingError>(e) && *final(self) == *old(self),
            },
    {
        if continuous.resource_address() != self.continuous_resource {
            return Err(BondingError::ResourceMismatch);
        }
        if minimum_to_receive.0 < 0 {
            return Err(BondingError::NegativeAmount);
        }
        let x = continuous.amount();
        if x.0 == 0 {
            return Ok((Bucket::empty(self.reserve_resource), continuous));
        }
        let v = self.get_sell_quote_amount(x)?;
        if v.0 == 0 || v.0 < minimum_to_receive.0 {
            return Ok((Bucket::empty(self.reserve_resource), continuous));
        }
        if x.0 > self.continuous_supply.0 || v.0 > self.reserve.0 {
            return Err(BondingError::InsufficientFunds);
        }
        self.reserve = Decimal(self.reserve.0 - v.0);
        self.continuous_supply = Decimal(self.continuous_supply.0 - x.0);
        Ok((Bucket::of(self.reserve_resource, v), Bucket::empty(self.continuous_resource)))
    }

    /// The curve's price at the current reserve and supply.
    pub fn get_price(&self) -> (r: Result<Decimal, BondingError>)
        ensures
            r == self.bonding_curve.price(self.reserve@, self.continuous_supply@),
    {
        self.bonding_curve.get_price(self.reserve, self.continuous_supply)
    }

    /// A proof that the reserve holds what selling `continuous_amount`
    /// would pay out.
    pub fn get_sell_quote(&self, continuous_amount: Decimal) -> (r: Result<Proof, BondingError>)
        requires
            self.wf(),
        ensures
            match self.bonding_curve.refund(continuous_amount@, self.reserve@, self.continuous_supply@) {
                Err(e) => r == Err::<Proof, BondingError>(e),
                Ok(v) => if v@ < 0 || v@ > self.reserve@ {
                    r == Err::<Proof, BondingError>(BondingError::InsufficientFunds)
                } else {
                    r == Ok::<Proof, BondingError>(Proof { resource: self.reserve_resource, amount: v })
                },
            },
    {
        let v = self.get_sell_quote_amount(continuous_amount)?;
        if v.0 < 0 || v.0 > self.reserve.0 {
            return Err(BondingError::InsufficientFunds);
        }
        Ok(Proof { resource: self.reserve_resource, amount: v })
    }

    /// What buying with `collateral_amount` would mint.
    pub fn get_buy_quote_amount(&self, collateral_amount: Decimal) -> (r: Result<Decimal, BondingError>)
        requires
            self.wf(),
        ensures
            r == self.bonding_curve.mint(collateral_amount@, self.reserve@, self.continuous_supply@),
    {
        self.bonding_curve.get_mint_amount(collateral_amount, self.reserve, self.continuous_supply)
    }

    /// What selling `continuous_amount` would pay out.
    pub fn get_sell_quote_amount(&self, continuous_amount: Decimal) -> (r: Result<Decimal, BondingError>)
        requires
            self.wf(),
        ensures
            r == self.bonding_curve.refund(continuous_amount@, self.reserve@, self.continuous_supply@),
    {
        self.bonding_curve.get_return_amount(continuous_amount, self.reserve, self.continuous_supply)
    }
}

} // verus!
