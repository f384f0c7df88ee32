//! Fixed-point decimals: `Decimal` counts units of 10^-18 in an `i128`, and
//! `PreciseDecimal` counts units of 10^-36 in an integer below 2^255 in
//! magnitude. Products and quotients are rounded toward zero.
use vstd::prelude::*;
use crate::bignum::{abs, in_i128, pow2, tdiv, Number};

verus! {

/// The number of units of 10^-18 in one.
pub open spec fn dec_one() -> int {
    1_000_000_000_000_000_000
}

/// The number of units of 10^-36 in one.
pub open spec fn pdec_one() -> int {
    1_000_000_000_000_000_000_000_000_000_000_000_000
}

/// Product of two decimals given by their units.
pub open spec fn dmul(a: int, b: int) -> int {
    tdiv(a * b, dec_one())
}

/// Quotient of two decimals given by their units.
pub open spec fn ddiv(a: int, b: int) -> int {
    tdiv(a * dec_one(), b)
}

/// Product of two precise decimals given by their units.
pub open spec fn pmul(a: int, b: int) -> int {
    tdiv(a * b, pdec_one())
}

/// Quotient of two precise decimals given by their units.
pub open spec fn pdiv(a: int, b: int) -> int {
    tdiv(a * pdec_one(), b)
}

/// The decimal with the given units, when they fit.
pub open spec fn dec_of(x: int) -> Option<Decimal> {
    if in_i128(x) {
        Some(Decimal(x as i128))
    } else {
        None
    }
}

/// Sum of two optional decimals; `None` when either is missing or the sum
/// does not fit.
pub open spec fn opt_add(a: Option<Decimal>, b: Option<Decimal>) -> Option<Decimal> {
    match (a, b) {
        (Some(x), Some(y)) => dec_of(x@ + y@),
        _ => None,
    }
}

pub open spec fn opt_sub(a: Option<Decimal>, b: Option<Decimal>) -> Option<Decimal> {
    match (a, b) {
        (Some(x), Some(y)) => dec_of(x@ - y@),
        _ => None,
    }
}

pub open spec fn opt_mul(a: Option<Decimal>, b: Option<Decimal>) -> Option<Decimal> {
    match (a, b) {
        (Some(x), Some(y)) => dec_of(dmul(x@, y@)),
        _ => None,
    }
}

/// Quotient of two optional decimals; `None` also on a zero divisor.
pub open spec fn opt_div(a: Option<Decimal>, b: Option<Decimal>) -> Option<Decimal> {
    match (a, b) {
        (Some(x), Some(y)) => if y@ == 0 {
            None
        } else {
            dec_of(ddiv(x@, y@))
        },
        _ => None,
    }
}

/// The whole number `n` as a decimal.
pub open spec fn whole(n: int) -> Decimal {
    Decimal((n * dec_one()) as i128)
}

/// A fixed-point number with 18 decimal places.
#[derive(Clone, Copy, Debug, PartialEq, Eq, Structural)]
pub struct Decimal(pub i128);

impl View for Decimal {
    type V = int;

    open spec fn view(&self) -> int {
        self.0 as int
    }
}

pub const ONE_UNITS: i128 = 1_000_000_000_000_000_000;

impl Decimal {
    pub fn zero() -> (r: Decimal)
        ensures
            r@ == 0,
    {
        Decimal(0)
    }

    pub fn one() -> (r: Decimal)
        ensures
            r@ == dec_one(),
    {
        Decimal(ONE_UNITS)
    }

    /// The whole number `n`.
    pub fn from_u64(n: u64) -> (r: Decimal)
        ensures
            r@ == n * dec_one(),
    {
        assert(n * dec_one() <= u64::MAX * dec_one()) by (nonlinear_arith)
            requires
                n <= u64::MAX,
        ;
        Decimal(n as i128 * ONE_UNITS)
    }

    /// The whole number `n`.
    pub fn from_i64(n: i64) -> (r: Decimal)
        ensures
            r@ == n * dec_one(),
    {
        assert(i64::MIN * dec_one() <= n * dec_one() <= i64::MAX * dec_one()) by (nonlinear_arith)
            requires
                i64::MIN <= n <= i64::MAX,
        ;
        Decimal(n as i128 * ONE_UNITS)
    }

    pub fn is_zero(&self) -> (r: bool)
        ensures
            r == (self@ == 0),
    {
        self.0 == 0
    }

    pub fn is_negative(&self) -> (r: bool)
        ensures
            r == (self@ < 0),
    {
        self.0 < 0
    }

    pub fn is_positive(&self) -> (r: bool)
        ensures
            r == (self@ > 0),
    {
        self.0 > 0
    }

    pub fn checked_add(self, o: Decimal) -> (r: Option<Decimal>)
        ensures
            r == dec_of(self@ + o@),
    {
        match self.0.checked_add(o.0) {
            Some(v) => Some(Decimal(v)),
            None => None,
        }
    }

    pub fn checked_sub(self, o: Decimal) -> (r: Option<Decimal>)
        ensures
            r == dec_of(self@ - o@),
    {
        match self.0.checked_sub(o.0) {
            Some(v) => Some(Decimal(v)),
            None => None,
        }
    }

    /// The product, rounded toward zero; `None` when it does not fit.
    pub fn checked_mul(self, o: Decimal) -> (r: Option<Decimal>)
        ensures
            r == dec_of(dmul(self@, o@)),
    {
        let a = Number::from_i128(self.0);
        let b = Number::from_i128(o.0);
        let one = Number::from_i128(ONE_UNITS);
        let q = a.mul(&b).div(&one);
        match q.to_i128() {
            Some(v) => Some(Decimal(v)),
            None => None,
        }
    }

    /// The quotient, rounded toward zero; `None` on a zero divisor or when it
    /// does not fit.
    pub fn checked_div(self, o: Decimal) -> (r: Option<Decimal>)
        ensures
            r == (if o@ == 0 {
                None
            } else {
                dec_of(ddiv(self@, o@))
            }),
    {
        if o.0 == 0 {
            return None;
        }
        let a = Number::from_i128(self.0);
        let b = Number::from_i128(o.0);
        let one = Number::from_i128(ONE_UNITS);
        let q = a.mul(&one).div(&b);
        match q.to_i128() {
            Some(v) => Some(Decimal(v)),
            None => None,
        }
    }
}

/// Whether an integer fits the range of a precise decimal.
pub open spec fn in_precise(x: int) -> bool {
    -pow2(255) <= x < pow2(255)
}

/// A fixed-point number with 36 decimal places.
pub struct PreciseDecimal {
    units: Number,
}

impl View for PreciseDecimal {
    type V = int;

    closed spec fn view(&self) -> int {
        self.units@
    }
}

fn precise_bound() -> (r: Number)
    ensures
        r@ == pow2(255),
{
    Number::from_i128(1).shl(255)
}

/// Keeps a value when it fits the range of a precise decimal.
fn precise_of(n: Number) -> (r: Option<PreciseDecimal>)
    ensures
        r matches Some(p) ==> p@ == n@,
        r is Some <==> in_precise(n@),
{
    let bound = precise_bound();
    let neg_bound = Number::zero().sub(&bound);
    if n.sub(&neg_bound).is_negative() || !n.sub(&bound).is_negative() {
        None
    } else {
        Some(PreciseDecimal { units: n })
    }
}

impl PreciseDecimal {
    pub fn one() -> (r: PreciseDecimal)
        ensures
            r@ == pdec_one(),
    {
        let e18 = Number::from_i128(ONE_UNITS);
        PreciseDecimal { units: e18.mul(&e18) }
    }

    /// The same value as a decimal.
    pub fn from_decimal(d: Decimal) -> (r: PreciseDecimal)
        ensures
            r@ == d@ * dec_one(),
    {
        let e18 = Number::from_i128(ONE_UNITS);
        PreciseDecimal { units: Number::from_i128(d.0).mul(&e18) }
    }

    pub fn is_zero(&self) -> (r: bool)
        ensures
            r == (self@ == 0),
    {
        self.units.is_zero()
    }

    /// The product, rounded toward zero; `None` when it does not fit.
    pub fn checked_mul(&self, o: &PreciseDecimal) -> (r: Option<PreciseDecimal>)
        ensures
            r matches Some(p) ==> p@ == pmul(self@, o@),
            r is Some <==> in_precise(pmul(self@, o@)),
    {
        let one = PreciseDecimal::one();
        precise_of(self.units.mul(&o.units).div(&one.units))
    }

    /// The quotient, rounded toward zero; `None` on a zero divisor or when it
    /// does not fit.
    pub fn checked_div(&self, o: &PreciseDecimal) -> (r: Option<PreciseDecimal>)
        ensures
            r matches Some(p) ==> o@ != 0 && p@ == pdiv(self@, o@),
            r is Some <==> o@ != 0 && in_precise(pdiv(self@, o@)),
    {
        if o.units.is_zero() {
            return None;
        }
        let one = PreciseDecimal::one();
        precise_of(self.units.mul(&one.units).div(&o.units))
    }

    /// The decimal obtained by dropping the digits past the 18th place;
    /// `None` when it does not fit.
    pub fn truncate(&self) -> (r: Option<Decimal>)
        ensures
            r == dec_of(tdiv(self@, dec_one())),
    {
        let e18 = Number::from_i128(ONE_UNITS);
        match self.units.div(&e18).to_i128() {
            Some(v) => Some(Decimal(v)),
            None => None,
        }
    }
}

} // verus!
