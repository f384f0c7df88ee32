//! Bonding curves: the arbitrary-precision arithmetic that converts between
//! decimals and binary fixed-point numbers, the reserve-ratio curve that
//! prices mints and burns of a continuous token against a reserve, a flat
//! one-to-one curve, and the automated market maker that trades along a
//! curve.
use vstd::prelude::*;
use crate::bignum::{
    in_i128, int_le, ipow, is_root_of, lemma_int_le_range, lemma_low16_wraps,
    lemma_pow2_128, lemma_sign_extend, lemma_uint_bounds, pow2, pow256, tdiv, trem,
    uint_le, wrap_i128, fill, Number,
};
use crate::decimal::{dec_one, Decimal};

verus! {

/// The truncated principal `n`-th root of `x`.
pub open spec fn iroot(x: int, n: nat) -> int {
    choose|r: int| is_root_of(r, x, n)
}

pub proof fn lemma_ipow_mono(a: int, b: int, n: nat)
    requires
        0 <= a <= b,
    ensures
        0 <= ipow(a, n) <= ipow(b, n),
    decreases n,
{
    if n > 0 {
        lemma_ipow_mono(a, b, (n - 1) as nat);
        let x = ipow(a, (n - 1) as nat);
        let y = ipow(b, (n - 1) as nat);
        assert(0 <= a * x <= b * y) by (nonlinear_arith)
            requires
                0 <= a <= b,
                0 <= x <= y,
        ;
    }
}

pub proof fn lemma_ipow_one(n: nat)
    ensures
        ipow(1, n) == 1,
    decreases n,
{
    if n > 0 {
        lemma_ipow_one((n - 1) as nat);
    }
}

/// A root is determined by its radicand and degree.
pub proof fn lemma_root_unique(r: int, x: int, n: nat)
    requires
        is_root_of(r, x, n),
    ensures
        iroot(x, n) == r,
{
    let q = iroot(x, n);
    assert(is_root_of(q, x, n));
    if x >= 0 {
        if r < q {
            lemma_ipow_mono(r + 1, q, n);
        } else if q < r {
            lemma_ipow_mono(q + 1, r, n);
        }
    } else {
        if -r < -q {
            lemma_ipow_mono(-r + 1, -q, n);
        } else if -q < -r {
            lemma_ipow_mono(-q + 1, -r, n);
        }
    }
}

/// Roots of non-negative numbers grow with the radicand, and the root of a
/// number at least one is at least one.
pub proof fn lemma_root_mono(x: int, y: int, rx: int, ry: int, n: nat)
    requires
        0 <= x <= y,
        is_root_of(rx, x, n),
        is_root_of(ry, y, n),
    ensures
        rx <= ry,
        x >= 1 ==> rx >= 1,
{
    if rx > ry {
        lemma_ipow_mono(ry + 1, rx, n);
    }
    if x >= 1 && rx == 0 {
        lemma_ipow_one(n);
    }
}

/// A binary fixed-point number with `precision_bits` fractional bits.
pub open spec fn to_fixed(b: int, precision_bits: nat) -> int {
    b * pow2(precision_bits)
}

/// A non-negative integer over `2 * h`, rounded to the nearest integer,
/// halves up.
pub open spec fn round_half_up(a: int, h: int) -> int {
    (a + h) / (2 * h)
}

/// The integer nearest to the fixed-point number `b`, that is to
/// `b / 2^precision_bits`, halves away from zero.
pub open spec fn round_fixed(b: int, precision_bits: nat) -> int {
    if precision_bits == 0 {
        b
    } else {
        let h = pow2((precision_bits - 1) as nat);
        if b >= 0 {
            round_half_up(b, h)
        } else {
            -round_half_up(-b, h)
        }
    }
}

proof fn lemma_pow2_positive(n: nat)
    ensures
        pow2(n) > 0,
    decreases n,
{
    if n > 0 {
        lemma_pow2_positive((n - 1) as nat);
    }
}

/// Halving `a / h`, and adding one first when it is odd, rounds `a / 2h` to
/// the nearest integer, halves up.
proof fn lemma_round_half(a: int, h: int)
    requires
        a >= 0,
        h > 0,
    ensures
        ({
            let t = a / h;
            (if trem(t, 2) == 1 {
                t + 1
            } else {
                t
            }) / 2
        }) == round_half_up(a, h),
{
    let t = a / h;
    let f = a % h;
    vstd::arithmetic::div_mod::lemma_fundamental_div_mod(a, h);
    vstd::arithmetic::div_mod::lemma_mod_bound(a, h);
    vstd::arithmetic::div_mod::lemma_div_pos_is_pos(a, h);
    let q = t / 2;
    let e = t % 2;
    assert(t == 2 * q + e && 0 <= e < 2);
    assert(trem(t, 2) == e);
    let r = f + h - h * e;
    assert(a + h == (q + e) * (2 * h) + r) by (nonlinear_arith)
        requires
            a == h * t + f,
            t == 2 * q + e,
            r == f + h - h * e,
    ;
    assert(0 <= r < 2 * h) by (nonlinear_arith)
        requires
            r == f + h - h * e,
            0 <= f < h,
            0 <= e < 2,
    ;
    vstd::arithmetic::div_mod::lemma_fundamental_div_mod_converse(a + h, 2 * h, q + e, r);
}

/// `base^(n/d)`, rounded.
pub open spec fn pow_nd_spec(base: int, n: nat, d: nat) -> int {
    iroot(ipow(base, n), d)
}

/// Whether `base^(n/d)` is defined: a root of positive degree that is not an
/// even root of a negative number.
pub open spec fn pow_nd_defined(base: int, n: nat, d: nat) -> bool {
    d > 0 && (ipow(base, n) < 0 ==> d % 2 == 1)
}

/// `scale * (base_n / base_d)^(exp_n / exp_d)`.
pub open spec fn scaled_power_spec(scale: int, base_n: int, base_d: int, exp_n: nat, exp_d: nat) -> int {
    tdiv(scale * pow_nd_spec(base_n, exp_n, exp_d), pow_nd_spec(base_d, exp_n, exp_d))
}

/// Whether `scaled_power` is defined: both roots are defined and the
/// divisor's radicand, hence its root, is not zero.
pub open spec fn scaled_power_defined(base_n: int, base_d: int, exp_n: nat, exp_d: nat) -> bool {
    &&& pow_nd_defined(base_n, exp_n, exp_d)
    &&& pow_nd_defined(base_d, exp_n, exp_d)
    &&& ipow(base_d, exp_n) != 0
}

/// The roots that `scaled_power` takes exist.
pub open spec fn scaled_power_roots(base_n: int, base_d: int, exp_n: nat, exp_d: nat) -> bool {
    &&& is_root_of(pow_nd_spec(base_n, exp_n, exp_d), ipow(base_n, exp_n), exp_d)
    &&& is_root_of(pow_nd_spec(base_d, exp_n, exp_d), ipow(base_d, exp_n), exp_d)
}

/// The decimal that `decimal_from_number` yields: the rounded integer read
/// as units of a decimal, wrapped into the `i128` range.
pub open spec fn decimal_of_fixed(b: int, precision_bits: nat) -> Decimal {
    Decimal(wrap_i128(round_fixed(b, precision_bits)) as i128)
}

/// Converting a decimal into fixed point and back gives the same decimal,
/// whatever the precision.
pub proof fn lemma_decimal_round_trip(d: Decimal, precision_bits: u16)
    ensures
        decimal_of_fixed(to_fixed(d@, precision_bits as nat), precision_bits as nat) == d,
{
    let p = precision_bits as nat;
    let x = d@;
    if p > 0 {
        let h = pow2((p - 1) as nat);
        lemma_pow2_positive((p - 1) as nat);
        assert(pow2(p) == 2 * h);
        let b = to_fixed(x, p);
        assert(b == x * (2 * h));
        if x >= 0 {
            assert(b >= 0) by (nonlinear_arith)
                requires
                    b == x * (2 * h),
                    x >= 0,
                    h > 0,
            ;
            assert(b + h == x * (2 * h) + h);
            vstd::arithmetic::div_mod::lemma_fundamental_div_mod_converse(b + h, 2 * h, x, h);
        } else {
            assert(b < 0) by (nonlinear_arith)
                requires
                    b == x * (2 * h),
                    x < 0,
                    h > 0,
            ;
            assert(-b + h == (-x) * (2 * h) + h) by (nonlinear_arith)
                requires
                    b == x * (2 * h),
            ;
            vstd::arithmetic::div_mod::lemma_fundamental_div_mod_converse(-b + h, 2 * h, -x, h);
        }
    }
    assert(round_fixed(to_fixed(x, p), p) == x);
    crate::bignum::lemma_pow2_values();
    vstd::arithmetic::div_mod::lemma_small_mod((x + pow2(127)) as nat, pow2(128) as nat);
}

/// Shifts an integer into fixed point.
pub fn bigint_to_number(b: &Number, precision_bits: u16) -> (r: Number)
    ensures
        r@ == to_fixed(b@, precision_bits as nat),
{
    b.shl(precision_bits)
}

/// Rounds a fixed-point number to an integer.
pub fn bigint_from_number(b: &Number, precision_bits: u16) -> (r: Number)
    ensures
        r@ == round_fixed(b@, precision_bits as nat),
{
    if precision_bits > 0 {
        let zero = Number::zero();
        let negative = b.is_negative();
        let a = if negative {
            zero.sub(b)
        } else {
            b.add(&zero)
        };
        let mut t = a.shr(precision_bits - 1);
        let two = Number::from_i128(2);
        let one = Number::from_i128(1);
        if t.rem(&two).sub(&one).is_zero() {
            t = t.add(&one);
        }
        let m = t.shr(1);
        proof {
            let h = pow2((precision_bits - 1) as nat);
            lemma_pow2_positive((precision_bits - 1) as nat);
            reveal_with_fuel(pow2, 2);
            lemma_round_half(a@, h);
        }
        if negative {
            zero.sub(&m)
        } else {
            m
        }
    } else {
        b.add(&Number::zero())
    }
}

/// `base^(n/d)`: the `d`-th root of `base^n`.
pub fn pow_nd(base: &Number, n: u32, d: u32) -> (r: Number)
    requires
        pow_nd_defined(base@, n as nat, d as nat),
    ensures
        r@ == pow_nd_spec(base@, n as nat, d as nat),
        is_root_of(r@, ipow(base@, n as nat), d as nat),
{
    let p = base.pow(n);
    let r = p.nth_root(d);
    proof {
        lemma_root_unique(r@, p@, d as nat);
    }
    r
}

/// Reads the low 16 bytes of a two's-complement number as a decimal.
fn decimal_from_low_bytes(bytes: &Vec<u8>) -> (r: Decimal)
    requires
        bytes@.len() >= 16,
    ensures
        r@ == int_le(bytes@.take(16)),
{
    let mut u: u128 = 0;
    let mut i: usize = 16;
    let ghost t = bytes@.take(16);
    proof {
        lemma_pow2_128();
        lemma_uint_bounds(t);
    }
    while i > 0
        invariant
            0 <= i <= 16,
            bytes@.len() >= 16,
            t == bytes@.take(16),
            u as int == uint_le(t.skip(i as int)),
            uint_le(t.skip(i as int)) < pow256((16 - i) as nat),
        decreases i,
    {
        let ghost s0 = t.skip(i as int);
        let ghost s1 = t.skip((i - 1) as int);
        proof {
            assert(s1 == seq![t[i - 1]] + s0);
            crate::bignum::lemma_uint_concat(seq![t[i - 1]], s0);
            assert(seq![t[i - 1]].drop_last() =~= Seq::<u8>::empty());
            lemma_uint_single(t[i - 1]);
            lemma_pow256_16_bound((16 - i) as nat);
            lemma_pow2_128();
            assert(256 * (u as int) + (t[i - 1] as int) < 256 * pow256((16 - i) as nat)) by (nonlinear_arith)
                requires
                    u < pow256((16 - i) as nat),
                    t[i - 1] < 256,
            ;
        }
        u = u * 256 + bytes[i - 1] as u128;
        i = i - 1;
        proof {
            assert(pow256((16 - i) as nat) == 256 * pow256((16 - i - 1) as nat));
        }
    }
    proof {
        assert(t.skip(0) == t);
        lemma_int_le_range(t);
    }
    if u >= 0x8000_0000_0000_0000_0000_0000_0000_0000u128 {
        let m = (u128::MAX - u) as i128;
        Decimal(-m - 1)
    } else {
        Decimal(u as i128)
    }
}

proof fn lemma_uint_single(x: u8)
    ensures
        uint_le(seq![x]) == x,
{
    let s = seq![x];
    assert(s.drop_last() =~= Seq::<u8>::empty());
    assert(uint_le(s.drop_last()) == 0);
    assert(pow256(0) == 1);
    assert(s.last() == x);
}

proof fn lemma_pow256_16_bound(k: nat)
    requires
        k <= 15,
    ensures
        256 * pow256(k) <= pow256(16),
{
    crate::bignum::lemma_pow256_add(k + 1, (15 - k) as nat);
    crate::bignum::lemma_pow256_pos((15 - k) as nat);
    crate::bignum::lemma_pow256_pos(k + 1);
    assert(pow256(k + 1) == 256 * pow256(k));
    let a = pow256(k + 1);
    let b = pow256((15 - k) as nat);
    assert(a <= a * b) by (nonlinear_arith)
        requires
            b >= 1,
            a >= 0,
    ;
}

/// Rounds a fixed-point number to an integer and reads it as the units of a
/// decimal. Its bytes are sign-extended to a multiple of 16 and the low 16
/// bytes are kept, so a value outside the `i128` range wraps around.
pub fn decimal_from_number(b: &Number, precision_bits: u16) -> (r: Option<Decimal>)
    ensures
        r == Some(decimal_of_fixed(b@, precision_bits as nat)),
{
    let b = bigint_from_number(b, precision_bits);
    let mut bytes = b.to_signed_bytes_le();
    let ghost orig = bytes@;
    let non_padded_len = bytes.len();
    let padding = (16 - non_padded_len % 16) % 16;
    let negative = b.is_negative();
    proof {
        lemma_int_le_range(orig);
    }
    if padding > 0 {
        let pad_byte: u8 = if negative {
            0xFF
        } else {
            0x00
        };
        let mut k: usize = 0;
        while k < padding
            invariant
                k <= padding,
                bytes@ =~= orig + fill(pad_byte, k as nat),
            decreases padding - k,
        {
            bytes.push(pad_byte);
            k = k + 1;
            proof {
                assert(bytes@ =~= orig + fill(pad_byte, k as nat));
            }
        }
        proof {
            lemma_sign_extend(orig, pad_byte, padding as nat);
        }
    }
    proof {
        lemma_low16_wraps(bytes@);
    }
    Some(decimal_from_low_bytes(&bytes))
}

/// A decimal as a fixed-point number with `precision_bits` fractional bits.
pub fn number_from_decimal(d: Decimal, precision_bits: u16) -> (r: Number)
    ensures
        r@ == to_fixed(d@, precision_bits as nat),
{
    let b = Number::from_i128(d.0);
    bigint_to_number(&b, precision_bits)
}

/// `scale * (base_n / base_d)^(exp_n / exp_d)`, with both powers rounded
/// before the division.
pub fn scaled_power(scale: &Number, base_n: &Number, base_d: &Number, exp_n: u32, exp_d: u32) -> (r: Number)
    requires
        scaled_power_defined(base_n@, base_d@, exp_n as nat, exp_d as nat),
    ensures
        r@ == scaled_power_spec(scale@, base_n@, base_d@, exp_n as nat, exp_d as nat),
        scaled_power_roots(base_n@, base_d@, exp_n as nat, exp_d as nat),
{
    let n = pow_nd(base_n, exp_n, exp_d);
    let d = pow_nd(base_d, exp_n, exp_d);
    proof {
        lemma_root_nonzero(d@, ipow(base_d@, exp_n as nat), exp_d as nat);
    }
    scale.mul(&n).div(&d)
}

/// The root of a number other than zero is not zero.
pub proof fn lemma_root_nonzero(r: int, x: int, n: nat)
    requires
        is_root_of(r, x, n),
        x != 0,
    ensures
        r != 0,
{
    lemma_ipow_one(n);
}


/// A reserve-ratio part (numerator or denominator) as the units of a whole
/// decimal, unshifted.
pub open spec fn ratio_units(x: u32) -> int {
    x * dec_one()
}

fn ratio_number(x: u32) -> (r: Number)
    ensures
        r@ == ratio_units(x),
{
    number_from_decimal(Decimal::from_u64(x as u64), 0)
}

proof fn lemma_root_one(x: int)
    ensures
        pow_nd_spec(x, 1, 1) == x,
        is_root_of(x, ipow(x, 1), 1),
{
    reveal_with_fuel(ipow, 2);
    lemma_root_unique(x, x, 1);
}

/// Token price = reserve / (supply * reserve ratio), computed as
/// `r / s / n * d` on the fixed-point numbers.
pub fn calculate_price(r: &Number, s: &Number, reserve_ratio_n: u32, reserve_ratio_d: u32) -> (p: Number)
    requires
        s@ != 0,
        reserve_ratio_n != 0,
    ensures
        p@ == tdiv(tdiv(r@, s@), ratio_units(reserve_ratio_n)) * ratio_units(reserve_ratio_d),
{
    let n = ratio_number(reserve_ratio_n);
    let d = ratio_number(reserve_ratio_d);
    r.div(s).div(&n).mul(&d)
}

/// The continuous supply for an initial reserve: `collateral * d / n`.
pub fn calculate_initial_supply(collateral_amount: &Number, reserve_ratio_n: u32, reserve_ratio_d: u32) -> (r: Number)
    requires
        reserve_ratio_n != 0,
    ensures
        r@ == scaled_power_spec(collateral_amount@, ratio_units(reserve_ratio_d), ratio_units(reserve_ratio_n), 1, 1),
        r@ == tdiv(collateral_amount@ * ratio_units(reserve_ratio_d), ratio_units(reserve_ratio_n)),
{
    let d = ratio_number(reserve_ratio_d);
    let n = ratio_number(reserve_ratio_n);
    proof {
        lemma_root_one(d@);
        lemma_root_one(n@);
        reveal_with_fuel(ipow, 2);
    }
    scaled_power(collateral_amount, &d, &n, 1, 1)
}

/// Purchase return: `s * ((c + r) / r)^(n/d) - s`.
pub fn calculate_curve_mint(c: &Number, r: &Number, s: &Number, reserve_ratio_n: u32, reserve_ratio_d: u32) -> (m: Number)
    requires
        scaled_power_defined(c@ + r@, r@, reserve_ratio_n as nat, reserve_ratio_d as nat),
    ensures
        m@ == scaled_power_spec(s@, c@ + r@, r@, reserve_ratio_n as nat, reserve_ratio_d as nat) - s@,
        scaled_power_roots(c@ + r@, r@, reserve_ratio_n as nat, reserve_ratio_d as nat),
{
    let base_n = c.add(r);
    let result = scaled_power(s, &base_n, r, reserve_ratio_n, reserve_ratio_d).sub(s);
    result
}

/// Sale return: `r - r * ((s - c) / s)^(d/n)`.
pub fn calculate_curve_return(c: &Number, r: &Number, s: &Number, reserve_ratio_n: u32, reserve_ratio_d: u32) -> (m: Number)
    requires
        scaled_power_defined(s@ - c@, s@, reserve_ratio_d as nat, reserve_ratio_n as nat),
    ensures
        m@ == r@ - scaled_power_spec(r@, s@ - c@, s@, reserve_ratio_d as nat, reserve_ratio_n as nat),
{
    let base_n = s.sub(c);
    let scaled = scaled_power(r, &base_n, s, reserve_ratio_d, reserve_ratio_n);
    r.sub(&scaled)
}

/// The fixed-point continuous supply minted for an initial reserve.
pub open spec fn initial_supply_fixed(c: int, n: u32, d: u32, p: nat) -> int {
    tdiv(to_fixed(c, p) * ratio_units(d), ratio_units(n))
}

/// The fixed-point amount minted for collateral `c` against reserve `r` and
/// supply `s`.
pub open spec fn mint_fixed(c: int, r: int, s: int, n: u32, d: u32, p: nat) -> int {
    scaled_power_spec(to_fixed(s, p), to_fixed(c, p) + to_fixed(r, p), to_fixed(r, p), n as nat, d as nat)
        - to_fixed(s, p)
}

/// The fixed-point reserve returned for `c` continuous tokens against
/// reserve `r` and supply `s`.
pub open spec fn return_fixed(c: int, r: int, s: int, n: u32, d: u32, p: nat) -> int {
    to_fixed(r, p) - scaled_power_spec(
        to_fixed(r, p),
        to_fixed(s, p) - to_fixed(c, p),
        to_fixed(s, p),
        d as nat,
        n as nat,
    )
}

/// Whether selling `c` continuous tokens can be priced: the root is defined
/// and the supply is not zero.
pub open spec fn return_defined(c: int, s: int, n: u32, d: u32, p: nat) -> bool {
    scaled_power_defined(to_fixed(s, p) - to_fixed(c, p), to_fixed(s, p), d as nat, n as nat)
}

/// A fixed-point number is zero only when the number is.
pub proof fn lemma_fixed_nonzero(x: int, p: nat)
    ensures
        x != 0 ==> to_fixed(x, p) != 0,
{
    lemma_pow2_pos(p);
    if x != 0 {
        assert(x * pow2(p) != 0) by (nonlinear_arith)
            requires
                x != 0,
                pow2(p) >= 1,
        ;
    }
}

proof fn lemma_pow2_pos(n: nat)
    ensures
        pow2(n) >= 1,
    decreases n,
{
    if n > 0 {
        lemma_pow2_pos((n - 1) as nat);
    }
}

/// The initial continuous supply for a reserve of `collateral_amount`.
pub fn get_initial_supply(collateral_amount: Decimal, reserve_ratio_n: u32, reserve_ratio_d: u32, precision_bits: u16) -> (r: Decimal)
    requires
        collateral_amount@ >= 0,
        reserve_ratio_d != 0,
        collateral_amount@ != 0 ==> reserve_ratio_n != 0,
    ensures
        r == (if collateral_amount@ == 0 {
            Decimal(0)
        } else {
            decimal_of_fixed(initial_supply_fixed(collateral_amount@, reserve_ratio_n, reserve_ratio_d, precision_bits as nat), precision_bits as nat)
        }),
{
    if collateral_amount.is_zero() {
        return Decimal::zero();
    }
    let collateral_amount = number_from_decimal(collateral_amount, precision_bits);
    let result = calculate_initial_supply(&collateral_amount, reserve_ratio_n, reserve_ratio_d);
    match decimal_from_number(&result, precision_bits) {
        Some(d) => d,
        None => Decimal::zero(),
    }
}

/// The amount of continuous tokens minted for `collateral_amount` of reserve.
pub fn get_mint_amount(
    collateral_amount: Decimal,
    reserve_amount: Decimal,
    supply_amount: Decimal,
    reserve_ratio_n: u32,
    reserve_ratio_d: u32,
    precision_bits: u16,
) -> (r: Decimal)
    requires
        collateral_amount@ >= 0,
        reserve_amount@ >= 0,
        supply_amount@ >= 0,
        reserve_ratio_d != 0,
        collateral_amount@ != 0 ==> reserve_amount@ != 0,
    ensures
        r == (if collateral_amount@ == 0 {
            Decimal(0)
        } else {
            decimal_of_fixed(
                mint_fixed(collateral_amount@, reserve_amount@, supply_amount@, reserve_ratio_n, reserve_ratio_d, precision_bits as nat),
                precision_bits as nat,
            )
        }),
        collateral_amount@ != 0 ==> mint_fixed(collateral_amount@, reserve_amount@, supply_amount@, reserve_ratio_n, reserve_ratio_d, precision_bits as nat) >= 0,
{
    if collateral_amount.is_zero() {
        return Decimal::zero();
    }
    let c = number_from_decimal(collateral_amount, precision_bits);
    let r = number_from_decimal(reserve_amount, precision_bits);
    let s = number_from_decimal(supply_amount, precision_bits);
    let ghost n = reserve_ratio_n as nat;
    let ghost d = reserve_ratio_d as nat;
    proof {
        lemma_pow2_pos(precision_bits as nat);
        assert(r@ >= 1) by (nonlinear_arith)
            requires
                r@ == reserve_amount@ * pow2(precision_bits as nat),
                reserve_amount@ >= 1,
                pow2(precision_bits as nat) >= 1,
        ;
        assert(c@ >= 0 && s@ >= 0) by (nonlinear_arith)
            requires
                c@ == collateral_amount@ * pow2(precision_bits as nat),
                s@ == supply_amount@ * pow2(precision_bits as nat),
                collateral_amount@ >= 0,
                supply_amount@ >= 0,
                pow2(precision_bits as nat) >= 1,
        ;
        lemma_ipow_mono(0, c@ + r@, n);
        lemma_ipow_mono(1, r@, n);
        lemma_ipow_one(n);
    }
    let result = calculate_curve_mint(&c, &r, &s, reserve_ratio_n, reserve_ratio_d);
    proof {
        let a = pow_nd_spec(c@ + r@, n, d);
        let b = pow_nd_spec(r@, n, d);
        lemma_ipow_mono(r@, c@ + r@, n);
        lemma_root_mono(ipow(r@, n), ipow(c@ + r@, n), b, a, d);
        lemma_scaled_at_least(s@, a, b);
    }
    match decimal_from_number(&result, precision_bits) {
        Some(d) => d,
        None => Decimal::zero(),
    }
}

/// `s * a / b >= s` when `a >= b >= 1` and `s >= 0`.
proof fn lemma_scaled_at_least(s: int, a: int, b: int)
    requires
        s >= 0,
        a >= b >= 1,
    ensures
        tdiv(s * a, b) >= s,
{
    assert(s * a >= s * b >= 0) by (nonlinear_arith)
        requires
            s >= 0,
            a >= b >= 1,
    ;
    assert(tdiv(s * a, b) == (s * a) / b);
    vstd::arithmetic::div_mod::lemma_div_is_ordered(s * b, s * a, b);
    vstd::arithmetic::div_mod::lemma_div_multiples_vanish(s, b);
    assert(b * s == s * b) by (nonlinear_arith);
}

/// The amount of reserve returned for `continuous_amount` continuous tokens.
pub fn get_return_amount(
    continuous_amount: Decimal,
    reserve_amount: Decimal,
    supply_amount: Decimal,
    reserve_ratio_n: u32,
    reserve_ratio_d: u32,
    precision_bits: u16,
) -> (r: Decimal)
    requires
        continuous_amount@ >= 0,
        reserve_amount@ >= 0,
        supply_amount@ >= 0,
        reserve_ratio_d != 0,
        continuous_amount@ != 0 ==> return_defined(continuous_amount@, supply_amount@, reserve_ratio_n, reserve_ratio_d, precision_bits as nat),
        continuous_amount@ != 0 ==> return_fixed(continuous_amount@, reserve_amount@, supply_amount@, reserve_ratio_n, reserve_ratio_d, precision_bits as nat) >= 0,
    ensures
        r == (if continuous_amount@ == 0 {
            Decimal(0)
        } else {
            decimal_of_fixed(
                return_fixed(continuous_amount@, reserve_amount@, supply_amount@, reserve_ratio_n, reserve_ratio_d, precision_bits as nat),
                precision_bits as nat,
            )
        }),
{
    if continuous_amount.is_zero() {
        return Decimal::zero();
    }
    let c = number_from_decimal(continuous_amount, precision_bits);
    let r = number_from_decimal(reserve_amount, precision_bits);
    let s = number_from_decimal(supply_amount, precision_bits);
    let result = calculate_curve_return(&c, &r, &s, reserve_ratio_n, reserve_ratio_d);
    match decimal_from_number(&result, precision_bits) {
        Some(d) => d,
        None => Decimal::zero(),
    }
}

} // verus!
