//! Arbitrary-precision signed integers, held as two's-complement
//! little-endian bytes, with arithmetic done by `num_bigint`.
use vstd::prelude::*;
use num_bigint::BigInt;
use num_traits::{Signed, ToPrimitive, Zero};
use vstd::arithmetic::div_mod::lemma_fundamental_div_mod_converse;

verus! {

/// 256 to the power `n`.
pub open spec fn pow256(n: nat) -> int
    decreases n,
{
    if n == 0 {
        1
    } else {
        256 * pow256((n - 1) as nat)
    }
}

/// The unsigned value of little-endian bytes.
pub open spec fn uint_le(s: Seq<u8>) -> int
    decreases s.len(),
{
    if s.len() == 0 {
        0
    } else {
        uint_le(s.drop_last()) + s.last() * pow256((s.len() - 1) as nat)
    }
}

/// The two's-complement value of little-endian bytes; no bytes stand for zero.
pub open spec fn int_le(s: Seq<u8>) -> int {
    if s.len() == 0 {
        0
    } else if s.last() >= 128 {
        uint_le(s) - pow256(s.len())
    } else {
        uint_le(s)
    }
}

pub open spec fn in_i128(x: int) -> bool {
    i128::MIN <= x <= i128::MAX
}

/// Division rounded toward zero, as Rust's `/` on integers.
pub open spec fn tdiv(a: int, b: int) -> int {
    let q = abs(a) / abs(b);
    if (a >= 0) == (b > 0) || a == 0 {
        q
    } else {
        -q
    }
}

/// Remainder of `tdiv`, carrying the sign of the dividend, as Rust's `%`.
pub open spec fn trem(a: int, b: int) -> int {
    a - b * tdiv(a, b)
}

pub open spec fn abs(a: int) -> int {
    if a < 0 {
        -a
    } else {
        a
    }
}

/// `2` to the power `n`.
pub open spec fn pow2(n: nat) -> int
    decreases n,
{
    if n == 0 {
        1
    } else {
        2 * pow2((n - 1) as nat)
    }
}

/// `b` to the power `e`.
pub open spec fn ipow(b: int, e: nat) -> int
    decreases e,
{
    if e == 0 {
        1
    } else {
        b * ipow(b, (e - 1) as nat)
    }
}

/// The truncated principal `n`-th root: the root of `|x|` rounded down,
/// carrying the sign of `x`.
pub open spec fn is_root_of(r: int, x: int, n: nat) -> bool {
    &&& (x >= 0 ==> r >= 0 && ipow(r, n) <= x && x < ipow(r + 1, n))
    &&& (x < 0 ==> r <= 0 && ipow(-r, n) <= -x && -x < ipow(-r + 1, n))
}


/// The value of an `i128` read back from the low 16 bytes of a wider
/// two's-complement number: the number wrapped into the `i128` range.
pub open spec fn wrap_i128(x: int) -> int {
    (x + pow2(127)) % pow2(128) - pow2(127)
}

/// `k` copies of the byte `b`.
pub open spec fn fill(b: u8, k: nat) -> Seq<u8> {
    Seq::new(k, |i: int| b)
}

pub proof fn lemma_pow256_pos(n: nat)
    ensures
        pow256(n) > 0,
    decreases n,
{
    if n > 0 {
        lemma_pow256_pos((n - 1) as nat);
    }
}

pub proof fn lemma_pow256_add(a: nat, b: nat)
    ensures
        pow256(a + b) == pow256(a) * pow256(b),
    decreases b,
{
    if b > 0 {
        lemma_pow256_add(a, (b - 1) as nat);
        let x = pow256(a);
        let y = pow256((b - 1) as nat);
        assert(256 * (x * y) == x * (256 * y)) by (nonlinear_arith);
        assert(pow256((a + b - 1) as nat) == x * y);
    }
}

pub proof fn lemma_uint_bounds(s: Seq<u8>)
    ensures
        0 <= uint_le(s) < pow256(s.len()),
    decreases s.len(),
{
    if s.len() > 0 {
        let d = s.drop_last();
        lemma_uint_bounds(d);
        lemma_pow256_pos(d.len());
        let p = pow256(d.len());
        let l = s.last() as int;
        let u = uint_le(d);
        assert(0 <= u + l * p < 256 * p) by (nonlinear_arith)
            requires
                0 <= u < p,
                0 <= l <= 255,
        ;
    }
}

pub proof fn lemma_uint_concat(s: Seq<u8>, t: Seq<u8>)
    ensures
        uint_le(s + t) == uint_le(s) + pow256(s.len()) * uint_le(t),
    decreases t.len(),
{
    if t.len() == 0 {
        assert(s + t == s);
    } else {
        let t1 = t.drop_last();
        lemma_uint_concat(s, t1);
        assert((s + t).drop_last() == s + t1);
        assert((s + t).last() == t.last());
        lemma_pow256_add(s.len(), t1.len());
        let ps = pow256(s.len());
        let pt = pow256(t1.len());
        let x = t.last() as int;
        let u = uint_le(t1);
        assert(ps * u + x * (ps * pt) == ps * (u + x * pt)) by (nonlinear_arith);
    }
}

pub proof fn lemma_uint_fill(b: u8, k: nat)
    ensures
        b == 0 ==> uint_le(fill(b, k)) == 0,
        b == 255 ==> uint_le(fill(b, k)) == pow256(k) - 1,
    decreases k,
{
    if k > 0 {
        lemma_uint_fill(b, (k - 1) as nat);
        assert(fill(b, k).drop_last() == fill(b, (k - 1) as nat));
        assert(fill(b, k).last() == b);
    }
}

/// The sign of a two's-complement number is the top bit of its last byte,
/// and an `n`-byte number lies in `[-pow256(n)/2, pow256(n)/2)`.
pub proof fn lemma_int_le_range(s: Seq<u8>)
    requires
        s.len() > 0,
    ensures
        (int_le(s) < 0) == (s.last() >= 128),
        -128 * pow256((s.len() - 1) as nat) <= int_le(s) < 128 * pow256((s.len() - 1) as nat),
{
    let d = s.drop_last();
    lemma_uint_bounds(d);
    let p = pow256(d.len());
    let l = s.last() as int;
    let u = uint_le(d);
    assert(pow256(s.len()) == 256 * p);
    if l >= 128 {
        assert(-128 * p <= u + l * p - 256 * p < 0) by (nonlinear_arith)
            requires
                0 <= u < p,
                128 <= l <= 255,
        ;
    } else {
        assert(0 <= u + l * p < 128 * p) by (nonlinear_arith)
            requires
                0 <= u < p,
                0 <= l < 128,
        ;
    }
}

/// Extending a two's-complement number with copies of its sign byte keeps
/// its value.
pub proof fn lemma_sign_extend(s: Seq<u8>, pad: u8, k: nat)
    requires
        s.len() > 0,
        pad == (if s.last() >= 128 { 255u8 } else { 0u8 }),
    ensures
        int_le(s + fill(pad, k)) == int_le(s),
{
    if k > 0 {
        lemma_uint_concat(s, fill(pad, k));
        lemma_uint_fill(pad, k);
        lemma_pow256_add(s.len(), k);
        assert((s + fill(pad, k)).last() == pad);
        let ps = pow256(s.len());
        let pk = pow256(k);
        if pad == 255 {
            assert(ps * (pk - 1) - ps * pk == -ps) by (nonlinear_arith);
        }
    } else {
        assert(s + fill(pad, k) == s);
    }
}

pub proof fn lemma_pow2_add(a: nat, b: nat)
    ensures
        pow2(a + b) == pow2(a) * pow2(b),
    decreases b,
{
    if b > 0 {
        lemma_pow2_add(a, (b - 1) as nat);
        let x = pow2(a);
        let y = pow2((b - 1) as nat);
        assert(2 * (x * y) == x * (2 * y)) by (nonlinear_arith);
        assert(pow2((a + b - 1) as nat) == x * y);
    }
}

pub proof fn lemma_pow256_is_pow2(n: nat)
    ensures
        pow256(n) == pow2(8 * n),
    decreases n,
{
    if n > 0 {
        lemma_pow256_is_pow2((n - 1) as nat);
        lemma_pow2_add(8, (8 * (n - 1)) as nat);
        reveal_with_fuel(pow2, 9);
        assert(8 * n == 8 + 8 * (n - 1));
    }
}

pub proof fn lemma_pow2_values()
    ensures
        pow2(127) == 0x8000_0000_0000_0000_0000_0000_0000_0000,
        pow2(128) == 2 * pow2(127),
{
    reveal_with_fuel(pow2, 17);
    assert(pow2(16) == 65536);
    assert(pow2(15) == 32768);
    lemma_pow2_add(16, 16);
    assert(pow2(32) == 0x1_0000_0000);
    lemma_pow2_add(32, 32);
    assert(pow2(64) == 0x1_0000_0000_0000_0000);
    lemma_pow2_add(64, 32);
    assert(pow2(96) == 0x1_0000_0000_0000_0000_0000_0000);
    lemma_pow2_add(96, 16);
    assert(pow2(112) == 0x1_0000_0000_0000_0000_0000_0000_0000);
    lemma_pow2_add(112, 15);
    lemma_pow2_add(127, 1);
}

pub proof fn lemma_pow2_128()
    ensures
        pow256(16) == pow2(128),
        128 * pow256(15) == pow2(127),
        pow2(128) == 2 * pow2(127),
        pow2(127) == 0x8000_0000_0000_0000_0000_0000_0000_0000,
{
    lemma_pow256_is_pow2(16);
    lemma_pow256_is_pow2(15);
    lemma_pow2_add(7, 120);
    reveal_with_fuel(pow2, 8);
    lemma_pow2_values();
}

/// Reading only the low 16 bytes of a two's-complement number wraps its
/// value into the `i128` range.
pub proof fn lemma_low16_wraps(s: Seq<u8>)
    requires
        s.len() >= 16,
    ensures
        int_le(s.take(16)) == wrap_i128(int_le(s)),
        in_i128(int_le(s.take(16))),
{
    let t = s.take(16);
    let u = s.skip(16);
    assert(s == t + u);
    lemma_uint_concat(t, u);
    lemma_int_le_range(t);
    lemma_int_le_range(s);
    lemma_pow2_128();
    lemma_pow256_add(16, u.len());
    let p16 = pow256(16);
    let pu = pow256(u.len());
    let neg_s: int = if s.last() >= 128 { 1 } else { 0 };
    let neg_t: int = if t.last() >= 128 { 1 } else { 0 };
    let k = uint_le(u) - neg_s * pu + neg_t;
    assert(int_le(s) == uint_le(t) + p16 * uint_le(u) - neg_s * (p16 * pu));
    assert(int_le(t) == uint_le(t) - neg_t * p16);
    assert(int_le(s) + pow2(127) == (int_le(t) + pow2(127)) + k * p16) by (nonlinear_arith)
        requires
            int_le(s) == uint_le(t) + p16 * uint_le(u) - neg_s * (p16 * pu),
            int_le(t) == uint_le(t) - neg_t * p16,
            k == uint_le(u) - neg_s * pu + neg_t,
    ;
    lemma_fundamental_div_mod_converse(int_le(s) + pow2(127), p16, k, int_le(t) + pow2(127));
}

/// An integer of any size.
pub struct Number {
    bytes: Vec<u8>,
}

impl Number {
    #[verifier::type_invariant]
    spec fn well_formed(self) -> bool {
        self.bytes@.len() >= 1
    }
}

impl View for Number {
    type V = int;

    closed spec fn view(&self) -> int {
        int_le(self.bytes@)
    }
}

/// `BigInt::from(i128)` then `BigInt::to_signed_bytes_le`: the bytes of `x`.
#[verifier::external_body]
fn big_from_i128(x: i128) -> (r: Vec<u8>)
    ensures
        int_le(r@) == x,
        r@.len() >= 1,
{
    BigInt::from(x).to_signed_bytes_le()
}

/// `BigInt::to_i128`: the value when it fits in `i128`, else `None`.
#[verifier::external_body]
fn big_to_i128(a: &Vec<u8>) -> (r: Option<i128>)
    ensures
        r == (if in_i128(int_le(a@)) {
            Some(int_le(a@) as i128)
        } else {
            None
        }),
{
    BigInt::from_signed_bytes_le(a).to_i128()
}

/// `BigInt + BigInt`.
#[verifier::external_body]
fn big_add(a: &Vec<u8>, b: &Vec<u8>) -> (r: Vec<u8>)
    ensures
        int_le(r@) == int_le(a@) + int_le(b@),
        r@.len() >= 1,
{
    (BigInt::from_signed_bytes_le(a) + BigInt::from_signed_bytes_le(b)).to_signed_bytes_le()
}

/// `BigInt - BigInt`.
#[verifier::external_body]
fn big_sub(a: &Vec<u8>, b: &Vec<u8>) -> (r: Vec<u8>)
    ensures
        int_le(r@) == int_le(a@) - int_le(b@),
        r@.len() >= 1,
{
    (BigInt::from_signed_bytes_le(a) - BigInt::from_signed_bytes_le(b)).to_signed_bytes_le()
}

/// `BigInt * BigInt`.
#[verifier::external_body]
fn big_mul(a: &Vec<u8>, b: &Vec<u8>) -> (r: Vec<u8>)
    ensures
        int_le(r@) == int_le(a@) * int_le(b@),
        r@.len() >= 1,
{
    (BigInt::from_signed_bytes_le(a) * BigInt::from_signed_bytes_le(b)).to_signed_bytes_le()
}

/// `BigInt / BigInt`, which rounds toward zero and panics on a zero divisor.
#[verifier::external_body]
fn big_div(a: &Vec<u8>, b: &Vec<u8>) -> (r: Vec<u8>)
    requires
        int_le(b@) != 0,
    ensures
        int_le(r@) == tdiv(int_le(a@), int_le(b@)),
        r@.len() >= 1,
{
    (BigInt::from_signed_bytes_le(a) / BigInt::from_signed_bytes_le(b)).to_signed_bytes_le()
}

/// `BigInt % BigInt`, whose result carries the sign of the dividend.
#[verifier::external_body]
fn big_rem(a: &Vec<u8>, b: &Vec<u8>) -> (r: Vec<u8>)
    requires
        int_le(b@) != 0,
    ensures
        int_le(r@) == trem(int_le(a@), int_le(b@)),
        r@.len() >= 1,
{
    (BigInt::from_signed_bytes_le(a) % BigInt::from_signed_bytes_le(b)).to_signed_bytes_le()
}

/// `BigInt << u16`: multiplication by a power of two.
#[verifier::external_body]
fn big_shl(a: &Vec<u8>, bits: u16) -> (r: Vec<u8>)
    ensures
        int_le(r@) == int_le(a@) * pow2(bits as nat),
        r@.len() >= 1,
{
    (BigInt::from_signed_bytes_le(a) << bits).to_signed_bytes_le()
}

/// `BigInt >> u16`: division by a power of two, rounded toward negative
/// infinity.
#[verifier::external_body]
fn big_shr(a: &Vec<u8>, bits: u16) -> (r: Vec<u8>)
    ensures
        int_le(r@) == int_le(a@) / pow2(bits as nat),
        r@.len() >= 1,
{
    (BigInt::from_signed_bytes_le(a) >> bits).to_signed_bytes_le()
}

/// `BigInt::pow`.
#[verifier::external_body]
fn big_pow(a: &Vec<u8>, e: u32) -> (r: Vec<u8>)
    ensures
        int_le(r@) == ipow(int_le(a@), e as nat),
        r@.len() >= 1,
{
    BigInt::from_signed_bytes_le(a).pow(e).to_signed_bytes_le()
}

/// `BigInt::nth_root`, which panics on a zero degree and on an even root of a
/// negative number.
#[verifier::external_body]
fn big_nth_root(a: &Vec<u8>, n: u32) -> (r: Vec<u8>)
    requires
        n > 0,
        int_le(a@) < 0 ==> n % 2 == 1,
    ensures
        is_root_of(int_le(r@), int_le(a@), n as nat),
        r@.len() >= 1,
{
    BigInt::from_signed_bytes_le(a).nth_root(n).to_signed_bytes_le()
}

/// `Signed::is_negative` on a `BigInt`.
#[verifier::external_body]
fn big_is_negative(a: &Vec<u8>) -> (r: bool)
    ensures
        r == (int_le(a@) < 0),
{
    BigInt::from_signed_bytes_le(a).is_negative()
}

/// `Zero::is_zero` on a `BigInt`.
#[verifier::external_body]
fn big_is_zero(a: &Vec<u8>) -> (r: bool)
    ensures
        r == (int_le(a@) == 0),
{
    BigInt::from_signed_bytes_le(a).is_zero()
}

impl Number {
    pub fn from_i128(x: i128) -> (r: Number)
        ensures
            r@ == x,
    {
        Number { bytes: big_from_i128(x) }
    }

    pub fn zero() -> (r: Number)
        ensures
            r@ == 0,
    {
        Number::from_i128(0)
    }

    /// The value when it fits in an `i128`.
    pub fn to_i128(&self) -> (r: Option<i128>)
        ensures
            r == (if in_i128(self@) {
                Some(self@ as i128)
            } else {
                None
            }),
    {
        big_to_i128(&self.bytes)
    }

    pub fn add(&self, o: &Number) -> (r: Number)
        ensures
            r@ == self@ + o@,
    {
        Number { bytes: big_add(&self.bytes, &o.bytes) }
    }

    pub fn sub(&self, o: &Number) -> (r: Number)
        ensures
            r@ == self@ - o@,
    {
        Number { bytes: big_sub(&self.bytes, &o.bytes) }
    }

    pub fn mul(&self, o: &Number) -> (r: Number)
        ensures
            r@ == self@ * o@,
    {
        Number { bytes: big_mul(&self.bytes, &o.bytes) }
    }

    /// Division rounded toward zero.
    pub fn div(&self, o: &Number) -> (r: Number)
        requires
            o@ != 0,
        ensures
            r@ == tdiv(self@, o@),
    {
        Number { bytes: big_div(&self.bytes, &o.bytes) }
    }

    /// Remainder carrying the sign of the dividend.
    pub fn rem(&self, o: &Number) -> (r: Number)
        requires
            o@ != 0,
        ensures
            r@ == trem(self@, o@),
    {
        Number { bytes: big_rem(&self.bytes, &o.bytes) }
    }

    pub fn shl(&self, bits: u16) -> (r: Number)
        ensures
            r@ == self@ * pow2(bits as nat),
    {
        Number { bytes: big_shl(&self.bytes, bits) }
    }

    /// Division by `2^bits` rounded toward negative infinity.
    pub fn shr(&self, bits: u16) -> (r: Number)
        ensures
            r@ == self@ / pow2(bits as nat),
    {
        Number { bytes: big_shr(&self.bytes, bits) }
    }

    pub fn pow(&self, e: u32) -> (r: Number)
        ensures
            r@ == ipow(self@, e as nat),
    {
        Number { bytes: big_pow(&self.bytes, e) }
    }

    /// The truncated principal `n`-th root.
    pub fn nth_root(&self, n: u32) -> (r: Number)
        requires
            n > 0,
            self@ < 0 ==> n % 2 == 1,
        ensures
            is_root_of(r@, self@, n as nat),
    {
        Number { bytes: big_nth_root(&self.bytes, n) }
    }

    pub fn is_negative(&self) -> (r: bool)
        ensures
            r == (self@ < 0),
    {
        big_is_negative(&self.bytes)
    }

    pub fn is_zero(&self) -> (r: bool)
        ensures
            r == (self@ == 0),
    {
        big_is_zero(&self.bytes)
    }

    /// Two's-complement little-endian bytes of the value.
    pub fn to_signed_bytes_le(&self) -> (r: Vec<u8>)
        ensures
            int_le(r@) == self@,
            r@.len() >= 1,
    {
        proof {
            use_type_invariant(self);
        }
        self.bytes.clone()
    }
}

} // verus!
