//! A lending platform: users deposit assets, and borrow against them up to
//! their collateral, the value of their deposits weighted by each asset's
//! loan-to-value ratio, less what they already owe. Balances are kept in
//! hash maps keyed by the number of the asset's address.
use std::collections::HashMap;
use vstd::prelude::*;
use vstd::std_specs::iter::IteratorSpec;
use crate::bignum::{abs, in_i128};
use crate::decimal::Decimal;
use crate::decimal::{dec_of, dec_one, dmul, whole};
use crate::resource::{group_bucket, Bucket, Proof, ResourceAddress};

verus! {

broadcast use {vstd::std_specs::hash::group_hash_axioms, group_bucket};

/// A user of the lending platform.
pub struct User {
    /// The resource of the user's badge.
    pub user_address: ResourceAddress,
    /// Deposits, by the number of the asset's address.
    pub deposit_balances: HashMap<u64, Decimal>,
    /// Loans, by the number of the asset's address.
    pub borrow_balances: HashMap<u64, Decimal>,
}

/// The balances after `amount` is added to the balance of `k`; a missing
/// balance counts as zero.
pub open spec fn credited(m: Map<u64, Decimal>, k: u64, amount: Decimal) -> Map<u64, Decimal> {
    if m.contains_key(k) {
        m.insert(k, Decimal((m[k]@ + amount@) as i128))
    } else {
        m.insert(k, amount)
    }
}

/// Whether adding `amount` to the balance of `k` fits.
pub open spec fn credit_fits(m: Map<u64, Decimal>, k: u64, amount: Decimal) -> bool {
    m.contains_key(k) ==> in_i128(m[k]@ + amount@)
}


/// `s` lists each entry of `m` once.
pub open spec fn enumerates(s: Seq<(u64, Decimal)>, m: Map<u64, Decimal>) -> bool {
    &&& s.no_duplicates()
    &&& forall|i: int| 0 <= i < s.len() ==> m.contains_key((#[trigger] s[i]).0) && m[s[i].0] == s[i].1
    &&& forall|k: u64| m.contains_key(k) ==> s.contains((k, #[trigger] m[k]))
}

/// The sum of `w` over the entries of `s`.
pub open spec fn weighted_sum(s: Seq<(u64, Decimal)>, w: spec_fn((u64, Decimal)) -> int) -> int
    decreases s.len(),
{
    if s.len() == 0 {
        0
    } else {
        weighted_sum(s.drop_last(), w) + w(s.last())
    }
}

/// The sum of `w` over the entries of `m`.
pub open spec fn map_sum(m: Map<u64, Decimal>, w: spec_fn((u64, Decimal)) -> int) -> int {
    weighted_sum(choose|s: Seq<(u64, Decimal)>| enumerates(s, m), w)
}

proof fn lemma_weighted_sum_remove(s: Seq<(u64, Decimal)>, k: int, w: spec_fn((u64, Decimal)) -> int)
    requires
        0 <= k < s.len(),
    ensures
        weighted_sum(s.remove(k), w) == weighted_sum(s, w) - w(s[k]),
    decreases s.len(),
{
    let u = s.remove(k);
    if k == s.len() - 1 {
        assert(u =~= s.drop_last());
    } else {
        lemma_weighted_sum_remove(s.drop_last(), k, w);
        assert(u.drop_last() =~= s.drop_last().remove(k));
        assert(u.last() == s.last());
    }
}

/// Two lists of the entries of one map have the same sum.
pub proof fn lemma_enumerations_sum(s1: Seq<(u64, Decimal)>, s2: Seq<(u64, Decimal)>, m: Map<u64, Decimal>, w: spec_fn(
    (u64, Decimal),
) -> int)
    requires
        enumerates(s1, m),
        enumerates(s2, m),
    ensures
        weighted_sum(s1, w) == weighted_sum(s2, w),
    decreases s1.len(),
{
    if s1.len() == 0 {
        if s2.len() > 0 {
            let x = s2[0];
            assert(m.contains_key(x.0));
            assert(s1.contains((x.0, m[x.0])));
        }
    } else {
        let x = s1.last();
        assert(m.contains_key(s1[s1.len() - 1].0));
        assert(s2.contains((x.0, m[x.0])));
        let j = choose|j: int| 0 <= j < s2.len() && s2[j] == x;
        let m2 = m.remove(x.0);
        let t1 = s1.drop_last();
        let t2 = s2.remove(j);
        assert forall|i: int| 0 <= i < t1.len() implies m2.contains_key((#[trigger] t1[i]).0) && m2[t1[i].0] == t1[i].1 by {
            assert(t1[i] == s1[i]);
            assert(m.contains_key(s1[i].0) && m[s1[i].0] == s1[i].1);
            if s1[i].0 == x.0 {
                assert(s1[i] == x);
            }
        }
        assert forall|k: u64| m2.contains_key(k) implies t1.contains((k, #[trigger] m2[k])) by {
            assert(s1.contains((k, m[k])));
            let q = choose|q: int| 0 <= q < s1.len() && s1[q] == (k, m[k]);
            assert(q != s1.len() - 1);
            assert(t1[q] == s1[q]);
        }
        assert forall|i: int| 0 <= i < t2.len() implies m2.contains_key((#[trigger] t2[i]).0) && m2[t2[i].0] == t2[i].1 by {
            let i0 = if i < j { i } else { i + 1 };
            assert(t2[i] == s2[i0]);
            assert(m.contains_key(s2[i0].0) && m[s2[i0].0] == s2[i0].1);
            if s2[i0].0 == x.0 {
                assert(s2[i0] == x);
            }
        }
        assert forall|k: u64| m2.contains_key(k) implies t2.contains((k, #[trigger] m2[k])) by {
            assert(s2.contains((k, m[k])));
            let q = choose|q: int| 0 <= q < s2.len() && s2[q] == (k, m[k]);
            assert(q != j);
            if q < j {
                assert(t2[q] == s2[q]);
            } else {
                assert(t2[q - 1] == s2[q]);
            }
        }
        assert(t2.no_duplicates()) by {
            assert forall|a: int, b: int| 0 <= a < t2.len() && 0 <= b < t2.len() && a != b implies t2[a] != t2[b] by {
                let a0 = if a < j { a } else { a + 1 };
                let b0 = if b < j { b } else { b + 1 };
                assert(t2[a] == s2[a0] && t2[b] == s2[b0]);
            }
        }
        assert(t1.no_duplicates()) by {
            assert forall|a: int, b: int| 0 <= a < t1.len() && 0 <= b < t1.len() && a != b implies t1[a] != t1[b] by {
                assert(t1[a] == s1[a] && t1[b] == s1[b]);
            }
        }
        lemma_enumerations_sum(t1, t2, m2, w);
        lemma_weighted_sum_remove(s2, j, w);
    }
}

/// Any list of the entries of a map sums to the map's sum.
pub proof fn lemma_map_sum(s: Seq<(u64, Decimal)>, m: Map<u64, Decimal>, w: spec_fn((u64, Decimal)) -> int)
    requires
        enumerates(s, m),
    ensures
        map_sum(m, w) == weighted_sum(s, w),
{
    let c = choose|c: Seq<(u64, Decimal)>| enumerates(c, m);
    lemma_enumerations_sum(c, s, m, w);
}

/// With terms that are not negative, a prefix sums to no more than the
/// whole.
proof fn lemma_weighted_prefix(s: Seq<(u64, Decimal)>, n: int, w: spec_fn((u64, Decimal)) -> int)
    requires
        0 <= n <= s.len(),
        forall|i: int| 0 <= i < s.len() ==> w(#[trigger] s[i]) >= 0,
    ensures
        0 <= weighted_sum(s.take(n), w) <= weighted_sum(s, w),
    decreases s.len(),
{
    if s.len() > 0 {
        assert(w(s[s.len() - 1]) >= 0);
        assert forall|i: int| 0 <= i < s.drop_last().len() implies w(#[trigger] s.drop_last()[i]) >= 0 by {
            assert(s.drop_last()[i] == s[i]);
        }
        if n < s.len() {
            lemma_weighted_prefix(s.drop_last(), n, w);
            assert(s.drop_last().take(n) =~= s.take(n));
        } else {
            lemma_weighted_prefix(s.drop_last(), n - 1, w);
            assert(s.take(n) =~= s);
            assert(s.drop_last().take(n - 1) =~= s.drop_last());
        }
    } else {
        assert(s.take(n) =~= s);
    }
}

/// What one deposit adds to the collateral: its amount, at a price of one,
/// times the asset's loan-to-value ratio.
pub open spec fn collateral_weight(ltv: Map<u64, Decimal>) -> spec_fn((u64, Decimal)) -> int {
    |p: (u64, Decimal)| dmul(p.1@, ltv[p.0]@)
}

/// What one loan counts for: its amount, at a price of one.
pub open spec fn loan_weight() -> spec_fn((u64, Decimal)) -> int {
    |p: (u64, Decimal)| p.1@
}


/// Why a lending platform call is refused. A refused call changes nothing.
#[derive(Clone, Copy, Debug, PartialEq, Eq, Structural)]
pub enum PlatformError {
    /// The badge is not that of a user of the platform.
    UnknownUser,
    /// A loan-to-value ratio lies between zero and one.
    InvalidLtv,
    AssetExists,
    /// The platform holds none of the asset.
    NoLiquidity,
    /// The platform holds less of the asset than asked, or the amount is
    /// negative.
    InsufficientLiquidity,
    /// The user has no deposit of the asset.
    NoDeposit,
    /// The user's deposit is smaller than the amount.
    NegativeBalance,
    /// The user's loan is smaller than the repayment.
    NegativeLoanBalance,
    /// The collateral cannot be valued: an asset deposited has no
    /// loan-to-value ratio, or a sum does not fit.
    CollateralError,
    NotEnoughCollateral,
    /// An amount does not fit.
    Overflow,
    /// Listing an asset needs a proof of the admin badge.
    Unauthorized,
}

/// Every asset of `m` has a loan-to-value ratio.
pub open spec fn all_priced(m: Map<u64, Decimal>, ltv: Map<u64, Decimal>) -> bool {
    forall|k: u64| m.contains_key(k) ==> ltv.contains_key(k)
}

/// The entries of an iteration of a map, without references.
pub open spec fn entries_of(s: Seq<(&u64, &Decimal)>) -> Seq<(u64, Decimal)> {
    s.map_values(|p: (&u64, &Decimal)| (*p.0, *p.1))
}

/// No balance of `m` is negative.
pub open spec fn non_negative(m: Map<u64, Decimal>) -> bool {
    forall|k: u64| m.contains_key(k) ==> #[trigger] m[k]@ >= 0
}

/// Loan-to-value ratios lie between zero and one.
pub open spec fn valid_ratios(ltv: Map<u64, Decimal>) -> bool {
    forall|k: u64| ltv.contains_key(k) ==> 0 <= #[trigger] ltv[k]@ <= dec_one()
}

proof fn lemma_dmul_one(v: int)
    ensures
        dmul(v, dec_one()) == v,
{
    let d = dec_one();
    assert(abs(v * d) == abs(v) * d) by (nonlinear_arith)
        requires
            d > 0,
    ;
    assert((abs(v) * d) / d == abs(v)) by (nonlinear_arith)
        requires
            d > 0,
    ;
}

proof fn lemma_dmul_ratio(v: int, l: int)
    requires
        v >= 0,
        0 <= l <= dec_one(),
    ensures
        0 <= dmul(v, l) <= v,
{
    let d = dec_one();
    assert(0 <= v * l <= v * d) by (nonlinear_arith)
        requires
            v >= 0,
            0 <= l <= d,
    ;
    assert((v * l) / d <= (v * d) / d) by (nonlinear_arith)
        requires
            0 <= v * l <= v * d,
            d > 0,
    ;
    assert((v * d) / d == v) by (nonlinear_arith)
        requires
            d > 0,
    ;
}

/// The iteration of a map lists each of its entries once.
proof fn lemma_iteration_enumerates(s: Seq<(&u64, &Decimal)>, m: Map<u64, Decimal>)
    requires
        s.no_duplicates(),
        forall|i: int| 0 <= i < s.len() ==> m.contains_key(*(#[trigger] s[i]).0) && m[*s[i].0] == *s[i].1,
        forall|k: u64| m.contains_key(k) ==> s.contains((&k, &m[k])),
    ensures
        enumerates(entries_of(s), m),
{
    let c = entries_of(s);
    assert(c.no_duplicates()) by {
        assert forall|a: int, b: int| 0 <= a < c.len() && 0 <= b < c.len() && a != b implies c[a] != c[b] by {
            assert(s[a] != s[b]);
        }
    }
    assert forall|k: u64| m.contains_key(k) implies c.contains((k, #[trigger] m[k])) by {
        assert(s.contains((&k, &m[k])));
        let q = choose|q: int| 0 <= q < s.len() && s[q] == (&k, &m[k]);
        assert(c[q] == (k, m[k]));
    }
    assert forall|i: int| 0 <= i < c.len() implies m.contains_key((#[trigger] c[i]).0) && m[c[i].0] == c[i].1 by {
        assert(m.contains_key(*s[i].0) && m[*s[i].0] == *s[i].1);
    }
}

/// The collateral of the deposits `deposits`: the sum over them of their
/// amount, at a price of one, times their asset's loan-to-value ratio;
/// refused when an asset has no ratio or the sum does not fit.
fn sum_collateral(deposits: &HashMap<u64, Decimal>, ltv: &HashMap<u64, Decimal>) -> (r: Result<Decimal, PlatformError>)
    requires
        non_negative(deposits@),
        valid_ratios(ltv@),
    ensures
        r is Ok <==> all_priced(deposits@, ltv@) && in_i128(map_sum(deposits@, collateral_weight(ltv@))),
        r matches Ok(d) ==> d@ == map_sum(deposits@, collateral_weight(ltv@)) && d@ >= 0,
        r matches Err(e) ==> e == PlatformError::CollateralError,
{
    let ghost w = collateral_weight(ltv@);
    let iter = deposits.iter();
    let ghost s0 = IteratorSpec::remaining(&iter);
    let ghost c0 = entries_of(s0);
    proof {
        lemma_iteration_enumerates(s0, deposits@);
    }
    let mut acc = Decimal(0);
    let ghost mut n: int = 0;
    for kv in it: iter
        invariant
            it.seq() == s0,
            n == it.index(),
            c0 == entries_of(s0),
            enumerates(c0, deposits@),
            w == collateral_weight(ltv@),
            non_negative(deposits@),
            valid_ratios(ltv@),
            forall|i: int| 0 <= i < n ==> ltv@.contains_key((#[trigger] c0[i]).0),
            acc@ == weighted_sum(c0.take(n), w),
    {
        let (k, v) = kv;
        assert(c0[n] == (*k, *v));
        assert(deposits@.contains_key(*k) && deposits@[*k] == *v);
        let l = match ltv.get(k) {
            Some(l) => *l,
            None => {
                return Err(PlatformError::CollateralError);
            },
        };
        let value = match v.checked_mul(Decimal(1_000_000_000_000_000_000)) {
            Some(x) => x,
            None => {
                proof {
                    lemma_dmul_one(v@);
                }
                return Err(PlatformError::CollateralError);
            },
        };
        proof {
            lemma_dmul_one(v@);
            lemma_dmul_ratio(v@, l@);
        }
        let term = match value.checked_mul(l) {
            Some(x) => x,
            None => {
                return Err(PlatformError::CollateralError);
            },
        };
        assert(c0.take(n + 1).drop_last() =~= c0.take(n));
        assert(c0.take(n + 1).last() == c0[n]);
        match acc.checked_add(term) {
            Some(x) => acc = x,
            None => {
                proof {
                    if all_priced(deposits@, ltv@) {
                        assert forall|i: int| 0 <= i < c0.len() implies w(#[trigger] c0[i]) >= 0 by {
                            assert(deposits@.contains_key(c0[i].0) && deposits@[c0[i].0] == c0[i].1);
                            lemma_dmul_ratio(c0[i].1@, ltv@[c0[i].0]@);
                        }
                        lemma_weighted_prefix(c0, n + 1, w);
                        lemma_map_sum(c0, deposits@, w);
                    }
                }
                return Err(PlatformError::CollateralError);
            },
        }
        proof {
            n = n + 1;
        }
    }
    proof {
        assert(c0.take(n) =~= c0);
        lemma_map_sum(c0, deposits@, w);
        assert forall|k: u64| deposits@.contains_key(k) implies ltv@.contains_key(k) by {
            assert(c0.contains((k, deposits@[k])));
            let q = choose|q: int| 0 <= q < c0.len() && c0[q] == (k, deposits@[k]);
            assert(ltv@.contains_key(c0[q].0));
        }
        assert forall|i: int| 0 <= i < c0.len() implies w(#[trigger] c0[i]) >= 0 by {
            assert(deposits@.contains_key(c0[i].0) && deposits@[c0[i].0] == c0[i].1);
            assert(ltv@.contains_key(c0[i].0));
            lemma_dmul_ratio(c0[i].1@, ltv@[c0[i].0]@);
        }
        lemma_weighted_prefix(c0, c0.len() as int, w);
    }
    Ok(acc)
}

/// The sum of the loans `loans`, at a price of one; refused when it does
/// not fit.
fn sum_loans(loans: &HashMap<u64, Decimal>) -> (r: Result<Decimal, PlatformError>)
    requires
        non_negative(loans@),
    ensures
        r is Ok <==> in_i128(map_sum(loans@, loan_weight())),
        r matches Ok(d) ==> d@ == map_sum(loans@, loan_weight()) && d@ >= 0,
        r matches Err(e) ==> e == PlatformError::CollateralError,
{
    let ghost w = loan_weight();
    let iter = loans.iter();
    let ghost s0 = IteratorSpec::remaining(&iter);
    let ghost c0 = entries_of(s0);
    proof {
        lemma_iteration_enumerates(s0, loans@);
        assert forall|i: int| 0 <= i < c0.len() implies w(#[trigger] c0[i]) >= 0 by {
            assert(loans@.contains_key(c0[i].0) && loans@[c0[i].0] == c0[i].1);
        }
    }
    let mut acc = Decimal(0);
    let ghost mut n: int = 0;
    for kv in it: iter
        invariant
            it.seq() == s0,
            n == it.index(),
            c0 == entries_of(s0),
            enumerates(c0, loans@),
            w == loan_weight(),
            forall|i: int| 0 <= i < c0.len() ==> w(#[trigger] c0[i]) >= 0,
            acc@ == weighted_sum(c0.take(n), w),
    {
        let (k, v) = kv;
        assert(c0[n] == (*k, *v));
        let value = match v.checked_mul(Decimal(1_000_000_000_000_000_000)) {
            Some(x) => x,
            None => {
                proof {
                    lemma_dmul_one(v@);
                }
                return Err(PlatformError::CollateralError);
            },
        };
        proof {
            lemma_dmul_one(v@);
        }
        assert(c0.take(n + 1).drop_last() =~= c0.take(n));
        assert(c0.take(n + 1).last() == c0[n]);
        match acc.checked_add(value) {
            Some(x) => acc = x,
            None => {
                proof {
                    lemma_weighted_prefix(c0, n + 1, w);
                    lemma_map_sum(c0, loans@, w);
                }
                return Err(PlatformError::CollateralError);
            },
        }
        proof {
            n = n + 1;
        }
    }
    proof {
        assert(c0.take(n) =~= c0);
        lemma_map_sum(c0, loans@, w);
        lemma_weighted_prefix(c0, c0.len() as int, w);
    }
    Ok(acc)
}

impl User {
    /// A user with no balances.
    pub fn new(user_address: ResourceAddress) -> (r: User)
        ensures
            r.user_address == user_address,
            r.deposit_balances@ == Map::<u64, Decimal>::empty(),
            r.borrow_balances@ == Map::<u64, Decimal>::empty(),
    {
        User { user_address, deposit_balances: HashMap::new(), borrow_balances: HashMap::new() }
    }

    /// Adds `amount` to the deposit of the asset at `address`.
    pub fn increase_deposit_balance(&mut self, address: ResourceAddress, amount: Decimal)
        requires
            credit_fits(old(self).deposit_balances@, address.0, amount),
        ensures
            final(self).deposit_balances@ == credited(old(self).deposit_balances@, address.0, amount),
            final(self).borrow_balances@ == old(self).borrow_balances@,
            final(self).user_address == old(self).user_address,
    {
        let current = match self.deposit_balances.get(&address.0) {
            Some(c) => Some(*c),
            None => None,
        };
        match current {
            Some(c) => {
                self.deposit_balances.insert(address.0, Decimal(c.0 + amount.0));
            },
            None => {
                self.deposit_balances.insert(address.0, amount);
            },
        }
    }

    /// Takes `amount` off the deposit of the asset at `address`, which must
    /// hold at least that much.
    pub fn decrease_deposit_balance(&mut self, address: ResourceAddress, amount: Decimal)
        requires
            old(self).deposit_balances@.contains_key(address.0),
            old(self).deposit_balances@[address.0]@ >= amount@,
            in_i128(old(self).deposit_balances@[address.0]@ - amount@),
        ensures
            final(self).deposit_balances@ == old(self).deposit_balances@.insert(
                address.0,
                Decimal((old(self).deposit_balances@[address.0]@ - amount@) as i128),
            ),
            final(self).borrow_balances@ == old(self).borrow_balances@,
            final(self).user_address == old(self).user_address,
    {
        let current = match self.deposit_balances.get(&address.0) {
            Some(c) => *c,
            None => Decimal(0),
        };
        self.deposit_balances.insert(address.0, Decimal(current.0 - amount.0));
    }

    /// Adds `amount` to the loan of the asset at `address`.
    pub fn increase_borrowed_balance(&mut self, address: ResourceAddress, amount: Decimal)
        requires
            credit_fits(old(self).borrow_balances@, address.0, amount),
        ensures
            final(self).borrow_balances@ == credited(old(self).borrow_balances@, address.0, amount),
            final(self).deposit_balances@ == old(self).deposit_balances@,
            final(self).user_address == old(self).user_address,
    {
        let current = match self.borrow_balances.get(&address.0) {
            Some(c) => Some(*c),
            None => None,
        };
        match current {
            Some(c) => {
                self.borrow_balances.insert(address.0, Decimal(c.0 + amount.0));
            },
            None => {
                self.borrow_balances.insert(address.0, amount);
            },
        }
    }

    /// Takes `amount` off the loan of the asset at `address` and returns the
    /// new balance; a loan with no record is set to `amount`.
    pub fn decrease_borrowed_balance(&mut self, address: ResourceAddress, amount: Decimal) -> (r: Decimal)
        requires
            old(self).borrow_balances@.contains_key(address.0) ==> old(self).borrow_balances@[address.0]@ >= amount@
                && in_i128(old(self).borrow_balances@[address.0]@ - amount@),
        ensures
            old(self).borrow_balances@.contains_key(address.0) ==> r@ == old(self).borrow_balances@[address.0]@ - amount@,
            !old(self).borrow_balances@.contains_key(address.0) ==> r == amount,
            final(self).borrow_balances@ == old(self).borrow_balances@.insert(address.0, r),
            final(self).deposit_balances@ == old(self).deposit_balances@,
            final(self).user_address == old(self).user_address,
    {
        let current = match self.borrow_balances.get(&address.0) {
            Some(c) => Some(*c),
            None => None,
        };
        match current {
            Some(c) => {
                let b = Decimal(c.0 - amount.0);
                self.borrow_balances.insert(address.0, b);
                b
            },
            None => {
                self.borrow_balances.insert(address.0, amount);
                amount
            },
        }
    }
}


/// Whether `new` is `old` with the balances of the user of `key` set to
/// `deposits` and `loans`.
pub open spec fn user_updated(
    new: Map<u64, User>,
    old: Map<u64, User>,
    key: u64,
    deposits: Map<u64, Decimal>,
    loans: Map<u64, Decimal>,
) -> bool {
    &&& new.dom() == old.dom()
    &&& forall|k: u64| k != key && old.contains_key(k) ==> #[trigger] new[k] == old[k]
    &&& new[key].user_address == old[key].user_address
    &&& new[key].deposit_balances@ == deposits
    &&& new[key].borrow_balances@ == loans
}

/// The lending platform: the liquidity it holds of each asset, each
/// asset's loan-to-value ratio, and its users by the number of their
/// badge's resource.
pub struct LendingPlatform {
    admin_badge: ResourceAddress,
    assets: HashMap<u64, Decimal>,
    asset_ltv_ratios: HashMap<u64, Decimal>,
    users: HashMap<u64, User>,
}

impl LendingPlatform {
    pub closed spec fn liquidity(&self) -> Map<u64, Decimal> {
        self.assets@
    }

    pub closed spec fn ratios(&self) -> Map<u64, Decimal> {
        self.asset_ltv_ratios@
    }

    pub closed spec fn user_map(&self) -> Map<u64, User> {
        self.users@
    }

    /// The admin badge, which alone lists assets.
    pub closed spec fn admin(&self) -> ResourceAddress {
        self.admin_badge
    }

    /// Liquidity and balances are not negative, ratios lie between zero and
    /// one, and each user is filed under its badge.
    pub closed spec fn wf(&self) -> bool {
        &&& non_negative(self.assets@)
        &&& valid_ratios(self.asset_ltv_ratios@)
        &&& forall|k: u64|
            self.users@.contains_key(k) ==> non_negative((#[trigger] self.users@[k]).deposit_balances@)
                && non_negative(self.users@[k].borrow_balances@) && self.users@[k].user_address == ResourceAddress(k)
    }

    /// What `user` may still borrow: its collateral less its loans.
    pub open spec fn available_collateral(&self, u: User) -> int {
        map_sum(u.deposit_balances@, collateral_weight(self.ratios())) - map_sum(u.borrow_balances@, loan_weight())
    }

    /// Whether the collateral of `u` can be valued.
    pub open spec fn valued(&self, u: User) -> bool {
        &&& all_priced(u.deposit_balances@, self.ratios())
        &&& in_i128(map_sum(u.deposit_balances@, collateral_weight(self.ratios())))
        &&& in_i128(map_sum(u.borrow_balances@, loan_weight()))
    }

    /// An empty platform whose admin badge, which goes to the caller, is
    /// `admin_badge`.
    pub fn new(admin_badge: ResourceAddress) -> (r: (LendingPlatform, Bucket))
        ensures
            r.0.wf(),
            r.0.liquidity() == Map::<u64, Decimal>::empty(),
            r.0.ratios() == Map::<u64, Decimal>::empty(),
            r.0.user_map() == Map::<u64, User>::empty(),
            r.0.admin() == admin_badge,
            r.1 == Bucket::spec_new(admin_badge, whole(1)),
    {
        let p = LendingPlatform {
            admin_badge,
            assets: HashMap::new(),
            asset_ltv_ratios: HashMap::new(),
            users: HashMap::new(),
        };
        (p, Bucket::of(admin_badge, Decimal(1_000_000_000_000_000_000)))
    }

    /// The user filed under the badge `badge`.
    pub fn user(&self, badge: ResourceAddress) -> (r: Option<&User>)
        ensures
            match r {
                Some(u) => self.user_map().contains_key(badge.0) && *u == self.user_map()[badge.0],
                None => !self.user_map().contains_key(badge.0),
            },
    {
        self.users.get(&badge.0)
    }

    /// The liquidity the platform holds of `asset`.
    pub fn liquidity_of(&self, asset: ResourceAddress) -> (r: Option<Decimal>)
        ensures
            match r {
                Some(d) => self.liquidity().contains_key(asset.0) && d == self.liquidity()[asset.0],
                None => !self.liquidity().contains_key(asset.0),
            },
    {
        match self.assets.get(&asset.0) {
            Some(d) => Some(*d),
            None => None,
        }
    }

    /// Files a new user under the badge `user_badge`, a resource made for
    /// it, and gives the badge.
    pub fn new_user(&mut self, user_badge: ResourceAddress) -> (r: Bucket)
        requires
            old(self).wf(),
            !old(self).user_map().contains_key(user_badge.0),
        ensures
            final(self).wf(),
            r == Bucket::spec_new(user_badge, whole(1)),
            final(self).user_map().dom() == old(self).user_map().dom().insert(user_badge.0),
            forall|k: u64| k != user_badge.0 && old(self).user_map().contains_key(k) ==> #[trigger] final(self).user_map()[k]
                == old(self).user_map()[k],
            final(self).user_map()[user_badge.0].user_address == user_badge,
            final(self).user_map()[user_badge.0].deposit_balances@ == Map::<u64, Decimal>::empty(),
            final(self).user_map()[user_badge.0].borrow_balances@ == Map::<u64, Decimal>::empty(),
            final(self).liquidity() == old(self).liquidity(),
            final(self).ratios() == old(self).ratios(),
    {
        let u = User::new(user_badge);
        self.users.insert(user_badge.0, u);
        Bucket::of(user_badge, Decimal(1_000_000_000_000_000_000))
    }

    /// Lends against deposits of `asset_address` at the loan-to-value ratio
    /// `ltv_ratio`, which lies between zero and one.
    pub fn new_asset(&mut self, auth: Proof, asset_address: ResourceAddress, ltv_ratio: Decimal) -> (r: Result<(), PlatformError>)
        requires
            old(self).wf(),
        ensures
            !(auth.shows(old(self).admin())) ==> r == Err::<(), PlatformError>(PlatformError::Unauthorized) && *final(self) == *old(self),
            final(self).wf(),
            r is Err ==> final(self).ratios() == old(self).ratios(),
            final(self).liquidity() == old(self).liquidity(),
            final(self).user_map() == old(self).user_map(),
            (auth.shows(old(self).admin())) ==> (if !(0 <= ltv_ratio@ <= dec_one()) {
                r == Err::<(), PlatformError>(PlatformError::InvalidLtv)
            } else if old(self).ratios().contains_key(asset_address.0) {
                r == Err::<(), PlatformError>(PlatformError::AssetExists)
            } else {
                r is Ok && final(self).ratios() == old(self).ratios().insert(asset_address.0, ltv_ratio)
            }),
    {
        if !auth.check(self.admin_badge) {
            return Err(PlatformError::Unauthorized);
        }
        if ltv_ratio.0 < 0 || ltv_ratio.0 > 1_000_000_000_000_000_000 {
            return Err(PlatformError::InvalidLtv);
        }
        if self.asset_ltv_ratios.contains_key(&asset_address.0) {
            return Err(PlatformError::AssetExists);
        }
        self.asset_ltv_ratios.insert(asset_address.0, ltv_ratio);
        Ok(())
    }

    /// Deposits the asset in `asset` for the user whose badge `user_auth`
    /// proves.
    pub fn deposit_asset(&mut self, user_auth: Proof, asset: Bucket) -> (r: Result<(), PlatformError>)
        requires
            old(self).wf(),
        ensures
            final(self).wf(),
            final(self).ratios() == old(self).ratios(),
            r is Err ==> final(self).liquidity() == old(self).liquidity() && final(self).user_map() == old(
                self,
            ).user_map(),
            ({
                let key = user_auth.resource.0;
                let a = asset.res().0;
                let liq = old(self).liquidity();
                if !old(self).user_map().contains_key(key) {
                    r == Err::<(), PlatformError>(PlatformError::UnknownUser)
                } else if liq.contains_key(a) && !in_i128(liq[a]@ + asset.amt()@) {
                    r == Err::<(), PlatformError>(PlatformError::Overflow)
                } else if !credit_fits(old(self).user_map()[key].deposit_balances@, a, asset.amt()) {
                    r == Err::<(), PlatformError>(PlatformError::Overflow)
                } else {
                    let u = old(self).user_map()[key];
                    &&& r is Ok
                    &&& final(self).liquidity() == credited(liq, a, asset.amt())
                    &&& user_updated(
                        final(self).user_map(),
                        old(self).user_map(),
                        key,
                        credited(u.deposit_balances@, a, asset.amt()),
                        u.borrow_balances@,
                    )
                }
            }),
    {
        let key = user_auth.resource.0;
        let a = asset.resource_address();
        let amount = asset.amount();
        let fits = match self.users.get(&key) {
            None => return Err(PlatformError::UnknownUser),
            Some(u) => match u.deposit_balances.get(&a.0) {
                Some(c) => c.checked_add(amount).is_some(),
                None => true,
            },
        };
        let liq = match self.assets.get(&a.0) {
            Some(x) => match x.checked_add(amount) {
                Some(y) => y,
                None => return Err(PlatformError::Overflow),
            },
            None => amount,
        };
        if !fits {
            return Err(PlatformError::Overflow);
        }
        let ghost old_users = self.users@;
        self.assets.insert(a.0, liq);
        let mut u = match self.users.remove(&key) {
            Some(u) => u,
            None => return Err(PlatformError::UnknownUser),
        };
        u.increase_deposit_balance(a, amount);
        self.users.insert(key, u);
        proof {
            assert(self.users@.dom() =~= old_users.dom());
        }
        Ok(())
    }

    /// Gives `amount` of `asset_address` back to the user whose badge
    /// `user_auth` proves, out of its deposit.
    pub fn withdrawal_asset(&mut self, user_auth: Proof, asset_address: ResourceAddress, amount: Decimal) -> (r: Result<
        Bucket,
        PlatformError,
    >)
        requires
            old(self).wf(),
        ensures
            final(self).wf(),
            final(self).ratios() == old(self).ratios(),
            r is Err ==> final(self).liquidity() == old(self).liquidity() && final(self).user_map() == old(
                self,
            ).user_map(),
            ({
                let key = user_auth.resource.0;
                let a = asset_address.0;
                let liq = old(self).liquidity();
                if !old(self).user_map().contains_key(key) {
                    r == Err::<Bucket, PlatformError>(PlatformError::UnknownUser)
                } else if !liq.contains_key(a) {
                    r == Err::<Bucket, PlatformError>(PlatformError::NoLiquidity)
                } else if !(0 <= amount@ <= liq[a]@) {
                    r == Err::<Bucket, PlatformError>(PlatformError::InsufficientLiquidity)
                } else {
                    let u = old(self).user_map()[key];
                    if !u.deposit_balances@.contains_key(a) {
                        r == Err::<Bucket, PlatformError>(PlatformError::NoDeposit)
                    } else if u.deposit_balances@[a]@ < amount@ {
                        r == Err::<Bucket, PlatformError>(PlatformError::NegativeBalance)
                    } else {
                        &&& r == Ok::<Bucket, PlatformError>(Bucket::spec_new(asset_address, amount))
                        &&& final(self).liquidity() == liq.insert(a, Decimal((liq[a]@ - amount@) as i128))
                        &&& user_updated(
                            final(self).user_map(),
                            old(self).user_map(),
                            key,
                            u.deposit_balances@.insert(a, Decimal((u.deposit_balances@[a]@ - amount@) as i128)),
                            u.borrow_balances@,
                        )
                    }
                }
            }),
    {
        let key = user_auth.resource.0;
        let a = asset_address.0;
        let deposit = match self.users.get(&key) {
            None => return Err(PlatformError::UnknownUser),
            Some(u) => match u.deposit_balances.get(&a) {
                Some(c) => Some(*c),
                None => None,
            },
        };
        let liq = match self.assets.get(&a) {
            Some(x) => *x,
            None => return Err(PlatformError::NoLiquidity),
        };
        if amount.0 < 0 || amount.0 > liq.0 {
            return Err(PlatformError::InsufficientLiquidity);
        }
        match deposit {
            None => return Err(PlatformError::NoDeposit),
            Some(d) => if d.0 < amount.0 {
                return Err(PlatformError::NegativeBalance);
            },
        }
        let ghost old_users = self.users@;
        self.assets.insert(a, Decimal(liq.0 - amount.0));
        let mut u = match self.users.remove(&key) {
            Some(u) => u,
            None => return Err(PlatformError::UnknownUser),
        };
        u.decrease_deposit_balance(asset_address, amount);
        self.users.insert(key, u);
        proof {
            assert(self.users@.dom() =~= old_users.dom());
        }
        Ok(Bucket::of(asset_address, amount))
    }

    /// What `user` may still borrow: its collateral less its loans;
    /// refused when the collateral cannot be valued.
    fn calculate_available_collateral(&self, user: &User) -> (r: Result<Decimal, PlatformError>)
        requires
            self.wf(),
            non_negative(user.deposit_balances@),
            non_negative(user.borrow_balances@),
        ensures
            r is Ok <==> self.valued(*user),
            r matches Ok(d) ==> d@ == self.available_collateral(*user),
            r matches Err(e) ==> e == PlatformError::CollateralError,
    {
        let collateral = match sum_collateral(&user.deposit_balances, &self.asset_ltv_ratios) {
            Ok(c) => c,
            Err(e) => return Err(e),
        };
        let loans = match sum_loans(&user.borrow_balances) {
            Ok(l) => l,
            Err(e) => return Err(e),
        };
        match collateral.checked_sub(loans) {
            Some(x) => Ok(x),
            None => Err(PlatformError::CollateralError),
        }
    }

    /// Lends `amount` of `asset_address` to the user whose badge `user_auth`
    /// proves, when its collateral, less what it owes, covers it.
    pub fn borrow_asset(&mut self, user_auth: Proof, asset_address: ResourceAddress, amount: Decimal) -> (r: Result<
        Bucket,
        PlatformError,
    >)
        requires
            old(self).wf(),
        ensures
            final(self).wf(),
            final(self).ratios() == old(self).ratios(),
            r is Err ==> final(self).liquidity() == old(self).liquidity() && final(self).user_map() == old(
                self,
            ).user_map(),
            ({
                let key = user_auth.resource.0;
                let a = asset_address.0;
                let liq = old(self).liquidity();
                if !old(self).user_map().contains_key(key) {
                    r == Err::<Bucket, PlatformError>(PlatformError::UnknownUser)
                } else if !liq.contains_key(a) {
                    r == Err::<Bucket, PlatformError>(PlatformError::NoLiquidity)
                } else if !(0 <= amount@ <= liq[a]@) {
                    r == Err::<Bucket, PlatformError>(PlatformError::InsufficientLiquidity)
                } else {
                    let u = old(self).user_map()[key];
                    if !old(self).valued(u) {
                        r == Err::<Bucket, PlatformError>(PlatformError::CollateralError)
                    } else if old(self).available_collateral(u) < amount@ {
                        r == Err::<Bucket, PlatformError>(PlatformError::NotEnoughCollateral)
                    } else if !credit_fits(u.borrow_balances@, a, amount) {
                        r == Err::<Bucket, PlatformError>(PlatformError::Overflow)
                    } else {
                        &&& r == Ok::<Bucket, PlatformError>(Bucket::spec_new(asset_address, amount))
                        &&& final(self).liquidity() == liq.insert(a, Decimal((liq[a]@ - amount@) as i128))
                        &&& user_updated(
                            final(self).user_map(),
                            old(self).user_map(),
                            key,
                            u.deposit_balances@,
                            credited(u.borrow_balances@, a, amount),
                        )
                    }
                }
            }),
    {
        let key = user_auth.resource.0;
        let a = asset_address.0;
        if !self.users.contains_key(&key) {
            return Err(PlatformError::UnknownUser);
        }
        let liq = match self.assets.get(&a) {
            Some(x) => *x,
            None => return Err(PlatformError::NoLiquidity),
        };
        if amount.0 < 0 || amount.0 > liq.0 {
            return Err(PlatformError::InsufficientLiquidity);
        }
        let fits = match self.users.get(&key) {
            None => return Err(PlatformError::UnknownUser),
            Some(u) => {
                let available = match self.calculate_available_collateral(u) {
                    Ok(x) => x,
                    Err(e) => return Err(e),
                };
                let borrow_value = match amount.checked_mul(Decimal(1_000_000_000_000_000_000)) {
                    Some(x) => x,
                    None => {
                        proof {
                            lemma_dmul_one(amount@);
                        }
                        return Err(PlatformError::CollateralError);
                    },
                };
                proof {
                    lemma_dmul_one(amount@);
                }
                if available.0 < borrow_value.0 {
                    return Err(PlatformError::NotEnoughCollateral);
                }
                match u.borrow_balances.get(&a) {
                    Some(c) => c.checked_add(amount).is_some(),
                    None => true,
                }
            },
        };
        if !fits {
            return Err(PlatformError::Overflow);
        }
        let ghost old_users = self.users@;
        self.assets.insert(a, Decimal(liq.0 - amount.0));
        let mut u = match self.users.remove(&key) {
            Some(u) => u,
            None => return Err(PlatformError::UnknownUser),
        };
        u.increase_borrowed_balance(asset_address, amount);
        self.users.insert(key, u);
        proof {
            assert(self.users@.dom() =~= old_users.dom());
        }
        Ok(Bucket::of(asset_address, amount))
    }

    /// Repays the loan of the user whose badge `user_auth` proves with the
    /// asset in `asset`; a loan with no record is set to the amount.
    pub fn repay_asset(&mut self, user_auth: Proof, asset: Bucket) -> (r: Result<(), PlatformError>)
        requires
            old(self).wf(),
        ensures
            final(self).wf(),
            final(self).ratios() == old(self).ratios(),
            r is Err ==> final(self).liquidity() == old(self).liquidity() && final(self).user_map() == old(
                self,
            ).user_map(),
            ({
                let key = user_auth.resource.0;
                let a = asset.res().0;
                let liq = old(self).liquidity();
                if !old(self).user_map().contains_key(key) {
                    r == Err::<(), PlatformError>(PlatformError::UnknownUser)
                } else if !liq.contains_key(a) {
                    r == Err::<(), PlatformError>(PlatformError::NoLiquidity)
                } else if !in_i128(liq[a]@ + asset.amt()@) {
                    r == Err::<(), PlatformError>(PlatformError::Overflow)
                } else {
                    let u = old(self).user_map()[key];
                    let loans = u.borrow_balances@;
                    if loans.contains_key(a) && loans[a]@ < asset.amt()@ {
                        r == Err::<(), PlatformError>(PlatformError::NegativeLoanBalance)
                    } else {
                        &&& r is Ok
                        &&& final(self).liquidity() == liq.insert(a, Decimal((liq[a]@ + asset.amt()@) as i128))
                        &&& user_updated(
                            final(self).user_map(),
                            old(self).user_map(),
                            key,
                            u.deposit_balances@,
                            loans.insert(
                                a,
                                if loans.contains_key(a) {
                                    Decimal((loans[a]@ - asset.amt()@) as i128)
                                } else {
                                    asset.amt()
                                },
                            ),
                        )
                    }
                }
            }),
    {
        let key = user_auth.resource.0;
        let a = asset.resource_address();
        let amount = asset.amount();
        let loan = match self.users.get(&key) {
            None => return Err(PlatformError::UnknownUser),
            Some(u) => match u.borrow_balances.get(&a.0) {
                Some(c) => Some(*c),
                None => None,
            },
        };
        let liq = match self.assets.get(&a.0) {
            Some(x) => match x.checked_add(amount) {
                Some(y) => y,
                None => return Err(PlatformError::Overflow),
            },
            None => return Err(PlatformError::NoLiquidity),
        };
        match loan {
            Some(l) => if l.0 < amount.0 {
                return Err(PlatformError::NegativeLoanBalance);
            },
            None => {},
        }
        let ghost old_users = self.users@;
        self.assets.insert(a.0, liq);
        let mut u = match self.users.remove(&key) {
            Some(u) => u,
            None => return Err(PlatformError::UnknownUser),
        };
        u.decrease_borrowed_balance(a, amount);
        self.users.insert(key, u);
        proof {
            assert(self.users@.dom() =~= old_users.dom());
        }
        Ok(())
    }
}

} // verus!
