//! A time lock: XRD is locked until a chosen epoch, for a fee, against a
//! badge of its own, and released to whoever brings the badge back after
//! that epoch.
use vstd::prelude::*;
use crate::decimal::{dec_of, dec_one, ddiv, dmul, whole, Decimal};
use crate::resource::{group_bucket, Bucket, Proof, ResourceAddress};

verus! {

broadcast use group_bucket;

/// One lock: the badge that releases it, the amount locked and the last
/// epoch it stays locked.
#[derive(Clone, Copy, Debug, PartialEq, Eq, Structural)]
pub struct LockEntry {
    pub badge: ResourceAddress,
    pub amount: Decimal,
    pub ends: u64,
}

/// Why a time lock call is refused. A refused call changes nothing.
#[derive(Clone, Copy, Debug, PartialEq, Eq, Structural)]
pub enum TimeLockError {
    ZeroAmount,
    ZeroDuration,
    /// The fee, an amount or the end epoch does not fit.
    Overflow,
    /// The fee is negative or more than the tokens brought.
    FeeOutOfRange,
    /// Only XRD can be locked.
    WrongResource,
    /// No lock belongs to the badge.
    UnknownBadge,
    /// The lock has not ended yet.
    StillLocked,
    ReleaseAmountZero,
    /// Claiming the fees needs a proof of the minter badge.
    Unauthorized,
}

/// The fee on `amount` at `fee_percent` percent.
pub open spec fn lock_fee(amount: Decimal, fee_percent: Decimal) -> Option<Decimal> {
    match dec_of(dmul(amount@, fee_percent@)) {
        Some(p) => dec_of(ddiv(p@, 100 * dec_one())),
        None => None,
    }
}

/// The position of the lock of `badge`.
pub open spec fn lock_index(s: Seq<LockEntry>, badge: ResourceAddress) -> Option<int> {
    if exists|i: int| 0 <= i < s.len() && (#[trigger] s[i]).badge == badge {
        Some(choose|i: int| 0 <= i < s.len() && (#[trigger] s[i]).badge == badge)
    } else {
        None
    }
}

/// The sum of the amounts of the locks in `s`.
pub open spec fn locked_total(s: Seq<LockEntry>) -> int
    decreases s.len(),
{
    if s.len() == 0 {
        0
    } else {
        locked_total(s.drop_last()) + s.last().amount@
    }
}

/// A time lock that keeps the fees it charged and the XRD it locked.
pub struct TimeLock {
    tl_minter_badge: ResourceAddress,
    xrd: ResourceAddress,
    minted: Vec<LockEntry>,
    collected_fees: Decimal,
    locked_xrd: Decimal,
    fee_percent: Decimal,
}

impl TimeLock {
    pub closed spec fn locks(&self) -> Seq<LockEntry> {
        self.minted@
    }

    pub closed spec fn fees(&self) -> Decimal {
        self.collected_fees
    }

    pub closed spec fn locked(&self) -> Decimal {
        self.locked_xrd
    }

    pub closed spec fn fee(&self) -> Decimal {
        self.fee_percent
    }

    pub closed spec fn xrd_address(&self) -> ResourceAddress {
        self.xrd
    }

    pub closed spec fn minter(&self) -> ResourceAddress {
        self.tl_minter_badge
    }

    /// No badge releases two locks, every lock holds a positive amount that
    /// ends after some epoch, and the XRD locked is the sum of the locks.
    pub closed spec fn wf(&self) -> bool {
        &&& forall|i: int, j: int|
            0 <= i < j < self.minted@.len() ==> (#[trigger] self.minted@[i]).badge != (#[trigger] self.minted@[j]).badge
        &&& forall|i: int| 0 <= i < self.minted@.len() ==> (#[trigger] self.minted@[i]).amount@ >= 0
        &&& self.locked_xrd@ == locked_total(self.minted@)
        &&& self.collected_fees@ >= 0
    }

    /// A time lock charging `fee` percent, with a minter badge of
    /// `tl_minter_badge`, one of which is handed to the caller.
    pub fn new(fee: Decimal, tl_minter_badge: ResourceAddress, xrd: ResourceAddress) -> (r: (TimeLock, Bucket))
        ensures
            r.0.wf(),
            r.0.locks() == Seq::<LockEntry>::empty(),
            r.0.fees()@ == 0,
            r.0.locked()@ == 0,
            r.0.fee() == fee,
            r.0.xrd_address() == xrd,
            r.0.minter() == tl_minter_badge,
            r.1 == Bucket::spec_new(tl_minter_badge, whole(1)),
    {
        let tl = TimeLock {
            tl_minter_badge,
            xrd,
            minted: Vec::new(),
            collected_fees: Decimal(0),
            locked_xrd: Decimal(0),
            fee_percent: fee,
        };
        (tl, Bucket::of(tl_minter_badge, Decimal(1_000_000_000_000_000_000)))
    }

    /// The lock that `badge` releases.
    pub fn lock_of(&self, badge: ResourceAddress) -> (r: Option<LockEntry>)
        requires
            self.wf(),
        ensures
            match lock_index(self.locks(), badge) {
                Some(i) => r == Some(self.locks()[i]),
                None => r is None,
            },
    {
        match self.find(badge) {
            Some(i) => Some(self.minted[i]),
            None => None,
        }
    }

    fn find(&self, badge: ResourceAddress) -> (r: Option<usize>)
        requires
            self.wf(),
        ensures
            match r {
                Some(i) => i < self.minted@.len() && lock_index(self.minted@, badge) == Some(i as int),
                None => lock_index(self.minted@, badge) is None,
            },
    {
        let mut i: usize = 0;
        while i < self.minted.len()
            invariant
                i <= self.minted@.len(),
                self.wf(),
                forall|j: int| 0 <= j < i ==> (#[trigger] self.minted@[j]).badge != badge,
            decreases self.minted@.len() - i,
        {
            if self.minted[i].badge == badge {
                proof {
                    let s = self.minted@;
                    let c = choose|c: int| 0 <= c < s.len() && (#[trigger] s[c]).badge == badge;
                    if c != i {
                        if c < i {
                            assert(s[c].badge != badge);
                        } else {
                            assert(s[i as int].badge != s[c].badge);
                        }
                    }
                }
                return Some(i);
            }
            i = i + 1;
        }
        None
    }

    /// Locks the XRD in `lock_tokens` until `duration` epochs after `now`,
    /// less a fee of `fee` percent, and gives one token of `badge`, a
    /// resource made for this lock, that releases it.
    pub fn lock(&mut self, lock_tokens: Bucket, duration: u64, now: u64, badge: ResourceAddress) -> (r: Result<Bucket, TimeLockError>)
        requires
            old(self).wf(),
            lock_index(old(self).locks(), badge) is None,
        ensures
            final(self).wf(),
            r is Err ==> *final(self) == *old(self),
            lock_tokens.amt()@ == 0 ==> r == Err::<Bucket, TimeLockError>(TimeLockError::ZeroAmount),
            lock_tokens.amt()@ != 0 && duration == 0 ==> r == Err::<Bucket, TimeLockError>(TimeLockError::ZeroDuration),
            lock_tokens.amt()@ != 0 && duration != 0 ==> {
                let amount = lock_tokens.amt();
                let fee = lock_fee(amount, old(self).fee());
                if now + duration > u64::MAX || fee is None {
                    r == Err::<Bucket, TimeLockError>(TimeLockError::Overflow)
                } else if !(0 <= fee->Some_0@ <= amount@) {
                    r == Err::<Bucket, TimeLockError>(TimeLockError::FeeOutOfRange)
                } else if lock_tokens.res() != old(self).xrd_address() {
                    r == Err::<Bucket, TimeLockError>(TimeLockError::WrongResource)
                } else if dec_of(old(self).fees()@ + fee->Some_0@) is None || dec_of(
                    old(self).locked()@ + amount@ - fee->Some_0@,
                ) is None {
                    r == Err::<Bucket, TimeLockError>(TimeLockError::Overflow)
                } else {
                    &&& r == Ok::<Bucket, TimeLockError>(Bucket::spec_new(badge, whole(1)))
                    &&& final(self).locks() == old(self).locks().push(
                        LockEntry {
                            badge,
                            amount: Decimal((amount@ - fee->Some_0@) as i128),
                            ends: (now + duration) as u64,
                        },
                    )
                    &&& final(self).fees()@ == old(self).fees()@ + fee->Some_0@
                    &&& final(self).locked()@ == old(self).locked()@ + amount@ - fee->Some_0@
                    &&& final(self).fee() == old(self).fee()
                    &&& final(self).xrd_address() == old(self).xrd_address()
                    &&& final(self).minter() == old(self).minter()
                }
            },
    {
        let amount = lock_tokens.amount();
        if amount.0 == 0 {
            return Err(TimeLockError::ZeroAmount);
        }
        if duration == 0 {
            return Err(TimeLockError::ZeroDuration);
        }
        let end_time = match now.checked_add(duration) {
            Some(e) => e,
            None => return Err(TimeLockError::Overflow),
        };
        let fee_amount = match amount.checked_mul(self.fee_percent) {
            Some(p) => match p.checked_div(Decimal(100 * 1_000_000_000_000_000_000)) {
                Some(f) => f,
                None => return Err(TimeLockError::Overflow),
            },
            None => return Err(TimeLockError::Overflow),
        };
        if fee_amount.0 < 0 || fee_amount.0 > amount.0 {
            return Err(TimeLockError::FeeOutOfRange);
        }
        let available = Decimal(amount.0 - fee_amount.0);
        if lock_tokens.resource_address() != self.xrd {
            return Err(TimeLockError::WrongResource);
        }
        let fees = match self.collected_fees.checked_add(fee_amount) {
            Some(f) => f,
            None => return Err(TimeLockError::Overflow),
        };
        let locked = match self.locked_xrd.checked_add(available) {
            Some(l) => l,
            None => return Err(TimeLockError::Overflow),
        };
        let ghost before = self.minted@;
        self.minted.push(LockEntry { badge, amount: available, ends: end_time });
        self.collected_fees = fees;
        self.locked_xrd = locked;
        proof {
            let s = self.minted@;
            assert(s.drop_last() =~= before);
            assert forall|i: int, j: int| 0 <= i < j < s.len() implies (#[trigger] s[i]).badge != (#[trigger] s[j]).badge by {
                if j == before.len() {
                    assert(s[i] == before[i]);
                    if before[i].badge == badge {
                        assert(exists|k: int| 0 <= k < before.len() && (#[trigger] before[k]).badge == badge);
                    }
                } else {
                    assert(s[i] == before[i] && s[j] == before[j]);
                }
            }
        }
        Ok(Bucket::of(badge, Decimal(1_000_000_000_000_000_000)))
    }

    /// Releases the lock of the badge in `tl_badge` once `now` is past its
    /// end: burns the badge and gives the XRD locked.
    pub fn release(&mut self, tl_badge: Bucket, now: u64) -> (r: Result<Bucket, TimeLockError>)
        requires
            old(self).wf(),
        ensures
            final(self).wf(),
            r is Err ==> *final(self) == *old(self),
            match lock_index(old(self).locks(), tl_badge.res()) {
                None => r == Err::<Bucket, TimeLockError>(TimeLockError::UnknownBadge),
                Some(i) => {
                    let e = old(self).locks()[i];
                    if now <= e.ends {
                        r == Err::<Bucket, TimeLockError>(TimeLockError::StillLocked)
                    } else if e.amount@ <= 0 {
                        r == Err::<Bucket, TimeLockError>(TimeLockError::ReleaseAmountZero)
                    } else {
                        &&& r == Ok::<Bucket, TimeLockError>(Bucket::spec_new(old(self).xrd_address(), e.amount))
                        &&& final(self).locks() == old(self).locks().remove(i)
                        &&& final(self).locked()@ == old(self).locked()@ - e.amount@
                        &&& final(self).fees() == old(self).fees()
                        &&& final(self).fee() == old(self).fee()
                        &&& final(self).xrd_address() == old(self).xrd_address()
                        &&& final(self).minter() == old(self).minter()
                    }
                },
            },
    {
        let i = match self.find(tl_badge.resource_address()) {
            Some(i) => i,
            None => return Err(TimeLockError::UnknownBadge),
        };
        let e = self.minted[i];
        if now <= e.ends {
            return Err(TimeLockError::StillLocked);
        }
        if e.amount.0 <= 0 {
            return Err(TimeLockError::ReleaseAmountZero);
        }
        let ghost before = self.minted@;
        proof {
            lemma_locked_total_remove(before, i as int);
            lemma_locks_covered(before, i as int);
        }
        self.minted.remove(i);
        self.locked_xrd = Decimal(self.locked_xrd.0 - e.amount.0);
        proof {
            let s = self.minted@;
            assert forall|a: int, b: int| 0 <= a < b < s.len() implies (#[trigger] s[a]).badge != (#[trigger] s[b]).badge by {
                assert(s[a] == before[if a < i { a } else { a + 1 }]);
                assert(s[b] == before[if b < i { b } else { b + 1 }]);
            }
            assert forall|a: int| 0 <= a < s.len() implies (#[trigger] s[a]).amount@ >= 0 by {
                assert(s[a] == before[if a < i { a } else { a + 1 }]);
            }
        }
        Ok(Bucket::of(self.xrd, e.amount))
    }

    /// Gives all the fees collected, to the holder of the minter badge.
    pub fn claim(&mut self, auth: Proof) -> (r: Result<Bucket, TimeLockError>)
        requires
            old(self).wf(),
        ensures
            final(self).wf(),
            !auth.shows(old(self).minter()) ==> r == Err::<Bucket, TimeLockError>(TimeLockError::Unauthorized)
                && *final(self) == *old(self),
            auth.shows(old(self).minter()) ==> {
                &&& r == Ok::<Bucket, TimeLockError>(Bucket::spec_new(old(self).xrd_address(), old(self).fees()))
                &&& final(self).fees()@ == 0
                &&& final(self).locks() == old(self).locks()
                &&& final(self).locked() == old(self).locked()
                &&& final(self).fee() == old(self).fee()
                &&& final(self).xrd_address() == old(self).xrd_address()
                &&& final(self).minter() == old(self).minter()
            },
    {
        if !auth.check(self.tl_minter_badge) {
            return Err(TimeLockError::Unauthorized);
        }
        let fees = self.collected_fees;
        self.collected_fees = Decimal(0);
        Ok(Bucket::of(self.xrd, fees))
    }
}

/// Removing one lock takes its amount out of the total.
pub proof fn lemma_locked_total_remove(s: Seq<LockEntry>, k: int)
    requires
        0 <= k < s.len(),
    ensures
        locked_total(s.remove(k)) == locked_total(s) - s[k].amount@,
    decreases s.len(),
{
    let u = s.remove(k);
    if k == s.len() - 1 {
        assert(u =~= s.drop_last());
    } else {
        lemma_locked_total_remove(s.drop_last(), k);
        assert(u.drop_last() =~= s.drop_last().remove(k));
        assert(u.last() == s.last());
    }
}

/// The XRD locked is never less than any one lock: every release can be
/// paid.
pub proof fn lemma_locks_covered(s: Seq<LockEntry>, k: int)
    requires
        0 <= k < s.len(),
        forall|i: int| 0 <= i < s.len() ==> (#[trigger] s[i]).amount@ >= 0,
    ensures
        locked_total(s) >= s[k].amount@,
    decreases s.len(),
{
    lemma_locked_total_remove(s, k);
    let u = s.remove(k);
    assert forall|i: int| 0 <= i < u.len() implies (#[trigger] u[i]).amount@ >= 0 by {
        assert(u[i] == s[if i < k { i } else { i + 1 }]);
    }
    lemma_locked_total_nonneg(u);
}

proof fn lemma_locked_total_nonneg(s: Seq<LockEntry>)
    requires
        forall|i: int| 0 <= i < s.len() ==> (#[trigger] s[i]).amount@ >= 0,
    ensures
        locked_total(s) >= 0,
    decreases s.len(),
{
    if s.len() > 0 {
        assert(s.last() == s[s.len() - 1]);
        lemma_locked_total_nonneg(s.drop_last());
    }
}

} // verus!
