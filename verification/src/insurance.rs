//! An insurer: it offers policies backed by XRD that it locks for their
//! full coverage, sells them one at a time, pays claims it approves out of
//! what it locked, and unlocks what expired or unsold policies no longer
//! need.
use vstd::prelude::*;
use crate::decimal::{dec_of, dec_one, dmul, whole, Decimal};
use crate::resource::{group_bucket, Bucket, ComponentAddress, ResourceAddress};

verus! {

broadcast use group_bucket;

/// Policies of one kind still for sale.
pub struct PolicyOffer {
    pub resource: ResourceAddress,
    /// How many are left.
    pub remaining: Decimal,
    pub policy_type: String,
    pub price: Decimal,
    pub coverage: Decimal,
    pub duration: u64,
}

/// A policy an insurer bought: what it may still claim, and until when.
#[derive(Clone, Copy, Debug, PartialEq, Eq, Structural)]
pub struct Purchase {
    pub insurer: ComponentAddress,
    pub policy: ResourceAddress,
    pub badge: ResourceAddress,
    pub amount: Decimal,
    pub expires: u64,
}

/// Why an insurance call is refused. A refused call changes nothing.
#[derive(Clone, Copy, Debug, PartialEq, Eq, Structural)]
pub enum InsuranceError {
    ZeroBaseAssets,
    /// Assets and payments are in XRD.
    NotXrd,
    ZeroCoverage,
    ZeroPrice,
    ZeroDuration,
    ZeroSupply,
    /// The assets do not cover the policies.
    NotEnoughAssets,
    /// An amount or an epoch does not fit.
    Overflow,
    NoPolicy,
    AlreadyInsured,
    NoPolicyAvailable,
    NotEnoughPaid,
    /// The insurer holds no such policy.
    NoPurchase,
    /// The amount is negative or more than the policy still covers.
    InvalidAmount,
    PolicyExpired,
    PolicyNotExpired,
    ZeroDeposit,
}

/// The sum of a sequence of integers.
pub open spec fn sum_of(s: Seq<int>) -> int
    decreases s.len(),
{
    if s.len() == 0 {
        0
    } else {
        sum_of(s.drop_last()) + s.last()
    }
}

proof fn lemma_sum_update(s: Seq<int>, k: int, x: int)
    requires
        0 <= k < s.len(),
    ensures
        sum_of(s.update(k, x)) == sum_of(s) - s[k] + x,
    decreases s.len(),
{
    let u = s.update(k, x);
    if k == s.len() - 1 {
        assert(u.drop_last() =~= s.drop_last());
    } else {
        lemma_sum_update(s.drop_last(), k, x);
        assert(u.drop_last() =~= s.drop_last().update(k, x));
    }
}

proof fn lemma_sum_remove(s: Seq<int>, k: int)
    requires
        0 <= k < s.len(),
    ensures
        sum_of(s.remove(k)) == sum_of(s) - s[k],
    decreases s.len(),
{
    let u = s.remove(k);
    if k == s.len() - 1 {
        assert(u =~= s.drop_last());
    } else {
        lemma_sum_remove(s.drop_last(), k);
        assert(u.drop_last() =~= s.drop_last().remove(k));
        assert(u.last() == s.last());
    }
}

proof fn lemma_sum_nonneg_bound(s: Seq<int>, k: int)
    requires
        0 <= k < s.len(),
        forall|i: int| 0 <= i < s.len() ==> #[trigger] s[i] >= 0,
    ensures
        sum_of(s) >= s[k],
    decreases s.len(),
{
    if k == s.len() - 1 {
        lemma_sum_nonneg(s.drop_last());
    } else {
        lemma_sum_nonneg_bound(s.drop_last(), k);
    }
}

proof fn lemma_sum_nonneg(s: Seq<int>)
    requires
        forall|i: int| 0 <= i < s.len() ==> #[trigger] s[i] >= 0,
    ensures
        sum_of(s) >= 0,
    decreases s.len(),
{
    if s.len() > 0 {
        lemma_sum_nonneg(s.drop_last());
    }
}

/// What the unsold policies of each offer would pay out in full.
pub open spec fn offer_cover(s: Seq<PolicyOffer>) -> Seq<int> {
    s.map_values(|p: PolicyOffer| dmul(p.coverage@, p.remaining@))
}

/// What each purchased policy may still claim.
pub open spec fn purchase_claims(s: Seq<Purchase>) -> Seq<int> {
    s.map_values(|p: Purchase| p.amount@)
}

/// The position of the offer of `policy`.
pub open spec fn offer_index(s: Seq<PolicyOffer>, policy: ResourceAddress) -> Option<int> {
    if exists|i: int| 0 <= i < s.len() && (#[trigger] s[i]).resource == policy {
        Some(choose|i: int| 0 <= i < s.len() && (#[trigger] s[i]).resource == policy)
    } else {
        None
    }
}

/// The position of the policy `policy` bought by `insurer`.
pub open spec fn purchase_index(s: Seq<Purchase>, insurer: ComponentAddress, policy: ResourceAddress) -> Option<int> {
    if exists|i: int| 0 <= i < s.len() && (#[trigger] s[i]).insurer == insurer && s[i].policy == policy {
        Some(choose|i: int| 0 <= i < s.len() && (#[trigger] s[i]).insurer == insurer && s[i].policy == policy)
    } else {
        None
    }
}

/// The insurer's component: the XRD free to back new policies, the XRD
/// locked behind the policies offered and sold, the offers and the policies
/// sold.
pub struct Insurance {
    org_badge: ResourceAddress,
    xrd: ResourceAddress,
    assets_pool: Decimal,
    locked_pool: Decimal,
    policies: Vec<PolicyOffer>,
    purchases: Vec<Purchase>,
}

impl Insurance {
    pub closed spec fn assets_amount(&self) -> Decimal {
        self.assets_pool
    }

    pub closed spec fn locked_amount(&self) -> Decimal {
        self.locked_pool
    }

    pub closed spec fn offers(&self) -> Seq<PolicyOffer> {
        self.policies@
    }

    pub closed spec fn sold(&self) -> Seq<Purchase> {
        self.purchases@
    }

    pub closed spec fn xrd_address(&self) -> ResourceAddress {
        self.xrd
    }

    /// The XRD locked is exactly what the unsold and the sold policies may
    /// still pay out; no two offers share a resource and no insurer holds a
    /// policy twice; amounts are not negative and each offer has a positive
    /// coverage.
    pub closed spec fn wf(&self) -> bool {
        &&& self.locked_pool@ == sum_of(offer_cover(self.policies@)) + sum_of(purchase_claims(self.purchases@))
        &&& self.assets_pool@ >= 0
        &&& forall|i: int|
            0 <= i < self.policies@.len() ==> (#[trigger] self.policies@[i]).remaining@ >= 0
                && self.policies@[i].coverage@ > 0 && self.policies@[i].price@ > 0
        &&& forall|i: int| 0 <= i < self.purchases@.len() ==> (#[trigger] self.purchases@[i]).amount@ >= 0
        &&& forall|i: int, j: int|
            0 <= i < j < self.policies@.len() ==> (#[trigger] self.policies@[i]).resource
                != (#[trigger] self.policies@[j]).resource
        &&& forall|i: int, j: int|
            0 <= i < j < self.purchases@.len() ==> !((#[trigger] self.purchases@[i]).insurer
                == (#[trigger] self.purchases@[j]).insurer && self.purchases@[i].policy == self.purchases@[j].policy)
    }

    /// A law of the insurer: the XRD locked covers every claim that a
    /// policy sold may still make.
    pub proof fn lemma_claims_covered(&self, k: int)
        requires
            self.wf(),
            0 <= k < self.sold().len(),
        ensures
            self.sold()[k].amount@ <= self.locked_amount()@,
    {
        let c = purchase_claims(self.purchases@);
        let o = offer_cover(self.policies@);
        lemma_sum_nonneg_bound(c, k);
        assert forall|i: int| 0 <= i < o.len() implies #[trigger] o[i] >= 0 by {
            lemma_dmul_nonneg(self.policies@[i].coverage@, self.policies@[i].remaining@);
        }
        lemma_sum_nonneg(o);
    }

    /// An insurer backed by `base_assets` XRD, whose organisation badge is
    /// `org_badge`; one of the two badges goes to the caller.
    pub fn new(base_assets: Bucket, org_badge: ResourceAddress, xrd: ResourceAddress) -> (r: Result<(Insurance, Bucket), InsuranceError>)
        ensures
            base_assets.amt()@ <= 0 ==> r == Err::<(Insurance, Bucket), InsuranceError>(InsuranceError::ZeroBaseAssets),
            base_assets.amt()@ > 0 && base_assets.res() != xrd ==> r == Err::<(Insurance, Bucket), InsuranceError>(
                InsuranceError::NotXrd,
            ),
            base_assets.amt()@ > 0 && base_assets.res() == xrd ==> (r matches Ok((ins, badge)) && {
                &&& ins.wf()
                &&& ins.assets_amount() == base_assets.amt()
                &&& ins.locked_amount()@ == 0
                &&& ins.offers() == Seq::<PolicyOffer>::empty()
                &&& ins.sold() == Seq::<Purchase>::empty()
                &&& ins.xrd_address() == xrd
                &&& badge == Bucket::spec_new(org_badge, whole(1))
            }),
    {
        let amount = base_assets.amount();
        if amount.0 <= 0 {
            return Err(InsuranceError::ZeroBaseAssets);
        }
        if base_assets.resource_address() != xrd {
            return Err(InsuranceError::NotXrd);
        }
        let ins = Insurance {
            org_badge,
            xrd,
            assets_pool: amount,
            locked_pool: Decimal(0),
            policies: Vec::new(),
            purchases: Vec::new(),
        };
        proof {
            assert(offer_cover(ins.policies@) =~= Seq::<int>::empty());
            assert(purchase_claims(ins.purchases@) =~= Seq::<int>::empty());
        }
        Ok((ins, Bucket::of(org_badge, Decimal(1_000_000_000_000_000_000))))
    }

    /// The XRD free to back new policies.
    pub fn assets(&self) -> (r: Decimal)
        ensures
            r == self.assets_amount(),
    {
        self.assets_pool
    }

    /// The XRD locked behind the policies.
    pub fn locked(&self) -> (r: Decimal)
        ensures
            r == self.locked_amount(),
    {
        self.locked_pool
    }

    fn find_offer(&self, policy: ResourceAddress) -> (r: Option<usize>)
        requires
            self.wf(),
        ensures
            match r {
                Some(i) => i < self.policies@.len() && offer_index(self.policies@, policy) == Some(i as int),
                None => offer_index(self.policies@, policy) is None,
            },
    {
        let mut i: usize = 0;
        while i < self.policies.len()
            invariant
                i <= self.policies@.len(),
                self.wf(),
                forall|j: int| 0 <= j < i ==> (#[trigger] self.policies@[j]).resource != policy,
            decreases self.policies@.len() - i,
        {
            if self.policies[i].resource == policy {
                proof {
                    let s = self.policies@;
                    let c = choose|c: int| 0 <= c < s.len() && (#[trigger] s[c]).resource == policy;
                    if c < i {
                        assert(s[c].resource != policy);
                    } else if c > i {
                        assert(s[i as int].resource != s[c].resource);
                    }
                }
                return Some(i);
            }
            i = i + 1;
        }
        None
    }

    fn find_purchase(&self, insurer: ComponentAddress, policy: ResourceAddress) -> (r: Option<usize>)
        requires
            self.wf(),
        ensures
            match r {
                Some(i) => i < self.purchases@.len() && purchase_index(self.purchases@, insurer, policy) == Some(i as int),
                None => purchase_index(self.purchases@, insurer, policy) is None,
            },
    {
        let mut i: usize = 0;
        while i < self.purchases.len()
            invariant
                i <= self.purchases@.len(),
                self.wf(),
                forall|j: int|
                    0 <= j < i ==> !((#[trigger] self.purchases@[j]).insurer == insurer && self.purchases@[j].policy == policy),
            decreases self.purchases@.len() - i,
        {
            if self.purchases[i].insurer == insurer && self.purchases[i].policy == policy {
                proof {
                    let s = self.purchases@;
                    let c = choose|c: int| 0 <= c < s.len() && (#[trigger] s[c]).insurer == insurer && s[c].policy == policy;
                    if c < i {
                        assert(!(s[c].insurer == insurer && s[c].policy == policy));
                    } else if c > i {
                        assert(!(s[i as int].insurer == s[c].insurer && s[i as int].policy == s[c].policy));
                    }
                }
                return Some(i);
            }
            i = i + 1;
        }
        None
    }

    /// Offers `supply` policies of `policy_resource`, a resource made for
    /// them, each covering `coverage` XRD for `duration` epochs at `price`,
    /// and locks their full coverage out of the free assets.
    pub fn make_policy(
        &mut self,
        policy_type: String,
        coverage: Decimal,
        price: Decimal,
        duration: u64,
        supply: Decimal,
        policy_resource: ResourceAddress,
    ) -> (r: Result<(), InsuranceError>)
        requires
            old(self).wf(),
            offer_index(old(self).offers(), policy_resource) is None,
        ensures
            final(self).wf(),
            r is Err ==> *final(self) == *old(self),
            if coverage@ <= 0 {
                r == Err::<(), InsuranceError>(InsuranceError::ZeroCoverage)
            } else if price@ <= 0 {
                r == Err::<(), InsuranceError>(InsuranceError::ZeroPrice)
            } else if duration == 0 {
                r == Err::<(), InsuranceError>(InsuranceError::ZeroDuration)
            } else if supply@ <= 0 {
                r == Err::<(), InsuranceError>(InsuranceError::ZeroSupply)
            } else if dec_of(dmul(coverage@, supply@)) is None || dec_of(
                old(self).locked_amount()@ + dmul(coverage@, supply@),
            ) is None {
                r == Err::<(), InsuranceError>(InsuranceError::Overflow)
            } else if old(self).assets_amount()@ < dmul(coverage@, supply@) {
                r == Err::<(), InsuranceError>(InsuranceError::NotEnoughAssets)
            } else {
                &&& r is Ok
                &&& final(self).offers().len() == old(self).offers().len() + 1
                &&& final(self).offers().drop_last() == old(self).offers()
                &&& final(self).offers().last().resource == policy_resource
                &&& final(self).offers().last().remaining == supply
                &&& final(self).offers().last().price == price
                &&& final(self).offers().last().coverage == coverage
                &&& final(self).offers().last().duration == duration
                &&& final(self).offers().last().policy_type@ == policy_type@
                &&& final(self).sold() == old(self).sold()
                &&& final(self).assets_amount()@ == old(self).assets_amount()@ - dmul(coverage@, supply@)
                &&& final(self).locked_amount()@ == old(self).locked_amount()@ + dmul(coverage@, supply@)
            },
    {
        if coverage.0 <= 0 {
            return Err(InsuranceError::ZeroCoverage);
        }
        if price.0 <= 0 {
            return Err(InsuranceError::ZeroPrice);
        }
        if duration == 0 {
            return Err(InsuranceError::ZeroDuration);
        }
        if supply.0 <= 0 {
            return Err(InsuranceError::ZeroSupply);
        }
        let volume = match coverage.checked_mul(supply) {
            Some(v) => v,
            None => return Err(InsuranceError::Overflow),
        };
        let locked = match self.locked_pool.checked_add(volume) {
            Some(l) => l,
            None => return Err(InsuranceError::Overflow),
        };
        if self.assets_pool.0 < volume.0 {
            return Err(InsuranceError::NotEnoughAssets);
        }
        let ghost before = self.policies@;
        proof {
            lemma_dmul_nonneg(coverage@, supply@);
        }
        self.policies.push(PolicyOffer { resource: policy_resource, remaining: supply, policy_type, price, coverage, duration });
        self.assets_pool = Decimal(self.assets_pool.0 - volume.0);
        self.locked_pool = locked;
        proof {
            let s = self.policies@;
            assert(s.drop_last() =~= before);
            assert(offer_cover(s).drop_last() =~= offer_cover(before));
            assert forall|i: int, j: int| 0 <= i < j < s.len() implies (#[trigger] s[i]).resource != (#[trigger] s[j]).resource by {
                if j == before.len() {
                    assert(s[i] == before[i]);
                    if before[i].resource == policy_resource {
                        assert(exists|k: int| 0 <= k < before.len() && (#[trigger] before[k]).resource == policy_resource);
                    }
                } else {
                    assert(s[i] == before[i] && s[j] == before[j]);
                }
            }
            assert forall|i: int| 0 <= i < s.len() implies (#[trigger] s[i]).remaining@ >= 0 && s[i].coverage@ > 0
                && s[i].price@ > 0 by {
                if i < before.len() {
                    assert(s[i] == before[i]);
                }
            }
        }
        Ok(())
    }

    /// Sells one policy of `policy_address` to `insurer`, paid out of the
    /// XRD in `bucket`, from `now` for the policy's duration; the insurer
    /// receives a claim of the policy's full coverage, as tokens of
    /// `purchase_badge`, a resource made for it. Gives the change.
    pub fn purchase(
        &mut self,
        policy_address: ResourceAddress,
        insurer: ComponentAddress,
        bucket: Bucket,
        now: u64,
        purchase_badge: ResourceAddress,
    ) -> (r: Result<Bucket, InsuranceError>)
        requires
            old(self).wf(),
        ensures
            final(self).wf(),
            r is Err ==> *final(self) == *old(self),
            match offer_index(old(self).offers(), policy_address) {
                None => r == Err::<Bucket, InsuranceError>(InsuranceError::NoPolicy),
                Some(i) => {
                    let p = old(self).offers()[i];
                    if bucket.res() != old(self).xrd_address() {
                        r == Err::<Bucket, InsuranceError>(InsuranceError::NotXrd)
                    } else if purchase_index(old(self).sold(), insurer, policy_address) is Some {
                        r == Err::<Bucket, InsuranceError>(InsuranceError::AlreadyInsured)
                    } else if p.remaining@ < dec_one() {
                        r == Err::<Bucket, InsuranceError>(InsuranceError::NoPolicyAvailable)
                    } else if bucket.amt()@ < p.price@ {
                        r == Err::<Bucket, InsuranceError>(InsuranceError::NotEnoughPaid)
                    } else if now + p.duration > u64::MAX || dec_of(old(self).assets_amount()@ + p.price@) is None {
                        r == Err::<Bucket, InsuranceError>(InsuranceError::Overflow)
                    } else {
                        &&& r == Ok::<Bucket, InsuranceError>(
                            Bucket::spec_new(bucket.res(), Decimal((bucket.amt()@ - p.price@) as i128)),
                        )
                        &&& final(self).offers().len() == old(self).offers().len()
                        &&& forall|j: int|
                            0 <= j < old(self).offers().len() && j != i ==> #[trigger] final(self).offers()[j]
                                == old(self).offers()[j]
                        &&& final(self).offers()[i].remaining@ == p.remaining@ - dec_one()
                        &&& final(self).offers()[i].resource == p.resource
                        &&& final(self).offers()[i].coverage == p.coverage
                        &&& final(self).offers()[i].price == p.price
                        &&& final(self).sold() == old(self).sold().push(
                            Purchase {
                                insurer,
                                policy: policy_address,
                                badge: purchase_badge,
                                amount: p.coverage,
                                expires: (now + p.duration) as u64,
                            },
                        )
                        &&& final(self).assets_amount()@ == old(self).assets_amount()@ + p.price@
                        &&& final(self).locked_amount() == old(self).locked_amount()
                    }
                },
            },
    {
        let i = match self.find_offer(policy_address) {
            Some(i) => i,
            None => return Err(InsuranceError::NoPolicy),
        };
        if bucket.resource_address() != self.xrd {
            return Err(InsuranceError::NotXrd);
        }
        if self.find_purchase(insurer, policy_address).is_some() {
            return Err(InsuranceError::AlreadyInsured);
        }
        let remaining = self.policies[i].remaining;
        let price = self.policies[i].price;
        let coverage = self.policies[i].coverage;
        let duration = self.policies[i].duration;
        if remaining.0 < 1_000_000_000_000_000_000 {
            return Err(InsuranceError::NoPolicyAvailable);
        }
        let paid = bucket.amount();
        if paid.0 < price.0 {
            return Err(InsuranceError::NotEnoughPaid);
        }
        let expires = match now.checked_add(duration) {
            Some(e) => e,
            None => return Err(InsuranceError::Overflow),
        };
        let assets = match self.assets_pool.checked_add(price) {
            Some(a) => a,
            None => return Err(InsuranceError::Overflow),
        };
        let ghost before = self.policies@;
        let ghost sold_before = self.purchases@;
        let mut offer = self.policies.remove(i);
        offer.remaining = Decimal(remaining.0 - 1_000_000_000_000_000_000);
        self.policies.insert(i, offer);
        self.purchases.push(Purchase { insurer, policy: policy_address, badge: purchase_badge, amount: coverage, expires });
        self.assets_pool = assets;
        proof {
            let s = self.policies@;
            assert(s =~= before.update(i as int, s[i as int]));
            lemma_dmul_sub_one(coverage@, remaining@);
            assert(offer_cover(s) =~= offer_cover(before).update(i as int, dmul(coverage@, remaining@) - coverage@));
            lemma_sum_update(offer_cover(before), i as int, dmul(coverage@, remaining@) - coverage@);
            let t = self.purchases@;
            assert(purchase_claims(t).drop_last() =~= purchase_claims(sold_before));
            assert(sum_of(purchase_claims(t)) == sum_of(purchase_claims(sold_before)) + coverage@);
            assert forall|a: int, b: int| 0 <= a < b < s.len() implies (#[trigger] s[a]).resource != (#[trigger] s[b]).resource by {
                assert(before[a].resource != before[b].resource);
            }
            assert forall|a: int| 0 <= a < s.len() implies (#[trigger] s[a]).remaining@ >= 0 && s[a].coverage@ > 0
                && s[a].price@ > 0 by {
                assert(before[a].remaining@ >= 0 && before[a].coverage@ > 0 && before[a].price@ > 0);
            }
            assert forall|a: int, b: int| 0 <= a < b < t.len() implies !((#[trigger] t[a]).insurer == (#[trigger] t[b]).insurer
                && t[a].policy == t[b].policy) by {
                if b == sold_before.len() {
                    assert(t[a] == sold_before[a]);
                    if sold_before[a].insurer == insurer && sold_before[a].policy == policy_address {
                        assert(exists|k: int| 0 <= k < sold_before.len() && (#[trigger] sold_before[k]).insurer == insurer
                            && sold_before[k].policy == policy_address);
                    }
                } else {
                    assert(t[a] == sold_before[a] && t[b] == sold_before[b]);
                }
            }
            assert forall|a: int| 0 <= a < t.len() implies (#[trigger] t[a]).amount@ >= 0 by {
                if a < sold_before.len() {
                    assert(t[a] == sold_before[a]);
                }
            }
        }
        Ok(Bucket::of(bucket.resource_address(), Decimal(paid.0 - price.0)))
    }

    /// Pays `amount` of the claim that `insurer` holds on `policy_address`,
    /// at epoch `now`, out of the XRD locked; gives the payout.
    pub fn approve(&mut self, insurer: ComponentAddress, policy_address: ResourceAddress, amount: Decimal, now: u64) -> (r:
        Result<Bucket, InsuranceError>)
        requires
            old(self).wf(),
        ensures
            final(self).wf(),
            r is Err ==> *final(self) == *old(self),
            match purchase_index(old(self).sold(), insurer, policy_address) {
                None => r == Err::<Bucket, InsuranceError>(InsuranceError::NoPurchase),
                Some(i) => {
                    let p = old(self).sold()[i];
                    if !(0 <= amount@ <= p.amount@) {
                        r == Err::<Bucket, InsuranceError>(InsuranceError::InvalidAmount)
                    } else if now > p.expires {
                        r == Err::<Bucket, InsuranceError>(InsuranceError::PolicyExpired)
                    } else {
                        &&& r == Ok::<Bucket, InsuranceError>(Bucket::spec_new(old(self).xrd_address(), amount))
                        &&& final(self).sold() == old(self).sold().update(
                            i,
                            Purchase { amount: Decimal((p.amount@ - amount@) as i128), ..p },
                        )
                        &&& final(self).offers() == old(self).offers()
                        &&& final(self).locked_amount()@ == old(self).locked_amount()@ - amount@
                        &&& final(self).assets_amount() == old(self).assets_amount()
                    }
                },
            },
    {
        let i = match self.find_purchase(insurer, policy_address) {
            Some(i) => i,
            None => return Err(InsuranceError::NoPurchase),
        };
        let p = self.purchases[i];
        if amount.0 < 0 || amount.0 > p.amount.0 {
            return Err(InsuranceError::InvalidAmount);
        }
        if now > p.expires {
            return Err(InsuranceError::PolicyExpired);
        }
        proof {
            self.lemma_claims_covered(i as int);
        }
        let ghost before = self.purchases@;
        self.purchases.set(i, Purchase { amount: Decimal(p.amount.0 - amount.0), ..p });
        self.locked_pool = Decimal(self.locked_pool.0 - amount.0);
        proof {
            let t = self.purchases@;
            assert(purchase_claims(t) =~= purchase_claims(before).update(i as int, p.amount@ - amount@));
            lemma_sum_update(purchase_claims(before), i as int, p.amount@ - amount@);
            assert forall|a: int, b: int| 0 <= a < b < t.len() implies !((#[trigger] t[a]).insurer == (#[trigger] t[b]).insurer
                && t[a].policy == t[b].policy) by {
                assert(!(before[a].insurer == before[b].insurer && before[a].policy == before[b].policy));
            }
            assert forall|a: int| 0 <= a < t.len() implies (#[trigger] t[a]).amount@ >= 0 by {
                assert(before[a].amount@ >= 0);
            }
        }
        Ok(Bucket::of(self.xrd, amount))
    }

    /// Once the claim that `insurer` holds on `policy_address` has expired,
    /// burns what is left of it and unlocks that much of the assets.
    pub fn burn_purchases(&mut self, insurer: ComponentAddress, policy_address: ResourceAddress, now: u64) -> (r: Result<
        (),
        InsuranceError,
    >)
        requires
            old(self).wf(),
        ensures
            final(self).wf(),
            r is Err ==> *final(self) == *old(self),
            match purchase_index(old(self).sold(), insurer, policy_address) {
                None => r == Err::<(), InsuranceError>(InsuranceError::NoPurchase),
                Some(i) => {
                    let p = old(self).sold()[i];
                    if now <= p.expires {
                        r == Err::<(), InsuranceError>(InsuranceError::PolicyNotExpired)
                    } else if dec_of(old(self).assets_amount()@ + p.amount@) is None {
                        r == Err::<(), InsuranceError>(InsuranceError::Overflow)
                    } else {
                        &&& r is Ok
                        &&& final(self).sold() == old(self).sold().remove(i)
                        &&& final(self).offers() == old(self).offers()
                        &&& final(self).locked_amount()@ == old(self).locked_amount()@ - p.amount@
                        &&& final(self).assets_amount()@ == old(self).assets_amount()@ + p.amount@
                    }
                },
            },
    {
        let i = match self.find_purchase(insurer, policy_address) {
            Some(i) => i,
            None => return Err(InsuranceError::NoPurchase),
        };
        let p = self.purchases[i];
        if now <= p.expires {
            return Err(InsuranceError::PolicyNotExpired);
        }
        let assets = match self.assets_pool.checked_add(p.amount) {
            Some(a) => a,
            None => return Err(InsuranceError::Overflow),
        };
        proof {
            self.lemma_claims_covered(i as int);
        }
        let ghost before = self.purchases@;
        self.purchases.remove(i);
        self.locked_pool = Decimal(self.locked_pool.0 - p.amount.0);
        self.assets_pool = assets;
        proof {
            let t = self.purchases@;
            assert(purchase_claims(t) =~= purchase_claims(before).remove(i as int));
            lemma_sum_remove(purchase_claims(before), i as int);
            assert forall|a: int, b: int| 0 <= a < b < t.len() implies !((#[trigger] t[a]).insurer == (#[trigger] t[b]).insurer
                && t[a].policy == t[b].policy) by {
                let a0 = if a < i { a } else { a + 1 };
                let b0 = if b < i { b } else { b + 1 };
                assert(t[a] == before[a0] && t[b] == before[b0]);
            }
            assert forall|a: int| 0 <= a < t.len() implies (#[trigger] t[a]).amount@ >= 0 by {
                assert(t[a] == before[if a < i { a } else { a + 1 }]);
            }
        }
        Ok(())
    }

    /// Withdraws the unsold policies of `policy_address` and unlocks their
    /// coverage.
    pub fn burn_policies(&mut self, policy_address: ResourceAddress) -> (r: Result<(), InsuranceError>)
        requires
            old(self).wf(),
        ensures
            final(self).wf(),
            r is Err ==> *final(self) == *old(self),
            match offer_index(old(self).offers(), policy_address) {
                None => r == Err::<(), InsuranceError>(InsuranceError::NoPolicy),
                Some(i) => {
                    let volume = dmul(old(self).offers()[i].remaining@, old(self).offers()[i].coverage@);
                    if dec_of(volume) is None || dec_of(old(self).assets_amount()@ + volume) is None {
                        r == Err::<(), InsuranceError>(InsuranceError::Overflow)
                    } else {
                        &&& r is Ok
                        &&& final(self).offers() == old(self).offers().remove(i)
                        &&& final(self).sold() == old(self).sold()
                        &&& final(self).locked_amount()@ == old(self).locked_amount()@ - volume
                        &&& final(self).assets_amount()@ == old(self).assets_amount()@ + volume
                    }
                },
            },
    {
        let i = match self.find_offer(policy_address) {
            Some(i) => i,
            None => return Err(InsuranceError::NoPolicy),
        };
        let remaining = self.policies[i].remaining;
        let coverage = self.policies[i].coverage;
        let volume = match remaining.checked_mul(coverage) {
            Some(v) => v,
            None => return Err(InsuranceError::Overflow),
        };
        let assets = match self.assets_pool.checked_add(volume) {
            Some(a) => a,
            None => return Err(InsuranceError::Overflow),
        };
        let ghost before = self.policies@;
        proof {
            let o = offer_cover(before);
            assert(dmul(remaining@, coverage@) == dmul(coverage@, remaining@)) by (nonlinear_arith);
            assert(o[i as int] == volume@);
            assert forall|a: int| 0 <= a < o.len() implies #[trigger] o[a] >= 0 by {
                lemma_dmul_nonneg(before[a].coverage@, before[a].remaining@);
            }
            lemma_sum_nonneg_bound(o, i as int);
            lemma_sum_nonneg(purchase_claims(self.purchases@));
            assert forall|a: int| 0 <= a < purchase_claims(self.purchases@).len() implies #[trigger] purchase_claims(
                self.purchases@,
            )[a] >= 0 by {
                assert(self.purchases@[a].amount@ >= 0);
            }
            lemma_sum_nonneg(purchase_claims(self.purchases@));
        }
        self.policies.remove(i);
        self.locked_pool = Decimal(self.locked_pool.0 - volume.0);
        self.assets_pool = assets;
        proof {
            let s = self.policies@;
            assert(offer_cover(s) =~= offer_cover(before).remove(i as int));
            lemma_sum_remove(offer_cover(before), i as int);
            assert forall|a: int, b: int| 0 <= a < b < s.len() implies (#[trigger] s[a]).resource != (#[trigger] s[b]).resource by {
                let a0 = if a < i { a } else { a + 1 };
                let b0 = if b < i { b } else { b + 1 };
                assert(s[a] == before[a0] && s[b] == before[b0]);
            }
            assert forall|a: int| 0 <= a < s.len() implies (#[trigger] s[a]).remaining@ >= 0 && s[a].coverage@ > 0
                && s[a].price@ > 0 by {
                assert(s[a] == before[if a < i { a } else { a + 1 }]);
            }
        }
        Ok(())
    }

    /// Adds the XRD in `bucket` to the free assets.
    pub fn deposit(&mut self, bucket: Bucket) -> (r: Result<(), InsuranceError>)
        requires
            old(self).wf(),
        ensures
            final(self).wf(),
            r is Err ==> *final(self) == *old(self),
            if bucket.res() != old(self).xrd_address() {
                r == Err::<(), InsuranceError>(InsuranceError::NotXrd)
            } else if bucket.amt()@ <= 0 {
                r == Err::<(), InsuranceError>(InsuranceError::ZeroDeposit)
            } else if dec_of(old(self).assets_amount()@ + bucket.amt()@) is None {
                r == Err::<(), InsuranceError>(InsuranceError::Overflow)
            } else {
                &&& r is Ok
                &&& final(self).assets_amount()@ == old(self).assets_amount()@ + bucket.amt()@
                &&& final(self).locked_amount() == old(self).locked_amount()
                &&& final(self).offers() == old(self).offers()
                &&& final(self).sold() == old(self).sold()
            },
    {
        if bucket.resource_address() != self.xrd {
            return Err(InsuranceError::NotXrd);
        }
        let amount = bucket.amount();
        if amount.0 <= 0 {
            return Err(InsuranceError::ZeroDeposit);
        }
        match self.assets_pool.checked_add(amount) {
            Some(a) => {
                self.assets_pool = a;
                Ok(())
            },
            None => Err(InsuranceError::Overflow),
        }
    }

    /// Gives `amount` of the free assets.
    pub fn withdraw(&mut self, amount: Decimal) -> (r: Result<Bucket, InsuranceError>)
        requires
            old(self).wf(),
        ensures
            final(self).wf(),
            r is Err ==> *final(self) == *old(self),
            !(0 <= amount@ <= old(self).assets_amount()@) ==> r == Err::<Bucket, InsuranceError>(
                InsuranceError::NotEnoughAssets,
            ),
            0 <= amount@ <= old(self).assets_amount()@ ==> {
                &&& r == Ok::<Bucket, InsuranceError>(Bucket::spec_new(old(self).xrd_address(), amount))
                &&& final(self).assets_amount()@ == old(self).assets_amount()@ - amount@
                &&& final(self).locked_amount() == old(self).locked_amount()
                &&& final(self).offers() == old(self).offers()
                &&& final(self).sold() == old(self).sold()
            },
    {
        if amount.0 < 0 || amount.0 > self.assets_pool.0 {
            return Err(InsuranceError::NotEnoughAssets);
        }
        self.assets_pool = Decimal(self.assets_pool.0 - amount.0);
        Ok(Bucket::of(self.xrd, amount))
    }
}

proof fn lemma_dmul_nonneg(a: int, b: int)
    requires
        a >= 0,
        b >= 0,
    ensures
        dmul(a, b) >= 0,
{
    assert(a * b >= 0) by (nonlinear_arith)
        requires
            a >= 0,
            b >= 0,
    ;
}

/// Covering one policy fewer needs exactly one coverage less.
proof fn lemma_dmul_sub_one(c: int, s: int)
    requires
        c >= 0,
        s >= dec_one(),
    ensures
        dmul(c, s - dec_one()) == dmul(c, s) - c,
{
    let d = dec_one();
    assert(c * (s - d) == c * s - c * d) by (nonlinear_arith);
    assert(c * (s - d) >= 0) by (nonlinear_arith)
        requires
            c >= 0,
            s - d >= 0,
    ;
    assert((c * s - c * d) / d == (c * s) / d - c) by (nonlinear_arith)
        requires
            d > 0,
    ;
}

} // verus!
