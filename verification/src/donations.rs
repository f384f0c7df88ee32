//! Donations: an owner offers badges at a price in XRD; a donor who pays
//! the price receives one badge, the owner receives the price less the
//! platform's fee, and the platform keeps the fee.
use vstd::prelude::*;
use crate::decimal::{dec_of, dec_one, ddiv, dmul, whole, Decimal};
use crate::resource::{group_bucket, Bucket, ComponentAddress, ResourceAddress};

verus! {

broadcast use group_bucket;

/// What a badge says of itself.
pub struct BadgeInfo {
    pub identifier: String,
    pub title: String,
    pub description: String,
    pub url: String,
}

/// The badges of one kind that an owner offers, and their price.
pub struct BadgeVault {
    pub owner: ComponentAddress,
    pub resource: ResourceAddress,
    pub amount: Decimal,
    pub price: Decimal,
    pub info: BadgeInfo,
}

/// Why a donations call is refused. A refused call changes nothing.
#[derive(Clone, Copy, Debug, PartialEq, Eq, Structural)]
pub enum DonationError {
    ZeroSupply,
    ZeroPrice,
    /// Badges come in whole units.
    SupplyNotWhole,
    NoBadgesForOwner,
    /// Donations are paid in XRD.
    NotXrd,
    NoSuchBadge,
    NoBadgeAvailable,
    NotEnoughPaid,
    /// The fee or an amount does not fit.
    Overflow,
    /// The fee is negative or more than the price.
    FeeOutOfRange,
    /// More is asked than the fees collected, or a negative amount.
    InvalidWithdrawal,
}

/// What a donation gives: one badge, the change, and what goes to the
/// badge's owner.
pub struct Donation {
    pub badge: Bucket,
    pub change: Bucket,
    pub to_owner: Bucket,
}

/// The fee on `price` at `fee_percent` percent.
pub open spec fn donation_fee(price: Decimal, fee_percent: Decimal) -> Option<Decimal> {
    match dec_of(dmul(price@, fee_percent@)) {
        Some(p) => dec_of(ddiv(p@, 100 * dec_one())),
        None => None,
    }
}

/// Whether `owner` offers any badges in `s`.
pub open spec fn has_owner(s: Seq<BadgeVault>, owner: ComponentAddress) -> bool {
    exists|i: int| 0 <= i < s.len() && (#[trigger] s[i]).owner == owner
}

/// The first position of the badges of `resource` that `owner` offers.
pub open spec fn badge_index(s: Seq<BadgeVault>, owner: ComponentAddress, resource: ResourceAddress) -> Option<int> {
    if exists|i: int| 0 <= i < s.len() && (#[trigger] s[i]).owner == owner && s[i].resource == resource {
        Some(
            choose|i: int|
                0 <= i < s.len() && (#[trigger] s[i]).owner == owner && s[i].resource == resource && forall|j: int|
                    0 <= j < i ==> !((#[trigger] s[j]).owner == owner && s[j].resource == resource),
        )
    } else {
        None
    }
}

/// Whether `d` is a whole number.
pub open spec fn is_whole(d: Decimal) -> bool {
    d@ % dec_one() == 0
}

/// The donations platform.
pub struct Donations {
    admin_badge: ResourceAddress,
    xrd: ResourceAddress,
    fee: Decimal,
    collected_fees: Decimal,
    badges: Vec<BadgeVault>,
}

impl Donations {
    pub closed spec fn vaults(&self) -> Seq<BadgeVault> {
        self.badges@
    }

    pub closed spec fn fees(&self) -> Decimal {
        self.collected_fees
    }

    pub closed spec fn fee_percent(&self) -> Decimal {
        self.fee
    }

    pub closed spec fn xrd_address(&self) -> ResourceAddress {
        self.xrd
    }

    /// Every offer holds a whole, non-negative number of badges at a positive
    /// price, and the fees collected are not negative.
    pub closed spec fn wf(&self) -> bool {
        &&& forall|i: int|
            0 <= i < self.badges@.len() ==> (#[trigger] self.badges@[i]).amount@ >= 0 && is_whole(self.badges@[i].amount)
                && self.badges@[i].price@ > 0
        &&& self.collected_fees@ >= 0
    }

    /// A platform charging `fee_percent` percent, whose admin badge is
    /// `admin_badge`; one of the two admin badges goes to the caller.
    pub fn new(fee_percent: Decimal, admin_badge: ResourceAddress, xrd: ResourceAddress) -> (r: (Donations, Bucket))
        ensures
            r.0.wf(),
            r.0.vaults() == Seq::<BadgeVault>::empty(),
            r.0.fees()@ == 0,
            r.0.fee_percent() == fee_percent,
            r.0.xrd_address() == xrd,
            r.1 == Bucket::spec_new(admin_badge, whole(1)),
    {
        let d = Donations { admin_badge, xrd, fee: fee_percent, collected_fees: Decimal(0), badges: Vec::new() };
        (d, Bucket::of(admin_badge, Decimal(1_000_000_000_000_000_000)))
    }

    /// Offers `supply` badges of `badge_resource`, a resource made for
    /// them, for `owner` at `price` XRD each.
    pub fn make_badge(
        &mut self,
        owner: ComponentAddress,
        identifier: String,
        title: String,
        description: String,
        url: String,
        price: Decimal,
        supply: Decimal,
        badge_resource: ResourceAddress,
    ) -> (r: Result<(), DonationError>)
        requires
            old(self).wf(),
        ensures
            final(self).wf(),
            r is Err ==> *final(self) == *old(self),
            if supply@ <= 0 {
                r == Err::<(), DonationError>(DonationError::ZeroSupply)
            } else if price@ <= 0 {
                r == Err::<(), DonationError>(DonationError::ZeroPrice)
            } else if !is_whole(supply) {
                r == Err::<(), DonationError>(DonationError::SupplyNotWhole)
            } else {
                &&& r is Ok
                &&& final(self).vaults().len() == old(self).vaults().len() + 1
                &&& final(self).vaults().drop_last() == old(self).vaults()
                &&& final(self).vaults().last().owner == owner
                &&& final(self).vaults().last().resource == badge_resource
                &&& final(self).vaults().last().amount == supply
                &&& final(self).vaults().last().price == price
                &&& final(self).vaults().last().info.identifier@ == identifier@
                &&& final(self).vaults().last().info.title@ == title@
                &&& final(self).vaults().last().info.description@ == description@
                &&& final(self).vaults().last().info.url@ == url@
                &&& final(self).fees() == old(self).fees()
            },
    {
        if supply.0 <= 0 {
            return Err(DonationError::ZeroSupply);
        }
        if price.0 <= 0 {
            return Err(DonationError::ZeroPrice);
        }
        if supply.0 % 1_000_000_000_000_000_000 != 0 {
            return Err(DonationError::SupplyNotWhole);
        }
        let ghost before = self.badges@;
        self.badges.push(
            BadgeVault {
                owner,
                resource: badge_resource,
                amount: supply,
                price,
                info: BadgeInfo { identifier, title, description, url },
            },
        );
        proof {
            assert(self.badges@.drop_last() =~= before);
            assert forall|i: int| 0 <= i < self.badges@.len() implies (#[trigger] self.badges@[i]).amount@ >= 0 && is_whole(
                self.badges@[i].amount,
            ) && self.badges@[i].price@ > 0 by {
                if i < before.len() {
                    assert(self.badges@[i] == before[i]);
                }
            }
        }
        Ok(())
    }

    /// The resources of the badges that `owner` still offers, in the order
    /// they were made.
    pub fn get_badges(&self, owner: ComponentAddress) -> (r: Result<Vec<ResourceAddress>, DonationError>)
        ensures
            !has_owner(self.vaults(), owner) ==> r == Err::<Vec<ResourceAddress>, DonationError>(
                DonationError::NoBadgesForOwner,
            ),
            has_owner(self.vaults(), owner) ==> (r matches Ok(v) && v@ == offered(self.vaults(), owner)),
    {
        let mut found = false;
        let mut r: Vec<ResourceAddress> = Vec::new();
        let mut i: usize = 0;
        while i < self.badges.len()
            invariant
                i <= self.badges@.len(),
                r@ == offered(self.badges@.take(i as int), owner),
                found <==> has_owner(self.badges@.take(i as int), owner),
            decreases self.badges@.len() - i,
        {
            let ghost s = self.badges@;
            let b = &self.badges[i];
            if b.owner == owner {
                found = true;
                if b.amount.0 > 0 {
                    r.push(b.resource);
                }
            }
            proof {
                let t = s.take(i + 1);
                let t0 = s.take(i as int);
                assert(t.drop_last() =~= t0);
                assert(t.last() == s[i as int]);
                if has_owner(t, owner) {
                    let k = choose|k: int| 0 <= k < t.len() && (#[trigger] t[k]).owner == owner;
                    if k < i {
                        assert(t0[k] == t[k]);
                    }
                }
                if has_owner(t0, owner) {
                    let k = choose|k: int| 0 <= k < t0.len() && (#[trigger] t0[k]).owner == owner;
                    assert(t[k] == t0[k]);
                }
                if s[i as int].owner == owner {
                    assert(t[i as int] == s[i as int]);
                }
            }
            i = i + 1;
        }
        assert(self.badges@.take(i as int) =~= self.badges@);
        if !found {
            return Err(DonationError::NoBadgesForOwner);
        }
        Ok(r)
    }

    fn find(&self, owner: ComponentAddress, resource: ResourceAddress) -> (r: Option<usize>)
        ensures
            match r {
                Some(i) => i < self.badges@.len() && badge_index(self.badges@, owner, resource) == Some(i as int),
                None => badge_index(self.badges@, owner, resource) is None,
            },
    {
        let mut i: usize = 0;
        while i < self.badges.len()
            invariant
                i <= self.badges@.len(),
                forall|j: int|
                    0 <= j < i ==> !((#[trigger] self.badges@[j]).owner == owner && self.badges@[j].resource == resource),
            decreases self.badges@.len() - i,
        {
            if self.badges[i].owner == owner && self.badges[i].resource == resource {
                proof {
                    let s = self.badges@;
                    let c = choose|c: int|
                        0 <= c < s.len() && (#[trigger] s[c]).owner == owner && s[c].resource == resource && forall|j: int|
                            0 <= j < c ==> !((#[trigger] s[j]).owner == owner && s[j].resource == resource);
                    if c < i {
                        assert(!(s[c].owner == owner && s[c].resource == resource));
                    }
                    if c > i {
                        assert(!(s[i as int].owner == owner && s[i as int].resource == resource));
                    }
                }
                return Some(i);
            }
            i = i + 1;
        }
        None
    }

    /// Whether `owner` offers any badges.
    fn owner_known(&self, owner: ComponentAddress) -> (r: bool)
        ensures
            r == has_owner(self.badges@, owner),
    {
        let mut i: usize = 0;
        while i < self.badges.len()
            invariant
                i <= self.badges@.len(),
                forall|j: int| 0 <= j < i ==> (#[trigger] self.badges@[j]).owner != owner,
            decreases self.badges@.len() - i,
        {
            if self.badges[i].owner == owner {
                return true;
            }
            i = i + 1;
        }
        false
    }

    /// Donates the price of one badge of `badge_address` offered by `owner`
    /// out of `payment`: gives the badge and the change, and the price less
    /// the fee for the owner; the fee stays with the platform.
    pub fn donate(&mut self, owner: ComponentAddress, badge_address: ResourceAddress, payment: Bucket) -> (r: Result<
        Donation,
        DonationError,
    >)
        requires
            old(self).wf(),
        ensures
            final(self).wf(),
            r is Err ==> *final(self) == *old(self),
            if !has_owner(old(self).vaults(), owner) {
                r matches Err(e) && e == DonationError::NoBadgesForOwner
            } else if payment.res() != old(self).xrd_address() {
                r matches Err(e) && e == DonationError::NotXrd
            } else {
                match badge_index(old(self).vaults(), owner, badge_address) {
                    None => r matches Err(e) && e == DonationError::NoSuchBadge,
                    Some(i) => {
                        let v = old(self).vaults()[i];
                        let fee = donation_fee(v.price, old(self).fee_percent());
                        if v.amount@ == 0 {
                            r matches Err(e) && e == DonationError::NoBadgeAvailable
                        } else if payment.amt()@ < v.price@ {
                            r matches Err(e) && e == DonationError::NotEnoughPaid
                        } else if fee is None {
                            r matches Err(e) && e == DonationError::Overflow
                        } else if !(0 <= fee->Some_0@ <= v.price@) {
                            r matches Err(e) && e == DonationError::FeeOutOfRange
                        } else if dec_of(old(self).fees()@ + fee->Some_0@) is None {
                            r matches Err(e) && e == DonationError::Overflow
                        } else {
                            &&& r matches Ok(d) && {
                                &&& d.badge == Bucket::spec_new(badge_address, whole(1))
                                &&& d.change == Bucket::spec_new(
                                    payment.res(),
                                    Decimal((payment.amt()@ - v.price@) as i128),
                                )
                                &&& d.to_owner == Bucket::spec_new(
                                    payment.res(),
                                    Decimal((v.price@ - fee->Some_0@) as i128),
                                )
                            }
                            &&& final(self).vaults().len() == old(self).vaults().len()
                            &&& forall|j: int|
                                0 <= j < old(self).vaults().len() && j != i ==> #[trigger] final(self).vaults()[j]
                                    == old(self).vaults()[j]
                            &&& final(self).vaults()[i].amount@ == v.amount@ - dec_one()
                            &&& final(self).vaults()[i].owner == v.owner
                            &&& final(self).vaults()[i].resource == v.resource
                            &&& final(self).vaults()[i].price == v.price
                            &&& final(self).fees()@ == old(self).fees()@ + fee->Some_0@
                        }
                    },
                }
            },
    {
        if !self.owner_known(owner) {
            return Err(DonationError::NoBadgesForOwner);
        }
        if payment.resource_address() != self.xrd {
            return Err(DonationError::NotXrd);
        }
        let i = match self.find(owner, badge_address) {
            Some(i) => i,
            None => return Err(DonationError::NoSuchBadge),
        };
        let amount = self.badges[i].amount;
        let price = self.badges[i].price;
        if amount.0 == 0 {
            return Err(DonationError::NoBadgeAvailable);
        }
        let paid = payment.amount();
        if paid.0 < price.0 {
            return Err(DonationError::NotEnoughPaid);
        }
        let fee = match price.checked_mul(self.fee) {
            Some(p) => match p.checked_div(Decimal(100 * 1_000_000_000_000_000_000)) {
                Some(f) => f,
                None => return Err(DonationError::Overflow),
            },
            None => return Err(DonationError::Overflow),
        };
        if fee.0 < 0 || fee.0 > price.0 {
            return Err(DonationError::FeeOutOfRange);
        }
        let fees = match self.collected_fees.checked_add(fee) {
            Some(f) => f,
            None => return Err(DonationError::Overflow),
        };
        proof {
            assert(self.badges@[i as int].amount@ >= 0 && is_whole(self.badges@[i as int].amount));
        }
        let ghost before = self.badges@;
        let mut v = self.badges.remove(i);
        v.amount = Decimal(amount.0 - 1_000_000_000_000_000_000);
        self.badges.insert(i, v);
        self.collected_fees = fees;
        proof {
            let s = self.badges@;
            assert forall|j: int| 0 <= j < before.len() && j != i implies #[trigger] s[j] == before[j] by {}
            assert forall|j: int| 0 <= j < s.len() implies (#[trigger] s[j]).amount@ >= 0 && is_whole(s[j].amount)
                && s[j].price@ > 0 by {
                if j != i {
                    assert(s[j] == before[j]);
                }
            }
        }
        let res = payment.resource_address();
        Ok(
            Donation {
                badge: Bucket::of(badge_address, Decimal(1_000_000_000_000_000_000)),
                change: Bucket::of(res, Decimal(paid.0 - price.0)),
                to_owner: Bucket::of(res, Decimal(price.0 - fee.0)),
            },
        )
    }

    /// Gives `amount` of the fees collected.
    pub fn withdraw(&mut self, amount: Decimal) -> (r: Result<Bucket, DonationError>)
        requires
            old(self).wf(),
        ensures
            final(self).wf(),
            r is Err ==> *final(self) == *old(self),
            !(0 <= amount@ <= old(self).fees()@) ==> (r matches Err(e) && e == DonationError::InvalidWithdrawal),
            0 <= amount@ <= old(self).fees()@ ==> {
                &&& r == Ok::<Bucket, DonationError>(Bucket::spec_new(old(self).xrd_address(), amount))
                &&& final(self).fees()@ == old(self).fees()@ - amount@
                &&& final(self).vaults() == old(self).vaults()
            },
    {
        if amount.0 < 0 || amount.0 > self.collected_fees.0 {
            return Err(DonationError::InvalidWithdrawal);
        }
        self.collected_fees = Decimal(self.collected_fees.0 - amount.0);
        Ok(Bucket::of(self.xrd, amount))
    }
}

/// The resources of the badges that `owner` still offers in `s`, in order.
pub open spec fn offered(s: Seq<BadgeVault>, owner: ComponentAddress) -> Seq<ResourceAddress>
    decreases s.len(),
{
    if s.len() == 0 {
        Seq::empty()
    } else if s.last().owner == owner && s.last().amount@ > 0 {
        offered(s.drop_last(), owner).push(s.last().resource)
    } else {
        offered(s.drop_last(), owner)
    }
}

} // verus!
