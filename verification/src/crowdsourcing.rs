//! A crowdsourcing campaign: patrons pledge XRD until a last epoch, each
//! against a badge of their own; while the campaign has not succeeded they
//! may take their pledge back, and once it has ended above its goal the
//! fundraiser takes what was collected.
use vstd::prelude::*;
use crate::decimal::{dec_of, whole, Decimal};
use crate::resource::{group_bucket, Bucket, Proof, ResourceAddress};

verus! {

broadcast use group_bucket;

/// One pledge: the patron's badge and the amount pledged.
#[derive(Clone, Copy, Debug, PartialEq, Eq, Structural)]
pub struct Pledge {
    pub badge: ResourceAddress,
    pub amount: Decimal,
}

/// Why a campaign call is refused. A refused call changes nothing.
#[derive(Clone, Copy, Debug, PartialEq, Eq, Structural)]
pub enum CampaignError {
    /// The last epoch or an amount does not fit.
    Overflow,
    ZeroPledge,
    CampaignEnded,
    /// Pledges are paid in XRD.
    WrongResource,
    /// The campaign has ended above its goal: pledges stay.
    CampaignSucceeded,
    NoPledge,
    /// The campaign holds less than the pledge.
    NotEnoughCollected,
    CampaignNotEnded,
    GoalNotReached,
    /// Withdrawing needs a proof of the fundraiser's badge.
    Unauthorized,
}

/// What the campaign reports of itself.
#[derive(Clone, Copy, Debug, PartialEq, Eq, Structural)]
pub struct CampaignStatus {
    /// The sum of the pledges on record.
    pub pledged: Decimal,
    /// The number of pledges on record.
    pub patrons: usize,
    /// The epochs left, while the campaign runs.
    pub ends_in: Option<u64>,
    /// The XRD the campaign holds.
    pub collected: Decimal,
}

/// The sum of the pledges in `s`.
pub open spec fn pledged_total(s: Seq<Pledge>) -> int
    decreases s.len(),
{
    if s.len() == 0 {
        0
    } else {
        pledged_total(s.drop_last()) + s.last().amount@
    }
}

/// The position of the pledge of `badge`.
pub open spec fn pledge_index(s: Seq<Pledge>, badge: ResourceAddress) -> Option<int> {
    if exists|i: int| 0 <= i < s.len() && (#[trigger] s[i]).badge == badge {
        Some(choose|i: int| 0 <= i < s.len() && (#[trigger] s[i]).badge == badge)
    } else {
        None
    }
}

/// A campaign for `goal` XRD, open until `last_epoch`.
pub struct CrowdsourcingCampaign {
    collected_xrd: Decimal,
    xrd: ResourceAddress,
    fundraiser_badge: ResourceAddress,
    goal: Decimal,
    last_epoch: u64,
    patron_entries: Vec<Pledge>,
}

impl CrowdsourcingCampaign {
    pub closed spec fn collected(&self) -> Decimal {
        self.collected_xrd
    }

    pub closed spec fn pledges(&self) -> Seq<Pledge> {
        self.patron_entries@
    }

    pub closed spec fn goal_amount(&self) -> Decimal {
        self.goal
    }

    pub closed spec fn last(&self) -> u64 {
        self.last_epoch
    }

    pub closed spec fn xrd_address(&self) -> ResourceAddress {
        self.xrd
    }

    /// The fundraiser's badge, which alone withdraws the funds.
    pub closed spec fn fundraiser(&self) -> ResourceAddress {
        self.fundraiser_badge
    }

    /// No badge has two pledges, pledges are positive and the XRD held is
    /// not negative.
    pub closed spec fn wf(&self) -> bool {
        &&& forall|i: int, j: int|
            0 <= i < j < self.patron_entries@.len() ==> (#[trigger] self.patron_entries@[i]).badge
                != (#[trigger] self.patron_entries@[j]).badge
        &&& forall|i: int| 0 <= i < self.patron_entries@.len() ==> (#[trigger] self.patron_entries@[i]).amount@ > 0
        &&& self.collected_xrd@ >= 0
    }

    /// Whether the rest of the campaign is the same.
    pub closed spec fn same_terms(&self, other: CrowdsourcingCampaign) -> bool {
        &&& self.xrd == other.xrd
        &&& self.fundraiser_badge == other.fundraiser_badge
        &&& self.goal == other.goal
        &&& self.last_epoch == other.last_epoch
    }

    /// A campaign for `goal` XRD that runs `campaign_duration_epochs`
    /// epochs from `now`, and the fundraiser's badge.
    pub fn new(
        goal: Decimal,
        campaign_duration_epochs: u64,
        now: u64,
        fundraiser_badge: ResourceAddress,
        xrd: ResourceAddress,
    ) -> (r: Result<(CrowdsourcingCampaign, Bucket), CampaignError>)
        ensures
            now + campaign_duration_epochs > u64::MAX ==> r == Err::<(CrowdsourcingCampaign, Bucket), CampaignError>(
                CampaignError::Overflow,
            ),
            now + campaign_duration_epochs <= u64::MAX ==> (r matches Ok((c, b)) && {
                &&& c.wf()
                &&& c.collected()@ == 0
                &&& c.pledges() == Seq::<Pledge>::empty()
                &&& c.goal_amount() == goal
                &&& c.last() == now + campaign_duration_epochs
                &&& c.xrd_address() == xrd
                &&& b == Bucket::spec_new(fundraiser_badge, whole(1))
            }),
    {
        let last_epoch = match now.checked_add(campaign_duration_epochs) {
            Some(e) => e,
            None => return Err(CampaignError::Overflow),
        };
        let c = CrowdsourcingCampaign {
            collected_xrd: Decimal(0),
            xrd,
            fundraiser_badge,
            goal,
            last_epoch,
            patron_entries: Vec::new(),
        };
        Ok((c, Bucket::of(fundraiser_badge, Decimal(1_000_000_000_000_000_000))))
    }

    /// The sum and number of the pledges, the epochs left and the XRD held;
    /// `None` when the sum does not fit.
    pub fn status(&self, now: u64) -> (r: Option<CampaignStatus>)
        requires
            self.wf(),
        ensures
            r is None <==> dec_of(pledged_total(self.pledges())) is None,
            r matches Some(st) ==> {
                &&& st.pledged@ == pledged_total(self.pledges())
                &&& st.patrons == self.pledges().len()
                &&& st.ends_in == (if now > self.last() {
                    None::<u64>
                } else {
                    Some((self.last() - now) as u64)
                })
                &&& st.collected == self.collected()
            },
    {
        let mut pledged = Decimal(0);
        let mut i: usize = 0;
        while i < self.patron_entries.len()
            invariant
                self.wf(),
                i <= self.patron_entries@.len(),
                pledged@ == pledged_total(self.patron_entries@.take(i as int)),
            decreases self.patron_entries@.len() - i,
        {
            let ghost s = self.patron_entries@;
            assert(s.take(i + 1).drop_last() =~= s.take(i as int));
            match pledged.checked_add(self.patron_entries[i].amount) {
                Some(p) => pledged = p,
                None => {
                    proof {
                        lemma_pledged_prefix(s, i + 1);
                    }
                    return None;
                },
            }
            i = i + 1;
        }
        assert(self.patron_entries@.take(i as int) =~= self.patron_entries@);
        let ends_in = if now > self.last_epoch {
            None
        } else {
            Some(self.last_epoch - now)
        };
        Some(CampaignStatus { pledged, patrons: self.patron_entries.len(), ends_in, collected: self.collected_xrd })
    }

    fn find(&self, badge: ResourceAddress) -> (r: Option<usize>)
        requires
            self.wf(),
        ensures
            match r {
                Some(i) => i < self.patron_entries@.len() && pledge_index(self.patron_entries@, badge) == Some(i as int),
                None => pledge_index(self.patron_entries@, badge) is None,
            },
    {
        let mut i: usize = 0;
        while i < self.patron_entries.len()
            invariant
                i <= self.patron_entries@.len(),
                self.wf(),
                forall|j: int| 0 <= j < i ==> (#[trigger] self.patron_entries@[j]).badge != badge,
            decreases self.patron_entries@.len() - i,
        {
            if self.patron_entries[i].badge == badge {
                proof {
                    let s = self.patron_entries@;
                    let c = choose|c: int| 0 <= c < s.len() && (#[trigger] s[c]).badge == badge;
                    if c != i {
                        if c < i {
                            assert(s[c].badge != badge);
                        } else {
                            assert(s[i as int].badge != s[c].badge);
                        }
                    }
                }
                return Some(i);
            }
            i = i + 1;
        }
        None
    }

    /// Pledges the XRD in `payment` before the campaign's last epoch, and
    /// gives one token of `badge`, a resource made for this pledge.
    pub fn pledge(&mut self, payment: Bucket, now: u64, badge: ResourceAddress) -> (r: Result<Bucket, CampaignError>)
        requires
            old(self).wf(),
            pledge_index(old(self).pledges(), badge) is None,
        ensures
            final(self).wf(),
            r is Err ==> *final(self) == *old(self),
            r is Ok ==> final(self).same_terms(*old(self)),
            if payment.amt()@ == 0 {
                r == Err::<Bucket, CampaignError>(CampaignError::ZeroPledge)
            } else if now >= old(self).last() {
                r == Err::<Bucket, CampaignError>(CampaignError::CampaignEnded)
            } else if payment.res() != old(self).xrd_address() {
                r == Err::<Bucket, CampaignError>(CampaignError::WrongResource)
            } else if dec_of(old(self).collected()@ + payment.amt()@) is None {
                r == Err::<Bucket, CampaignError>(CampaignError::Overflow)
            } else {
                &&& r == Ok::<Bucket, CampaignError>(Bucket::spec_new(badge, whole(1)))
                &&& final(self).pledges() == old(self).pledges().push(Pledge { badge, amount: payment.amt() })
                &&& final(self).collected()@ == old(self).collected()@ + payment.amt()@
            },
    {
        let amount = payment.amount();
        if amount.0 == 0 {
            return Err(CampaignError::ZeroPledge);
        }
        if now >= self.last_epoch {
            return Err(CampaignError::CampaignEnded);
        }
        if payment.resource_address() != self.xrd {
            return Err(CampaignError::WrongResource);
        }
        let collected = match self.collected_xrd.checked_add(amount) {
            Some(c) => c,
            None => return Err(CampaignError::Overflow),
        };
        let ghost before = self.patron_entries@;
        self.patron_entries.push(Pledge { badge, amount });
        self.collected_xrd = collected;
        proof {
            let s = self.patron_entries@;
            assert forall|i: int, j: int| 0 <= i < j < s.len() implies (#[trigger] s[i]).badge != (#[trigger] s[j]).badge by {
                if j == before.len() {
                    assert(s[i] == before[i]);
                    if before[i].badge == badge {
                        assert(exists|k: int| 0 <= k < before.len() && (#[trigger] before[k]).badge == badge);
                    }
                } else {
                    assert(s[i] == before[i] && s[j] == before[j]);
                }
            }
        }
        Ok(Bucket::of(badge, Decimal(1_000_000_000_000_000_000)))
    }

    /// Takes back the pledge of the badge in `patron_badge`, unless the
    /// campaign has ended above its goal, and burns the badge.
    pub fn recall_pledge(&mut self, patron_badge: Bucket, now: u64) -> (r: Result<Bucket, CampaignError>)
        requires
            old(self).wf(),
        ensures
            final(self).wf(),
            r is Err ==> *final(self) == *old(self),
            r is Ok ==> final(self).same_terms(*old(self)),
            if now > old(self).last() && old(self).collected()@ > old(self).goal_amount()@ {
                r == Err::<Bucket, CampaignError>(CampaignError::CampaignSucceeded)
            } else {
                match pledge_index(old(self).pledges(), patron_badge.res()) {
                    None => r == Err::<Bucket, CampaignError>(CampaignError::NoPledge),
                    Some(i) => {
                        let p = old(self).pledges()[i];
                        if p.amount@ > old(self).collected()@ {
                            r == Err::<Bucket, CampaignError>(CampaignError::NotEnoughCollected)
                        } else {
                            &&& r == Ok::<Bucket, CampaignError>(Bucket::spec_new(old(self).xrd_address(), p.amount))
                            &&& final(self).pledges() == old(self).pledges().remove(i)
                            &&& final(self).collected()@ == old(self).collected()@ - p.amount@
                        }
                    },
                }
            },
    {
        if now > self.last_epoch && self.collected_xrd.0 > self.goal.0 {
            return Err(CampaignError::CampaignSucceeded);
        }
        let i = match self.find(patron_badge.resource_address()) {
            Some(i) => i,
            None => return Err(CampaignError::NoPledge),
        };
        let p = self.patron_entries[i];
        if p.amount.0 > self.collected_xrd.0 {
            return Err(CampaignError::NotEnoughCollected);
        }
        let ghost before = self.patron_entries@;
        self.patron_entries.remove(i);
        self.collected_xrd = Decimal(self.collected_xrd.0 - p.amount.0);
        proof {
            let s = self.patron_entries@;
            assert forall|a: int, b: int| 0 <= a < b < s.len() implies (#[trigger] s[a]).badge != (#[trigger] s[b]).badge by {
                assert(s[a] == before[if a < i { a } else { a + 1 }]);
                assert(s[b] == before[if b < i { b } else { b + 1 }]);
            }
            assert forall|a: int| 0 <= a < s.len() implies (#[trigger] s[a]).amount@ > 0 by {
                assert(s[a] == before[if a < i { a } else { a + 1 }]);
            }
        }
        Ok(Bucket::of(self.xrd, p.amount))
    }

    /// Gives the fundraiser all the XRD collected, once the campaign has
    /// ended above its goal.
    pub fn withdraw(&mut self, auth: Proof, now: u64) -> (r: Result<Bucket, CampaignError>)
        requires
            old(self).wf(),
        ensures
            !(auth.shows(old(self).fundraiser())) ==> r == Err::<Bucket, CampaignError>(CampaignError::Unauthorized) && *final(self) == *old(self),
            final(self).wf(),
            r is Err ==> *final(self) == *old(self),
            (auth.shows(old(self).fundraiser())) ==> (if now <= old(self).last() {
                r == Err::<Bucket, CampaignError>(CampaignError::CampaignNotEnded)
            } else if old(self).collected()@ <= old(self).goal_amount()@ {
                r == Err::<Bucket, CampaignError>(CampaignError::GoalNotReached)
            } else {
                &&& r == Ok::<Bucket, CampaignError>(Bucket::spec_new(old(self).xrd_address(), old(self).collected()))
                &&& final(self).collected()@ == 0
                &&& final(self).pledges() == old(self).pledges()
                &&& final(self).same_terms(*old(self))
            }),
    {
        if !auth.check(self.fundraiser_badge) {
            return Err(CampaignError::Unauthorized);
        }
        if now <= self.last_epoch {
            return Err(CampaignError::CampaignNotEnded);
        }
        if self.collected_xrd.0 <= self.goal.0 {
            return Err(CampaignError::GoalNotReached);
        }
        let all = self.collected_xrd;
        self.collected_xrd = Decimal(0);
        Ok(Bucket::of(self.xrd, all))
    }
}

/// With positive pledges, the sum of the first `n` is at most the sum of
/// all of them.
proof fn lemma_pledged_prefix(s: Seq<Pledge>, n: int)
    requires
        0 <= n <= s.len(),
        forall|i: int| 0 <= i < s.len() ==> (#[trigger] s[i]).amount@ > 0,
    ensures
        pledged_total(s.take(n)) <= pledged_total(s),
    decreases s.len(),
{
    if n < s.len() {
        assert(s.last() == s[s.len() - 1]);
        assert forall|i: int| 0 <= i < s.drop_last().len() implies (#[trigger] s.drop_last()[i]).amount@ > 0 by {
            assert(s.drop_last()[i] == s[i]);
        }
        lemma_pledged_prefix(s.drop_last(), n);
        assert(s.drop_last().take(n) =~= s.take(n));
    } else {
        assert(s.take(n) =~= s);
    }
}

} // verus!
