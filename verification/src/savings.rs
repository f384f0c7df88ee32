//! Saving with friends: each friend holds a token that records their last
//! deposit; once the savings reach the goal, or all friends agree to close
//! early, each friend can withdraw what their token records.
use vstd::prelude::*;
use crate::bignum::in_i128;
use crate::decimal::{dec_one, Decimal, ONE_UNITS};
use crate::resource::{group_bucket, Bucket, ComponentAddress, NonFungible, Proof, ResourceAddress};

verus! {

broadcast use group_bucket;

/// Why the savings component refuses a request.
#[derive(Clone, Copy, Debug, PartialEq, Eq, Structural)]
pub enum SavingsError {
    /// The goal has been reached: no more deposits, and nothing to close.
    GoalAchieved,
    /// The goal has not been reached: no withdrawals yet.
    GoalNotAchieved,
    /// The token is not a friend token of this component.
    InvalidNft,
    /// No friend token with this id exists.
    UnknownNft,
    /// Savings are in XRD only.
    ResourceMismatch,
    /// The savings hold less than must be paid out.
    InsufficientFunds,
    /// The proof is not of friend tokens.
    InvalidProof,
    /// Closing early needs the tokens of all friends.
    NotAllFriends,
    /// A sum leaves the decimal range.
    Arithmetic,
    /// Showing the savings needs a proof of a friend token.
    Unauthorized,
}

/// A friend's token: its id and the savings it records.
#[derive(Clone, Copy, Debug, PartialEq, Eq, Structural)]
pub struct FriendData {
    pub id: u64,
    pub savings: Decimal,
}

/// A savings pot shared by friends.
pub struct SaveWithFriends {
    pub radix_resource: ResourceAddress,
    pub savings: Decimal,
    pub friend_nft_address: ResourceAddress,
    pub desired_amount: Option<Decimal>,
    pub goal_achieved: bool,
    /// The friend tokens in existence.
    pub friends: Vec<FriendData>,
    /// The id the next friend token gets.
    pub next_id: u64,
}

/// The position of the token with id `id`.
pub open spec fn friend_index(s: Seq<FriendData>, id: u64) -> Option<int> {
    if exists|i: int| 0 <= i < s.len() && (#[trigger] s[i]).id == id {
        Some(choose|i: int| 0 <= i < s.len() && (#[trigger] s[i]).id == id)
    } else {
        None
    }
}

/// The friends' tokens: as many as there are accounts, with ids counted
/// from zero and no savings recorded.
pub open spec fn initial_friends(n: nat) -> Seq<FriendData> {
    Seq::new(n, |i: int| FriendData { id: i as u64, savings: Decimal(0) })
}

impl SaveWithFriends {
    /// The savings are not negative, no two tokens share an id, and every
    /// id is below the next one to be given.
    pub open spec fn wf(&self) -> bool {
        &&& self.savings@ >= 0
        &&& forall|i: int, j: int| 0 <= i < j < self.friends@.len() ==> (#[trigger] self.friends@[i]).id != (#[trigger] self.friends@[j]).id
        &&& forall|i: int| 0 <= i < self.friends@.len() ==> (#[trigger] self.friends@[i]).id < self.next_id
    }

    /// A savings pot with the goal `desired_amount`; each account gets a
    /// friend token, returned with it for delivery.
    pub fn instantiate(
        desired_amount: Decimal,
        accounts: Vec<ComponentAddress>,
        friend_nft_address: ResourceAddress,
        radix_resource: ResourceAddress,
    ) -> (r: (SaveWithFriends, Vec<(ComponentAddress, NonFungible)>))
        requires
            accounts@.len() <= u64::MAX,
        ensures
            r.0.wf(),
            r.0.radix_resource == radix_resource,
            r.0.savings@ == 0,
            r.0.friend_nft_address == friend_nft_address,
            r.0.desired_amount == Some(desired_amount),
            !r.0.goal_achieved,
            r.0.friends@ == initial_friends(accounts@.len()),
            r.0.next_id == accounts@.len(),
            r.1@.len() == accounts@.len(),
            forall|i: int| 0 <= i < accounts@.len() ==> (#[trigger] r.1@[i]) == (accounts@[i], NonFungible {
                resource: friend_nft_address,
                id: i as u64,
            }),
    {
        let mut friends: Vec<FriendData> = Vec::new();
        let mut delivered: Vec<(ComponentAddress, NonFungible)> = Vec::new();
        let mut i: usize = 0;
        while i < accounts.len()
            invariant
                i <= accounts@.len() <= u64::MAX,
                friends@ == initial_friends(i as nat),
                delivered@.len() == i,
                forall|j: int| 0 <= j < i ==> (#[trigger] delivered@[j]) == (accounts@[j], NonFungible {
                    resource: friend_nft_address,
                    id: j as u64,
                }),
            decreases accounts@.len() - i,
        {
            let id = i as u64;
            friends.push(FriendData { id, savings: Decimal(0) });
            delivered.push((accounts[i], NonFungible { resource: friend_nft_address, id }));
            assert(friends@ =~= initial_friends((i + 1) as nat));
            i = i + 1;
        }
        let r = SaveWithFriends {
            radix_resource,
            savings: Decimal(0),
            friend_nft_address,
            desired_amount: Some(desired_amount),
            goal_achieved: false,
            friends,
            next_id: i as u64,
        };
        (r, delivered)
    }

    /// A savings pot with the goal `desired_amount` and no friends yet;
    /// friends register themselves.
    pub fn instantiate_amount_bound(desired_amount: Decimal, friend_nft_address: ResourceAddress, radix_resource: ResourceAddress) -> (r:
        SaveWithFriends)
        ensures
            r.wf(),
            r.radix_resource == radix_resource,
            r.savings@ == 0,
            r.friend_nft_address == friend_nft_address,
            r.desired_amount == Some(desired_amount),
            !r.goal_achieved,
            r.friends@.len() == 0,
            r.next_id == 0,
    {
        SaveWithFriends {
            radix_resource,
            savings: Decimal(0),
            friend_nft_address,
            desired_amount: Some(desired_amount),
            goal_achieved: false,
            friends: Vec::new(),
            next_id: 0,
        }
    }

    /// Mints a friend token with no savings recorded for a new friend.
    pub fn register_friend(&mut self) -> (r: Result<NonFungible, SavingsError>)
        requires
            old(self).wf(),
        ensures
            final(self).wf(),
            old(self).next_id == u64::MAX ==> r == Err::<NonFungible, SavingsError>(SavingsError::Arithmetic)
                && *final(self) == *old(self),
            old(self).next_id < u64::MAX ==> {
                &&& r == Ok::<NonFungible, SavingsError>(NonFungible { resource: old(self).friend_nft_address, id: old(self).next_id })
                &&& final(self).friends@ == old(self).friends@.push(FriendData { id: old(self).next_id, savings: Decimal(0) })
                &&& final(self).next_id == old(self).next_id + 1
                &&& final(self).savings == old(self).savings
                &&& final(self).goal_achieved == old(self).goal_achieved
                &&& final(self).desired_amount == old(self).desired_amount
                &&& final(self).friend_nft_address == old(self).friend_nft_address
                &&& final(self).radix_resource == old(self).radix_resource
            },
    {
        if self.next_id == u64::MAX {
            return Err(SavingsError::Arithmetic);
        }
        let id = self.next_id;
        let ghost s = self.friends@;
        self.friends.push(FriendData { id, savings: Decimal(0) });
        self.next_id = id + 1;
        proof {
            let t = self.friends@;
            assert forall|a: int, b: int| 0 <= a < b < t.len() implies (#[trigger] t[a]).id != (#[trigger] t[b]).id by {
                assert(t[a] == s[a]);
                if b < s.len() {
                    assert(t[b] == s[b]);
                }
            }
            assert forall|a: int| 0 <= a < t.len() implies (#[trigger] t[a]).id < self.next_id by {
                if a < s.len() {
                    assert(t[a] == s[a]);
                }
            }
        }
        Ok(NonFungible { resource: self.friend_nft_address, id })
    }

    /// The current savings.
    /// Whether `proof` lets its holder see the savings: it shows a friend
    /// token of this pot.
    pub open spec fn may_show_info(&self, proof: Proof) -> bool {
        proof.resource == self.friend_nft_address && proof.amount@ > 0
    }

    /// The savings so far, shown to the holders of a friend token only.
    pub fn show_info(&self, proof: Proof) -> (r: Result<Decimal, SavingsError>)
        ensures
            r == if self.may_show_info(proof) {
                Ok::<Decimal, SavingsError>(self.savings)
            } else {
                Err::<Decimal, SavingsError>(SavingsError::Unauthorized)
            },
    {
        if proof.resource != self.friend_nft_address || proof.amount.0 <= 0 {
            return Err(SavingsError::Unauthorized);
        }
        Ok(self.savings)
    }

    fn find_friend(&self, id: u64) -> (r: Option<usize>)
        requires
            self.wf(),
        ensures
            match r {
                Some(i) => i < self.friends@.len() && friend_index(self.friends@, id) == Some(i as int),
                None => friend_index(self.friends@, id) is None,
            },
    {
        let ghost s = self.friends@;
        let mut i: usize = 0;
        while i < self.friends.len()
            invariant
                i <= s.len(),
                s == self.friends@,
                self.wf(),
                forall|j: int| 0 <= j < i ==> (#[trigger] s[j]).id != id,
            decreases s.len() - i,
        {
            if self.friends[i].id == id {
                proof {
                    let c = choose|c: int| 0 <= c < s.len() && (#[trigger] s[c]).id == id;
                    if c > i {
                        assert(s[i as int].id != s[c].id);
                    }
                }
                return Some(i);
            }
            i = i + 1;
        }
        None
    }

    /// Puts the XRD into the savings and records this deposit on the
    /// friend's token; reaching the goal closes deposits. Returns the token.
    pub fn deposit(&mut self, xrd: Bucket, nft: NonFungible) -> (r: Result<NonFungible, SavingsError>)
        requires
            old(self).wf(),
        ensures
            final(self).wf(),
            r is Err ==> *final(self) == *old(self),
            ({
                let m = old(self);
                let total = m.savings@ + xrd.amt()@;
                if m.goal_achieved {
                    r == Err::<NonFungible, SavingsError>(SavingsError::GoalAchieved)
                } else if nft.resource != m.friend_nft_address {
                    r == Err::<NonFungible, SavingsError>(SavingsError::InvalidNft)
                } else if xrd.res() != m.radix_resource {
                    r == Err::<NonFungible, SavingsError>(SavingsError::ResourceMismatch)
                } else if !in_i128(total) {
                    r == Err::<NonFungible, SavingsError>(SavingsError::Arithmetic)
                } else {
                    match friend_index(m.friends@, nft.id) {
                        None => r == Err::<NonFungible, SavingsError>(SavingsError::UnknownNft),
                        Some(i) => {
                            &&& r == Ok::<NonFungible, SavingsError>(nft)
                            &&& final(self).friends@ == m.friends@.update(i, FriendData { id: nft.id, savings: xrd.amt() })
                            &&& final(self).savings@ == total
                            &&& final(self).goal_achieved == (m.desired_amount matches Some(d) && total >= d@)
                            &&& final(self).radix_resource == m.radix_resource
                            &&& final(self).friend_nft_address == m.friend_nft_address
                            &&& final(self).desired_amount == m.desired_amount
                        },
                    }
                }
            }),
    {
        if self.goal_achieved {
            return Err(SavingsError::GoalAchieved);
        }
        if nft.resource != self.friend_nft_address {
            return Err(SavingsError::InvalidNft);
        }
        if xrd.resource_address() != self.radix_resource {
            return Err(SavingsError::ResourceMismatch);
        }
        let amount = xrd.amount();
        let total = match self.savings.checked_add(amount) {
            Some(v) => v,
            None => return Err(SavingsError::Arithmetic),
        };
        let i = match self.find_friend(nft.id) {
            Some(i) => i,
            None => return Err(SavingsError::UnknownNft),
        };
        let ghost s = self.friends@;
        self.friends.set(i, FriendData { id: nft.id, savings: amount });
        proof {
            let t = self.friends@;
            assert forall|a: int, b: int| 0 <= a < b < t.len() implies (#[trigger] t[a]).id != (#[trigger] t[b]).id by {
                assert(s[a].id != s[b].id);
            }
        }
        self.savings = total;
        match self.desired_amount {
            Some(d) => {
                if total.0 >= d.0 {
                    self.goal_achieved = true;
                }
            },
            None => {},
        }
        Ok(nft)
    }

    /// Burns the friend's token and pays out the savings it records; only
    /// once the goal is reached.
    pub fn withdraw(&mut self, nft: NonFungible) -> (r: Result<Bucket, SavingsError>)
        requires
            old(self).wf(),
        ensures
            final(self).wf(),
            r is Err ==> *final(self) == *old(self),
            ({
                let m = old(self);
                if !m.goal_achieved {
                    r == Err::<Bucket, SavingsError>(SavingsError::GoalNotAchieved)
                } else if nft.resource != m.friend_nft_address {
                    r == Err::<Bucket, SavingsError>(SavingsError::InvalidNft)
                } else {
                    match friend_index(m.friends@, nft.id) {
                        None => r == Err::<Bucket, SavingsError>(SavingsError::UnknownNft),
                        Some(i) => {
                            let owed = m.friends@[i].savings;
                            if owed@ < 0 || owed@ > m.savings@ {
                                r == Err::<Bucket, SavingsError>(SavingsError::InsufficientFunds)
                            } else {
                                &&& r == Ok::<Bucket, SavingsError>(Bucket::spec_new(m.radix_resource, owed))
                                &&& final(self).friends@ == m.friends@.remove(i)
                                &&& final(self).savings@ == m.savings@ - owed@
                                &&& final(self).goal_achieved == m.goal_achieved
                                &&& final(self).radix_resource == m.radix_resource
                                &&& final(self).friend_nft_address == m.friend_nft_address
                                &&& final(self).desired_amount == m.desired_amount
                            }
                        },
                    }
                }
            }),
    {
        if !self.goal_achieved {
            return Err(SavingsError::GoalNotAchieved);
        }
        if nft.resource != self.friend_nft_address {
            return Err(SavingsError::InvalidNft);
        }
        let i = match self.find_friend(nft.id) {
            Some(i) => i,
            None => return Err(SavingsError::UnknownNft),
        };
        let owed = self.friends[i].savings;
        if owed.0 < 0 || owed.0 > self.savings.0 {
            return Err(SavingsError::InsufficientFunds);
        }
        let ghost s = self.friends@;
        self.friends.remove(i);
        proof {
            let t = self.friends@;
            assert forall|a: int, b: int| 0 <= a < b < t.len() implies (#[trigger] t[a]).id != (#[trigger] t[b]).id by {
                let a1 = if a < i { a } else { a + 1 };
                let b1 = if b < i { b } else { b + 1 };
                assert(t[a] == s[a1] && t[b] == s[b1]);
                assert(s[a1].id != s[b1].id);
            }
        }
        self.savings = Decimal(self.savings.0 - owed.0);
        Ok(Bucket::of(self.radix_resource, owed))
    }

    /// Opens withdrawals before the goal is reached, with the agreement of
    /// all friends: a proof of every friend token in existence.
    pub fn close_early(&mut self, proof: Proof) -> (r: Result<(), SavingsError>)
        requires
            old(self).wf(),
            old(self).friends@.len() <= u64::MAX,
        ensures
            final(self).wf(),
            ({
                let m = old(self);
                if m.goal_achieved {
                    r == Err::<(), SavingsError>(SavingsError::GoalAchieved) && *final(self) == *m
                } else if proof.resource != m.friend_nft_address {
                    r == Err::<(), SavingsError>(SavingsError::InvalidProof) && *final(self) == *m
                } else if proof.amount@ < m.friends@.len() * dec_one() {
                    r == Err::<(), SavingsError>(SavingsError::NotAllFriends) && *final(self) == *m
                } else {
                    r is Ok && *final(self) == (SaveWithFriends { goal_achieved: true, friends: final(self).friends, ..*m })
                        && final(self).friends@ == m.friends@
                }
            }),
    {
        if self.goal_achieved {
            return Err(SavingsError::GoalAchieved);
        }
        if proof.resource != self.friend_nft_address {
            return Err(SavingsError::InvalidProof);
        }
        let count = self.friends.len() as u64;
        let total_supply: i128 = (count as i128) * ONE_UNITS;
        if proof.amount.0 < total_supply {
            return Err(SavingsError::NotAllFriends);
        }
        self.goal_achieved = true;
        Ok(())
    }
}

} // verus!
