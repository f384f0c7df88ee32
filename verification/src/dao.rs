//! Governance of a liquidity pool: anyone proposes new token weights and a
//! new fee; a proposal whose deposits reach the minimum moves to a voting
//! period, in which liquidity providers vote with their pool tokens; the
//! proposal passes with a simple majority, a quorum and few vetoes, and
//! then changes the pool.
use vstd::prelude::*;
use crate::amm::LiquidityPool;
use crate::bignum::in_i128;
use crate::decimal::{dec_of, dec_one, ddiv, Decimal, ONE_UNITS, opt_add, opt_div};
use crate::resource::{group_bucket, Bucket, ComponentAddress, NonFungible, ResourceAddress};

verus! {

broadcast use group_bucket;

/// A vote on a proposal.
#[derive(Clone, Copy, Debug, PartialEq, Eq, Structural)]
pub enum Vote {
    Yes,
    No,
    NoWithVeto,
}

/// The outcome of a proposal.
#[derive(Clone, Copy, Debug, PartialEq, Eq, Structural)]
pub enum Resolution {
    Passed,
    Failed,
    InProcess,
}

/// The phase a proposal is in.
#[derive(Clone, Copy, Debug, PartialEq, Eq, Structural)]
pub enum Stage {
    DepositPhase,
    VotingPeriod,
}

/// A proposal to change the pool's weights and fee, with its deposits and
/// its vote counts, each a share of the pool tokens in existence.
#[derive(Clone, Copy, Debug, PartialEq, Eq, Structural)]
pub struct Proposal {
    pub token_1_weight: Decimal,
    pub token_2_weight: Decimal,
    pub fee_to_pool: Decimal,
    pub amount_deposited: Decimal,
    pub stage: Stage,
    pub yes_counter: Decimal,
    pub no_counter: Decimal,
    pub no_with_veto_counter: Decimal,
    pub vote_ends_in_epoch: u64,
    pub proposal_end_epoch: u64,
    pub current_epoch: u64,
    pub resolution: Resolution,
}

/// The record of one vote: the proposal, the vote, its weight and the pool
/// tokens it put up.
#[derive(Clone, Copy, Debug, PartialEq, Eq, Structural)]
pub struct VoteBadge {
    pub proposal: u64,
    pub vote: Vote,
    pub vote_weight: Decimal,
    pub lp_tokens_allocated: Decimal,
}

/// Why the governance component refuses a request.
#[derive(Clone, Copy, Debug, PartialEq, Eq, Structural)]
pub enum DaoError {
    /// The two weights add up to more than one.
    WeightTooHigh,
    /// The fee is not between 0 and 100.
    InvalidFee,
    /// The component does not know its pool yet.
    NoPool,
    /// No proposal has this id.
    UnknownProposal,
    /// No vote badge has this id.
    UnknownBadge,
    /// A token with this id already exists.
    DuplicateId,
    /// The bucket or proof holds another resource than the one expected.
    WrongResource,
    /// The deposits would exceed what the proposal needs.
    TooMuchDeposit,
    /// Only one proposal can be in its voting period.
    TooManyInVoting,
    /// The proposal is not in its voting period.
    NotInVotingPeriod,
    /// The vote recast is the vote already cast.
    AlreadyVoted,
    /// No proposal is in its voting period.
    NoProposalInVoting,
    /// A vault holds less than must be taken out of it.
    InsufficientFunds,
    /// A computation divides by zero or leaves the decimal range.
    Arithmetic,
}

/// A proposal held by the component, with the id of its token.
#[derive(Clone, Copy, Debug, PartialEq, Eq, Structural)]
pub struct ProposalEntry {
    pub id: u64,
    pub data: Proposal,
}

/// A vote badge's id with its data.
#[derive(Clone, Copy, Debug, PartialEq, Eq, Structural)]
pub struct BadgeEntry {
    pub id: u64,
    pub data: VoteBadge,
}

/// The position of the proposal with id `id`.
pub open spec fn proposal_index(s: Seq<ProposalEntry>, id: u64) -> Option<int> {
    if exists|i: int| 0 <= i < s.len() && (#[trigger] s[i]).id == id {
        Some(choose|i: int| 0 <= i < s.len() && (#[trigger] s[i]).id == id)
    } else {
        None
    }
}

/// The position of the vote badge with id `id`.
pub open spec fn badge_index(s: Seq<BadgeEntry>, id: u64) -> Option<int> {
    if exists|i: int| 0 <= i < s.len() && (#[trigger] s[i]).id == id {
        Some(choose|i: int| 0 <= i < s.len() && (#[trigger] s[i]).id == id)
    } else {
        None
    }
}

/// What changes in the governance component: its proposals, vote badges,
/// vaults and the proposal in its voting period.
pub ghost struct DaoState {
    pub proposals: Seq<ProposalEntry>,
    pub badges: Seq<BadgeEntry>,
    pub yes: Decimal,
    pub no: Decimal,
    pub veto: Decimal,
    pub xrd: Decimal,
    pub voting: Seq<u64>,
}

impl DaoState {
    /// The vault of pool tokens of a vote.
    pub open spec fn vault(self, v: Vote) -> Decimal {
        match v {
            Vote::Yes => self.yes,
            Vote::No => self.no,
            Vote::NoWithVeto => self.veto,
        }
    }

    pub open spec fn with_vault(self, v: Vote, x: Decimal) -> DaoState {
        match v {
            Vote::Yes => DaoState { yes: x, ..self },
            Vote::No => DaoState { no: x, ..self },
            Vote::NoWithVeto => DaoState { veto: x, ..self },
        }
    }
}

/// The count of a vote on a proposal.
pub open spec fn counter(p: Proposal, v: Vote) -> Decimal {
    match v {
        Vote::Yes => p.yes_counter,
        Vote::No => p.no_counter,
        Vote::NoWithVeto => p.no_with_veto_counter,
    }
}

pub open spec fn with_counter(p: Proposal, v: Vote, x: Decimal) -> Proposal {
    match v {
        Vote::Yes => Proposal { yes_counter: x, ..p },
        Vote::No => Proposal { no_counter: x, ..p },
        Vote::NoWithVeto => Proposal { no_with_veto_counter: x, ..p },
    }
}

/// A new proposal: in its deposit phase, with nothing deposited or voted.
pub open spec fn fresh_proposal(w1: Decimal, w2: Decimal, fee: Decimal, vote_end: u64, proposal_end: u64, now: u64) -> Proposal {
    Proposal {
        token_1_weight: w1,
        token_2_weight: w2,
        fee_to_pool: fee,
        amount_deposited: Decimal(0),
        stage: Stage::DepositPhase,
        yes_counter: Decimal(0),
        no_counter: Decimal(0),
        no_with_veto_counter: Decimal(0),
        vote_ends_in_epoch: vote_end,
        proposal_end_epoch: proposal_end,
        current_epoch: now,
        resolution: Resolution::InProcess,
    }
}

/// The pool after a resolved proposal is handed to it: a passed proposal
/// sets the token weights and the fee; any other leaves it as it is.
pub open spec fn enact(pool: LiquidityPool, p: Proposal) -> LiquidityPool {
    match p.resolution {
        Resolution::Passed => LiquidityPool {
            token_1_weight: p.token_1_weight,
            token_2_weight: p.token_2_weight,
            fee_to_pool: p.fee_to_pool,
            ..pool
        },
        _ => pool,
    }
}

impl LiquidityPool {
    /// Takes in a resolved proposal: a passed one changes the token weights
    /// and the fee; the proposal's token is burnt either way.
    pub fn resolve_proposal(&mut self, proposal: &Proposal)
        ensures
            *final(self) == enact(*old(self), *proposal),
    {
        match proposal.resolution {
            Resolution::Passed => {
                self.token_1_weight = proposal.token_1_weight;
                self.token_2_weight = proposal.token_2_weight;
                self.fee_to_pool = proposal.fee_to_pool;
            },
            _ => {},
        }
    }
}

/// The governance component of a liquidity pool.
pub struct LiquidityPoolDAO {
    pub tracking_token_address: ResourceAddress,
    pub nft_proposal_address: ResourceAddress,
    pub vote_badge_address: ResourceAddress,
    pub radix_resource: ResourceAddress,
    /// The proposals not yet resolved or rejected.
    pub proposals: Vec<ProposalEntry>,
    /// The vote badges in existence.
    pub vote_badges: Vec<BadgeEntry>,
    /// The pool tokens put up by `Yes` votes.
    pub voting_yes_vault: Decimal,
    /// The pool tokens put up by `No` votes.
    pub voting_no_vault: Decimal,
    /// The pool tokens put up by `No with veto` votes.
    pub voting_no_with_veto_vault: Decimal,
    pub voting_end_epoch: u64,
    pub vote_quorom: Decimal,
    pub no_with_veto_threshold: Decimal,
    pub minimum_xrd: Decimal,
    pub xrd_vault: Decimal,
    pub proposal_end_epoch: u64,
    /// The proposal in its voting period, if any.
    pub proposal_in_voting_period: Vec<u64>,
    pub liquidity_pool: Option<ComponentAddress>,
}

impl LiquidityPoolDAO {
    /// Vaults are not negative, ids are unique, and at most one proposal is
    /// in its voting period.
    pub open spec fn wf(&self) -> bool {
        &&& self.voting_yes_vault@ >= 0
        &&& self.voting_no_vault@ >= 0
        &&& self.voting_no_with_veto_vault@ >= 0
        &&& self.xrd_vault@ >= 0
        &&& self.proposal_in_voting_period@.len() <= 1
        &&& forall|i: int, j: int| 0 <= i < j < self.proposals@.len() ==> (#[trigger] self.proposals@[i]).id != (#[trigger] self.proposals@[j]).id
        &&& forall|i: int, j: int| 0 <= i < j < self.vote_badges@.len() ==> (#[trigger] self.vote_badges@[i]).id != (#[trigger] self.vote_badges@[j]).id
    }

    /// The governance component of the pool whose tokens are
    /// `tracking_token_address`: deposits of 500 XRD advance a proposal, the
    /// deposit phase ends at epoch 5 and voting at epoch 10, a quorum of 30%
    /// and a veto share below 33.4% are needed.
    pub fn new(
        tracking_token_address: ResourceAddress,
        nft_proposal_address: ResourceAddress,
        vote_badge_address: ResourceAddress,
        radix_resource: ResourceAddress,
    ) -> (r: LiquidityPoolDAO)
        ensures
            r.wf(),
            r.tracking_token_address == tracking_token_address,
            r.nft_proposal_address == nft_proposal_address,
            r.vote_badge_address == vote_badge_address,
            r.radix_resource == radix_resource,
            r.proposals@.len() == 0,
            r.vote_badges@.len() == 0,
            r.voting_yes_vault@ == 0 && r.voting_no_vault@ == 0 && r.voting_no_with_veto_vault@ == 0,
            r.voting_end_epoch == 10,
            r.vote_quorom@ == 300_000_000_000_000_000,
            r.no_with_veto_threshold@ == 334_000_000_000_000_000,
            r.minimum_xrd@ == 500_000_000_000_000_000_000,
            r.xrd_vault@ == 0,
            r.proposal_end_epoch == 5,
            r.proposal_in_voting_period@.len() == 0,
            r.liquidity_pool is None,
    {
        LiquidityPoolDAO {
            tracking_token_address,
            nft_proposal_address,
            vote_badge_address,
            radix_resource,
            proposals: Vec::new(),
            vote_badges: Vec::new(),
            voting_yes_vault: Decimal(0),
            voting_no_vault: Decimal(0),
            voting_no_with_veto_vault: Decimal(0),
            voting_end_epoch: 10,
            vote_quorom: Decimal(300_000_000_000_000_000),
            no_with_veto_threshold: Decimal(334_000_000_000_000_000),
            minimum_xrd: Decimal(500_000_000_000_000_000_000),
            xrd_vault: Decimal(0),
            proposal_end_epoch: 5,
            proposal_in_voting_period: Vec::new(),
            liquidity_pool: None,
        }
    }

    /// Records the pool's address, unless one is recorded already.
    pub fn set_address(&mut self, liquidity_pool_address: ComponentAddress)
        ensures
            final(self).liquidity_pool == (match old(self).liquidity_pool {
                Some(a) => Some(a),
                None => Some(liquidity_pool_address),
            }),
            final(self).proposals@ == old(self).proposals@,
            final(self).vote_badges@ == old(self).vote_badges@,
            final(self).proposal_in_voting_period@ == old(self).proposal_in_voting_period@,
            final(self).voting_yes_vault == old(self).voting_yes_vault,
            final(self).voting_no_vault == old(self).voting_no_vault,
            final(self).voting_no_with_veto_vault == old(self).voting_no_with_veto_vault,
            final(self).xrd_vault == old(self).xrd_vault,
    {
        if self.liquidity_pool.is_none() {
            self.liquidity_pool = Some(liquidity_pool_address);
        }
    }

    fn find_proposal(&self, id: u64) -> (r: Option<usize>)
        requires
            self.wf(),
        ensures
            match r {
                Some(i) => i < self.proposals@.len() && proposal_index(self.proposals@, id) == Some(i as int),
                None => proposal_index(self.proposals@, id) is None,
            },
    {
        let ghost s = self.proposals@;
        let mut i: usize = 0;
        while i < self.proposals.len()
            invariant
                i <= s.len(),
                s == self.proposals@,
                self.wf(),
                forall|j: int| 0 <= j < i ==> (#[trigger] s[j]).id != id,
            decreases s.len() - i,
        {
            if self.proposals[i].id == id {
                proof {
                    let c = choose|c: int| 0 <= c < s.len() && (#[trigger] s[c]).id == id;
                    if c > i {
                        assert(s[i as int].id != s[c].id);
                    }
                }
                return Some(i);
            }
            i = i + 1;
        }
        None
    }

    fn find_badge(&self, id: u64) -> (r: Option<usize>)
        requires
            self.wf(),
        ensures
            match r {
                Some(i) => i < self.vote_badges@.len() && badge_index(self.vote_badges@, id) == Some(i as int),
                None => badge_index(self.vote_badges@, id) is None,
            },
    {
        let ghost s = self.vote_badges@;
        let mut i: usize = 0;
        while i < self.vote_badges.len()
            invariant
                i <= s.len(),
                s == self.vote_badges@,
                self.wf(),
                forall|j: int| 0 <= j < i ==> (#[trigger] s[j]).id != id,
            decreases s.len() - i,
        {
            if self.vote_badges[i].id == id {
                proof {
                    let c = choose|c: int| 0 <= c < s.len() && (#[trigger] s[c]).id == id;
                    if c > i {
                        assert(s[i as int].id != s[c].id);
                    }
                }
                return Some(i);
            }
            i = i + 1;
        }
        None
    }

    /// The proposals in their voting period.
    pub fn see_voting(&self) -> (r: Vec<u64>)
        ensures
            r@ == self.proposal_in_voting_period@,
    {
        self.proposal_in_voting_period.clone()
    }

    /// The pool tokens put up by each kind of vote.
    pub fn vault_amounts(&self) -> (r: (Decimal, Decimal, Decimal))
        ensures
            r == (self.voting_yes_vault, self.voting_no_vault, self.voting_no_with_veto_vault),
    {
        (self.voting_yes_vault, self.voting_no_vault, self.voting_no_with_veto_vault)
    }

    /// The data of the proposal `proposal_id`.
    pub fn check_proposal(&self, proposal_id: u64) -> (r: Result<Proposal, DaoError>)
        requires
            self.wf(),
        ensures
            match proposal_index(self.proposals@, proposal_id) {
                Some(i) => r == Ok::<Proposal, DaoError>(self.proposals@[i].data),
                None => r == Err::<Proposal, DaoError>(DaoError::UnknownProposal),
            },
    {
        match self.find_proposal(proposal_id) {
            Some(i) => Ok(self.proposals[i].data),
            None => Err(DaoError::UnknownProposal),
        }
    }

    /// The data of the vote badge shown by `vote_badge`.
    pub fn check_vote(&self, vote_badge: NonFungible) -> (r: Result<VoteBadge, DaoError>)
        requires
            self.wf(),
        ensures
            vote_badge.resource != self.vote_badge_address ==> r == Err::<VoteBadge, DaoError>(DaoError::WrongResource),
            vote_badge.resource == self.vote_badge_address ==> match badge_index(self.vote_badges@, vote_badge.id) {
                Some(i) => r == Ok::<VoteBadge, DaoError>(self.vote_badges@[i].data),
                None => r == Err::<VoteBadge, DaoError>(DaoError::UnknownBadge),
            },
    {
        if vote_badge.resource != self.vote_badge_address {
            return Err(DaoError::WrongResource);
        }
        match self.find_badge(vote_badge.id) {
            Some(i) => Ok(self.vote_badges[i].data),
            None => Err(DaoError::UnknownBadge),
        }
    }

    /// The pool tokens in existence.
    pub fn get_tracking_tokens_supply(&self, pool: &LiquidityPool) -> (r: Result<Decimal, DaoError>)
        ensures
            self.liquidity_pool is None ==> r == Err::<Decimal, DaoError>(DaoError::NoPool),
            self.liquidity_pool is Some ==> r == Ok::<Decimal, DaoError>(pool.tracking_supply),
    {
        if self.liquidity_pool.is_none() {
            return Err(DaoError::NoPool);
        }
        Ok(pool.tracking_supply)
    }
    pub open spec fn state(&self) -> DaoState {
        DaoState {
            proposals: self.proposals@,
            badges: self.vote_badges@,
            yes: self.voting_yes_vault,
            no: self.voting_no_vault,
            veto: self.voting_no_with_veto_vault,
            xrd: self.xrd_vault,
            voting: self.proposal_in_voting_period@,
        }
    }

    /// The parameters, which no method changes.
    pub open spec fn same_params(&self, o: &Self) -> bool {
        &&& self.tracking_token_address == o.tracking_token_address
        &&& self.nft_proposal_address == o.nft_proposal_address
        &&& self.vote_badge_address == o.vote_badge_address
        &&& self.radix_resource == o.radix_resource
        &&& self.voting_end_epoch == o.voting_end_epoch
        &&& self.vote_quorom == o.vote_quorom
        &&& self.no_with_veto_threshold == o.no_with_veto_threshold
        &&& self.minimum_xrd == o.minimum_xrd
        &&& self.proposal_end_epoch == o.proposal_end_epoch
        &&& self.liquidity_pool == o.liquidity_pool
    }

    /// Proposing new weights and a new fee under the id `id`.
    pub open spec fn propose_spec(&self, w1: Decimal, w2: Decimal, fee: Decimal, id: u64, now: u64) -> Result<DaoState, DaoError> {
        let st = self.state();
        if !in_i128(w1@ + w2@) {
            Err(DaoError::Arithmetic)
        } else if w1@ + w2@ > dec_one() {
            Err(DaoError::WeightTooHigh)
        } else if fee@ < 0 || fee@ > 100 * dec_one() {
            Err(DaoError::InvalidFee)
        } else if proposal_index(st.proposals, id) is Some {
            Err(DaoError::DuplicateId)
        } else if self.liquidity_pool is None {
            Err(DaoError::NoPool)
        } else {
            Ok(DaoState {
                proposals: st.proposals.push(ProposalEntry {
                    id,
                    data: fresh_proposal(w1, w2, fee, self.voting_end_epoch, self.proposal_end_epoch, now),
                }),
                ..st
            })
        }
    }

    /// Depositing `fee` towards the proposal `pid`: reaching the minimum
    /// moves it to its voting period; missing it after the deposit phase
    /// ends rejects it.
    pub open spec fn deposit_spec(&self, fee: Bucket, pid: u64, now: u64) -> Result<DaoState, DaoError> {
        let st = self.state();
        match proposal_index(st.proposals, pid) {
            None => Err(DaoError::UnknownProposal),
            Some(i) => {
                let p = st.proposals[i].data;
                if fee.res() != self.radix_resource {
                    Err(DaoError::WrongResource)
                } else {
                    match (dec_of(p.amount_deposited@ + fee.amt()@), dec_of(st.xrd@ + fee.amt()@)) {
                        (Some(a2), Some(x2)) => if a2@ > self.minimum_xrd@ {
                            Err(DaoError::TooMuchDeposit)
                        } else if a2@ >= self.minimum_xrd@ {
                            if st.voting.len() != 0 {
                                Err(DaoError::TooManyInVoting)
                            } else {
                                Ok(DaoState {
                                    proposals: st.proposals.update(
                                        i,
                                        ProposalEntry { id: pid, data: Proposal { amount_deposited: a2, stage: Stage::VotingPeriod, ..p } },
                                    ),
                                    xrd: x2,
                                    voting: st.voting.push(pid),
                                    ..st
                                })
                            }
                        } else if now > self.proposal_end_epoch {
                            Ok(DaoState { proposals: st.proposals.remove(i), xrd: x2, ..st })
                        } else {
                            Ok(DaoState {
                                proposals: st.proposals.update(i, ProposalEntry { id: pid, data: Proposal { amount_deposited: a2, ..p } }),
                                xrd: x2,
                                ..st
                            })
                        },
                        (None, _) => Err(DaoError::Arithmetic),
                        (Some(a2), None) => if a2@ > self.minimum_xrd@ {
                            Err(DaoError::TooMuchDeposit)
                        } else {
                            Err(DaoError::Arithmetic)
                        },
                    }
                }
            },
        }
    }


    /// Voting `vote` with `lp` pool tokens on the proposal `pid`; `badge_id`
    /// is the id of the vote badge handed out.
    pub open spec fn vote_spec(&self, pool: LiquidityPool, lp: Bucket, vote: Vote, pid: u64, badge_id: u64) -> Result<DaoState, DaoError> {
        let st = self.state();
        if self.liquidity_pool is None {
            Err(DaoError::NoPool)
        } else {
            match proposal_index(st.proposals, pid) {
                None => Err(DaoError::UnknownProposal),
                Some(i) => {
                    let p = st.proposals[i].data;
                    if lp.res() != pool.tracking_token_address {
                        Err(DaoError::WrongResource)
                    } else if p.stage != Stage::VotingPeriod || !st.voting.contains(pid) {
                        Err(DaoError::NotInVotingPeriod)
                    } else {
                        match opt_div(Some(lp.amt()), Some(pool.tracking_supply)) {
                            None => Err(DaoError::Arithmetic),
                            Some(w) => match (dec_of(st.vault(vote)@ + lp.amt()@), dec_of(counter(p, vote)@ + w@)) {
                                (Some(v2), Some(c2)) => if badge_index(st.badges, badge_id) is Some {
                                    Err(DaoError::DuplicateId)
                                } else {
                                    Ok(DaoState {
                                        proposals: st.proposals.update(i, ProposalEntry { id: pid, data: with_counter(p, vote, c2) }),
                                        badges: st.badges.push(BadgeEntry {
                                            id: badge_id,
                                            data: VoteBadge { proposal: pid, vote, vote_weight: w, lp_tokens_allocated: lp.amt() },
                                        }),
                                        ..st.with_vault(vote, v2)
                                    })
                                },
                                _ => Err(DaoError::Arithmetic),
                            },
                        }
                    }
                },
            }
        }
    }

    /// Recasting the vote of the badge shown as `submission`: its pool
    /// tokens and its weight move from the old vote to the new one.
    pub open spec fn recast_spec(&self, badge: NonFungible, submission: Vote) -> Result<DaoState, DaoError> {
        let st = self.state();
        if badge.resource != self.vote_badge_address {
            Err(DaoError::WrongResource)
        } else {
            match badge_index(st.badges, badge.id) {
                None => Err(DaoError::UnknownBadge),
                Some(b) => {
                    let vb = st.badges[b].data;
                    if vb.vote == submission {
                        Err(DaoError::AlreadyVoted)
                    } else {
                        match proposal_index(st.proposals, vb.proposal) {
                            None => Err(DaoError::UnknownProposal),
                            Some(i) => {
                                let p = st.proposals[i].data;
                                let lp = vb.lp_tokens_allocated;
                                if !(0 <= lp@ <= st.vault(vb.vote)@) {
                                    Err(DaoError::InsufficientFunds)
                                } else {
                                    let st1 = st.with_vault(vb.vote, Decimal((st.vault(vb.vote)@ - lp@) as i128));
                                    match dec_of(counter(p, vb.vote)@ - vb.vote_weight@) {
                                        None => Err(DaoError::Arithmetic),
                                        Some(c1) => {
                                            let p1 = with_counter(p, vb.vote, c1);
                                            match (dec_of(st1.vault(submission)@ + lp@), dec_of(counter(p1, submission)@ + vb.vote_weight@)) {
                                                (Some(v2), Some(c2)) => Ok(DaoState {
                                                    proposals: st.proposals.update(i, ProposalEntry { id: vb.proposal, data: with_counter(p1, submission, c2) }),
                                                    badges: st.badges.update(b, BadgeEntry { id: badge.id, data: VoteBadge { vote: submission, ..vb } }),
                                                    ..st1.with_vault(submission, v2)
                                                }),
                                                _ => Err(DaoError::Arithmetic),
                                            }
                                        },
                                    }
                                }
                            },
                        }
                    }
                },
            }
        }
    }

    /// Taking back the pool tokens of the vote badge handed in, which is
    /// burnt: the state after it and the amount.
    pub open spec fn retrieve_spec(&self, badge: NonFungible) -> Result<(DaoState, Decimal), DaoError> {
        let st = self.state();
        if badge.resource != self.vote_badge_address {
            Err(DaoError::WrongResource)
        } else {
            match badge_index(st.badges, badge.id) {
                None => Err(DaoError::UnknownBadge),
                Some(b) => {
                    let vb = st.badges[b].data;
                    let lp = vb.lp_tokens_allocated;
                    if !(0 <= lp@ <= st.vault(vb.vote)@) {
                        Err(DaoError::InsufficientFunds)
                    } else {
                        Ok((
                            DaoState { badges: st.badges.remove(b), ..st.with_vault(vb.vote, Decimal((st.vault(vb.vote)@ - lp@) as i128)) },
                            lp,
                        ))
                    }
                },
            }
        }
    }


    /// Closing the proposal in its voting period with `resolution`: the
    /// state after it and the pool after the proposal is handed to it.
    pub open spec fn close_spec(&self, pool: LiquidityPool, resolution: Resolution) -> Result<(DaoState, LiquidityPool), DaoError> {
        let st = self.state();
        if st.voting.len() == 0 {
            Err(DaoError::NoProposalInVoting)
        } else {
            let pid = st.voting.last();
            match proposal_index(st.proposals, pid) {
                None => Err(DaoError::UnknownProposal),
                Some(i) => Ok((
                    DaoState { proposals: st.proposals.remove(i), voting: st.voting.drop_last(), ..st },
                    enact(pool, Proposal { resolution, ..st.proposals[i].data }),
                )),
            }
        }
    }

    /// Resolving the proposal in its voting period at epoch `now`: it
    /// passes with more `Yes` than `No`, a quorum and a veto share below
    /// the threshold; it fails with more `No` and a quorum, with a veto
    /// share at the threshold, or after the voting period; otherwise
    /// nothing happens.
    pub open spec fn resolve_spec(&self, pool: LiquidityPool, now: u64) -> Result<(DaoState, LiquidityPool), DaoError> {
        let st = self.state();
        let participating = opt_add(opt_add(Some(st.yes), Some(st.no)), Some(st.veto));
        match (
            opt_div(Some(st.yes), participating),
            opt_div(Some(st.no), participating),
            opt_div(Some(st.veto), participating),
        ) {
            (Some(yes), Some(no), Some(veto)) => if self.liquidity_pool is None {
                Err(DaoError::NoPool)
            } else {
                match opt_div(participating, Some(pool.tracking_supply)) {
                    None => Err(DaoError::Arithmetic),
                    Some(threshold) => if yes@ > no@ && threshold@ >= self.vote_quorom@ && veto@ < self.no_with_veto_threshold@ {
                        self.close_spec(pool, Resolution::Passed)
                    } else if no@ > yes@ && threshold@ >= self.vote_quorom@ {
                        self.close_spec(pool, Resolution::Failed)
                    } else if veto@ >= self.no_with_veto_threshold@ {
                        self.close_spec(pool, Resolution::Failed)
                    } else if now > self.voting_end_epoch {
                        self.close_spec(pool, Resolution::Failed)
                    } else {
                        Ok((st, pool))
                    },
                }
            },
            _ => Err(DaoError::Arithmetic),
        }
    }

    /// Creates a proposal of new weights and a new fee for the pool; `id` is
    /// the id of its token. Returns the id.
    pub fn propose(&mut self, token_1_weight: Decimal, token_2_weight: Decimal, fee_to_pool: Decimal, id: u64, now: u64) -> (r:
        Result<u64, DaoError>)
        requires
            old(self).wf(),
        ensures
            final(self).wf(),
            final(self).same_params(old(self)),
            match old(self).propose_spec(token_1_weight, token_2_weight, fee_to_pool, id, now) {
                Ok(st) => r == Ok::<u64, DaoError>(id) && final(self).state() == st,
                Err(e) => r == Err::<u64, DaoError>(e) && final(self).state() == old(self).state(),
            },
    {
        let sum = match token_1_weight.checked_add(token_2_weight) {
            Some(v) => v,
            None => return Err(DaoError::Arithmetic),
        };
        if sum.0 > ONE_UNITS {
            return Err(DaoError::WeightTooHigh);
        }
        if fee_to_pool.0 < 0 || fee_to_pool.0 > 100 * ONE_UNITS {
            return Err(DaoError::InvalidFee);
        }
        if self.find_proposal(id).is_some() {
            return Err(DaoError::DuplicateId);
        }
        if self.liquidity_pool.is_none() {
            return Err(DaoError::NoPool);
        }
        let ghost s = self.proposals@;
        let data = Proposal {
            token_1_weight,
            token_2_weight,
            fee_to_pool,
            amount_deposited: Decimal(0),
            stage: Stage::DepositPhase,
            yes_counter: Decimal(0),
            no_counter: Decimal(0),
            no_with_veto_counter: Decimal(0),
            vote_ends_in_epoch: self.voting_end_epoch,
            proposal_end_epoch: self.proposal_end_epoch,
            current_epoch: now,
            resolution: Resolution::InProcess,
        };
        self.proposals.push(ProposalEntry { id, data });
        proof {
            let t = self.proposals@;
            assert forall|a: int, b: int| 0 <= a < b < t.len() implies (#[trigger] t[a]).id != (#[trigger] t[b]).id by {
                assert(t[a] == s[a]);
                if b < s.len() {
                    assert(t[b] == s[b]);
                } else if s[a].id == id {
                    assert(proposal_index(s, id) is Some);
                }
            }
        }
        Ok(id)
    }

    /// Deposits XRD towards a proposal in its deposit phase.
    pub fn deposit_proposal(&mut self, fee: Bucket, proposal_id: u64, now: u64) -> (r: Result<(), DaoError>)
        requires
            old(self).wf(),
        ensures
            final(self).wf(),
            final(self).same_params(old(self)),
            match old(self).deposit_spec(fee, proposal_id, now) {
                Ok(st) => r is Ok && final(self).state() == st,
                Err(e) => r == Err::<(), DaoError>(e) && final(self).state() == old(self).state(),
            },
    {
        let i = match self.find_proposal(proposal_id) {
            Some(i) => i,
            None => return Err(DaoError::UnknownProposal),
        };
        if fee.resource_address() != self.radix_resource {
            return Err(DaoError::WrongResource);
        }
        let p = self.proposals[i].data;
        let amount = fee.amount();
        let a2 = match p.amount_deposited.checked_add(amount) {
            Some(v) => v,
            None => return Err(DaoError::Arithmetic),
        };
        if a2.0 > self.minimum_xrd.0 {
            return Err(DaoError::TooMuchDeposit);
        }
        let x2 = match self.xrd_vault.checked_add(amount) {
            Some(v) => v,
            None => return Err(DaoError::Arithmetic),
        };
        let ghost s = self.proposals@;
        if a2.0 >= self.minimum_xrd.0 {
            if self.proposal_in_voting_period.len() != 0 {
                return Err(DaoError::TooManyInVoting);
            }
            self.proposals.set(i, ProposalEntry { id: proposal_id, data: Proposal { amount_deposited: a2, stage: Stage::VotingPeriod, ..p } });
            self.proposal_in_voting_period.push(proposal_id);
        } else if now > self.proposal_end_epoch {
            self.proposals.remove(i);
            proof {
                let t = self.proposals@;
                assert forall|a: int, b: int| 0 <= a < b < t.len() implies (#[trigger] t[a]).id != (#[trigger] t[b]).id by {
                    let a1 = if a < i { a } else { a + 1 };
                    let b1 = if b < i { b } else { b + 1 };
                    assert(t[a] == s[a1] && t[b] == s[b1]);
                    assert(s[a1].id != s[b1].id);
                }
            }
        } else {
            self.proposals.set(i, ProposalEntry { id: proposal_id, data: Proposal { amount_deposited: a2, ..p } });
        }
        proof {
            let t = self.proposals@;
            assert forall|a: int, b: int| 0 <= a < b < t.len() implies (#[trigger] t[a]).id != (#[trigger] t[b]).id by {
                if t.len() == s.len() {
                    assert(s[a].id != s[b].id);
                }
            }
        }
        self.xrd_vault = x2;
        Ok(())
    }
    fn vault_exec(&self, v: Vote) -> (r: Decimal)
        ensures
            r == self.state().vault(v),
    {
        match v {
            Vote::Yes => self.voting_yes_vault,
            Vote::No => self.voting_no_vault,
            Vote::NoWithVeto => self.voting_no_with_veto_vault,
        }
    }

    fn set_vault(&mut self, v: Vote, x: Decimal)
        requires
            x@ >= 0,
            old(self).wf(),
        ensures
            final(self).wf(),
            final(self).state() == old(self).state().with_vault(v, x),
            final(self).same_params(old(self)),
    {
        match v {
            Vote::Yes => self.voting_yes_vault = x,
            Vote::No => self.voting_no_vault = x,
            Vote::NoWithVeto => self.voting_no_with_veto_vault = x,
        }
    }

    fn counter_exec(p: &Proposal, v: Vote) -> (r: Decimal)
        ensures
            r == counter(*p, v),
    {
        match v {
            Vote::Yes => p.yes_counter,
            Vote::No => p.no_counter,
            Vote::NoWithVeto => p.no_with_veto_counter,
        }
    }

    fn with_counter_exec(p: Proposal, v: Vote, x: Decimal) -> (r: Proposal)
        ensures
            r == with_counter(p, v, x),
    {
        match v {
            Vote::Yes => Proposal { yes_counter: x, ..p },
            Vote::No => Proposal { no_counter: x, ..p },
            Vote::NoWithVeto => Proposal { no_with_veto_counter: x, ..p },
        }
    }

    /// Votes on the proposal in its voting period with pool tokens, which
    /// the component keeps; the vote's weight is their share of all pool
    /// tokens. Returns the vote badge, whose id is `badge_id`.
    pub fn vote_proposal(&mut self, pool: &LiquidityPool, lp_tokens: Bucket, vote_submission: Vote, proposal_id: u64, badge_id: u64) -> (r:
        Result<NonFungible, DaoError>)
        requires
            old(self).wf(),
        ensures
            final(self).wf(),
            final(self).same_params(old(self)),
            match old(self).vote_spec(*pool, lp_tokens, vote_submission, proposal_id, badge_id) {
                Ok(st) => r == Ok::<NonFungible, DaoError>(NonFungible { resource: old(self).vote_badge_address, id: badge_id })
                    && final(self).state() == st,
                Err(e) => r == Err::<NonFungible, DaoError>(e) && final(self).state() == old(self).state(),
            },
    {
        if self.liquidity_pool.is_none() {
            return Err(DaoError::NoPool);
        }
        let i = match self.find_proposal(proposal_id) {
            Some(i) => i,
            None => return Err(DaoError::UnknownProposal),
        };
        if lp_tokens.resource_address() != pool.tracking_token_address {
            return Err(DaoError::WrongResource);
        }
        let p = self.proposals[i].data;
        let mut in_voting = false;
        let mut k: usize = 0;
        while k < self.proposal_in_voting_period.len()
            invariant
                k <= self.proposal_in_voting_period@.len(),
                in_voting == (exists|j: int| 0 <= j < k && self.proposal_in_voting_period@[j] == proposal_id),
            decreases self.proposal_in_voting_period@.len() - k,
        {
            if self.proposal_in_voting_period[k] == proposal_id {
                in_voting = true;
            }
            k = k + 1;
        }
        if p.stage != Stage::VotingPeriod || !in_voting {
            return Err(DaoError::NotInVotingPeriod);
        }
        let amount = lp_tokens.amount();
        let w = match amount.checked_div(pool.tracking_supply) {
            Some(v) => v,
            None => return Err(DaoError::Arithmetic),
        };
        let v2 = match self.vault_exec(vote_submission).checked_add(amount) {
            Some(v) => v,
            None => return Err(DaoError::Arithmetic),
        };
        let c2 = match Self::counter_exec(&p, vote_submission).checked_add(w) {
            Some(v) => v,
            None => return Err(DaoError::Arithmetic),
        };
        if self.find_badge(badge_id).is_some() {
            return Err(DaoError::DuplicateId);
        }
        proof {
            assert(v2@ >= 0) by {
                assert(self.state().vault(vote_submission)@ >= 0);
            }
        }
        let ghost s = self.proposals@;
        let ghost bs = self.vote_badges@;
        self.set_vault(vote_submission, v2);
        self.proposals.set(i, ProposalEntry { id: proposal_id, data: Self::with_counter_exec(p, vote_submission, c2) });
        self.vote_badges.push(BadgeEntry {
            id: badge_id,
            data: VoteBadge { proposal: proposal_id, vote: vote_submission, vote_weight: w, lp_tokens_allocated: amount },
        });
        proof {
            let t = self.proposals@;
            assert forall|a: int, b: int| 0 <= a < b < t.len() implies (#[trigger] t[a]).id != (#[trigger] t[b]).id by {
                assert(s[a].id != s[b].id);
            }
            let u = self.vote_badges@;
            assert forall|a: int, b: int| 0 <= a < b < u.len() implies (#[trigger] u[a]).id != (#[trigger] u[b]).id by {
                assert(u[a] == bs[a]);
                if b < bs.len() {
                    assert(u[b] == bs[b]);
                } else if bs[a].id == badge_id {
                    assert(badge_index(bs, badge_id) is Some);
                }
            }
        }
        Ok(NonFungible { resource: self.vote_badge_address, id: badge_id })
    }

    /// Changes the vote of the badge shown to `vote_submission`, moving its
    /// pool tokens and weight.
    pub fn recast_vote(&mut self, vote_badge: NonFungible, vote_submission: Vote) -> (r: Result<(), DaoError>)
        requires
            old(self).wf(),
        ensures
            final(self).wf(),
            final(self).same_params(old(self)),
            match old(self).recast_spec(vote_badge, vote_submission) {
                Ok(st) => r is Ok && final(self).state() == st,
                Err(e) => r == Err::<(), DaoError>(e) && final(self).state() == old(self).state(),
            },
    {
        if vote_badge.resource != self.vote_badge_address {
            return Err(DaoError::WrongResource);
        }
        let b = match self.find_badge(vote_badge.id) {
            Some(b) => b,
            None => return Err(DaoError::UnknownBadge),
        };
        let vb = self.vote_badges[b].data;
        if vb.vote == vote_submission {
            return Err(DaoError::AlreadyVoted);
        }
        let i = match self.find_proposal(vb.proposal) {
            Some(i) => i,
            None => return Err(DaoError::UnknownProposal),
        };
        let p = self.proposals[i].data;
        let lp = vb.lp_tokens_allocated;
        let old_vault = self.vault_exec(vb.vote);
        if !(0 <= lp.0 && lp.0 <= old_vault.0) {
            return Err(DaoError::InsufficientFunds);
        }
        let c1 = match Self::counter_exec(&p, vb.vote).checked_sub(vb.vote_weight) {
            Some(v) => v,
            None => return Err(DaoError::Arithmetic),
        };
        let p1 = Self::with_counter_exec(p, vb.vote, c1);
        // the new vote's vault is not the old one
        let v2 = match self.vault_exec(vote_submission).checked_add(lp) {
            Some(v) => v,
            None => return Err(DaoError::Arithmetic),
        };
        let c2 = match Self::counter_exec(&p1, vote_submission).checked_add(vb.vote_weight) {
            Some(v) => v,
            None => return Err(DaoError::Arithmetic),
        };
        let ghost s = self.proposals@;
        let ghost bs = self.vote_badges@;
        proof {
            assert(v2@ >= 0) by {
                assert(self.state().vault(vote_submission)@ >= 0);
            }
        }
        self.set_vault(vb.vote, Decimal(old_vault.0 - lp.0));
        self.set_vault(vote_submission, v2);
        self.proposals.set(i, ProposalEntry { id: vb.proposal, data: Self::with_counter_exec(p1, vote_submission, c2) });
        self.vote_badges.set(b, BadgeEntry { id: vote_badge.id, data: VoteBadge { vote: vote_submission, ..vb } });
        proof {
            let t = self.proposals@;
            assert forall|a: int, b2: int| 0 <= a < b2 < t.len() implies (#[trigger] t[a]).id != (#[trigger] t[b2]).id by {
                assert(s[a].id != s[b2].id);
            }
            let u = self.vote_badges@;
            assert forall|a: int, b2: int| 0 <= a < b2 < u.len() implies (#[trigger] u[a]).id != (#[trigger] u[b2]).id by {
                assert(bs[a].id != bs[b2].id);
            }
        }
        Ok(())
    }

    /// Takes back the pool tokens of a vote and burns its badge.
    pub fn retrieve_lp_tokens(&mut self, vote_badge: NonFungible) -> (r: Result<Bucket, DaoError>)
        requires
            old(self).wf(),
        ensures
            final(self).wf(),
            final(self).same_params(old(self)),
            match old(self).retrieve_spec(vote_badge) {
                Ok((st, amount)) => r == Ok::<Bucket, DaoError>(Bucket::spec_new(old(self).tracking_token_address, amount))
                    && final(self).state() == st,
                Err(e) => r == Err::<Bucket, DaoError>(e) && final(self).state() == old(self).state(),
            },
    {
        if vote_badge.resource != self.vote_badge_address {
            return Err(DaoError::WrongResource);
        }
        let b = match self.find_badge(vote_badge.id) {
            Some(b) => b,
            None => return Err(DaoError::UnknownBadge),
        };
        let vb = self.vote_badges[b].data;
        let lp = vb.lp_tokens_allocated;
        let vault = self.vault_exec(vb.vote);
        if !(0 <= lp.0 && lp.0 <= vault.0) {
            return Err(DaoError::InsufficientFunds);
        }
        let ghost bs = self.vote_badges@;
        self.set_vault(vb.vote, Decimal(vault.0 - lp.0));
        self.vote_badges.remove(b);
        proof {
            let u = self.vote_badges@;
            assert forall|a: int, c: int| 0 <= a < c < u.len() implies (#[trigger] u[a]).id != (#[trigger] u[c]).id by {
                let a1 = if a < b { a } else { a + 1 };
                let c1 = if c < b { c } else { c + 1 };
                assert(u[a] == bs[a1] && u[c] == bs[c1]);
                assert(bs[a1].id != bs[c1].id);
            }
        }
        Ok(Bucket::of(self.tracking_token_address, lp))
    }
    fn close_proposal(&mut self, pool: &mut LiquidityPool, resolution: Resolution) -> (r: Result<(), DaoError>)
        requires
            old(self).wf(),
        ensures
            final(self).wf(),
            final(self).same_params(old(self)),
            match old(self).close_spec(*old(pool), resolution) {
                Ok((st, pl)) => r is Ok && final(self).state() == st && *final(pool) == pl,
                Err(e) => r == Err::<(), DaoError>(e) && final(self).state() == old(self).state() && *final(pool) == *old(pool),
            },
    {
        let n = self.proposal_in_voting_period.len();
        if n == 0 {
            return Err(DaoError::NoProposalInVoting);
        }
        let pid = self.proposal_in_voting_period[n - 1];
        let i = match self.find_proposal(pid) {
            Some(i) => i,
            None => return Err(DaoError::UnknownProposal),
        };
        let ghost s = self.proposals@;
        let ghost v = self.proposal_in_voting_period@;
        let entry = self.proposals.remove(i);
        let _ = self.proposal_in_voting_period.pop();
        let closed = Proposal { resolution, ..entry.data };
        pool.resolve_proposal(&closed);
        proof {
            let t = self.proposals@;
            assert forall|a: int, c: int| 0 <= a < c < t.len() implies (#[trigger] t[a]).id != (#[trigger] t[c]).id by {
                let a1 = if a < i { a } else { a + 1 };
                let c1 = if c < i { c } else { c + 1 };
                assert(t[a] == s[a1] && t[c] == s[c1]);
                assert(s[a1].id != s[c1].id);
            }
            assert(self.proposal_in_voting_period@ == v.drop_last());
        }
        Ok(())
    }

    /// Resolves the proposal in its voting period, if an end condition is
    /// reached, and hands it to the pool.
    pub fn resolve_proposal(&mut self, pool: &mut LiquidityPool, now: u64) -> (r: Result<(), DaoError>)
        requires
            old(self).wf(),
        ensures
            final(self).wf(),
            final(self).same_params(old(self)),
            match old(self).resolve_spec(*old(pool), now) {
                Ok((st, pl)) => r is Ok && final(self).state() == st && *final(pool) == pl,
                Err(e) => r == Err::<(), DaoError>(e) && final(self).state() == old(self).state() && *final(pool) == *old(pool),
            },
    {
        let participating = match self.voting_yes_vault.checked_add(self.voting_no_vault) {
            Some(v) => match v.checked_add(self.voting_no_with_veto_vault) {
                Some(w) => w,
                None => return Err(DaoError::Arithmetic),
            },
            None => return Err(DaoError::Arithmetic),
        };
        let yes = match self.voting_yes_vault.checked_div(participating) {
            Some(v) => v,
            None => return Err(DaoError::Arithmetic),
        };
        let no = match self.voting_no_vault.checked_div(participating) {
            Some(v) => v,
            None => return Err(DaoError::Arithmetic),
        };
        let veto = match self.voting_no_with_veto_vault.checked_div(participating) {
            Some(v) => v,
            None => return Err(DaoError::Arithmetic),
        };
        if self.liquidity_pool.is_none() {
            return Err(DaoError::NoPool);
        }
        let threshold = match participating.checked_div(pool.tracking_supply) {
            Some(v) => v,
            None => return Err(DaoError::Arithmetic),
        };
        if yes.0 > no.0 && threshold.0 >= self.vote_quorom.0 && veto.0 < self.no_with_veto_threshold.0 {
            self.close_proposal(pool, Resolution::Passed)
        } else if no.0 > yes.0 && threshold.0 >= self.vote_quorom.0 {
            self.close_proposal(pool, Resolution::Failed)
        } else if veto.0 >= self.no_with_veto_threshold.0 {
            self.close_proposal(pool, Resolution::Failed)
        } else if now > self.voting_end_epoch {
            self.close_proposal(pool, Resolution::Failed)
        } else {
            Ok(())
        }
    }
}

/// A veto at or above the threshold blocks a proposal: when the tokens
/// voted `NoWithVeto` are at least `no_with_veto_threshold` of all the
/// tokens voted, resolving never passes the proposal and leaves the pool's
/// weights and fee as they were, however many voted `Yes`.
pub proof fn lemma_veto_blocks_proposal(d: LiquidityPoolDAO, pool: LiquidityPool, now: u64)
    requires
        d.voting_yes_vault@ >= 0,
        d.voting_no_vault@ >= 0,
        d.voting_no_with_veto_vault@ >= 0,
        d.voting_yes_vault@ + d.voting_no_vault@ + d.voting_no_with_veto_vault@ > 0,
        d.voting_no_with_veto_vault@ * dec_one() >= d.no_with_veto_threshold@ * (d.voting_yes_vault@
            + d.voting_no_vault@ + d.voting_no_with_veto_vault@),
        d.resolve_spec(pool, now) is Ok,
    ensures
        d.resolve_spec(pool, now)->Ok_0.1 == pool,
{
    let st = d.state();
    let p = st.yes@ + st.no@ + st.veto@;
    let v = st.veto@;
    let t = d.no_with_veto_threshold@;
    let u = dec_one();
    assert(0 <= v * u) by (nonlinear_arith)
        requires
            v >= 0,
            u > 0,
    ;
    vstd::arithmetic::div_mod::lemma_fundamental_div_mod(v * u, p);
    vstd::arithmetic::div_mod::lemma_mod_pos_bound(v * u, p);
    vstd::arithmetic::div_mod::lemma_div_pos_is_pos(v * u, p);
    let q = (v * u) / p;
    assert(ddiv(v, p) == q);
    assert(q >= t) by (nonlinear_arith)
        requires
            v * u == p * q + (v * u) % p,
            0 <= (v * u) % p < p,
            v * u >= t * p,
            p > 0,
    {
        if q < t {
            assert(p * q <= p * (t - 1)) by (nonlinear_arith)
                requires
                    q <= t - 1,
                    p > 0,
            ;
        }
    }
    let participating = opt_add(opt_add(Some(st.yes), Some(st.no)), Some(st.veto));
    assert(participating == Some(Decimal(p as i128)));
    let veto = opt_div(Some(st.veto), participating);
    assert(veto is Some);
    assert(veto->Some_0@ == q);
    let threshold = opt_div(participating, Some(pool.tracking_supply));
    assert(threshold is Some);
    let yes = opt_div(Some(st.yes), participating);
    let no = opt_div(Some(st.no), participating);
    assert(yes is Some && no is Some);
    if no->Some_0@ > yes->Some_0@ && threshold->Some_0@ >= d.vote_quorom@ {
        assert(d.resolve_spec(pool, now) == d.close_spec(pool, Resolution::Failed));
    } else {
        assert(d.resolve_spec(pool, now) == d.close_spec(pool, Resolution::Failed));
    }
}

/// A proposal that has its quorum, a clear majority of `Yes` over `No`
/// and a veto share under the threshold passes: resolving it closes it as
/// passed, which hands its weights and fee to the pool.
pub proof fn lemma_majority_passes_proposal(d: LiquidityPoolDAO, pool: LiquidityPool, now: u64)
    requires
        d.liquidity_pool is Some,
        d.voting_yes_vault@ >= 0,
        d.voting_no_vault@ >= 0,
        d.voting_no_with_veto_vault@ >= 0,
        in_i128(d.voting_yes_vault@ + d.voting_no_vault@ + d.voting_no_with_veto_vault@),
        d.voting_yes_vault@ + d.voting_no_vault@ + d.voting_no_with_veto_vault@ > 0,
        pool.tracking_supply@ > 0,
        (d.voting_yes_vault@ - d.voting_no_vault@) * dec_one() >= d.voting_yes_vault@ + d.voting_no_vault@
            + d.voting_no_with_veto_vault@,
        d.voting_no_with_veto_vault@ * dec_one() < d.no_with_veto_threshold@ * (d.voting_yes_vault@
            + d.voting_no_vault@ + d.voting_no_with_veto_vault@),
        (d.voting_yes_vault@ + d.voting_no_vault@ + d.voting_no_with_veto_vault@) * dec_one() >= d.vote_quorom@
            * pool.tracking_supply@,
        in_i128((d.voting_yes_vault@ + d.voting_no_vault@ + d.voting_no_with_veto_vault@) * dec_one()
            / pool.tracking_supply@),
    ensures
        d.resolve_spec(pool, now) == d.close_spec(pool, Resolution::Passed),
{
    let st = d.state();
    let y = st.yes@;
    let n = st.no@;
    let v = st.veto@;
    let p = y + n + v;
    let u = dec_one();
    let t = d.no_with_veto_threshold@;
    let q = d.vote_quorom@;
    let sup = pool.tracking_supply@;
    lemma_share_floor(y, p);
    lemma_share_floor(n, p);
    lemma_share_floor(v, p);
    lemma_share_floor(p, sup);
    let ys = (y * u) / p;
    let ns = (n * u) / p;
    let vs = (v * u) / p;
    let ts = (p * u) / sup;
    assert(ys > ns) by (nonlinear_arith)
        requires
            ys * p <= y * u < (ys + 1) * p,
            ns * p <= n * u < (ns + 1) * p,
            (y - n) * u >= p,
            p > 0,
    {
        if ys <= ns {
            assert(ys * p <= ns * p) by (nonlinear_arith)
                requires
                    ys <= ns,
                    p > 0,
            ;
        }
    }
    assert(vs < t) by (nonlinear_arith)
        requires
            vs * p <= v * u,
            v * u < t * p,
            p > 0,
    {
        if vs >= t {
            assert(vs * p >= t * p) by (nonlinear_arith)
                requires
                    vs >= t,
                    p > 0,
            ;
        }
    }
    assert(ts >= q) by (nonlinear_arith)
        requires
            p * u < (ts + 1) * sup,
            p * u >= q * sup,
            sup > 0,
    {
        if ts < q {
            assert((ts + 1) * sup <= q * sup) by (nonlinear_arith)
                requires
                    ts + 1 <= q,
                    sup > 0,
            ;
        }
    }
    let participating = opt_add(opt_add(Some(st.yes), Some(st.no)), Some(st.veto));
    assert(participating == Some(Decimal(p as i128)));
    assert(in_i128(ys) && in_i128(ns) && in_i128(vs)) by (nonlinear_arith)
        requires
            0 <= ys * p <= y * u,
            0 <= ns * p <= n * u,
            0 <= vs * p <= v * u,
            y <= p,
            n <= p,
            v <= p,
            p > 0,
            u == dec_one(),
            ys >= 0,
            ns >= 0,
            vs >= 0,
            ys * p <= p * u,
            ns * p <= p * u,
            vs * p <= p * u,
    {
        assert(ys <= u) by (nonlinear_arith)
            requires
                ys * p <= p * u,
                p > 0,
        ;
        assert(ns <= u) by (nonlinear_arith)
            requires
                ns * p <= p * u,
                p > 0,
        ;
        assert(vs <= u) by (nonlinear_arith)
            requires
                vs * p <= p * u,
                p > 0,
        ;
    }
    assert(opt_div(Some(st.yes), participating)->Some_0@ == ys);
    assert(opt_div(Some(st.no), participating)->Some_0@ == ns);
    assert(opt_div(Some(st.veto), participating)->Some_0@ == vs);
    assert(opt_div(participating, Some(pool.tracking_supply))->Some_0@ == ts);
}

/// A proposal that has its quorum and a clear majority of `No` over `Yes`
/// fails: resolving it never changes the pool.
pub proof fn lemma_no_majority_blocks_proposal(d: LiquidityPoolDAO, pool: LiquidityPool, now: u64)
    requires
        d.voting_yes_vault@ >= 0,
        d.voting_no_vault@ >= 0,
        d.voting_no_with_veto_vault@ >= 0,
        d.voting_yes_vault@ + d.voting_no_vault@ + d.voting_no_with_veto_vault@ > 0,
        (d.voting_no_vault@ - d.voting_yes_vault@) * dec_one() >= d.voting_yes_vault@ + d.voting_no_vault@
            + d.voting_no_with_veto_vault@,
        d.resolve_spec(pool, now) is Ok,
    ensures
        d.resolve_spec(pool, now)->Ok_0.1 == pool,
{
    let st = d.state();
    let y = st.yes@;
    let n = st.no@;
    let v = st.veto@;
    let p = y + n + v;
    let u = dec_one();
    lemma_share_floor(y, p);
    lemma_share_floor(n, p);
    let ys = (y * u) / p;
    let ns = (n * u) / p;
    assert(ns > ys) by (nonlinear_arith)
        requires
            ys * p <= y * u < (ys + 1) * p,
            ns * p <= n * u < (ns + 1) * p,
            (n - y) * u >= p,
            p > 0,
    {
        if ns <= ys {
            assert(ns * p <= ys * p) by (nonlinear_arith)
                requires
                    ns <= ys,
                    p > 0,
            ;
        }
    }
    let participating = opt_add(opt_add(Some(st.yes), Some(st.no)), Some(st.veto));
    assert(participating == Some(Decimal(p as i128)));
    assert(opt_div(Some(st.yes), participating)->Some_0@ == ys);
    assert(opt_div(Some(st.no), participating)->Some_0@ == ns);
}

/// A share of a non-negative amount, rounded down.
proof fn lemma_share_floor(a: int, p: int)
    requires
        a >= 0,
        p > 0,
    ensures
        ddiv(a, p) == (a * dec_one()) / p,
        0 <= (a * dec_one()) / p,
        ((a * dec_one()) / p) * p <= a * dec_one() < ((a * dec_one()) / p + 1) * p,
{
    let u = dec_one();
    assert(0 <= a * u) by (nonlinear_arith)
        requires
            a >= 0,
            u > 0,
    ;
    vstd::arithmetic::div_mod::lemma_fundamental_div_mod(a * u, p);
    vstd::arithmetic::div_mod::lemma_mod_pos_bound(a * u, p);
    vstd::arithmetic::div_mod::lemma_div_pos_is_pos(a * u, p);
    assert(((a * u) / p) * p == p * ((a * u) / p)) by (nonlinear_arith);
    assert(((a * u) / p + 1) * p == p * ((a * u) / p) + p) by (nonlinear_arith);
}

/// Recasting a vote moves pool tokens between the vote vaults and never
/// creates or loses any: the three vaults hold as much after as before.
pub proof fn lemma_recast_conserves_tokens(d: LiquidityPoolDAO, badge: NonFungible, submission: Vote)
    requires
        d.recast_spec(badge, submission) is Ok,
    ensures
        ({
            let st = d.recast_spec(badge, submission).unwrap();
            st.yes@ + st.no@ + st.veto@ == d.voting_yes_vault@ + d.voting_no_vault@ + d.voting_no_with_veto_vault@
        }),
{
}

} // verus!
