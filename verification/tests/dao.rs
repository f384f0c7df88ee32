use defi::amm::LiquidityPool;
use defi::dao::{DaoError, LiquidityPoolDAO, Resolution, Stage, Vote};
use defi::decimal::Decimal;
use defi::resource::{Bucket, ComponentAddress, NonFungible, ResourceAddress};

const ONE: i128 = 1_000_000_000_000_000_000;
const XRD: ResourceAddress = ResourceAddress(100);
const LP: ResourceAddress = ResourceAddress(9);
const PROPOSALS: ResourceAddress = ResourceAddress(20);
const BADGES: ResourceAddress = ResourceAddress(21);

fn units(n: i128) -> Decimal {
    Decimal(n * ONE)
}

fn half() -> Decimal {
    Decimal(ONE / 2)
}

fn setup() -> (LiquidityPool, LiquidityPoolDAO) {
    let a = Bucket::new(ResourceAddress(1), units(1000)).unwrap();
    let b = Bucket::new(ResourceAddress(2), units(1000)).unwrap();
    let (pool, lp) = LiquidityPool::new(half(), half(), a, b, units(1), true, true, LP).unwrap();
    assert_eq!(lp.amount(), units(100));
    let mut dao = LiquidityPoolDAO::new(LP, PROPOSALS, BADGES, XRD);
    dao.set_address(ComponentAddress(7));
    (pool, dao)
}

fn xrd(n: i128) -> Bucket {
    Bucket::new(XRD, units(n)).unwrap()
}

fn lp(n: i128) -> Bucket {
    Bucket::new(LP, units(n)).unwrap()
}

#[test]
fn proposal_passes_and_changes_the_pool() {
    let (mut pool, mut dao) = setup();
    let weight = Decimal(400_000_000_000_000_000);
    let other = Decimal(600_000_000_000_000_000);
    assert_eq!(dao.propose(weight, other, units(2), 1, 0), Ok(1));
    dao.deposit_proposal(xrd(200), 1, 0).unwrap();
    assert_eq!(dao.check_proposal(1).unwrap().stage, Stage::DepositPhase);
    dao.deposit_proposal(xrd(300), 1, 0).unwrap();
    assert_eq!(dao.check_proposal(1).unwrap().stage, Stage::VotingPeriod);
    assert_eq!(dao.see_voting(), vec![1]);
    let badge = dao.vote_proposal(&pool, lp(40), Vote::Yes, 1, 77).unwrap();
    assert_eq!(badge, NonFungible { resource: BADGES, id: 77 });
    assert_eq!(dao.check_proposal(1).unwrap().yes_counter, Decimal(400_000_000_000_000_000));
    dao.resolve_proposal(&mut pool, 0).unwrap();
    assert_eq!(pool.token_1_weight, weight);
    assert_eq!(pool.token_2_weight, other);
    assert_eq!(pool.fee_to_pool, units(2));
    assert_eq!(dao.check_proposal(1), Err(DaoError::UnknownProposal));
    assert!(dao.see_voting().is_empty());
    let back = dao.retrieve_lp_tokens(badge).unwrap();
    assert_eq!(back.amount(), units(40));
    assert_eq!(dao.vault_amounts(), (units(0), units(0), units(0)));
}

#[test]
fn recast_moves_tokens_and_a_no_majority_fails_the_proposal() {
    let (mut pool, mut dao) = setup();
    dao.propose(half(), half(), units(1), 5, 0).unwrap();
    dao.deposit_proposal(xrd(500), 5, 0).unwrap();
    let badge = dao.vote_proposal(&pool, lp(35), Vote::Yes, 5, 1).unwrap();
    assert_eq!(dao.recast_vote(badge, Vote::Yes), Err(DaoError::AlreadyVoted));
    dao.recast_vote(badge, Vote::No).unwrap();
    assert_eq!(dao.vault_amounts(), (units(0), units(35), units(0)));
    assert_eq!(dao.check_vote(badge).unwrap().vote, Vote::No);
    let p = dao.check_proposal(5).unwrap();
    assert_eq!((p.yes_counter, p.no_counter), (units(0), Decimal(350_000_000_000_000_000)));
    let before = pool;
    dao.resolve_proposal(&mut pool, 0).unwrap();
    assert_eq!(pool, before);
    assert!(dao.see_voting().is_empty());
}

#[test]
fn proposals_are_checked() {
    let (pool, mut dao) = setup();
    assert_eq!(dao.propose(units(1), half(), units(1), 1, 0), Err(DaoError::WeightTooHigh));
    assert_eq!(dao.propose(half(), half(), units(101), 1, 0), Err(DaoError::InvalidFee));
    dao.propose(half(), half(), units(1), 1, 0).unwrap();
    assert_eq!(dao.propose(half(), half(), units(1), 1, 0), Err(DaoError::DuplicateId));
    assert_eq!(dao.deposit_proposal(xrd(501), 1, 0), Err(DaoError::TooMuchDeposit));
    assert_eq!(dao.deposit_proposal(lp(1), 1, 0), Err(DaoError::WrongResource));
    assert_eq!(dao.deposit_proposal(xrd(1), 2, 0), Err(DaoError::UnknownProposal));
    assert_eq!(dao.vote_proposal(&pool, lp(1), Vote::No, 1, 3), Err(DaoError::NotInVotingPeriod));
    // a second proposal cannot enter the voting period while one is in it
    dao.propose(half(), half(), units(1), 2, 0).unwrap();
    dao.deposit_proposal(xrd(500), 1, 0).unwrap();
    assert_eq!(dao.deposit_proposal(xrd(500), 2, 0), Err(DaoError::TooManyInVoting));
    // after the deposit phase, a deposit short of the minimum rejects the proposal
    dao.deposit_proposal(xrd(1), 2, 6).unwrap();
    assert_eq!(dao.check_proposal(2), Err(DaoError::UnknownProposal));
}

#[test]
fn resolution_needs_votes() {
    let (mut pool, mut dao) = setup();
    assert_eq!(dao.resolve_proposal(&mut pool, 0), Err(DaoError::Arithmetic));
    assert_eq!(dao.get_tracking_tokens_supply(&pool), Ok(units(100)));
    let wrong = NonFungible { resource: PROPOSALS, id: 1 };
    assert_eq!(dao.retrieve_lp_tokens(wrong).err(), Some(DaoError::WrongResource));
    let _ = Resolution::InProcess;
}
