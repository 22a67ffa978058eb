use voting::engine::Engine;
use voting::error::VotingError;
use voting::MIN_STAKED_TOKENS;

const PERIOD: i64 = 1000;

/// An engine with one proposal (id 1, two options, 3 reward points) and one
/// voter (identity 7) holding `staked` staked tokens.
fn engine_for_voting(staked: u64) -> Engine {
    let mut e = Engine::initialize_config(1, PERIOD, 9);
    e.create_proposal(1, 10, 9000, 3, b"abc".to_vec(), b"d".to_vec(), vec![
        b"yes".to_vec(),
        b"no".to_vec(),
    ], 100)
    .unwrap();
    e.initialize_voter(7).unwrap();
    if staked > 0 {
        e.increase_stake(7, staked).unwrap();
    }
    e
}

#[test]
fn idle_voter_votes_with_full_stake() {
    let mut e = engine_for_voting(6_000_000);
    e.cast_vote(7, 1, 0, 200).unwrap();
    assert_eq!(e.votes.len(), 1);
    assert_eq!(e.votes[0].voter, 7);
    assert_eq!(e.votes[0].proposal, 1);
    assert_eq!(e.votes[0].option, 0);
    assert_eq!(e.votes[0].weight, 6_000_000);
    assert_eq!(e.votes[0].timestamp, 200);
    assert_eq!(e.proposals[0].option_votes, vec![6_000_000, 0]);
    assert_eq!(e.voters[0].points, 3);
}

#[test]
fn weight_decays_linearly_while_unstaking() {
    let mut e = engine_for_voting(10_000_000);
    // Cooldown runs from 1000 to 2000; halfway through, half the weight.
    e.decrease_stake(7, 10_000_000, 1000).unwrap();
    e.cast_vote(7, 1, 0, 1500).unwrap();
    assert_eq!(e.votes[0].weight, 5_000_000);
    // The tally grows by the raw staked amount, not the decayed weight.
    assert_eq!(e.proposals[0].option_votes, vec![10_000_000, 0]);
}

#[test]
fn weight_is_floored_at_zero_after_cooldown() {
    let mut e = engine_for_voting(10_000_000);
    e.decrease_stake(7, 10_000_000, 1000).unwrap();
    e.cast_vote(7, 1, 1, 2000).unwrap();
    assert_eq!(e.votes[0].weight, 0);
    assert_eq!(e.proposals[0].option_votes, vec![0, 10_000_000]);
}

#[test]
fn weight_uses_floor_division() {
    let mut e = engine_for_voting(10_000_001);
    e.decrease_stake(7, 10_000_001, 1000).unwrap();
    // 10_000_001 * 500 / 1000 floors to 5_000_000.
    e.cast_vote(7, 1, 0, 1500).unwrap();
    assert_eq!(e.votes[0].weight, 5_000_000);
}

#[test]
fn stake_at_threshold_is_rejected() {
    let mut e = engine_for_voting(MIN_STAKED_TOKENS as u64);
    assert_eq!(e.cast_vote(7, 1, 0, 200), Err(VotingError::NoTokensStaked));
    assert!(e.votes.is_empty());
    assert_eq!(e.proposals[0].option_votes, vec![0, 0]);
    assert_eq!(e.voters[0].points, 0);
}

#[test]
fn stake_just_above_threshold_is_accepted() {
    let mut e = engine_for_voting(MIN_STAKED_TOKENS as u64 + 1);
    e.cast_vote(7, 1, 0, 200).unwrap();
    assert_eq!(e.votes[0].weight, MIN_STAKED_TOKENS as u64 + 1);
}

#[test]
fn voting_twice_on_one_proposal_fails() {
    let mut e = engine_for_voting(6_000_000);
    e.cast_vote(7, 1, 0, 200).unwrap();
    assert_eq!(e.cast_vote(7, 1, 1, 300), Err(VotingError::AlreadyVoted));
    // The tally reflects only the first vote.
    assert_eq!(e.proposals[0].option_votes, vec![6_000_000, 0]);
    assert_eq!(e.votes.len(), 1);
    assert_eq!(e.voters[0].points, 3);
}

#[test]
fn one_voter_may_vote_on_two_proposals() {
    let mut e = engine_for_voting(6_000_000);
    e.create_proposal(1, 10, 9000, 5, b"def".to_vec(), b"d".to_vec(), vec![
        b"yes".to_vec(),
        b"no".to_vec(),
    ], 100)
    .unwrap();
    e.cast_vote(7, 1, 0, 200).unwrap();
    e.cast_vote(7, 2, 1, 300).unwrap();
    assert_eq!(e.votes.len(), 2);
    assert_eq!(e.voters[0].points, 8);
}

#[test]
fn total_votes_is_not_maintained_by_voting() {
    let mut e = engine_for_voting(6_000_000);
    e.initialize_voter(8).unwrap();
    e.increase_stake(8, 7_000_000).unwrap();
    e.cast_vote(7, 1, 0, 200).unwrap();
    e.cast_vote(8, 1, 1, 201).unwrap();
    // The per-option tallies grow, yet the stored aggregate stays at its
    // creation value: the two deliberately diverge.
    let tally_sum: u64 = e.proposals[0].option_votes.iter().sum();
    assert_eq!(tally_sum, 13_000_000);
    assert_eq!(e.proposals[0].total_votes, 0);
}

#[test]
fn out_of_range_option_is_rejected_cleanly() {
    let mut e = engine_for_voting(6_000_000);
    assert_eq!(e.cast_vote(7, 1, 2, 200), Err(VotingError::OutOfRange));
    assert!(e.votes.is_empty());
    assert_eq!(e.proposals[0].option_votes, vec![0, 0]);
}

#[test]
fn voting_on_missing_proposal_fails() {
    let mut e = engine_for_voting(6_000_000);
    assert_eq!(e.cast_vote(7, 2, 0, 200), Err(VotingError::RecordNotFound));
}

#[test]
fn voting_without_a_voter_record_fails() {
    let mut e = engine_for_voting(6_000_000);
    assert_eq!(e.cast_vote(8, 1, 0, 200), Err(VotingError::RecordNotFound));
}
