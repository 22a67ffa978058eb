//! Cross-operation laws of the engine, stated and proved once.
//!
//! The single-operation guarantees live in the handlers' contracts, and the
//! always-true record invariants live in `Engine::wf`, which every handler
//! re-establishes. What stands here is what only shows up when operations
//! are chained.

use crate::state::{
    proposal_after_vote, sum_tallies, voter_after_decrease, voter_after_increase,
    voter_after_withdraw, Proposal, Voter,
};
use vstd::prelude::*;

verus! {

/// Replacing one tally moves the tally sum by exactly the difference of
/// the two values.
pub proof fn lemma_sum_tallies_update(s: Seq<u64>, i: int, x: u64)
    requires
        0 <= i < s.len(),
    ensures
        sum_tallies(s.update(i, x)) == sum_tallies(s) - s[i] + x,
    decreases s.len(),
{
    let t = s.update(i, x);
    if i == s.len() - 1 {
        assert(t.drop_last() =~= s.drop_last());
    } else {
        assert(t.drop_last() =~= s.drop_last().update(i, x));
        lemma_sum_tallies_update(s.drop_last(), i, x);
    }
}

/// Law: a vote adds the voter's raw staked balance to exactly one tally
/// while `total_votes` stays where it was — the stored aggregate is *not*
/// kept equal to the tally sum by voting, so the two drift apart as soon
/// as a vote backed by any stake lands.
pub proof fn lemma_vote_skips_total_votes(p: Proposal, q: Proposal, option: u8, staked: u64)
    requires
        (option as int) < p.option_votes@.len(),
        p.option_votes@[option as int] + staked <= u64::MAX,
        proposal_after_vote(p, q, option, staked),
    ensures
        q.total_votes == p.total_votes,
        sum_tallies(q.option_votes@) == sum_tallies(p.option_votes@) + staked,
{
    lemma_sum_tallies_update(
        p.option_votes@,
        option as int,
        (p.option_votes@[option as int] + staked) as u64,
    );
}

/// Law: staking an amount, then requesting to unstake that same amount,
/// then withdrawing once the cooldown has elapsed returns the voter's
/// staked balance, unstaking state and reward points to where they began —
/// the sequence is a round trip.
pub proof fn lemma_stake_round_trip(v: Voter, amount: u64, now: i64, period: i64)
    requires
        v.wf(),
        v.staked_amount + amount <= u64::MAX,
        amount > 0,
        now > 0,
        now + period <= i64::MAX,
        period > 0,
    ensures
        ({
            let after = voter_after_withdraw(
                voter_after_decrease(voter_after_increase(v, amount), amount, now, period),
            );
            &&& after.staked_amount == v.staked_amount
            &&& after.amount_unstaking == 0
            &&& after.unstake_complete_ts == 0
            &&& after.points == v.points
            &&& after.authority == v.authority
        }),
{
}

} // verus!
