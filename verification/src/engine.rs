//! The governance engine: the config singleton together with every voter,
//! proposal and vote record, and the instruction handlers that step them.

use crate::error::VotingError;
use crate::state::{
    new_voter, proposal_after_vote, time_remaining, vote_weight, voter_after_cancel,
    voter_after_decrease, voter_after_increase, voter_after_withdraw, Config, Identity, Proposal,
    Vote, Voter,
};
use crate::MIN_STAKED_TOKENS;
use vstd::pervasive::VecAdditionalExecFns;
use vstd::prelude::*;

verus! {

/// The whole persisted state of one governance instance.
pub struct Engine {
    /// The singleton configuration.
    pub config: Config,
    /// One record per participant, keyed by `Voter::authority`.
    pub voters: Vec<Voter>,
    /// One record per proposal, keyed by `Proposal::id`.
    pub proposals: Vec<Proposal>,
    /// One record per cast vote, keyed by (`Vote::voter`, `Vote::proposal`).
    pub votes: Vec<Vote>,
}

/// Sum of the staked balances of a sequence of voters.
pub open spec fn sum_staked(s: Seq<Voter>) -> int
    decreases s.len(),
{
    if s.len() == 0 {
        0
    } else {
        sum_staked(s.drop_last()) + s.last().staked_amount
    }
}

/// The staked sum of a sequence of voters is never negative.
pub proof fn lemma_sum_staked_nonneg(s: Seq<Voter>)
    ensures
        sum_staked(s) >= 0,
    decreases s.len(),
{
    if s.len() > 0 {
        lemma_sum_staked_nonneg(s.drop_last());
    }
}

/// Each voter's staked balance is at most the staked sum of the whole
/// sequence.
pub proof fn lemma_sum_staked_le(s: Seq<Voter>, i: int)
    requires
        0 <= i < s.len(),
    ensures
        s[i].staked_amount <= sum_staked(s),
    decreases s.len(),
{
    if i == s.len() - 1 {
        lemma_sum_staked_nonneg(s.drop_last());
    } else {
        lemma_sum_staked_le(s.drop_last(), i);
    }
}

/// Replacing one voter moves the staked sum by exactly the difference of
/// the two staked balances.
pub proof fn lemma_sum_staked_update(s: Seq<Voter>, i: int, v: Voter)
    requires
        0 <= i < s.len(),
    ensures
        sum_staked(s.update(i, v)) == sum_staked(s) - s[i].staked_amount + v.staked_amount,
    decreases s.len(),
{
    let t = s.update(i, v);
    if i == s.len() - 1 {
        assert(t.drop_last() =~= s.drop_last());
    } else {
        assert(t.drop_last() =~= s.drop_last().update(i, v));
        lemma_sum_staked_update(s.drop_last(), i, v);
    }
}

/// Appending a voter grows the staked sum by that voter's staked balance.
pub proof fn lemma_sum_staked_push(s: Seq<Voter>, v: Voter)
    ensures
        sum_staked(s.push(v)) == sum_staked(s) + v.staked_amount,
{
    assert(s.push(v).drop_last() =~= s);
}

/// Relates the two sides of an operation that touches no record: the
/// config and every stored record read back unchanged.
pub open spec fn unchanged(pre: Engine, post: Engine) -> bool {
    &&& post.config == pre.config
    &&& post.voters@ == pre.voters@
    &&& post.proposals@ == pre.proposals@
    &&& post.votes@ == pre.votes@
}

impl Engine {
    /// Law: the configured total always equals the sum of every voter's
    /// staked balance, so the custody pool is fully accounted for.
    pub open spec fn staked_conserved(self) -> bool {
        self.config.total_staked == sum_staked(self.voters@)
    }

    /// Every voter record satisfies its own invariant, and no two records
    /// share an owner.
    pub open spec fn voters_wf(self) -> bool {
        &&& forall|i: int| 0 <= i < self.voters@.len() ==> (#[trigger] self.voters@[i]).wf()
        &&& forall|i: int, j: int|
            0 <= i < j < self.voters@.len() ==> (#[trigger] self.voters@[i]).authority != (
            #[trigger] self.voters@[j]).authority
    }

    /// Every proposal is well formed, carries an identifier below the
    /// config's counter, and no two proposals share an identifier.
    pub open spec fn proposals_wf(self) -> bool {
        &&& forall|i: int|
            0 <= i < self.proposals@.len() ==> (#[trigger] self.proposals@[i]).wf()
                && self.proposals@[i].id < self.config.next_proposal_id
        &&& forall|i: int, j: int|
            0 <= i < j < self.proposals@.len() ==> (#[trigger] self.proposals@[i]).id != (
            #[trigger] self.proposals@[j]).id
    }

    /// Law: no two vote records share a (voter, proposal) key, so each voter
    /// voted at most once on each proposal.
    pub open spec fn votes_unique(self) -> bool {
        forall|i: int, j: int|
            0 <= i < j < self.votes@.len() ==> !((#[trigger] self.votes@[i]).voter
                == (#[trigger] self.votes@[j]).voter && self.votes@[i].proposal
                == self.votes@[j].proposal)
    }

    /// The invariant every handler preserves.
    pub open spec fn wf(self) -> bool {
        &&& self.config.unstake_period > 0
        &&& self.config.next_proposal_id >= 1
        &&& self.voters_wf()
        &&& self.staked_conserved()
        &&& self.proposals_wf()
        &&& self.votes_unique()
    }

    /// Whether a voter record keyed by `authority` exists.
    pub open spec fn has_voter(self, authority: Identity) -> bool {
        exists|i: int|
            0 <= i < self.voters@.len() && (#[trigger] self.voters@[i]).authority == authority
    }

    /// Whether a proposal record keyed by `id` exists.
    pub open spec fn has_proposal(self, id: u16) -> bool {
        exists|i: int| 0 <= i < self.proposals@.len() && (#[trigger] self.proposals@[i]).id == id
    }

    /// Whether `voter` has already cast a vote on `proposal`.
    pub open spec fn has_vote(self, voter: Identity, proposal: u16) -> bool {
        exists|i: int|
            0 <= i < self.votes@.len() && (#[trigger] self.votes@[i]).voter == voter
                && self.votes@[i].proposal == proposal
    }

    /// Position of the voter record keyed by `authority`, if one exists.
    fn find_voter(&self, authority: Identity) -> (r: Option<usize>)
        ensures
            match r {
                Some(i) => i < self.voters@.len() && self.voters@[i as int].authority == authority,
                None => !self.has_voter(authority),
            },
    {
        let mut i: usize = 0;
        while i < self.voters.len()
            invariant
                i <= self.voters@.len(),
                forall|j: int| 0 <= j < i ==> (#[trigger] self.voters@[j]).authority != authority,
            decreases self.voters@.len() - i,
        {
            if self.voters[i].authority == authority {
                return Some(i);
            }
            i += 1;
        }
        None
    }

    /// Position of the proposal record keyed by `id`, if one exists.
    fn find_proposal(&self, id: u16) -> (r: Option<usize>)
        ensures
            match r {
                Some(i) => i < self.proposals@.len() && self.proposals@[i as int].id == id,
                None => !self.has_proposal(id),
            },
    {
        let mut i: usize = 0;
        while i < self.proposals.len()
            invariant
                i <= self.proposals@.len(),
                forall|j: int| 0 <= j < i ==> (#[trigger] self.proposals@[j]).id != id,
            decreases self.proposals@.len() - i,
        {
            if self.proposals[i].id == id {
                return Some(i);
            }
            i += 1;
        }
        None
    }

    /// Position of the vote record keyed by (`voter`, `proposal`), if one
    /// exists.
    fn find_vote(&self, voter: Identity, proposal: u16) -> (r: Option<usize>)
        ensures
            match r {
                Some(i) => i < self.votes@.len() && self.votes@[i as int].voter == voter
                    && self.votes@[i as int].proposal == proposal,
                None => !self.has_vote(voter, proposal),
            },
    {
        let mut i: usize = 0;
        while i < self.votes.len()
            invariant
                i <= self.votes@.len(),
                forall|j: int|
                    0 <= j < i ==> !((#[trigger] self.votes@[j]).voter == voter
                        && self.votes@[j].proposal == proposal),
            decreases self.votes@.len() - i,
        {
            if self.votes[i].voter == voter && self.votes[i].proposal == proposal {
                return Some(i);
            }
            i += 1;
        }
        None
    }

    /// Creates the singleton config together with an empty store. The caller
    /// creates it exactly once; re-creation is refused by the store keyed on
    /// the config's fixed key.
    pub fn initialize_config(authority: Identity, unstake_period: i64, stake_mint: Identity) -> (r:
        Engine)
        requires
            unstake_period > 0,
        ensures
            r.wf(),
            r.config == (Config {
                authority,
                next_proposal_id: 1,
                total_staked: 0,
                unstake_period,
                stake_mint,
            }),
            r.voters@ =~= Seq::<Voter>::empty(),
            r.proposals@ =~= Seq::<Proposal>::empty(),
            r.votes@ =~= Seq::<Vote>::empty(),
    {
        Engine {
            config: Config {
                authority,
                next_proposal_id: 1,
                total_staked: 0,
                unstake_period,
                stake_mint,
            },
            voters: Vec::new(),
            proposals: Vec::new(),
            votes: Vec::new(),
        }
    }

    /// Creates the per-participant voter record, zeroed, keyed by the
    /// caller's identity; refused when one already exists.
    pub fn initialize_voter(&mut self, authority: Identity) -> (r: Result<(), VotingError>)
        requires
            old(self).wf(),
        ensures
            final(self).wf(),
            match r {
                Ok(()) => {
                    &&& !old(self).has_voter(authority)
                    &&& final(self).voters@ == old(self).voters@.push(new_voter(authority))
                    &&& final(self).config == old(self).config
                    &&& final(self).proposals@ == old(self).proposals@
                    &&& final(self).votes@ == old(self).votes@
                },
                Err(e) => {
                    &&& e == VotingError::AlreadyInitialized
                    &&& old(self).has_voter(authority)
                    &&& unchanged(*old(self), *final(self))
                },
            },
    {
        match self.find_voter(authority) {
            Some(_) => Err(VotingError::AlreadyInitialized),
            None => {
                let v = Voter {
                    authority,
                    staked_amount: 0,
                    points: 0,
                    unstake_complete_ts: 0,
                    amount_unstaking: 0,
                };
                proof {
                    lemma_sum_staked_push(self.voters@, v);
                }
                self.voters.push(v);
                Ok(())
            },
        }
    }

    /// Moves `amount` freshly transferred tokens into the voter's staked
    /// balance. The caller performs the custody transfer first and calls
    /// this only once it fully succeeded; an error here means no transfer
    /// should have happened. Staking while partially unstaking is legal and
    /// leaves the in-flight cooldown untouched.
    pub fn increase_stake(&mut self, authority: Identity, amount: u64) -> (r: Result<
        (),
        VotingError,
    >)
        requires
            old(self).wf(),
            old(self).config.total_staked + amount <= u64::MAX,
        ensures
            final(self).wf(),
            match r {
                Ok(()) => {
                    &&& old(self).has_voter(authority)
                    &&& amount > 0
                    &&& final(self).voters@.len() == old(self).voters@.len()
                    &&& forall|i: int|
                        0 <= i < old(self).voters@.len() ==> #[trigger] final(self).voters@[i] == (
                        if old(self).voters@[i].authority == authority {
                            voter_after_increase(old(self).voters@[i], amount)
                        } else {
                            old(self).voters@[i]
                        })
                    &&& final(self).config == (Config {
                        total_staked: (old(self).config.total_staked + amount) as u64,
                        ..old(self).config
                    })
                    &&& final(self).proposals@ == old(self).proposals@
                    &&& final(self).votes@ == old(self).votes@
                },
                Err(e) => {
                    &&& unchanged(*old(self), *final(self))
                    &&& (e == VotingError::RecordNotFound && !old(self).has_voter(authority)) || (e
                        == VotingError::InvalidStakeAmount && old(self).has_voter(authority)
                        && amount == 0)
                },
            },
    {
        let idx = match self.find_voter(authority) {
            None => {
                return Err(VotingError::RecordNotFound);
            },
            Some(i) => i,
        };
        if amount == 0 {
            return Err(VotingError::InvalidStakeAmount);
        }
        let v = self.voters[idx];
        proof {
            lemma_sum_staked_le(self.voters@, idx as int);
        }
        let mut updated = v;
        updated.staked_amount = v.staked_amount + amount;
        proof {
            lemma_sum_staked_update(self.voters@, idx as int, updated);
        }
        self.voters.set(idx, updated);
        self.config.total_staked = self.config.total_staked + amount;
        Ok(())
    }

    /// Requests to unstake `amount`: the voter enters (or restarts) the
    /// cooldown, which completes at `now` plus the configured period. A
    /// repeated call overwrites the prior request rather than adding to it.
    /// No balance moves yet; the staked balance keeps backing votes,
    /// decayed.
    pub fn decrease_stake(&mut self, authority: Identity, amount: u64, now: i64) -> (r: Result<
        (),
        VotingError,
    >)
        requires
            old(self).wf(),
            now > 0,
            now + old(self).config.unstake_period <= i64::MAX,
            forall|i: int|
                0 <= i < old(self).voters@.len() && (#[trigger] old(self).voters@[i]).authority
                    == authority ==> amount <= old(self).voters@[i].staked_amount,
        ensures
            final(self).wf(),
            match r {
                Ok(()) => {
                    &&& old(self).has_voter(authority)
                    &&& amount > 0
                    &&& final(self).voters@.len() == old(self).voters@.len()
                    &&& forall|i: int|
                        0 <= i < old(self).voters@.len() ==> #[trigger] final(self).voters@[i] == (
                        if old(self).voters@[i].authority == authority {
                            voter_after_decrease(
                                old(self).voters@[i],
                                amount,
                                now,
                                old(self).config.unstake_period,
                            )
                        } else {
                            old(self).voters@[i]
                        })
                    &&& final(self).config == old(self).config
                    &&& final(self).proposals@ == old(self).proposals@
                    &&& final(self).votes@ == old(self).votes@
                },
                Err(e) => {
                    &&& unchanged(*old(self), *final(self))
                    &&& (e == VotingError::RecordNotFound && !old(self).has_voter(authority)) || (e
                        == VotingError::InvalidStakeAmount && old(self).has_voter(authority)
                        && amount == 0)
                },
            },
    {
        let idx = match self.find_voter(authority) {
            None => {
                return Err(VotingError::RecordNotFound);
            },
            Some(i) => i,
        };
        if amount == 0 {
            return Err(VotingError::InvalidStakeAmount);
        }
        let v = self.voters[idx];
        let mut updated = v;
        updated.set_unstaking(now + self.config.unstake_period, amount);
        proof {
            lemma_sum_staked_update(self.voters@, idx as int, updated);
        }
        self.voters.set(idx, updated);
        Ok(())
    }

    /// Cancels `amount` of the in-flight unstaking request. A full
    /// cancellation returns the voter to idle; a partial one keeps the
    /// remainder in cooldown and restarts the timer at the full period.
    pub fn cancel_unstake(&mut self, authority: Identity, amount: u64, now: i64) -> (r: Result<
        (),
        VotingError,
    >)
        requires
            old(self).wf(),
            now > 0,
            now + old(self).config.unstake_period <= i64::MAX,
            forall|i: int|
                0 <= i < old(self).voters@.len() && (#[trigger] old(self).voters@[i]).authority
                    == authority ==> amount <= old(self).voters@[i].amount_unstaking,
        ensures
            final(self).wf(),
            match r {
                Ok(()) => {
                    &&& old(self).has_voter(authority)
                    &&& final(self).voters@.len() == old(self).voters@.len()
                    &&& forall|i: int|
                        0 <= i < old(self).voters@.len() ==> #[trigger] final(self).voters@[i] == (
                        if old(self).voters@[i].authority == authority {
                            voter_after_cancel(
                                old(self).voters@[i],
                                amount,
                                now,
                                old(self).config.unstake_period,
                            )
                        } else {
                            old(self).voters@[i]
                        })
                    &&& final(self).config == old(self).config
                    &&& final(self).proposals@ == old(self).proposals@
                    &&& final(self).votes@ == old(self).votes@
                },
                Err(e) => {
                    &&& e == VotingError::RecordNotFound
                    &&& !old(self).has_voter(authority)
                    &&& unchanged(*old(self), *final(self))
                },
            },
    {
        let idx = match self.find_voter(authority) {
            None => {
                return Err(VotingError::RecordNotFound);
            },
            Some(i) => i,
        };
        let v = self.voters[idx];
        let remaining = v.amount_unstaking - amount;
        let mut updated = v;
        if remaining == 0 {
            updated.reset_unstaking();
        } else {
            updated.set_unstaking(now + self.config.unstake_period, remaining);
        }
        proof {
            lemma_sum_staked_update(self.voters@, idx as int, updated);
        }
        self.voters.set(idx, updated);
        Ok(())
    }

    /// Releases the unstaking portion once the cooldown has elapsed. On
    /// success it returns the released amount, which the caller then
    /// transfers out of custody back to the participant; the voter returns
    /// to idle and both balances drop by that amount.
    pub fn withdraw_stake(&mut self, authority: Identity, now: i64) -> (r: Result<
        u64,
        VotingError,
    >)
        requires
            old(self).wf(),
        ensures
            final(self).wf(),
            match r {
                Ok(released) => {
                    &&& old(self).has_voter(authority)
                    &&& final(self).voters@.len() == old(self).voters@.len()
                    &&& forall|i: int|
                        0 <= i < old(self).voters@.len() ==> #[trigger] final(self).voters@[i] == (
                        if old(self).voters@[i].authority == authority {
                            voter_after_withdraw(old(self).voters@[i])
                        } else {
                            old(self).voters@[i]
                        })
                    &&& exists|i: int|
                        0 <= i < old(self).voters@.len() && (#[trigger] old(
                            self,
                        ).voters@[i]).authority == authority && released == old(
                            self,
                        ).voters@[i].amount_unstaking && now >= old(
                            self,
                        ).voters@[i].unstake_complete_ts
                    &&& final(self).config == (Config {
                        total_staked: (old(self).config.total_staked - released) as u64,
                        ..old(self).config
                    })
                    &&& final(self).proposals@ == old(self).proposals@
                    &&& final(self).votes@ == old(self).votes@
                },
                Err(e) => {
                    &&& unchanged(*old(self), *final(self))
                    &&& (e == VotingError::RecordNotFound && !old(self).has_voter(authority)) || (e
                        == VotingError::UnstakingNotComplete && exists|i: int|
                        0 <= i < old(self).voters@.len() && (#[trigger] old(
                            self,
                        ).voters@[i]).authority == authority && now < old(
                            self,
                        ).voters@[i].unstake_complete_ts)
                },
            },
    {
        let idx = match self.find_voter(authority) {
            None => {
                return Err(VotingError::RecordNotFound);
            },
            Some(i) => i,
        };
        let v = self.voters[idx];
        if now < v.unstake_complete_ts {
            return Err(VotingError::UnstakingNotComplete);
        }
        let released = v.amount_unstaking;
        proof {
            lemma_sum_staked_le(self.voters@, idx as int);
        }
        let mut updated = v;
        updated.staked_amount = v.staked_amount - released;
        updated.reset_unstaking();
        proof {
            lemma_sum_staked_update(self.voters@, idx as int, updated);
        }
        self.voters.set(idx, updated);
        self.config.total_staked = self.config.total_staked - released;
        Ok(released)
    }

    /// Opens a proposal under the next free identifier. Only the configured
    /// authority may do so; the title must hold at least 3 bytes and there
    /// must be at least 2 options. The identifier counter advances by
    /// exactly 1, so no two proposals ever share an identifier.
    pub fn create_proposal(
        &mut self,
        authority: Identity,
        quorum_votes: u64,
        ending_ts: i64,
        points: u64,
        title: Vec<u8>,
        description: Vec<u8>,
        options: Vec<Vec<u8>>,
        now: i64,
    ) -> (r: Result<(), VotingError>)
        requires
            old(self).wf(),
            old(self).config.next_proposal_id < u16::MAX,
        ensures
            final(self).wf(),
            match r {
                Ok(()) => {
                    &&& authority == old(self).config.authority
                    &&& title@.len() >= 3
                    &&& options@.len() >= 2
                    &&& final(self).proposals@.len() == old(self).proposals@.len() + 1
                    &&& final(self).proposals@.drop_last() == old(self).proposals@
                    &&& ({
                        let p = final(self).proposals@.last();
                        &&& p.id == old(self).config.next_proposal_id
                        &&& p.total_votes == 0
                        &&& p.quorum_votes == quorum_votes
                        &&& p.created_ts == now
                        &&& p.ending_ts == ending_ts
                        &&& p.points == points
                        &&& p.title@ == title@
                        &&& p.description@ == description@
                        &&& p.options@ == options@
                        &&& p.option_votes@ == Seq::new(options@.len(), |i: int| 0u64)
                    })
                    &&& final(self).config == (Config {
                        next_proposal_id: (old(self).config.next_proposal_id + 1) as u16,
                        ..old(self).config
                    })
                    &&& final(self).voters@ == old(self).voters@
                    &&& final(self).votes@ == old(self).votes@
                },
                Err(e) => {
                    &&& unchanged(*old(self), *final(self))
                    &&& (e == VotingError::InvalidAuthority && authority != old(
                        self,
                    ).config.authority) || (e == VotingError::TitleTooShort && authority == old(
                        self,
                    ).config.authority && title@.len() < 3) || (e == VotingError::NotEnoughOptions
                        && authority == old(self).config.authority && title@.len() >= 3
                        && options@.len() < 2)
                },
            },
    {
        if authority != self.config.authority {
            return Err(VotingError::InvalidAuthority);
        }
        if title.len() < 3 {
            return Err(VotingError::TitleTooShort);
        }
        if options.len() < 2 {
            return Err(VotingError::NotEnoughOptions);
        }
        let option_votes = zeroed_tallies(options.len());
        let proposal = Proposal {
            id: self.config.next_proposal_id,
            total_votes: 0,
            quorum_votes,
            created_ts: now,
            ending_ts,
            points,
            title,
            description,
            options,
            option_votes,
        };
        self.proposals.push(proposal);
        self.config.next_proposal_id = self.config.next_proposal_id + 1;
        proof {
            assert(final(self).proposals@.drop_last() =~= old(self).proposals@);
        }
        Ok(())
    }

    /// No checked arithmetic inside `cast_vote` can wrap for this request:
    /// the weight's intermediate product, the chosen tally and the voter's
    /// reward accumulator all stay within `u64`.
    pub open spec fn cast_vote_safe(
        self,
        authority: Identity,
        proposal_id: u16,
        option: u8,
        now: i64,
    ) -> bool {
        forall|i: int, j: int|
            0 <= i < self.voters@.len() && 0 <= j < self.proposals@.len() && (#[trigger] self.voters@[i]).authority
                == authority && (#[trigger] self.proposals@[j]).id == proposal_id ==> {
                let v = self.voters@[i];
                let p = self.proposals@[j];
                &&& v.staked_amount * time_remaining(v.unstake_complete_ts, now) <= u64::MAX
                &&& v.points + p.points <= u64::MAX
                &&& ((option as int) < p.option_votes@.len() ==> p.option_votes@[option as int]
                    + v.staked_amount <= u64::MAX)
            }
    }

    /// Casts the caller's vote on a proposal. The vote's weight is the
    /// staked balance, linearly decayed while unstaking; the chosen tally
    /// grows by the raw (undecayed) staked balance; the voter earns the
    /// proposal's points; `total_votes` is deliberately left untouched. A
    /// second vote by the same voter on the same proposal is refused.
    pub fn cast_vote(&mut self, authority: Identity, proposal_id: u16, option: u8, now: i64) -> (r:
        Result<(), VotingError>)
        requires
            old(self).wf(),
            now >= 0,
            old(self).cast_vote_safe(authority, proposal_id, option, now),
        ensures
            final(self).wf(),
            match r {
                Ok(()) => {
                    &&& old(self).has_voter(authority)
                    &&& old(self).has_proposal(proposal_id)
                    &&& !old(self).has_vote(authority, proposal_id)
                    &&& final(self).has_vote(authority, proposal_id)
                    &&& exists|i: int, j: int|
                        0 <= i < old(self).voters@.len() && 0 <= j < old(self).proposals@.len()
                            && (#[trigger] old(self).voters@[i]).authority == authority && (
                        #[trigger] old(self).proposals@[j]).id == proposal_id && {
                            let v = old(self).voters@[i];
                            let p = old(self).proposals@[j];
                            &&& v.staked_amount > MIN_STAKED_TOKENS as u64
                            &&& (option as int) < p.options@.len()
                            &&& final(self).votes@ == old(self).votes@.push(
                                final(self).votes@.last(),
                            )
                            &&& ({
                                let cast = final(self).votes@.last();
                                &&& cast.voter == authority
                                &&& cast.proposal == proposal_id
                                &&& cast.option == option
                                &&& cast.weight == vote_weight(v, now, old(self).config.unstake_period)
                                &&& cast.timestamp == now
                            })
                            &&& final(self).voters@ == old(self).voters@.update(
                                i,
                                Voter { points: (v.points + p.points) as u64, ..v },
                            )
                            &&& final(self).proposals@.len() == old(self).proposals@.len()
                            &&& proposal_after_vote(
                                p,
                                final(self).proposals@[j],
                                option,
                                v.staked_amount,
                            )
                            &&& forall|k: int|
                                0 <= k < old(self).proposals@.len() && k != j
                                    ==> final(self).proposals@[k] == #[trigger] old(
                                    self,
                                ).proposals@[k]
                        }
                    &&& final(self).config == old(self).config
                },
                Err(e) => {
                    &&& unchanged(*old(self), *final(self))
                    &&& (e == VotingError::RecordNotFound && (!old(self).has_voter(authority)
                        || !old(self).has_proposal(proposal_id))) || (e == VotingError::AlreadyVoted
                        && old(self).has_voter(authority) && old(self).has_proposal(proposal_id)
                        && old(self).has_vote(authority, proposal_id)) || (e
                        == VotingError::NoTokensStaked && old(self).has_proposal(proposal_id)
                        && !old(self).has_vote(authority, proposal_id) && exists|i: int|
                        0 <= i < old(self).voters@.len() && (#[trigger] old(
                            self,
                        ).voters@[i]).authority == authority && old(self).voters@[i].staked_amount
                            <= MIN_STAKED_TOKENS as u64) || (e == VotingError::OutOfRange && !old(
                        self,
                    ).has_vote(authority, proposal_id) && (exists|i: int|
                        0 <= i < old(self).voters@.len() && (#[trigger] old(
                            self,
                        ).voters@[i]).authority == authority && old(self).voters@[i].staked_amount
                            > MIN_STAKED_TOKENS as u64) && exists|j: int|
                        0 <= j < old(self).proposals@.len() && (#[trigger] old(
                            self,
                        ).proposals@[j]).id == proposal_id && (option as int) >= old(
                            self,
                        ).proposals@[j].options@.len())
                },
            },
    {
        let vi = match self.find_voter(authority) {
            None => {
                return Err(VotingError::RecordNotFound);
            },
            Some(i) => i,
        };
        let pj = match self.find_proposal(proposal_id) {
            None => {
                return Err(VotingError::RecordNotFound);
            },
            Some(j) => j,
        };
        match self.find_vote(authority, proposal_id) {
            Some(_) => {
                return Err(VotingError::AlreadyVoted);
            },
            None => {},
        }
        let v = self.voters[vi];
        if v.staked_amount <= MIN_STAKED_TOKENS as u64 {
            return Err(VotingError::NoTokensStaked);
        }
        let mut p = self.proposals.remove(pj);
        if option as usize >= p.options.len() {
            self.proposals.insert(pj, p);
            proof {
                assert(final(self).proposals@ =~= old(self).proposals@);
            }
            return Err(VotingError::OutOfRange);
        }
        let weight = v.compute_weight(now, self.config.unstake_period);
        let tally = p.option_votes[option as usize];
        p.option_votes.set(option as usize, tally + v.staked_amount);
        let reward = p.points;
        self.proposals.insert(pj, p);
        let mut updated = v;
        updated.points = v.points + reward;
        proof {
            lemma_sum_staked_update(self.voters@, vi as int, updated);
        }
        self.voters.set(vi, updated);
        self.votes.push(
            Vote { voter: authority, proposal: proposal_id, option, weight, timestamp: now },
        );
        proof {
            assert(final(self).proposals@ =~= old(self).proposals@.update(
                pj as int,
                final(self).proposals@[pj as int],
            ));
            let i = vi as int;
            let j = pj as int;
            let v0 = old(self).voters@[i];
            let p0 = old(self).proposals@[j];
            assert(final(self).votes@ == old(self).votes@.push(final(self).votes@.last()));
            assert(final(self).voters@ == old(self).voters@.update(
                i,
                Voter { points: (v0.points + p0.points) as u64, ..v0 },
            ));
            assert(proposal_after_vote(p0, final(self).proposals@[j], option, v0.staked_amount));
        }
        Ok(())
    }
}

/// Builds the zeroed tally list a fresh proposal starts with.
fn zeroed_tallies(n: usize) -> (v: Vec<u64>)
    ensures
        v@ == Seq::new(n as nat, |i: int| 0u64),
{
    let mut v: Vec<u64> = Vec::new();
    let mut i: usize = 0;
    while i < n
        invariant
            i <= n,
            v@.len() == i,
            forall|j: int| 0 <= j < i ==> v@[j] == 0u64,
        decreases n - i,
    {
        v.push(0);
        i += 1;
    }
    proof {
        assert(v@ =~= Seq::new(n as nat, |i: int| 0u64));
    }
    v
}

} // verus!
