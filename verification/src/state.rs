//! The four record kinds the engine persists, with their invariants and the
//! pure transitions the instruction handlers apply to them.

use vstd::prelude::*;

verus! {

/// An account identity. The record store addresses voters, proposals and
/// votes by identities such as this one; the engine only ever compares them
/// for equality, so a plain integer stands for one.
pub type Identity = u64;

/// The process-wide singleton holding the global parameters.
#[derive(Clone, Copy, Debug, PartialEq, Eq, Structural)]
pub struct Config {
    /// The only identity allowed to create proposals.
    pub authority: Identity,
    /// Identifier the next proposal will receive; strictly increasing,
    /// starts at 1.
    pub next_proposal_id: u16,
    /// Sum of every voter's staked balance; mirrors the custody pool.
    pub total_staked: u64,
    /// Length of the unstake cooldown, in seconds.
    pub unstake_period: i64,
    /// Identity of the accepted stake token.
    pub stake_mint: Identity,
}

/// Per-participant stake record, keyed by the participant's identity.
#[derive(Clone, Copy, Debug, PartialEq, Eq, Structural)]
pub struct Voter {
    /// The participant that owns this record.
    pub authority: Identity,
    /// Tokens currently staked and eligible to back votes.
    pub staked_amount: u64,
    /// Monotonically non-decreasing reward accumulator.
    pub points: u64,
    /// Timestamp at which the running cooldown completes; 0 means the voter
    /// is not unstaking.
    pub unstake_complete_ts: i64,
    /// Portion of `staked_amount` currently in cooldown; 0 means the voter
    /// is not unstaking.
    pub amount_unstaking: u64,
}

/// A multi-option governance item with per-option tallies.
#[derive(Debug)]
pub struct Proposal {
    /// Identifier assigned from the config's counter.
    pub id: u16,
    /// Stored aggregate; `cast_vote` deliberately never touches it, so it
    /// stays at its creation value of 0 (see `lemma_vote_skips_total_votes`).
    pub total_votes: u64,
    /// Vote count the creator considers a quorum; stored, not enforced.
    pub quorum_votes: u64,
    /// Timestamp of creation.
    pub created_ts: i64,
    /// Timestamp the creator set as the end of voting; stored, not enforced.
    pub ending_ts: i64,
    /// Reward granted to a voter's `points` per vote cast on this proposal.
    pub points: u64,
    /// Human-readable title, at least 3 bytes.
    pub title: Vec<u8>,
    /// Free-form description.
    pub description: Vec<u8>,
    /// Ordered option labels, at least 2 of them.
    pub options: Vec<Vec<u8>>,
    /// Per-option tallies, index-aligned with `options`.
    pub option_votes: Vec<u64>,
}

/// An immutable record of one cast vote, keyed by (voter, proposal).
#[derive(Clone, Copy, Debug, PartialEq, Eq, Structural)]
pub struct Vote {
    /// The voter that cast it.
    pub voter: Identity,
    /// The proposal it was cast on.
    pub proposal: u16,
    /// Index into the proposal's options.
    pub option: u8,
    /// Weight computed at cast time, immutable thereafter.
    pub weight: u64,
    /// Timestamp of the cast.
    pub timestamp: i64,
}

impl Voter {
    /// A voter is either idle (both cooldown fields 0) or unstaking (both
    /// positive), and never has more in cooldown than it has staked.
    pub open spec fn wf(self) -> bool {
        &&& self.unstake_complete_ts >= 0
        &&& (self.amount_unstaking > 0 <==> self.unstake_complete_ts > 0)
        &&& self.amount_unstaking <= self.staked_amount
    }

    /// Starts or restarts a cooldown.
    pub fn set_unstaking(&mut self, unstake_complete_ts: i64, amount_unstaking: u64)
        ensures
            *final(self) == (Voter {
                unstake_complete_ts,
                amount_unstaking,
                ..*old(self)
            }),
    {
        self.unstake_complete_ts = unstake_complete_ts;
        self.amount_unstaking = amount_unstaking;
    }

    /// Returns the voter to the idle state.
    pub fn reset_unstaking(&mut self)
        ensures
            *final(self) == (Voter { unstake_complete_ts: 0, amount_unstaking: 0, ..*old(self) }),
    {
        self.unstake_complete_ts = 0;
        self.amount_unstaking = 0;
    }
}

/// A freshly created voter record: every balance and timer zeroed.
pub open spec fn new_voter(authority: Identity) -> Voter {
    Voter {
        authority,
        staked_amount: 0,
        points: 0,
        unstake_complete_ts: 0,
        amount_unstaking: 0,
    }
}

/// The voter after staking `amount` more tokens; the in-flight cooldown, if
/// any, is untouched.
pub open spec fn voter_after_increase(v: Voter, amount: u64) -> Voter {
    Voter { staked_amount: (v.staked_amount + amount) as u64, ..v }
}

/// The voter after requesting to unstake `amount`: the request overwrites
/// any prior one and the cooldown restarts at the full period.
pub open spec fn voter_after_decrease(v: Voter, amount: u64, now: i64, period: i64) -> Voter {
    Voter { unstake_complete_ts: (now + period) as i64, amount_unstaking: amount, ..v }
}

/// The voter after cancelling `amount` of its unstaking request: a full
/// cancellation returns it to idle, a partial one keeps the remainder in
/// cooldown with the timer restarted at the full period.
pub open spec fn voter_after_cancel(v: Voter, amount: u64, now: i64, period: i64) -> Voter {
    if v.amount_unstaking == amount {
        Voter { unstake_complete_ts: 0, amount_unstaking: 0, ..v }
    } else {
        Voter {
            unstake_complete_ts: (now + period) as i64,
            amount_unstaking: (v.amount_unstaking - amount) as u64,
            ..v
        }
    }
}

/// The voter after withdrawing the unstaking portion: the balance drops by
/// exactly that portion and the voter returns to idle.
pub open spec fn voter_after_withdraw(v: Voter) -> Voter {
    Voter {
        staked_amount: (v.staked_amount - v.amount_unstaking) as u64,
        unstake_complete_ts: 0,
        amount_unstaking: 0,
        ..v
    }
}

impl Proposal {
    /// Tallies stay index-aligned with the options, the title holds at
    /// least 3 bytes, there are at least 2 options, and identifiers start
    /// at 1.
    pub open spec fn wf(self) -> bool {
        &&& self.option_votes@.len() == self.options@.len()
        &&& self.title@.len() >= 3
        &&& self.options@.len() >= 2
        &&& self.id >= 1
    }
}

/// Bytes taken by the serialized option labels: a 4-byte length prefix plus
/// the content bytes of each.
pub open spec fn options_bytes(opts: Seq<Vec<u8>>) -> int
    decreases opts.len(),
{
    if opts.len() == 0 {
        0
    } else {
        options_bytes(opts.drop_last()) + opts.last()@.len() + 4
    }
}

/// Serialized size of a proposal record: an 8-byte type discriminator, the
/// fixed fields in declared order, each variable-length field as a 4-byte
/// length prefix plus content bytes, and the tally list at 8 bytes per
/// option.
pub open spec fn proposal_space(title: Seq<u8>, description: Seq<u8>, options: Seq<Vec<u8>>) -> int {
    8 + 2 + 8 + 8 + 8 + 8 + 8 + 4 + title.len() + 4 + description.len() + 4 + options_bytes(options)
        + 4 + options.len() * 8
}

/// The serialized option labels never take a negative number of bytes.
pub proof fn lemma_options_bytes_nonneg(opts: Seq<Vec<u8>>)
    ensures
        options_bytes(opts) >= 0,
    decreases opts.len(),
{
    if opts.len() > 0 {
        lemma_options_bytes_nonneg(opts.drop_last());
    }
}

/// A prefix of the option labels takes at most the bytes of the whole list.
pub proof fn lemma_options_bytes_take(opts: Seq<Vec<u8>>, i: int)
    requires
        0 <= i <= opts.len(),
    ensures
        options_bytes(opts.take(i)) <= options_bytes(opts),
    decreases opts.len(),
{
    if i == opts.len() {
        assert(opts.take(i) =~= opts);
    } else {
        assert(opts.take(i) =~= opts.drop_last().take(i));
        lemma_options_bytes_take(opts.drop_last(), i);
    }
}

impl Proposal {
    /// Bytes the record store must allocate to persist a proposal with
    /// these variable-length fields.
    pub fn space(title: &Vec<u8>, description: &Vec<u8>, options: &Vec<Vec<u8>>) -> (n: usize)
        requires
            proposal_space(title@, description@, options@) <= usize::MAX,
        ensures
            n == proposal_space(title@, description@, options@),
    {
        proof {
            lemma_options_bytes_nonneg(options@);
        }
        let mut n: usize = 8 + 2 + 8 + 8 + 8 + 8 + 8 + 4 + 4 + 4 + 4;
        n = n + title.len();
        n = n + description.len();
        let mut i: usize = 0;
        while i < options.len()
            invariant
                i <= options@.len(),
                n == 66 + title@.len() + description@.len() + options_bytes(
                    options@.take(i as int),
                ),
                proposal_space(title@, description@, options@) <= usize::MAX,
            decreases options@.len() - i,
        {
            proof {
                lemma_options_bytes_take(options@, i as int + 1);
                assert(options@.take(i as int + 1).drop_last() =~= options@.take(i as int));
            }
            n = n + options[i].len() + 4;
            i += 1;
        }
        proof {
            assert(options@.take(options@.len() as int) =~= options@);
        }
        n = n + options.len() * 8;
        n
    }
}

/// Sum of a sequence of tallies.
pub open spec fn sum_tallies(s: Seq<u64>) -> int
    decreases s.len(),
{
    if s.len() == 0 {
        0
    } else {
        sum_tallies(s.drop_last()) + s.last()
    }
}

/// Relates a proposal to its state after a vote backed by `staked` tokens
/// lands on `option`: that one tally grows by the voter's raw staked
/// balance and every other field — `total_votes` included — is untouched.
pub open spec fn proposal_after_vote(p: Proposal, q: Proposal, option: u8, staked: u64) -> bool {
    &&& q.id == p.id
    &&& q.total_votes == p.total_votes
    &&& q.quorum_votes == p.quorum_votes
    &&& q.created_ts == p.created_ts
    &&& q.ending_ts == p.ending_ts
    &&& q.points == p.points
    &&& q.title@ == p.title@
    &&& q.description@ == p.description@
    &&& q.options@ == p.options@
    &&& q.option_votes@ == p.option_votes@.update(
        option as int,
        (p.option_votes@[option as int] + staked) as u64,
    )
}

/// Seconds left until `ts`, floored at zero once `now` has passed it.
pub open spec fn time_remaining(ts: i64, now: i64) -> int {
    if ts > now {
        ts - now
    } else {
        0
    }
}

/// The weight of a vote cast by `v` at `now`: the full staked balance while
/// idle, and while unstaking the staked balance scaled by the fraction of
/// the cooldown still to run (floor division).
pub open spec fn vote_weight(v: Voter, now: i64, unstake_period: i64) -> int {
    if v.amount_unstaking == 0 {
        v.staked_amount as int
    } else {
        (v.staked_amount * time_remaining(v.unstake_complete_ts, now)) / (unstake_period as int)
    }
}

impl Voter {
    /// Computes the weight a vote by this voter carries at `now`.
    pub fn compute_weight(&self, now: i64, unstake_period: i64) -> (w: u64)
        requires
            unstake_period > 0,
            now >= 0,
            self.unstake_complete_ts >= 0,
            self.staked_amount * time_remaining(self.unstake_complete_ts, now) <= u64::MAX,
        ensures
            w == vote_weight(*self, now, unstake_period),
    {
        if self.amount_unstaking == 0 {
            self.staked_amount
        } else {
            let remaining: i64 = if self.unstake_complete_ts > now {
                self.unstake_complete_ts - now
            } else {
                0
            };
            self.staked_amount * (remaining as u64) / (unstake_period as u64)
        }
    }
}

} // verus!
