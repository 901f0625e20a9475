//! The protocol state and its operations: the verdict-lifecycle state
//! machine over an explicit keyed data model (agent -> Sentinel,
//! subject -> TokenAnalysis, (agent, subject) -> SentinelVote), plus the
//! custodial ledger.
//!
//! Every operation is all-or-nothing: it either performs its whole state
//! transition and returns the success notification, or returns a typed error
//! and leaves the state untouched. Each operation preserves the
//! well-formedness invariant `wf`, which carries the tally-consistency and
//! one-vote-per-pair guarantees.

use vstd::prelude::*;
use vstd::arithmetic::mul::lemma_mul_inequality;
use vstd::arithmetic::div_mod::lemma_div_is_ordered;
use vstd::arithmetic::div_mod::lemma_div_multiples_vanish;
use vstd::arithmetic::div_mod::lemma_div_pos_is_pos;
use crate::ledger::Ledger;
use crate::math;
use crate::tally;
use crate::types::ConsensusReached;
use crate::types::Protocol;
use crate::types::ProtocolConfig;
use crate::types::RugReported;
use crate::types::Sentinel;
use crate::types::SentinelRegistered;
use crate::types::SentinelRewarded;
use crate::types::SentinelSlashed;
use crate::types::SentinelVote;
use crate::types::SentryError;
use crate::types::TokenAnalysis;
use crate::types::Verdict;
use crate::types::VerdictSubmitted;

verus! {

/// The whole protocol state.
pub struct SentryState {
    pub protocol: Protocol,
    pub sentinels: Vec<Sentinel>,
    pub analyses: Vec<TokenAnalysis>,
    pub votes: Vec<SentinelVote>,
    pub ledger: Ledger,
}

impl SentryState {
    /// Each agent is registered at most once.
    pub open spec fn sentinels_unique(self) -> bool {
        forall|i: int, j: int|
            0 <= i < j < self.sentinels@.len() ==> (#[trigger] self.sentinels@[i]).authority != (
            #[trigger] self.sentinels@[j]).authority
    }

    /// Each subject is analyzed at most once.
    pub open spec fn analyses_unique(self) -> bool {
        forall|i: int, j: int|
            0 <= i < j < self.analyses@.len() ==> (#[trigger] self.analyses@[i]).token_mint != (
            #[trigger] self.analyses@[j]).token_mint
    }

    /// A given (agent, subject) pair admits at most one vote, ever.
    pub open spec fn votes_unique(self) -> bool {
        forall|i: int, j: int|
            0 <= i < j < self.votes@.len() ==> ((#[trigger] self.votes@[i]).sentinel != (
            #[trigger] self.votes@[j]).sentinel || self.votes@[i].token_mint
                != self.votes@[j].token_mint)
    }

    pub open spec fn has_sentinel(self, agent: u64) -> bool {
        exists|i: int|
            0 <= i < self.sentinels@.len() && (#[trigger] self.sentinels@[i]).authority == agent
    }

    /// The registered record of an agent (meaningful under `has_sentinel`
    /// and uniqueness).
    pub open spec fn sentinel_of(self, agent: u64) -> Sentinel {
        self.sentinels@[choose|i: int|
            0 <= i < self.sentinels@.len() && (#[trigger] self.sentinels@[i]).authority == agent]
    }

    pub open spec fn has_analysis(self, mint: u64) -> bool {
        exists|i: int|
            0 <= i < self.analyses@.len() && (#[trigger] self.analyses@[i]).token_mint == mint
    }

    /// The analysis record of a subject (meaningful under `has_analysis` and
    /// uniqueness).
    pub open spec fn analysis_of(self, mint: u64) -> TokenAnalysis {
        self.analyses@[choose|i: int|
            0 <= i < self.analyses@.len() && (#[trigger] self.analyses@[i]).token_mint == mint]
    }

    pub open spec fn has_vote(self, agent: u64, mint: u64) -> bool {
        exists|i: int|
            0 <= i < self.votes@.len() && (#[trigger] self.votes@[i]).sentinel == agent
                && self.votes@[i].token_mint == mint
    }

    /// The vote of an (agent, subject) pair (meaningful under `has_vote` and
    /// uniqueness).
    pub open spec fn vote_of(self, agent: u64, mint: u64) -> SentinelVote {
        self.votes@[choose|i: int|
            0 <= i < self.votes@.len() && (#[trigger] self.votes@[i]).sentinel == agent
                && self.votes@[i].token_mint == mint]
    }

    /// What must hold of every vote record: its subject and voter exist, its
    /// stake snapshot was taken from an active (hence sufficiently staked)
    /// sentinel, and a slashed vote can only be a SAFE vote on a rugged
    /// subject.
    pub open spec fn vote_ok(self, v: SentinelVote) -> bool {
        &&& self.has_analysis(v.token_mint)
        &&& self.has_sentinel(v.sentinel)
        &&& v.stake_at_vote >= self.protocol.min_stake
        &&& v.is_slashed ==> v.verdict == Verdict::Safe && self.analysis_of(v.token_mint).is_rugged
    }

    /// What must hold of every analysis record: its per-side counts and
    /// stake sums agree with the vote ledger, the total is the sum of the
    /// sides, and a rugged subject was finalized SAFE.
    pub open spec fn analysis_ok(self, a: TokenAnalysis) -> bool {
        &&& a.total_votes == a.safe_votes + a.danger_votes
        &&& a.safe_votes == tally::count_votes(self.votes@, a.token_mint, Verdict::Safe)
        &&& a.danger_votes == tally::count_votes(self.votes@, a.token_mint, Verdict::Danger)
        &&& a.safe_stake == tally::sum_stake(self.votes@, a.token_mint, Verdict::Safe)
        &&& a.danger_stake == tally::sum_stake(self.votes@, a.token_mint, Verdict::Danger)
        &&& a.is_rugged ==> a.is_finalized && a.final_verdict == Verdict::Safe
    }

    /// What must hold of every sentinel record: an active sentinel keeps at
    /// least the minimum stake.
    pub open spec fn sentinel_ok(self, s: Sentinel) -> bool {
        s.is_active ==> s.stake >= self.protocol.min_stake
    }

    /// The well-formedness invariant: established by `initialize`, required
    /// and preserved by every operation.
    pub open spec fn wf(self) -> bool {
        &&& self.protocol.valid()
        &&& self.sentinels_unique()
        &&& self.analyses_unique()
        &&& self.votes_unique()
        &&& self.protocol.total_agents == self.sentinels@.len()
        &&& forall|i: int| 0 <= i < self.votes@.len() ==> self.vote_ok(#[trigger] self.votes@[i])
        &&& forall|i: int|
            0 <= i < self.analyses@.len() ==> self.analysis_ok(#[trigger] self.analyses@[i])
        &&& forall|i: int|
            0 <= i < self.sentinels@.len() ==> self.sentinel_ok(#[trigger] self.sentinels@[i])
        &&& self.ledger.wf()
    }

    /// Nothing observable changed between two states.
    pub open spec fn unchanged(self, other: SentryState) -> bool {
        &&& other.protocol == self.protocol
        &&& other.sentinels@ == self.sentinels@
        &&& other.analyses@ == self.analyses@
        &&& other.votes@ == self.votes@
        &&& other.ledger.pool == self.ledger.pool
        &&& other.ledger.accounts@ == self.ledger.accounts@
    }

    /// Under uniqueness, the record at any index is the record its key
    /// resolves to.
    pub proof fn lemma_sentinel_at(self, i: int)
        requires
            self.sentinels_unique(),
            0 <= i < self.sentinels@.len(),
        ensures
            self.has_sentinel(self.sentinels@[i].authority),
            self.sentinel_of(self.sentinels@[i].authority) == self.sentinels@[i],
    {
        let a = self.sentinels@[i].authority;
        assert(self.has_sentinel(a));
        let j = choose|j: int|
            0 <= j < self.sentinels@.len() && (#[trigger] self.sentinels@[j]).authority == a;
        if i < j {
            assert(self.sentinels@[i].authority != self.sentinels@[j].authority);
        } else if j < i {
            assert(self.sentinels@[j].authority != self.sentinels@[i].authority);
        }
    }

    /// Under uniqueness, the record at any index is the record its key
    /// resolves to.
    pub proof fn lemma_analysis_at(self, i: int)
        requires
            self.analyses_unique(),
            0 <= i < self.analyses@.len(),
        ensures
            self.has_analysis(self.analyses@[i].token_mint),
            self.analysis_of(self.analyses@[i].token_mint) == self.analyses@[i],
    {
        let m = self.analyses@[i].token_mint;
        assert(self.has_analysis(m));
        let j = choose|j: int|
            0 <= j < self.analyses@.len() && (#[trigger] self.analyses@[j]).token_mint == m;
        if i < j {
            assert(self.analyses@[i].token_mint != self.analyses@[j].token_mint);
        } else if j < i {
            assert(self.analyses@[j].token_mint != self.analyses@[i].token_mint);
        }
    }

    /// Under uniqueness, the record at any index is the record its key pair
    /// resolves to.
    pub proof fn lemma_vote_at(self, i: int)
        requires
            self.votes_unique(),
            0 <= i < self.votes@.len(),
        ensures
            self.has_vote(self.votes@[i].sentinel, self.votes@[i].token_mint),
            self.vote_of(self.votes@[i].sentinel, self.votes@[i].token_mint) == self.votes@[i],
    {
        let a = self.votes@[i].sentinel;
        let m = self.votes@[i].token_mint;
        assert(self.has_vote(a, m));
        let j = choose|j: int|
            0 <= j < self.votes@.len() && (#[trigger] self.votes@[j]).sentinel == a
                && self.votes@[j].token_mint == m;
        if i < j {
            assert(self.votes@[i].sentinel != self.votes@[j].sentinel || self.votes@[i].token_mint
                != self.votes@[j].token_mint);
        } else if j < i {
            assert(self.votes@[j].sentinel != self.votes@[i].sentinel || self.votes@[j].token_mint
                != self.votes@[i].token_mint);
        }
    }

    /// Finds the index of an agent's record.
    fn find_sentinel(&self, agent: u64) -> (r: Option<usize>)
        ensures
            match r {
                Some(i) => i < self.sentinels@.len() && self.sentinels@[i as int].authority
                    == agent,
                None => !self.has_sentinel(agent),
            },
    {
        let mut k: usize = 0;
        while k < self.sentinels.len()
            invariant
                k <= self.sentinels@.len(),
                forall|j: int| 0 <= j < k ==> (#[trigger] self.sentinels@[j]).authority != agent,
            decreases self.sentinels@.len() - k,
        {
            if self.sentinels[k].authority == agent {
                return Some(k);
            }
            k += 1;
        }
        None
    }

    /// Finds the index of a subject's record.
    fn find_analysis(&self, mint: u64) -> (r: Option<usize>)
        ensures
            match r {
                Some(i) => i < self.analyses@.len() && self.analyses@[i as int].token_mint == mint,
                None => !self.has_analysis(mint),
            },
    {
        let mut k: usize = 0;
        while k < self.analyses.len()
            invariant
                k <= self.analyses@.len(),
                forall|j: int| 0 <= j < k ==> (#[trigger] self.analyses@[j]).token_mint != mint,
            decreases self.analyses@.len() - k,
        {
            if self.analyses[k].token_mint == mint {
                return Some(k);
            }
            k += 1;
        }
        None
    }

    /// Finds the index of an (agent, subject) pair's vote.
    fn find_vote(&self, agent: u64, mint: u64) -> (r: Option<usize>)
        ensures
            match r {
                Some(i) => i < self.votes@.len() && self.votes@[i as int].sentinel == agent
                    && self.votes@[i as int].token_mint == mint,
                None => !self.has_vote(agent, mint),
            },
    {
        let mut k: usize = 0;
        while k < self.votes.len()
            invariant
                k <= self.votes@.len(),
                forall|j: int|
                    0 <= j < k ==> ((#[trigger] self.votes@[j]).sentinel != agent
                        || self.votes@[j].token_mint != mint),
            decreases self.votes@.len() - k,
        {
            if self.votes[k].sentinel == agent && self.votes[k].token_mint == mint {
                return Some(k);
            }
            k += 1;
        }
        None
    }

    /// Creates the protocol singleton with the given administrator and
    /// configuration: no agents, no analyses, no votes, an empty ledger.
    pub fn initialize(admin: u64, config: ProtocolConfig) -> (s: SentryState)
        requires
            config.valid(),
        ensures
            s.wf(),
            s.protocol == (Protocol {
                admin,
                min_stake: config.min_stake,
                verdict_window: config.verdict_window,
                grace_period: config.grace_period,
                quorum: config.quorum,
                slash_percent: config.slash_percent,
                total_agents: 0,
                total_verdicts: 0,
            }),
            s.sentinels@.len() == 0,
            s.analyses@.len() == 0,
            s.votes@.len() == 0,
            s.ledger.pool == 0,
            forall|o: u64| #[trigger] s.ledger.balance_of(o) == 0,
    {
        SentryState {
            protocol: Protocol {
                admin,
                min_stake: config.min_stake,
                verdict_window: config.verdict_window,
                grace_period: config.grace_period,
                quorum: config.quorum,
                slash_percent: config.slash_percent,
                total_agents: 0,
                total_verdicts: 0,
            },
            sentinels: Vec::new(),
            analyses: Vec::new(),
            votes: Vec::new(),
            ledger: Ledger::new(),
        }
    }

    /// What `register_sentinel` rejects, in the order checked.
    pub open spec fn register_error(self, agent: u64, stake_amount: u64) -> Option<SentryError> {
        if stake_amount < self.protocol.min_stake {
            Some(SentryError::InsufficientStake)
        } else if self.has_sentinel(agent) {
            Some(SentryError::AlreadyRegistered)
        } else if self.protocol.total_agents == u64::MAX {
            Some(SentryError::Overflow)
        } else {
            self.ledger.deposit_error(agent, stake_amount)
        }
    }

    /// Registers an agent as a sentinel: moves `stake_amount` from the
    /// agent's spendable balance into custody and creates its record with
    /// reputation 100, no verdicts, active. Fails with `InsufficientStake`
    /// when the stake is below the configured minimum, and then creates
    /// nothing.
    pub fn register_sentinel(&mut self, agent: u64, stake_amount: u64, now: i64) -> (r: Result<
        SentinelRegistered,
        SentryError,
    >)
        requires
            old(self).wf(),
        ensures
            final(self).wf(),
            match r {
                Ok(ev) => {
                    &&& old(self).register_error(agent, stake_amount) is None
                    &&& ev == (SentinelRegistered { sentinel: agent, stake: stake_amount })
                    &&& final(self).has_sentinel(agent)
                    &&& final(self).sentinel_of(agent) == (Sentinel {
                        authority: agent,
                        stake: stake_amount,
                        reputation: 100,
                        correct_verdicts: 0,
                        total_verdicts: 0,
                        is_active: true,
                        registered_at: now,
                    })
                    &&& final(self).sentinels@ == old(self).sentinels@.push(
                        Sentinel {
                            authority: agent,
                            stake: stake_amount,
                            reputation: 100,
                            correct_verdicts: 0,
                            total_verdicts: 0,
                            is_active: true,
                            registered_at: now,
                        },
                    )
                    &&& final(self).protocol == (Protocol {
                        total_agents: (old(self).protocol.total_agents + 1) as u64,
                        ..old(self).protocol
                    })
                    &&& final(self).analyses@ == old(self).analyses@
                    &&& final(self).votes@ == old(self).votes@
                    &&& final(self).ledger.pool == old(self).ledger.pool + stake_amount
                    &&& final(self).ledger.balance_of(agent) == old(self).ledger.balance_of(agent)
                        - stake_amount
                    &&& forall|o: u64|
                        o != agent ==> #[trigger] final(self).ledger.balance_of(o) == old(
                            self,
                        ).ledger.balance_of(o)
                },
                Err(e) => {
                    &&& old(self).register_error(agent, stake_amount) == Some(e)
                    &&& old(self).unchanged(*final(self))
                },
            },
    {
        if stake_amount < self.protocol.min_stake {
            return Err(SentryError::InsufficientStake);
        }
        match self.find_sentinel(agent) {
            Some(_) => {
                return Err(SentryError::AlreadyRegistered);
            },
            None => {},
        }
        if self.protocol.total_agents == u64::MAX {
            return Err(SentryError::Overflow);
        }
        match self.ledger.deposit(agent, stake_amount) {
            Err(e) => {
                return Err(e);
            },
            Ok(()) => {},
        }
        let ghost before = *self;
        let record = Sentinel {
            authority: agent,
            stake: stake_amount,
            reputation: 100,
            correct_verdicts: 0,
            total_verdicts: 0,
            is_active: true,
            registered_at: now,
        };
        self.sentinels.push(record);
        self.protocol.total_agents = self.protocol.total_agents + 1;
        proof {
            let s2 = *self;
            assert(s2.sentinels@[before.sentinels@.len() as int] == record);
            assert forall|i: int, j: int| 0 <= i < j < s2.sentinels@.len() implies (
            #[trigger] s2.sentinels@[i]).authority != (#[trigger] s2.sentinels@[j]).authority by {
                if j < s2.sentinels@.len() - 1 {
                    assert(s2.sentinels@[i] == before.sentinels@[i]);
                    assert(s2.sentinels@[j] == before.sentinels@[j]);
                } else {
                    assert(s2.sentinels@[j] == record);
                    assert(s2.sentinels@[i] == before.sentinels@[i]);
                    assert(before.has_sentinel(before.sentinels@[i].authority));
                }
            }
            assert forall|i: int| 0 <= i < s2.votes@.len() implies s2.vote_ok(
                #[trigger] s2.votes@[i],
            ) by {
                let v = before.votes@[i];
                assert(before.vote_ok(v));
                assert(s2.votes@[i] == v);
                let k = choose|k: int|
                    0 <= k < before.sentinels@.len() && (#[trigger] before.sentinels@[k]).authority
                        == v.sentinel;
                assert(s2.sentinels@[k] == before.sentinels@[k]);
                assert(s2.has_sentinel(v.sentinel));
            }
            s2.lemma_sentinel_at(before.sentinels@.len() as int);
        }
        Ok(SentinelRegistered { sentinel: agent, stake: stake_amount })
    }

    /// A subject's record as the first vote on it creates it: window opened
    /// at `now`, everything else zeroed.
    pub open spec fn fresh_analysis(mint: u64, now: i64) -> TokenAnalysis {
        TokenAnalysis {
            token_mint: mint,
            created_at: now,
            finalized_at: 0,
            total_votes: 0,
            safe_votes: 0,
            danger_votes: 0,
            safe_stake: 0,
            danger_stake: 0,
            final_verdict: Verdict::Safe,
            consensus_confidence: 0,
            is_finalized: false,
            is_rugged: false,
            rug_evidence: 0,
            rug_reported_at: 0,
            slash_pool: 0,
        }
    }

    /// A record with one vote of the given side and stake added to its
    /// tallies.
    pub open spec fn tallied(a: TokenAnalysis, verdict: Verdict, stake: u64) -> TokenAnalysis
        recommends
            !Self::tally_would_overflow(a, verdict, stake),
    {
        match verdict {
            Verdict::Safe => TokenAnalysis {
                total_votes: (a.total_votes + 1) as u64,
                safe_votes: (a.safe_votes + 1) as u64,
                safe_stake: (a.safe_stake + stake) as u64,
                ..a
            },
            Verdict::Danger => TokenAnalysis {
                total_votes: (a.total_votes + 1) as u64,
                danger_votes: (a.danger_votes + 1) as u64,
                danger_stake: (a.danger_stake + stake) as u64,
                ..a
            },
        }
    }

    /// Whether adding one vote of the given side and stake would overflow a
    /// tally counter.
    pub open spec fn tally_would_overflow(a: TokenAnalysis, verdict: Verdict, stake: u64) -> bool {
        ||| a.total_votes == u64::MAX
        ||| (verdict == Verdict::Safe && a.safe_stake + stake > u64::MAX)
        ||| (verdict == Verdict::Danger && a.danger_stake + stake > u64::MAX)
    }

    /// What `submit_verdict` rejects, in the order checked.
    pub open spec fn submit_error(
        self,
        agent: u64,
        mint: u64,
        verdict: Verdict,
        confidence: u8,
        now: i64,
    ) -> Option<SentryError> {
        if !self.has_sentinel(agent) || !self.sentinel_of(agent).is_active {
            Some(SentryError::SentinelInactive)
        } else if confidence > 100 {
            Some(SentryError::InvalidConfidence)
        } else if self.has_analysis(mint) && now > self.analysis_of(mint).created_at
            + self.protocol.verdict_window {
            Some(SentryError::VotingClosed)
        } else if self.has_vote(agent, mint) {
            Some(SentryError::AlreadyVoted)
        } else if self.has_analysis(mint) && Self::tally_would_overflow(
            self.analysis_of(mint),
            verdict,
            self.sentinel_of(agent).stake,
        ) {
            Some(SentryError::Overflow)
        } else {
            None
        }
    }

    /// Casts a verdict, recording the vote with a snapshot of the agent's
    /// current stake and adds that stake to the matching side's tally. The
    /// first vote on a subject creates its record and opens its voting
    /// window at `now`; later votes are accepted only while
    /// `now <= created_at + verdict_window`. A second vote by the same agent
    /// on the same subject is rejected.
    pub fn submit_verdict(
        &mut self,
        agent: u64,
        mint: u64,
        verdict: Verdict,
        confidence: u8,
        now: i64,
    ) -> (r: Result<VerdictSubmitted, SentryError>)
        requires
            old(self).wf(),
        ensures
            final(self).wf(),
            match r {
                Ok(ev) => {
                    &&& old(self).submit_error(agent, mint, verdict, confidence, now) is None
                    &&& ev == (VerdictSubmitted {
                        sentinel: agent,
                        token_mint: mint,
                        verdict,
                        confidence,
                        stake: old(self).sentinel_of(agent).stake,
                    })
                    &&& final(self).has_vote(agent, mint)
                    &&& final(self).vote_of(agent, mint) == (SentinelVote {
                        sentinel: agent,
                        token_mint: mint,
                        verdict,
                        confidence,
                        stake_at_vote: old(self).sentinel_of(agent).stake,
                        submitted_at: now,
                        is_slashed: false,
                        is_rewarded: false,
                    })
                    &&& final(self).has_analysis(mint)
                    &&& final(self).analysis_of(mint) == Self::tallied(
                        if old(self).has_analysis(mint) {
                            old(self).analysis_of(mint)
                        } else {
                            Self::fresh_analysis(mint, now)
                        },
                        verdict,
                        old(self).sentinel_of(agent).stake,
                    )
                    &&& final(self).votes@ == old(self).votes@.push(
                        SentinelVote {
                            sentinel: agent,
                            token_mint: mint,
                            verdict,
                            confidence,
                            stake_at_vote: old(self).sentinel_of(agent).stake,
                            submitted_at: now,
                            is_slashed: false,
                            is_rewarded: false,
                        },
                    )
                    &&& if old(self).has_analysis(mint) {
                        &&& final(self).analyses@.len() == old(self).analyses@.len()
                        &&& forall|i: int|
                            0 <= i < old(self).analyses@.len()
                                ==> #[trigger] final(self).analyses@[i] == (if old(self).analyses@[i].token_mint
                                == mint {
                                Self::tallied(
                                    old(self).analyses@[i],
                                    verdict,
                                    old(self).sentinel_of(agent).stake,
                                )
                            } else {
                                old(self).analyses@[i]
                            })
                    } else {
                        final(self).analyses@ == old(self).analyses@.push(
                            Self::tallied(
                                Self::fresh_analysis(mint, now),
                                verdict,
                                old(self).sentinel_of(agent).stake,
                            ),
                        )
                    }
                    &&& final(self).sentinels@ == old(self).sentinels@
                    &&& final(self).protocol == old(self).protocol
                    &&& final(self).ledger.pool == old(self).ledger.pool
                    &&& final(self).ledger.accounts@ == old(self).ledger.accounts@
                },
                Err(e) => {
                    &&& old(self).submit_error(agent, mint, verdict, confidence, now) == Some(e)
                    &&& old(self).unchanged(*final(self))
                },
            },
    {
        let s_idx = match self.find_sentinel(agent) {
            None => {
                return Err(SentryError::SentinelInactive);
            },
            Some(i) => i,
        };
        proof {
            self.lemma_sentinel_at(s_idx as int);
        }
        if !self.sentinels[s_idx].is_active {
            return Err(SentryError::SentinelInactive);
        }
        if confidence > 100 {
            return Err(SentryError::InvalidConfidence);
        }
        let stake = self.sentinels[s_idx].stake;
        let a_found = self.find_analysis(mint);
        match a_found {
            Some(ai) => {
                proof {
                    self.lemma_analysis_at(ai as int);
                }
                if (now as i128) > (self.analyses[ai].created_at as i128)
                    + (self.protocol.verdict_window as i128) {
                    return Err(SentryError::VotingClosed);
                }
            },
            None => {},
        }
        match self.find_vote(agent, mint) {
            Some(_) => {
                return Err(SentryError::AlreadyVoted);
            },
            None => {},
        }
        let ghost before = *self;
        match a_found {
            Some(ai) => {
                let a = self.analyses[ai];
                if a.total_votes == u64::MAX {
                    return Err(SentryError::Overflow);
                }
                proof {
                    assert(before.analysis_ok(a));
                    tally::lemma_tally_nonneg(before.votes@, mint, Verdict::Safe);
                    tally::lemma_tally_nonneg(before.votes@, mint, Verdict::Danger);
                }
                let updated = match verdict {
                    Verdict::Safe => {
                        if stake > u64::MAX - a.safe_stake {
                            return Err(SentryError::Overflow);
                        }
                        TokenAnalysis {
                            total_votes: a.total_votes + 1,
                            safe_votes: a.safe_votes + 1,
                            safe_stake: a.safe_stake + stake,
                            ..a
                        }
                    },
                    Verdict::Danger => {
                        if stake > u64::MAX - a.danger_stake {
                            return Err(SentryError::Overflow);
                        }
                        TokenAnalysis {
                            total_votes: a.total_votes + 1,
                            danger_votes: a.danger_votes + 1,
                            danger_stake: a.danger_stake + stake,
                            ..a
                        }
                    },
                };
                self.analyses[ai] = updated;
            },
            None => {
                let created = match verdict {
                    Verdict::Safe => TokenAnalysis {
                        total_votes: 1,
                        safe_votes: 1,
                        safe_stake: stake,
                        ..Self::fresh_analysis_record(mint, now)
                    },
                    Verdict::Danger => TokenAnalysis {
                        total_votes: 1,
                        danger_votes: 1,
                        danger_stake: stake,
                        ..Self::fresh_analysis_record(mint, now)
                    },
                };
                self.analyses.push(created);
            },
        }
        let vote = SentinelVote {
            sentinel: agent,
            token_mint: mint,
            verdict,
            confidence,
            stake_at_vote: stake,
            submitted_at: now,
            is_slashed: false,
            is_rewarded: false,
        };
        self.votes.push(vote);
        proof {
            self.lemma_submit_preserves_wf(before, vote, a_found, verdict, stake, mint, now);
            assert(self.votes@[before.votes@.len() as int] == vote);
            self.lemma_vote_at(before.votes@.len() as int);
            let gai: int = match a_found {
                Some(i) => i as int,
                None => before.analyses@.len() as int,
            };
            assert(self.analyses@[gai].token_mint == mint);
            self.lemma_analysis_at(gai);
            if a_found is Some {
                before.lemma_analysis_at(gai);
            }
        }
        Ok(
            VerdictSubmitted {
                sentinel: agent,
                token_mint: mint,
                verdict,
                confidence,
                stake,
            },
        )
    }

    /// Builds a fresh subject record in executable code.
    fn fresh_analysis_record(mint: u64, now: i64) -> (a: TokenAnalysis)
        ensures
            a == Self::fresh_analysis(mint, now),
    {
        TokenAnalysis {
            token_mint: mint,
            created_at: now,
            finalized_at: 0,
            total_votes: 0,
            safe_votes: 0,
            danger_votes: 0,
            safe_stake: 0,
            danger_stake: 0,
            final_verdict: Verdict::Safe,
            consensus_confidence: 0,
            is_finalized: false,
            is_rugged: false,
            rug_evidence: 0,
            rug_reported_at: 0,
            slash_pool: 0,
        }
    }

    /// The well-formedness proof for a cast verdict. The appended vote and
    /// the one adjusted (or created) tally record keep every invariant
    /// clause.
    proof fn lemma_submit_preserves_wf(
        self,
        before: SentryState,
        vote: SentinelVote,
        a_found: Option<usize>,
        verdict: Verdict,
        stake: u64,
        mint: u64,
        now: i64,
    )
        requires
            before.wf(),
            !before.has_vote(vote.sentinel, vote.token_mint),
            vote.token_mint == mint,
            vote.verdict == verdict,
            vote.stake_at_vote == stake,
            vote.is_slashed == false,
            vote.is_rewarded == false,
            before.has_sentinel(vote.sentinel),
            stake >= before.protocol.min_stake,
            self.votes@ == before.votes@.push(vote),
            self.sentinels@ == before.sentinels@,
            self.protocol == before.protocol,
            self.ledger == before.ledger,
            match a_found {
                Some(ai) => {
                    &&& ai < before.analyses@.len()
                    &&& before.analyses@[ai as int].token_mint == mint
                    &&& !Self::tally_would_overflow(before.analyses@[ai as int], verdict, stake)
                    &&& self.analyses@ == before.analyses@.update(
                        ai as int,
                        Self::tallied(before.analyses@[ai as int], verdict, stake),
                    )
                },
                None => {
                    &&& !before.has_analysis(mint)
                    &&& self.analyses@ == before.analyses@.push(
                        Self::tallied(Self::fresh_analysis(mint, now), verdict, stake),
                    )
                },
            },
        ensures
            self.wf(),
    {
        let n = before.analyses@.len() as int;
        match a_found {
            Some(ai) => {
                let aidx = ai as int;
                let a0 = before.analyses@[aidx];
                let a1 = Self::tallied(a0, verdict, stake);
                assert(a1.token_mint == mint);
                // key uniqueness of the updated analyses
                assert forall|i: int, j: int| 0 <= i < j < self.analyses@.len() implies (
                #[trigger] self.analyses@[i]).token_mint != (
                #[trigger] self.analyses@[j]).token_mint by {
                    assert(self.analyses@[i].token_mint == before.analyses@[i].token_mint);
                    assert(self.analyses@[j].token_mint == before.analyses@[j].token_mint);
                }
                // every key still resolves, to a record rugged exactly as before
                assert forall|m: u64| before.has_analysis(m) implies self.has_analysis(m)
                    && self.analysis_of(m).is_rugged == before.analysis_of(m).is_rugged by {
                    let k = choose|k: int|
                        0 <= k < before.analyses@.len() && (
                        #[trigger] before.analyses@[k]).token_mint == m;
                    before.lemma_analysis_at(k);
                    assert(self.analyses@[k].token_mint == m);
                    self.lemma_analysis_at(k);
                    if k == aidx {
                        assert(self.analyses@[k] == a1);
                        assert(a1.is_rugged == a0.is_rugged);
                    } else {
                        assert(self.analyses@[k] == before.analyses@[k]);
                    }
                }
                // vote records stay well-formed, and the new one is
                assert forall|i: int| 0 <= i < self.votes@.len() implies self.vote_ok(
                    #[trigger] self.votes@[i],
                ) by {
                    if i < before.votes@.len() {
                        assert(self.votes@[i] == before.votes@[i]);
                        assert(before.vote_ok(before.votes@[i]));
                    } else {
                        assert(self.votes@[i] == vote);
                        before.lemma_analysis_at(aidx);
                        assert(before.has_analysis(mint));
                    }
                }
                // tallies agree with the grown vote ledger
                assert forall|i: int| 0 <= i < self.analyses@.len() implies self.analysis_ok(
                    #[trigger] self.analyses@[i],
                ) by {
                    tally::lemma_tally_push(before.votes@, vote, self.analyses@[i].token_mint,
                        Verdict::Safe);
                    tally::lemma_tally_push(before.votes@, vote, self.analyses@[i].token_mint,
                        Verdict::Danger);
                    if i == aidx {
                        assert(before.analysis_ok(a0));
                    } else {
                        assert(self.analyses@[i] == before.analyses@[i]);
                        assert(before.analysis_ok(before.analyses@[i]));
                        assert(before.analyses@[i].token_mint != mint);
                    }
                }
                // one vote per pair still holds
                assert forall|i: int, j: int| 0 <= i < j < self.votes@.len() implies ((
                #[trigger] self.votes@[i]).sentinel != (#[trigger] self.votes@[j]).sentinel
                    || self.votes@[i].token_mint != self.votes@[j].token_mint) by {
                    if j < before.votes@.len() {
                        assert(self.votes@[i] == before.votes@[i]);
                        assert(self.votes@[j] == before.votes@[j]);
                    } else {
                        assert(self.votes@[j] == vote);
                        assert(self.votes@[i] == before.votes@[i]);
                        before.lemma_vote_at(i);
                    }
                }
            },
            None => {
                let a1 = Self::tallied(Self::fresh_analysis(mint, now), verdict, stake);
                assert(a1.token_mint == mint);
                assert(self.analyses@[n] == a1);
                // no vote stood on the fresh subject
                assert forall|i: int| 0 <= i < before.votes@.len() implies (
                #[trigger] before.votes@[i]).token_mint != mint by {
                    assert(before.vote_ok(before.votes@[i]));
                }
                tally::lemma_tally_absent(before.votes@, mint, Verdict::Safe);
                tally::lemma_tally_absent(before.votes@, mint, Verdict::Danger);
                // key uniqueness of the grown analyses
                assert forall|i: int, j: int| 0 <= i < j < self.analyses@.len() implies (
                #[trigger] self.analyses@[i]).token_mint != (
                #[trigger] self.analyses@[j]).token_mint by {
                    if j < n {
                        assert(self.analyses@[i] == before.analyses@[i]);
                        assert(self.analyses@[j] == before.analyses@[j]);
                    } else {
                        assert(self.analyses@[j] == a1);
                        assert(self.analyses@[i] == before.analyses@[i]);
                        before.lemma_analysis_at(i);
                    }
                }
                // every key still resolves, to a record rugged exactly as before
                assert forall|m: u64| before.has_analysis(m) implies self.has_analysis(m)
                    && self.analysis_of(m).is_rugged == before.analysis_of(m).is_rugged by {
                    let k = choose|k: int|
                        0 <= k < before.analyses@.len() && (
                        #[trigger] before.analyses@[k]).token_mint == m;
                    before.lemma_analysis_at(k);
                    assert(self.analyses@[k] == before.analyses@[k]);
                    self.lemma_analysis_at(k);
                }
                assert forall|i: int| 0 <= i < self.votes@.len() implies self.vote_ok(
                    #[trigger] self.votes@[i],
                ) by {
                    if i < before.votes@.len() {
                        assert(self.votes@[i] == before.votes@[i]);
                        assert(before.vote_ok(before.votes@[i]));
                    } else {
                        assert(self.votes@[i] == vote);
                        self.lemma_analysis_at(n);
                        assert(self.has_analysis(mint));
                    }
                }
                assert forall|i: int| 0 <= i < self.analyses@.len() implies self.analysis_ok(
                    #[trigger] self.analyses@[i],
                ) by {
                    tally::lemma_tally_push(before.votes@, vote, self.analyses@[i].token_mint,
                        Verdict::Safe);
                    tally::lemma_tally_push(before.votes@, vote, self.analyses@[i].token_mint,
                        Verdict::Danger);
                    if i < n {
                        assert(self.analyses@[i] == before.analyses@[i]);
                        assert(before.analysis_ok(before.analyses@[i]));
                        before.lemma_analysis_at(i);
                        assert(before.analyses@[i].token_mint != mint);
                    } else {
                        assert(self.analyses@[i] == a1);
                    }
                }
                assert forall|i: int, j: int| 0 <= i < j < self.votes@.len() implies ((
                #[trigger] self.votes@[i]).sentinel != (#[trigger] self.votes@[j]).sentinel
                    || self.votes@[i].token_mint != self.votes@[j].token_mint) by {
                    if j < before.votes@.len() {
                        assert(self.votes@[i] == before.votes@[i]);
                        assert(self.votes@[j] == before.votes@[j]);
                    } else {
                        assert(self.votes@[j] == vote);
                        assert(self.votes@[i] == before.votes@[i]);
                        before.lemma_vote_at(i);
                    }
                }
            },
        }
        // sentinel records are untouched
        assert forall|i: int| 0 <= i < self.sentinels@.len() implies self.sentinel_ok(
            #[trigger] self.sentinels@[i],
        ) by {
            assert(before.sentinel_ok(before.sentinels@[i]));
        }
    }

    /// Replacing one analysis record by one with the same subject and the
    /// same tallies preserves well-formedness, provided the record stays
    /// consistent (rugged only if finalized SAFE) and the rug flag is never
    /// cleared.
    proof fn lemma_update_analysis_preserves_wf(
        self,
        before: SentryState,
        ai: int,
        a1: TokenAnalysis,
    )
        requires
            before.wf(),
            0 <= ai < before.analyses@.len(),
            a1.token_mint == before.analyses@[ai].token_mint,
            a1.total_votes == before.analyses@[ai].total_votes,
            a1.safe_votes == before.analyses@[ai].safe_votes,
            a1.danger_votes == before.analyses@[ai].danger_votes,
            a1.safe_stake == before.analyses@[ai].safe_stake,
            a1.danger_stake == before.analyses@[ai].danger_stake,
            a1.is_rugged ==> a1.is_finalized && a1.final_verdict == Verdict::Safe,
            before.analyses@[ai].is_rugged ==> a1.is_rugged,
            self.analyses@ == before.analyses@.update(ai, a1),
            self.votes@ == before.votes@,
            self.sentinels@ == before.sentinels@,
            self.protocol == before.protocol,
            self.ledger == before.ledger,
        ensures
            self.wf(),
    {
        assert forall|i: int, j: int| 0 <= i < j < self.analyses@.len() implies (
        #[trigger] self.analyses@[i]).token_mint != (#[trigger] self.analyses@[j]).token_mint by {
            assert(self.analyses@[i].token_mint == before.analyses@[i].token_mint);
            assert(self.analyses@[j].token_mint == before.analyses@[j].token_mint);
        }
        assert forall|i: int| 0 <= i < self.votes@.len() implies self.vote_ok(
            #[trigger] self.votes@[i],
        ) by {
            let v = before.votes@[i];
            assert(before.vote_ok(v));
            let k = choose|k: int|
                0 <= k < before.analyses@.len() && (#[trigger] before.analyses@[k]).token_mint
                    == v.token_mint;
            assert(self.analyses@[k].token_mint == v.token_mint);
            self.lemma_analysis_at(k);
            if v.is_slashed {
                before.lemma_analysis_at(k);
                if k == ai {
                    assert(self.analyses@[k] == a1);
                } else {
                    assert(self.analyses@[k] == before.analyses@[k]);
                }
            }
        }
        assert forall|i: int| 0 <= i < self.analyses@.len() implies self.analysis_ok(
            #[trigger] self.analyses@[i],
        ) by {
            if i == ai {
                assert(before.analysis_ok(before.analyses@[ai]));
            } else {
                assert(self.analyses@[i] == before.analyses@[i]);
                assert(before.analysis_ok(before.analyses@[i]));
            }
        }
        assert forall|i: int| 0 <= i < self.sentinels@.len() implies self.sentinel_ok(
            #[trigger] self.sentinels@[i],
        ) by {
            assert(before.sentinel_ok(before.sentinels@[i]));
        }
    }

    /// The stake-weighted SAFE ratio of a subject's tallies, in percent.
    pub open spec fn safe_ratio(a: TokenAnalysis) -> int
        recommends
            a.safe_stake + a.danger_stake > 0,
    {
        (a.safe_stake as int) * 100 / (a.safe_stake + a.danger_stake)
    }

    /// A record as finalization leaves it: the verdict is SAFE exactly when
    /// the SAFE ratio reaches the fixed 60% supermajority threshold, and the
    /// ratio itself is recorded as the confidence.
    pub open spec fn finalized_analysis(a: TokenAnalysis, now: i64) -> TokenAnalysis
        recommends
            a.safe_stake + a.danger_stake > 0,
    {
        TokenAnalysis {
            final_verdict: if Self::safe_ratio(a) >= 60 {
                Verdict::Safe
            } else {
                Verdict::Danger
            },
            consensus_confidence: Self::safe_ratio(a) as u8,
            finalized_at: now,
            is_finalized: true,
            ..a
        }
    }

    /// What `finalize_consensus` rejects, in the order checked. A subject
    /// nobody has voted on has no closed window, so it counts as still open.
    pub open spec fn finalize_error(self, mint: u64, now: i64) -> Option<SentryError> {
        if self.has_analysis(mint) && self.analysis_of(mint).is_finalized {
            Some(SentryError::AlreadyFinalized)
        } else if !self.has_analysis(mint) || now <= self.analysis_of(mint).created_at
            + self.protocol.verdict_window {
            Some(SentryError::VotingStillOpen)
        } else if self.analysis_of(mint).total_votes < self.protocol.quorum {
            Some(SentryError::QuorumNotReached)
        } else if self.analysis_of(mint).safe_stake + self.analysis_of(mint).danger_stake == 0 {
            Some(SentryError::NoStake)
        } else if self.analysis_of(mint).safe_stake + self.analysis_of(mint).danger_stake
            > u64::MAX {
            Some(SentryError::Overflow)
        } else {
            None
        }
    }

    /// Closes the voting window and computes the stake-weighted verdict, a
    /// one-shot, terminal transition. Succeeds only once per subject, only
    /// after `now > created_at + verdict_window`, and only with at least
    /// `quorum` votes.
    pub fn finalize_consensus(&mut self, mint: u64, now: i64) -> (r: Result<
        ConsensusReached,
        SentryError,
    >)
        requires
            old(self).wf(),
        ensures
            final(self).wf(),
            match r {
                Ok(ev) => {
                    &&& old(self).finalize_error(mint, now) is None
                    &&& ev == (ConsensusReached {
                        token_mint: mint,
                        verdict: Self::finalized_analysis(
                            old(self).analysis_of(mint),
                            now,
                        ).final_verdict,
                        confidence: Self::finalized_analysis(
                            old(self).analysis_of(mint),
                            now,
                        ).consensus_confidence,
                        total_stake: (old(self).analysis_of(mint).safe_stake + old(
                            self,
                        ).analysis_of(mint).danger_stake) as u64,
                        total_votes: old(self).analysis_of(mint).total_votes,
                    })
                    &&& final(self).has_analysis(mint)
                    &&& final(self).analysis_of(mint) == Self::finalized_analysis(
                        old(self).analysis_of(mint),
                        now,
                    )
                    &&& final(self).analyses@.len() == old(self).analyses@.len()
                    &&& forall|i: int|
                        0 <= i < old(self).analyses@.len()
                            ==> #[trigger] final(self).analyses@[i] == (if old(self).analyses@[i].token_mint
                            == mint {
                            Self::finalized_analysis(old(self).analyses@[i], now)
                        } else {
                            old(self).analyses@[i]
                        })
                    &&& final(self).votes@ == old(self).votes@
                    &&& final(self).sentinels@ == old(self).sentinels@
                    &&& final(self).protocol == old(self).protocol
                    &&& final(self).ledger.pool == old(self).ledger.pool
                    &&& final(self).ledger.accounts@ == old(self).ledger.accounts@
                },
                Err(e) => {
                    &&& old(self).finalize_error(mint, now) == Some(e)
                    &&& old(self).unchanged(*final(self))
                },
            },
    {
        let ai = match self.find_analysis(mint) {
            None => {
                return Err(SentryError::VotingStillOpen);
            },
            Some(i) => i,
        };
        proof {
            self.lemma_analysis_at(ai as int);
        }
        let a = self.analyses[ai];
        if a.is_finalized {
            return Err(SentryError::AlreadyFinalized);
        }
        if (now as i128) <= (a.created_at as i128) + (self.protocol.verdict_window as i128) {
            return Err(SentryError::VotingStillOpen);
        }
        if a.total_votes < self.protocol.quorum as u64 {
            return Err(SentryError::QuorumNotReached);
        }
        let total_stake_wide: u128 = (a.safe_stake as u128) + (a.danger_stake as u128);
        if total_stake_wide == 0 {
            return Err(SentryError::NoStake);
        }
        if total_stake_wide > u64::MAX as u128 {
            return Err(SentryError::Overflow);
        }
        proof {
            lemma_mul_inequality(a.safe_stake as int, a.safe_stake + a.danger_stake, 100);
            lemma_div_is_ordered(
                (a.safe_stake as int) * 100,
                (a.safe_stake + a.danger_stake) * 100,
                a.safe_stake + a.danger_stake,
            );
            lemma_div_multiples_vanish(100, a.safe_stake + a.danger_stake);
            lemma_div_pos_is_pos((a.safe_stake as int) * 100, a.safe_stake + a.danger_stake);
        }
        let safe_ratio: u64 = (((a.safe_stake as u128) * 100) / total_stake_wide) as u64;
        let verdict = if safe_ratio >= 60 {
            Verdict::Safe
        } else {
            Verdict::Danger
        };
        let updated = TokenAnalysis {
            final_verdict: verdict,
            consensus_confidence: safe_ratio as u8,
            finalized_at: now,
            is_finalized: true,
            ..a
        };
        let ghost before = *self;
        self.analyses[ai] = updated;
        proof {
            assert(updated == Self::finalized_analysis(a, now));
            self.lemma_update_analysis_preserves_wf(before, ai as int, updated);
            self.lemma_analysis_at(ai as int);
            assert forall|i: int|
                0 <= i < before.analyses@.len() && i != ai as int implies before.analyses@[i].token_mint
                != mint by {
                before.lemma_analysis_at(i);
            }
        }
        Ok(
            ConsensusReached {
                token_mint: mint,
                verdict,
                confidence: safe_ratio as u8,
                total_stake: total_stake_wide as u64,
                total_votes: a.total_votes,
            },
        )
    }

    /// A record as an accepted rug report leaves it: flagged, the evidence
    /// stored, and the slash pool fixed at `slash_percent` of the SAFE
    /// tally.
    pub open spec fn rugged_analysis(
        a: TokenAnalysis,
        evidence: u64,
        now: i64,
        slash_percent: u8,
    ) -> TokenAnalysis {
        TokenAnalysis {
            is_rugged: true,
            rug_evidence: evidence,
            rug_reported_at: now,
            slash_pool: math::pct_of(a.safe_stake, slash_percent) as u64,
            ..a
        }
    }

    /// What `report_rug` rejects, in the order checked.
    pub open spec fn report_error(self, reporter: u64, mint: u64, now: i64) -> Option<
        SentryError,
    > {
        if reporter != self.protocol.admin {
            Some(SentryError::UnauthorizedReporter)
        } else if !self.has_analysis(mint) || !self.analysis_of(mint).is_finalized {
            Some(SentryError::NotFinalized)
        } else if self.analysis_of(mint).is_rugged {
            Some(SentryError::AlreadyReported)
        } else if self.analysis_of(mint).final_verdict != Verdict::Safe {
            Some(SentryError::AlreadyMarkedDanger)
        } else if now <= self.analysis_of(mint).finalized_at + self.protocol.grace_period {
            Some(SentryError::GracePeriodNotExpired)
        } else {
            None
        }
    }

    /// Marks a finalized-SAFE subject as rugged: admin only, at most once,
    /// and only after the grace period has passed since finalization. Fixes
    /// the slash pool at report time; later per-voter slashes do not change
    /// it.
    pub fn report_rug(&mut self, reporter: u64, mint: u64, evidence: u64, now: i64) -> (r: Result<
        RugReported,
        SentryError,
    >)
        requires
            old(self).wf(),
        ensures
            final(self).wf(),
            match r {
                Ok(ev) => {
                    &&& old(self).report_error(reporter, mint, now) is None
                    &&& ev == (RugReported {
                        token_mint: mint,
                        evidence_hash: evidence,
                        slash_pool: math::pct_of(
                            old(self).analysis_of(mint).safe_stake,
                            old(self).protocol.slash_percent,
                        ) as u64,
                    })
                    &&& final(self).has_analysis(mint)
                    &&& final(self).analysis_of(mint) == Self::rugged_analysis(
                        old(self).analysis_of(mint),
                        evidence,
                        now,
                        old(self).protocol.slash_percent,
                    )
                    &&& final(self).analyses@.len() == old(self).analyses@.len()
                    &&& forall|i: int|
                        0 <= i < old(self).analyses@.len()
                            ==> #[trigger] final(self).analyses@[i] == (if old(self).analyses@[i].token_mint
                            == mint {
                            Self::rugged_analysis(
                                old(self).analyses@[i],
                                evidence,
                                now,
                                old(self).protocol.slash_percent,
                            )
                        } else {
                            old(self).analyses@[i]
                        })
                    &&& final(self).votes@ == old(self).votes@
                    &&& final(self).sentinels@ == old(self).sentinels@
                    &&& final(self).protocol == old(self).protocol
                    &&& final(self).ledger.pool == old(self).ledger.pool
                    &&& final(self).ledger.accounts@ == old(self).ledger.accounts@
                },
                Err(e) => {
                    &&& old(self).report_error(reporter, mint, now) == Some(e)
                    &&& old(self).unchanged(*final(self))
                },
            },
    {
        if reporter != self.protocol.admin {
            return Err(SentryError::UnauthorizedReporter);
        }
        let ai = match self.find_analysis(mint) {
            None => {
                return Err(SentryError::NotFinalized);
            },
            Some(i) => i,
        };
        proof {
            self.lemma_analysis_at(ai as int);
        }
        let a = self.analyses[ai];
        if !a.is_finalized {
            return Err(SentryError::NotFinalized);
        }
        if a.is_rugged {
            return Err(SentryError::AlreadyReported);
        }
        match a.final_verdict {
            Verdict::Danger => {
                return Err(SentryError::AlreadyMarkedDanger);
            },
            Verdict::Safe => {},
        }
        if (now as i128) <= (a.finalized_at as i128) + (self.protocol.grace_period as i128) {
            return Err(SentryError::GracePeriodNotExpired);
        }
        let pool = math::percent_share(a.safe_stake, self.protocol.slash_percent);
        let updated = TokenAnalysis {
            is_rugged: true,
            rug_evidence: evidence,
            rug_reported_at: now,
            slash_pool: pool,
            ..a
        };
        let ghost before = *self;
        self.analyses[ai] = updated;
        proof {
            assert(updated == Self::rugged_analysis(
                a,
                evidence,
                now,
                before.protocol.slash_percent,
            ));
            self.lemma_update_analysis_preserves_wf(before, ai as int, updated);
            self.lemma_analysis_at(ai as int);
            assert forall|i: int|
                0 <= i < before.analyses@.len() && i != ai as int implies before.analyses@[i].token_mint
                != mint by {
                before.lemma_analysis_at(i);
            }
        }
        Ok(RugReported { token_mint: mint, evidence_hash: evidence, slash_pool: pool })
    }

    /// Settling one vote (a flag flip that keeps its subject, side and stake
    /// snapshot) together with one sentinel update (that keeps its identity
    /// and the active-implies-staked rule) preserves well-formedness,
    /// whatever happened to the ledger.
    proof fn lemma_settle_preserves_wf(
        self,
        before: SentryState,
        vi: int,
        v1: SentinelVote,
        si: int,
        s1: Sentinel,
    )
        requires
            before.wf(),
            0 <= vi < before.votes@.len(),
            v1.sentinel == before.votes@[vi].sentinel,
            v1.token_mint == before.votes@[vi].token_mint,
            v1.verdict == before.votes@[vi].verdict,
            v1.stake_at_vote == before.votes@[vi].stake_at_vote,
            v1.is_slashed ==> v1.verdict == Verdict::Safe && before.analysis_of(
                v1.token_mint,
            ).is_rugged,
            before.votes@[vi].is_slashed ==> v1.is_slashed,
            0 <= si < before.sentinels@.len(),
            s1.authority == before.sentinels@[si].authority,
            s1.is_active ==> s1.stake >= before.protocol.min_stake,
            self.votes@ == before.votes@.update(vi, v1),
            self.sentinels@ == before.sentinels@.update(si, s1),
            self.analyses@ == before.analyses@,
            self.protocol == before.protocol,
            self.ledger.wf(),
        ensures
            self.wf(),
    {
        assert forall|i: int, j: int| 0 <= i < j < self.sentinels@.len() implies (
        #[trigger] self.sentinels@[i]).authority != (#[trigger] self.sentinels@[j]).authority by {
            assert(self.sentinels@[i].authority == before.sentinels@[i].authority);
            assert(self.sentinels@[j].authority == before.sentinels@[j].authority);
        }
        assert forall|i: int, j: int| 0 <= i < j < self.votes@.len() implies ((
        #[trigger] self.votes@[i]).sentinel != (#[trigger] self.votes@[j]).sentinel
            || self.votes@[i].token_mint != self.votes@[j].token_mint) by {
            assert(self.votes@[i].sentinel == before.votes@[i].sentinel);
            assert(self.votes@[i].token_mint == before.votes@[i].token_mint);
            assert(self.votes@[j].sentinel == before.votes@[j].sentinel);
            assert(self.votes@[j].token_mint == before.votes@[j].token_mint);
        }
        assert forall|i: int| 0 <= i < self.votes@.len() implies self.vote_ok(
            #[trigger] self.votes@[i],
        ) by {
            let v0 = before.votes@[i];
            assert(before.vote_ok(v0));
            let v = self.votes@[i];
            assert(v.sentinel == v0.sentinel && v.token_mint == v0.token_mint && v.verdict
                == v0.verdict && v.stake_at_vote == v0.stake_at_vote);
            let k = choose|k: int|
                0 <= k < before.analyses@.len() && (#[trigger] before.analyses@[k]).token_mint
                    == v.token_mint;
            assert(self.analyses@[k].token_mint == v.token_mint);
            self.lemma_analysis_at(k);
            before.lemma_analysis_at(k);
            let m = choose|m: int|
                0 <= m < before.sentinels@.len() && (#[trigger] before.sentinels@[m]).authority
                    == v.sentinel;
            assert(self.sentinels@[m].authority == v.sentinel);
            assert(self.has_sentinel(v.sentinel));
            if v.is_slashed {
                if i == vi {
                    assert(v == v1);
                } else {
                    assert(v == v0);
                }
            }
        }
        assert forall|i: int| 0 <= i < self.analyses@.len() implies self.analysis_ok(
            #[trigger] self.analyses@[i],
        ) by {
            let a = before.analyses@[i];
            assert(before.analysis_ok(a));
            tally::lemma_tally_update(before.votes@, vi, v1, a.token_mint, Verdict::Safe);
            tally::lemma_tally_update(before.votes@, vi, v1, a.token_mint, Verdict::Danger);
        }
        assert forall|i: int| 0 <= i < self.sentinels@.len() implies self.sentinel_ok(
            #[trigger] self.sentinels@[i],
        ) by {
            if i != si {
                assert(self.sentinels@[i] == before.sentinels@[i]);
                assert(before.sentinel_ok(before.sentinels@[i]));
            }
        }
    }

    /// A vote as an applied slash leaves it.
    pub open spec fn slashed_vote(v: SentinelVote) -> SentinelVote {
        SentinelVote { is_slashed: true, ..v }
    }

    /// A sentinel as an applied slash leaves it: the stake debited by
    /// `slash_percent` of the stake at vote time (saturating at zero), the
    /// reputation debited by the stake-scaled penalty (saturating at zero),
    /// one more lifetime verdict, and deactivated if the remaining stake
    /// falls below the minimum.
    pub open spec fn slashed_sentinel(s: Sentinel, vote_stake: u64, p: Protocol) -> Sentinel
        recommends
            p.valid(),
            s.total_verdicts < u64::MAX,
    {
        let new_stake = math::sat_sub_u64(s.stake, math::pct_of(vote_stake, p.slash_percent));
        Sentinel {
            stake: new_stake,
            reputation: math::sat_sub_u16(
                s.reputation,
                math::stake_scaled(20, vote_stake, p.min_stake),
            ),
            total_verdicts: (s.total_verdicts + 1) as u64,
            is_active: if new_stake < p.min_stake {
                false
            } else {
                s.is_active
            },
            ..s
        }
    }

    /// What `slash_sentinel` rejects, in the order checked. An agent with no
    /// vote on the subject, like a DANGER voter, is exempt.
    pub open spec fn slash_error(self, agent: u64, mint: u64) -> Option<SentryError> {
        if !self.has_analysis(mint) || !self.analysis_of(mint).is_rugged {
            Some(SentryError::NotRugged)
        } else if !self.has_vote(agent, mint) || self.vote_of(agent, mint).verdict
            != Verdict::Safe {
            Some(SentryError::VotedCorrectly)
        } else if self.vote_of(agent, mint).is_slashed {
            Some(SentryError::AlreadySlashed)
        } else if self.sentinel_of(agent).total_verdicts == u64::MAX {
            Some(SentryError::Overflow)
        } else {
            None
        }
    }

    /// Slashes a sentinel who voted SAFE on a rugged subject: debits its
    /// current stake by `slash_percent` of the stake at vote time, applies
    /// the stake-scaled reputation penalty, and marks the vote slashed so it
    /// can never be slashed twice. The forfeited funds stay pooled in
    /// custody, funding later rewards.
    pub fn slash_sentinel(&mut self, agent: u64, mint: u64) -> (r: Result<
        SentinelSlashed,
        SentryError,
    >)
        requires
            old(self).wf(),
        ensures
            final(self).wf(),
            match r {
                Ok(ev) => {
                    &&& old(self).slash_error(agent, mint) is None
                    &&& ev == (SentinelSlashed {
                        sentinel: agent,
                        token_mint: mint,
                        amount: math::pct_of(
                            old(self).vote_of(agent, mint).stake_at_vote,
                            old(self).protocol.slash_percent,
                        ) as u64,
                    })
                    &&& final(self).has_vote(agent, mint)
                    &&& final(self).vote_of(agent, mint) == Self::slashed_vote(
                        old(self).vote_of(agent, mint),
                    )
                    &&& final(self).has_sentinel(agent)
                    &&& final(self).sentinel_of(agent) == Self::slashed_sentinel(
                        old(self).sentinel_of(agent),
                        old(self).vote_of(agent, mint).stake_at_vote,
                        old(self).protocol,
                    )
                    &&& final(self).votes@.len() == old(self).votes@.len()
                    &&& forall|i: int|
                        0 <= i < old(self).votes@.len()
                            ==> #[trigger] final(self).votes@[i] == (if old(self).votes@[i].sentinel
                            == agent && old(self).votes@[i].token_mint == mint {
                            Self::slashed_vote(old(self).votes@[i])
                        } else {
                            old(self).votes@[i]
                        })
                    &&& final(self).sentinels@.len() == old(self).sentinels@.len()
                    &&& forall|i: int|
                        0 <= i < old(self).sentinels@.len()
                            ==> #[trigger] final(self).sentinels@[i] == (if old(self).sentinels@[i].authority
                            == agent {
                            Self::slashed_sentinel(
                                old(self).sentinels@[i],
                                old(self).vote_of(agent, mint).stake_at_vote,
                                old(self).protocol,
                            )
                        } else {
                            old(self).sentinels@[i]
                        })
                    &&& final(self).analyses@ == old(self).analyses@
                    &&& final(self).protocol == old(self).protocol
                    &&& final(self).ledger.pool == old(self).ledger.pool
                    &&& final(self).ledger.accounts@ == old(self).ledger.accounts@
                },
                Err(e) => {
                    &&& old(self).slash_error(agent, mint) == Some(e)
                    &&& old(self).unchanged(*final(self))
                },
            },
    {
        let ai = match self.find_analysis(mint) {
            None => {
                return Err(SentryError::NotRugged);
            },
            Some(i) => i,
        };
        proof {
            self.lemma_analysis_at(ai as int);
        }
        if !self.analyses[ai].is_rugged {
            return Err(SentryError::NotRugged);
        }
        let vi = match self.find_vote(agent, mint) {
            None => {
                return Err(SentryError::VotedCorrectly);
            },
            Some(i) => i,
        };
        proof {
            self.lemma_vote_at(vi as int);
        }
        let v = self.votes[vi];
        match v.verdict {
            Verdict::Danger => {
                return Err(SentryError::VotedCorrectly);
            },
            Verdict::Safe => {},
        }
        if v.is_slashed {
            return Err(SentryError::AlreadySlashed);
        }
        let si = match self.find_sentinel(agent) {
            None => {
                proof {
                    assert(self.vote_ok(self.votes@[vi as int]));
                    assert(false);
                }
                return Err(SentryError::VotedCorrectly);
            },
            Some(i) => i,
        };
        proof {
            self.lemma_sentinel_at(si as int);
        }
        let s = self.sentinels[si];
        if s.total_verdicts == u64::MAX {
            return Err(SentryError::Overflow);
        }
        let amount = math::percent_share(v.stake_at_vote, self.protocol.slash_percent);
        let new_stake = if s.stake >= amount {
            s.stake - amount
        } else {
            0
        };
        let new_reputation = math::apply_reputation_penalty(
            s.reputation,
            v.stake_at_vote,
            self.protocol.min_stake,
        );
        let updated_sentinel = Sentinel {
            stake: new_stake,
            reputation: new_reputation,
            total_verdicts: s.total_verdicts + 1,
            is_active: if new_stake < self.protocol.min_stake {
                false
            } else {
                s.is_active
            },
            ..s
        };
        let updated_vote = SentinelVote { is_slashed: true, ..v };
        let ghost before = *self;
        self.sentinels[si] = updated_sentinel;
        self.votes[vi] = updated_vote;
        proof {
            assert(updated_sentinel == Self::slashed_sentinel(s, v.stake_at_vote, before.protocol));
            assert(updated_vote == Self::slashed_vote(v));
            self.lemma_settle_preserves_wf(before, vi as int, updated_vote, si as int,
                updated_sentinel);
            self.lemma_vote_at(vi as int);
            self.lemma_sentinel_at(si as int);
            assert forall|i: int|
                0 <= i < before.votes@.len() && i != vi as int implies !((
                #[trigger] before.votes@[i]).sentinel == agent && before.votes@[i].token_mint
                    == mint) by {
                before.lemma_vote_at(i);
            }
            assert forall|i: int|
                0 <= i < before.sentinels@.len() && i != si as int implies (
                #[trigger] before.sentinels@[i]).authority != agent by {
                before.lemma_sentinel_at(i);
            }
        }
        Ok(SentinelSlashed { sentinel: agent, token_mint: mint, amount })
    }

    /// A vote as a granted reward leaves it.
    pub open spec fn rewarded_vote(v: SentinelVote) -> SentinelVote {
        SentinelVote { is_rewarded: true, ..v }
    }

    /// Whether a vote turned out correct: DANGER if the subject was rugged,
    /// otherwise agreement with the finalized verdict.
    pub open spec fn vote_is_correct(a: TokenAnalysis, v: SentinelVote) -> bool {
        if a.is_rugged {
            v.verdict == Verdict::Danger
        } else {
            v.verdict == a.final_verdict
        }
    }

    /// The slash-pool payout a correct vote is owed: the odds-weighted share
    /// when the subject is rugged and a pool stands, nothing otherwise.
    pub open spec fn reward_payout_due(a: TokenAnalysis, v: SentinelVote) -> int {
        if a.is_rugged && a.slash_pool > 0 {
            math::reward_payout(
                v.stake_at_vote,
                a.slash_pool,
                a.danger_stake,
                a.total_votes,
                a.danger_votes,
            )
        } else {
            0
        }
    }

    /// A sentinel as a granted reward leaves it: both verdict counters up by
    /// one, the stake-scaled reputation bonus applied (capped), and the
    /// payout credited to its bookkeeping stake.
    pub open spec fn rewarded_sentinel(s: Sentinel, vote_stake: u64, payout: int, p: Protocol) -> Sentinel
        recommends
            p.valid(),
            s.correct_verdicts < u64::MAX,
            s.total_verdicts < u64::MAX,
            0 <= payout,
            s.stake + payout <= u64::MAX,
    {
        Sentinel {
            correct_verdicts: (s.correct_verdicts + 1) as u64,
            total_verdicts: (s.total_verdicts + 1) as u64,
            reputation: math::sat_add_u16(
                s.reputation,
                math::stake_scaled(5, vote_stake, p.min_stake),
            ),
            stake: (s.stake + payout) as u64,
            ..s
        }
    }

    /// What `reward_sentinel` rejects, in the order checked. An agent with
    /// no vote on the subject did not vote correctly.
    pub open spec fn reward_error(self, agent: u64, mint: u64) -> Option<SentryError> {
        if !self.has_analysis(mint) || !self.analysis_of(mint).is_finalized {
            Some(SentryError::NotFinalized)
        } else if !self.has_vote(agent, mint) {
            Some(SentryError::VotedIncorrectly)
        } else if self.vote_of(agent, mint).is_rewarded {
            Some(SentryError::AlreadyRewarded)
        } else if !Self::vote_is_correct(self.analysis_of(mint), self.vote_of(agent, mint)) {
            Some(SentryError::VotedIncorrectly)
        } else if self.sentinel_of(agent).correct_verdicts == u64::MAX || self.sentinel_of(
            agent,
        ).total_verdicts == u64::MAX {
            Some(SentryError::Overflow)
        } else if self.ledger.pool < Self::reward_payout_due(
            self.analysis_of(mint),
            self.vote_of(agent, mint),
        ) {
            Some(SentryError::InsufficientFunds)
        } else if self.ledger.balance_of(agent) + Self::reward_payout_due(
            self.analysis_of(mint),
            self.vote_of(agent, mint),
        ) > u64::MAX {
            Some(SentryError::Overflow)
        } else if self.sentinel_of(agent).stake + Self::reward_payout_due(
            self.analysis_of(mint),
            self.vote_of(agent, mint),
        ) > u64::MAX {
            Some(SentryError::Overflow)
        } else {
            None
        }
    }

    /// Rewards a sentinel whose vote turned out correct: counts the correct
    /// verdict, grants the stake-scaled reputation bonus, and marks the vote
    /// rewarded so it can never be rewarded twice. On a rugged subject with
    /// a slash pool, additionally pays the odds-weighted share out of
    /// custody into the agent's spendable balance and bookkeeping stake; the
    /// whole operation fails and changes nothing if the ledger cannot cover
    /// the payout.
    pub fn reward_sentinel(&mut self, agent: u64, mint: u64) -> (r: Result<
        SentinelRewarded,
        SentryError,
    >)
        requires
            old(self).wf(),
        ensures
            final(self).wf(),
            match r {
                Ok(ev) => {
                    &&& old(self).reward_error(agent, mint) is None
                    &&& ev == (SentinelRewarded {
                        sentinel: agent,
                        token_mint: mint,
                        reputation: Self::rewarded_sentinel(
                            old(self).sentinel_of(agent),
                            old(self).vote_of(agent, mint).stake_at_vote,
                            Self::reward_payout_due(
                                old(self).analysis_of(mint),
                                old(self).vote_of(agent, mint),
                            ),
                            old(self).protocol,
                        ).reputation,
                    })
                    &&& final(self).has_vote(agent, mint)
                    &&& final(self).vote_of(agent, mint) == Self::rewarded_vote(
                        old(self).vote_of(agent, mint),
                    )
                    &&& final(self).has_sentinel(agent)
                    &&& final(self).sentinel_of(agent) == Self::rewarded_sentinel(
                        old(self).sentinel_of(agent),
                        old(self).vote_of(agent, mint).stake_at_vote,
                        Self::reward_payout_due(
                            old(self).analysis_of(mint),
                            old(self).vote_of(agent, mint),
                        ),
                        old(self).protocol,
                    )
                    &&& final(self).votes@.len() == old(self).votes@.len()
                    &&& forall|i: int|
                        0 <= i < old(self).votes@.len()
                            ==> #[trigger] final(self).votes@[i] == (if old(self).votes@[i].sentinel
                            == agent && old(self).votes@[i].token_mint == mint {
                            Self::rewarded_vote(old(self).votes@[i])
                        } else {
                            old(self).votes@[i]
                        })
                    &&& final(self).sentinels@.len() == old(self).sentinels@.len()
                    &&& forall|i: int|
                        0 <= i < old(self).sentinels@.len()
                            ==> #[trigger] final(self).sentinels@[i] == (if old(self).sentinels@[i].authority
                            == agent {
                            Self::rewarded_sentinel(
                                old(self).sentinels@[i],
                                old(self).vote_of(agent, mint).stake_at_vote,
                                Self::reward_payout_due(
                                    old(self).analysis_of(mint),
                                    old(self).vote_of(agent, mint),
                                ),
                                old(self).protocol,
                            )
                        } else {
                            old(self).sentinels@[i]
                        })
                    &&& final(self).analyses@ == old(self).analyses@
                    &&& final(self).protocol == old(self).protocol
                    &&& final(self).ledger.pool == old(self).ledger.pool
                        - Self::reward_payout_due(
                        old(self).analysis_of(mint),
                        old(self).vote_of(agent, mint),
                    )
                    &&& final(self).ledger.balance_of(agent) == old(self).ledger.balance_of(agent)
                        + Self::reward_payout_due(
                        old(self).analysis_of(mint),
                        old(self).vote_of(agent, mint),
                    )
                    &&& forall|o: u64|
                        o != agent ==> #[trigger] final(self).ledger.balance_of(o) == old(
                            self,
                        ).ledger.balance_of(o)
                },
                Err(e) => {
                    &&& old(self).reward_error(agent, mint) == Some(e)
                    &&& old(self).unchanged(*final(self))
                },
            },
    {
        let ai = match self.find_analysis(mint) {
            None => {
                return Err(SentryError::NotFinalized);
            },
            Some(i) => i,
        };
        proof {
            self.lemma_analysis_at(ai as int);
        }
        let a = self.analyses[ai];
        if !a.is_finalized {
            return Err(SentryError::NotFinalized);
        }
        let vi = match self.find_vote(agent, mint) {
            None => {
                return Err(SentryError::VotedIncorrectly);
            },
            Some(i) => i,
        };
        proof {
            self.lemma_vote_at(vi as int);
        }
        let v = self.votes[vi];
        if v.is_rewarded {
            return Err(SentryError::AlreadyRewarded);
        }
        let correct = if a.is_rugged {
            matches!(v.verdict, Verdict::Danger)
        } else {
            v.verdict == a.final_verdict
        };
        if !correct {
            return Err(SentryError::VotedIncorrectly);
        }
        let si = match self.find_sentinel(agent) {
            None => {
                proof {
                    assert(self.vote_ok(self.votes@[vi as int]));
                    assert(false);
                }
                return Err(SentryError::VotedIncorrectly);
            },
            Some(i) => i,
        };
        proof {
            self.lemma_sentinel_at(si as int);
        }
        let s = self.sentinels[si];
        if s.correct_verdicts == u64::MAX || s.total_verdicts == u64::MAX {
            return Err(SentryError::Overflow);
        }
        let payout: u64 = if a.is_rugged && a.slash_pool > 0 {
            proof {
                assert(self.vote_ok(self.votes@[vi as int]));
                assert(self.analysis_ok(self.analyses@[ai as int]));
                tally::lemma_tally_at_least(self.votes@, vi as int, mint, Verdict::Danger);
            }
            math::reward_payout_of(
                v.stake_at_vote,
                a.slash_pool,
                a.danger_stake,
                a.total_votes,
                a.danger_votes,
            )
        } else {
            0
        };
        proof {
            assert(payout == Self::reward_payout_due(a, v));
        }
        if self.ledger.pool < payout {
            return Err(SentryError::InsufficientFunds);
        }
        let bal = self.ledger.balance(agent);
        if payout > u64::MAX - bal {
            return Err(SentryError::Overflow);
        }
        if payout > u64::MAX - s.stake {
            return Err(SentryError::Overflow);
        }
        let ghost before = *self;
        match self.ledger.debit_pool(payout) {
            Err(_) => {
                proof {
                    assert(false);
                }
                return Err(SentryError::Overflow);
            },
            Ok(()) => {},
        }
        match self.ledger.credit(agent, payout) {
            Err(_) => {
                proof {
                    assert(false);
                }
                return Err(SentryError::Overflow);
            },
            Ok(()) => {},
        }
        let new_reputation = math::apply_reputation_reward(
            s.reputation,
            v.stake_at_vote,
            self.protocol.min_stake,
        );
        let updated_sentinel = Sentinel {
            correct_verdicts: s.correct_verdicts + 1,
            total_verdicts: s.total_verdicts + 1,
            reputation: new_reputation,
            stake: s.stake + payout,
            ..s
        };
        let updated_vote = SentinelVote { is_rewarded: true, ..v };
        self.sentinels[si] = updated_sentinel;
        self.votes[vi] = updated_vote;
        proof {
            assert(updated_sentinel == Self::rewarded_sentinel(
                s,
                v.stake_at_vote,
                payout as int,
                before.protocol,
            ));
            assert(updated_vote == Self::rewarded_vote(v));
            assert(before.vote_ok(before.votes@[vi as int]));
            self.lemma_settle_preserves_wf(before, vi as int, updated_vote, si as int,
                updated_sentinel);
            self.lemma_vote_at(vi as int);
            self.lemma_sentinel_at(si as int);
            assert forall|i: int|
                0 <= i < before.votes@.len() && i != vi as int implies !((
                #[trigger] before.votes@[i]).sentinel == agent && before.votes@[i].token_mint
                    == mint) by {
                before.lemma_vote_at(i);
            }
            assert forall|i: int|
                0 <= i < before.sentinels@.len() && i != si as int implies (
                #[trigger] before.sentinels@[i]).authority != agent by {
                before.lemma_sentinel_at(i);
            }
        }
        Ok(SentinelRewarded { sentinel: agent, token_mint: mint, reputation: new_reputation })
    }

    /// Reads an agent's record, if one exists.
    pub fn sentinel_record(&self, agent: u64) -> (r: Option<Sentinel>)
        requires
            self.wf(),
        ensures
            match r {
                Some(s) => self.has_sentinel(agent) && s == self.sentinel_of(agent),
                None => !self.has_sentinel(agent),
            },
    {
        match self.find_sentinel(agent) {
            Some(i) => {
                proof {
                    self.lemma_sentinel_at(i as int);
                }
                Some(self.sentinels[i])
            },
            None => None,
        }
    }

    /// Reads a subject's record, if one exists.
    pub fn analysis_record(&self, mint: u64) -> (r: Option<TokenAnalysis>)
        requires
            self.wf(),
        ensures
            match r {
                Some(a) => self.has_analysis(mint) && a == self.analysis_of(mint),
                None => !self.has_analysis(mint),
            },
    {
        match self.find_analysis(mint) {
            Some(i) => {
                proof {
                    self.lemma_analysis_at(i as int);
                }
                Some(self.analyses[i])
            },
            None => None,
        }
    }

    /// Reads an (agent, subject) pair's vote, if one exists.
    pub fn vote_record(&self, agent: u64, mint: u64) -> (r: Option<SentinelVote>)
        requires
            self.wf(),
        ensures
            match r {
                Some(v) => self.has_vote(agent, mint) && v == self.vote_of(agent, mint),
                None => !self.has_vote(agent, mint),
            },
    {
        match self.find_vote(agent, mint) {
            Some(i) => {
                proof {
                    self.lemma_vote_at(i as int);
                }
                Some(self.votes[i])
            },
            None => None,
        }
    }
}

} // verus!
