//! Entity records and plain value types of the protocol.
//!
//! Agents and token subjects are identified by plain `u64` identifiers; the
//! addressing scheme that locates each record, transaction signing and the
//! custody of funds are outside the protocol core and are modeled only at
//! their interface (see the ledger module).

use vstd::prelude::*;

verus! {

/// A binary classification cast by a sentinel on a token subject.
#[derive(Clone, Copy, Debug, PartialEq, Eq, Structural)]
pub enum Verdict {
    Safe,
    Danger,
}

/// Every failure of a protocol operation, typed and synchronous.
///
/// Precondition violations and double-action violations reject the operation
/// without mutating any state; time-gate violations are recoverable by
/// waiting. `NoStake` rejects a finalization whose tallies hold no stake at
/// all, which would otherwise leave the stake-weighted ratio undefined.
#[derive(Clone, Copy, Debug, PartialEq, Eq, Structural)]
pub enum SentryError {
    InsufficientStake,
    UnauthorizedReporter,
    GracePeriodNotExpired,
    SentinelInactive,
    InvalidConfidence,
    VotingClosed,
    VotingStillOpen,
    QuorumNotReached,
    AlreadyFinalized,
    NotFinalized,
    AlreadyReported,
    AlreadyMarkedDanger,
    NotRugged,
    VotedCorrectly,
    VotedIncorrectly,
    AlreadySlashed,
    AlreadyRewarded,
    InsufficientFunds,
    Overflow,
    AlreadyRegistered,
    AlreadyVoted,
    NoStake,
}

/// The immutable-after-init protocol parameters.
#[derive(Clone, Copy, Debug)]
pub struct ProtocolConfig {
    /// Minimum collateral an agent must stake to register.
    pub min_stake: u64,
    /// Seconds after a subject's first vote during which verdicts are accepted.
    pub verdict_window: u32,
    /// Seconds after finalization before a rug report is permitted.
    pub grace_period: u32,
    /// Minimum vote count required before consensus can finalize.
    pub quorum: u16,
    /// Percentage (0-100) of stake forfeited on a wrong verdict.
    pub slash_percent: u8,
}

impl ProtocolConfig {
    /// A usable configuration: the slash percentage is a percentage, and the
    /// minimum stake is positive, so that the stake-scaled reputation
    /// formulas (which divide by it) are defined.
    pub open spec fn valid(self) -> bool {
        &&& self.min_stake >= 1
        &&& self.slash_percent <= 100
    }
}

/// The protocol singleton: configuration plus running counters.
#[derive(Clone, Copy, Debug)]
pub struct Protocol {
    /// Identity of the administrator, the only caller allowed to report rugs.
    pub admin: u64,
    pub min_stake: u64,
    pub verdict_window: u32,
    pub grace_period: u32,
    pub quorum: u16,
    pub slash_percent: u8,
    /// Count of registered agents; incremented only by registration.
    pub total_agents: u64,
    /// Reserved lifetime verdict counter.
    pub total_verdicts: u64,
}

impl Protocol {
    pub open spec fn valid(self) -> bool {
        &&& self.min_stake >= 1
        &&& self.slash_percent <= 100
    }
}

/// A registered staked agent. Created on registration, never destroyed;
/// becomes permanently inactive if its stake drops below the minimum.
#[derive(Clone, Copy, Debug)]
pub struct Sentinel {
    /// The agent's identity.
    pub authority: u64,
    /// The protocol's bookkeeping mirror of the agent's staked collateral.
    pub stake: u64,
    /// Reputation score; starts at 100, saturating at the `u16` range.
    pub reputation: u16,
    pub correct_verdicts: u64,
    pub total_verdicts: u64,
    pub is_active: bool,
    pub registered_at: i64,
}

/// Per-subject voting window, tallies and finalized verdict. Lazily created
/// by the first verdict on the subject; finalized at most once; rug-reported
/// at most once.
#[derive(Clone, Copy, Debug)]
pub struct TokenAnalysis {
    /// The subject's identity.
    pub token_mint: u64,
    /// Timestamp of the first vote; starts the voting window.
    pub created_at: i64,
    pub finalized_at: i64,
    pub total_votes: u64,
    pub safe_votes: u64,
    pub danger_votes: u64,
    pub safe_stake: u64,
    pub danger_stake: u64,
    pub final_verdict: Verdict,
    /// The stake-weighted SAFE ratio recorded at finalization (0-100).
    pub consensus_confidence: u8,
    pub is_finalized: bool,
    pub is_rugged: bool,
    /// Reference to the evidence given with the rug report.
    pub rug_evidence: u64,
    pub rug_reported_at: i64,
    /// Distribution budget for rewards, fixed at rug-report time.
    pub slash_pool: u64,
}

/// The evidentiary record of one cast verdict; at most one per
/// (agent, subject) pair, ever. Settlement operations key off of it.
#[derive(Clone, Copy, Debug)]
pub struct SentinelVote {
    /// The voting agent's identity.
    pub sentinel: u64,
    /// The subject voted on.
    pub token_mint: u64,
    pub verdict: Verdict,
    /// The voter's self-reported confidence (0-100).
    pub confidence: u8,
    /// The agent's stake at vote time; settlement uses this snapshot, not the
    /// current stake.
    pub stake_at_vote: u64,
    pub submitted_at: i64,
    pub is_slashed: bool,
    pub is_rewarded: bool,
}

/// Notification of a successful registration.
#[derive(Clone, Copy, Debug, PartialEq, Eq)]
pub struct SentinelRegistered {
    pub sentinel: u64,
    pub stake: u64,
}

/// Notification of a successfully cast verdict.
#[derive(Clone, Copy, Debug, PartialEq, Eq)]
pub struct VerdictSubmitted {
    pub sentinel: u64,
    pub token_mint: u64,
    pub verdict: Verdict,
    pub confidence: u8,
    pub stake: u64,
}

/// Notification of a finalized consensus.
#[derive(Clone, Copy, Debug, PartialEq, Eq)]
pub struct ConsensusReached {
    pub token_mint: u64,
    pub verdict: Verdict,
    pub confidence: u8,
    pub total_stake: u64,
    pub total_votes: u64,
}

/// Notification of an accepted rug report.
#[derive(Clone, Copy, Debug, PartialEq, Eq)]
pub struct RugReported {
    pub token_mint: u64,
    pub evidence_hash: u64,
    pub slash_pool: u64,
}

/// Notification of an applied slash.
#[derive(Clone, Copy, Debug, PartialEq, Eq)]
pub struct SentinelSlashed {
    pub sentinel: u64,
    pub token_mint: u64,
    pub amount: u64,
}

/// Notification of a granted reward.
#[derive(Clone, Copy, Debug, PartialEq, Eq)]
pub struct SentinelRewarded {
    pub sentinel: u64,
    pub token_mint: u64,
    pub reputation: u16,
}

} // verus!
