//! The protocol's guarantees, stated and proved over the state invariant
//! and the operations' contracts. Every operation requires and re-ensures
//! `SentryState::wf`, so each of these holds after any sequence of
//! operations on an initialized state.

use vstd::prelude::*;
use vstd::arithmetic::div_mod::lemma_div_pos_is_pos;
use crate::math;
use crate::state::SentryState;
use crate::tally;
use crate::types::Protocol;
use crate::types::Sentinel;
use crate::types::SentryError;
use crate::types::Verdict;

verus! {

/// For every subject: its SAFE and DANGER vote counters split its total,
/// and each side's stake tally equals the sum of the stake snapshots of
/// that side's votes in the vote ledger.
pub proof fn lemma_tally_consistency(s: SentryState, i: int)
    requires
        s.wf(),
        0 <= i < s.analyses@.len(),
    ensures
        s.analyses@[i].total_votes == s.analyses@[i].safe_votes + s.analyses@[i].danger_votes,
        s.analyses@[i].safe_votes == tally::count_votes(
            s.votes@,
            s.analyses@[i].token_mint,
            Verdict::Safe,
        ),
        s.analyses@[i].danger_votes == tally::count_votes(
            s.votes@,
            s.analyses@[i].token_mint,
            Verdict::Danger,
        ),
        s.analyses@[i].safe_stake == tally::sum_stake(
            s.votes@,
            s.analyses@[i].token_mint,
            Verdict::Safe,
        ),
        s.analyses@[i].danger_stake == tally::sum_stake(
            s.votes@,
            s.analyses@[i].token_mint,
            Verdict::Danger,
        ),
{
    assert(s.analysis_ok(s.analyses@[i]));
}

/// A given (agent, subject) pair admits at most one vote, ever: two ledger
/// entries with the same voter and subject are the same entry.
pub proof fn lemma_one_vote_per_pair(s: SentryState, i: int, j: int)
    requires
        s.wf(),
        0 <= i < s.votes@.len(),
        0 <= j < s.votes@.len(),
        s.votes@[i].sentinel == s.votes@[j].sentinel,
        s.votes@[i].token_mint == s.votes@[j].token_mint,
    ensures
        i == j,
{
    if i < j {
        assert(s.votes@[i].sentinel != s.votes@[j].sentinel || s.votes@[i].token_mint
            != s.votes@[j].token_mint);
    } else if j < i {
        assert(s.votes@[j].sentinel != s.votes@[i].sentinel || s.votes@[j].token_mint
            != s.votes@[i].token_mint);
    }
}

/// Finalization is gated: it can succeed only on an existing, not yet
/// finalized subject, strictly after its voting window, with at least
/// `quorum` votes.
pub proof fn lemma_finalize_gating(s: SentryState, mint: u64, now: i64)
    requires
        s.wf(),
        s.finalize_error(mint, now) is None,
    ensures
        s.has_analysis(mint),
        !s.analysis_of(mint).is_finalized,
        now > s.analysis_of(mint).created_at + s.protocol.verdict_window,
        s.analysis_of(mint).total_votes >= s.protocol.quorum,
{
}

/// Finalization is one-shot: once a subject is finalized, `finalize_consensus`
/// must reject it, so it can succeed at most once per subject.
pub proof fn lemma_finalize_at_most_once(s: SentryState, mint: u64, now: i64)
    requires
        s.wf(),
        s.has_analysis(mint),
        s.analysis_of(mint).is_finalized,
    ensures
        s.finalize_error(mint, now) == Some(SentryError::AlreadyFinalized),
{
}

/// Slashing is one-shot per vote: a vote already slashed makes
/// `slash_sentinel` reject with `AlreadySlashed`.
pub proof fn lemma_slash_at_most_once(s: SentryState, agent: u64, mint: u64)
    requires
        s.wf(),
        s.has_vote(agent, mint),
        s.vote_of(agent, mint).is_slashed,
    ensures
        s.slash_error(agent, mint) == Some(SentryError::AlreadySlashed),
{
    let k = choose|k: int|
        0 <= k < s.votes@.len() && (#[trigger] s.votes@[k]).sentinel == agent
            && s.votes@[k].token_mint == mint;
    assert(s.vote_ok(s.votes@[k]));
}

/// Rewarding is one-shot per vote: a vote already rewarded makes
/// `reward_sentinel` reject.
pub proof fn lemma_reward_at_most_once(s: SentryState, agent: u64, mint: u64)
    requires
        s.wf(),
        s.has_vote(agent, mint),
        s.vote_of(agent, mint).is_rewarded,
    ensures
        s.reward_error(agent, mint) is Some,
{
}

/// A slashed vote can never be rewarded afterwards: slashing marks a SAFE
/// vote on a rugged subject, and on a rugged subject only DANGER votes
/// count as correct, so `reward_sentinel` must reject the vote.
pub proof fn lemma_slashed_vote_cannot_be_rewarded(s: SentryState, agent: u64, mint: u64)
    requires
        s.wf(),
        s.has_vote(agent, mint),
        s.vote_of(agent, mint).is_slashed,
    ensures
        s.reward_error(agent, mint) is Some,
{
    let k = choose|k: int|
        0 <= k < s.votes@.len() && (#[trigger] s.votes@[k]).sentinel == agent
            && s.votes@[k].token_mint == mint;
    assert(s.vote_ok(s.votes@[k]));
    let a = s.analysis_of(mint);
    assert(a.is_rugged);
    let m = choose|m: int|
        0 <= m < s.analyses@.len() && (#[trigger] s.analyses@[m]).token_mint == mint;
    assert(s.analysis_ok(s.analyses@[m]));
}

/// A DANGER vote can never be slashed: slashing exempts every vote that is
/// not a SAFE vote on the rugged subject. Together with the previous law, a
/// vote settled on a rugged subject is slashed or rewarded, never both.
pub proof fn lemma_danger_vote_cannot_be_slashed(s: SentryState, agent: u64, mint: u64)
    requires
        s.wf(),
        s.has_vote(agent, mint),
        s.vote_of(agent, mint).verdict == Verdict::Danger,
    ensures
        s.slash_error(agent, mint) is Some,
{
}

/// Settlement keeps reputation and stake within their bounds: a slash never
/// raises stake or reputation and both saturate at zero, and a reward never
/// lowers reputation nor pushes it past its cap — so repeated slashes and
/// rewards stay bounded as well.
pub proof fn lemma_settlement_bounds(s: Sentinel, vote_stake: u64, payout: int, p: Protocol)
    requires
        p.valid(),
        0 <= payout,
        s.stake + payout <= u64::MAX,
    ensures
        SentryState::slashed_sentinel(s, vote_stake, p).stake <= s.stake,
        SentryState::slashed_sentinel(s, vote_stake, p).reputation <= s.reputation,
        SentryState::rewarded_sentinel(s, vote_stake, payout, p).reputation >= s.reputation,
        SentryState::rewarded_sentinel(s, vote_stake, payout, p).reputation <= 0xffff,
{
    math::lemma_pct_of_bounds(vote_stake, p.slash_percent);
    lemma_div_pos_is_pos(20 * (vote_stake as int), p.min_stake as int);
    lemma_div_pos_is_pos(5 * (vote_stake as int), p.min_stake as int);
}

} // verus!
