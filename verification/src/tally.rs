//! Spec-level aggregation over the vote ledger: the stake sum and the vote
//! count of one side of one subject, with the lemmas that relate them to
//! appending a vote, settling a vote in place, and single votes.

use vstd::prelude::*;
use crate::types::SentinelVote;
use crate::types::Verdict;

verus! {

/// Whether a vote belongs to the given side of the given subject.
pub open spec fn vote_matches(v: SentinelVote, mint: u64, verdict: Verdict) -> bool {
    v.token_mint == mint && v.verdict == verdict
}

/// The sum of `stake_at_vote` over the votes of one side of one subject.
pub open spec fn sum_stake(votes: Seq<SentinelVote>, mint: u64, verdict: Verdict) -> int
    decreases votes.len(),
{
    if votes.len() == 0 {
        0
    } else {
        sum_stake(votes.drop_last(), mint, verdict) + if vote_matches(
            votes.last(),
            mint,
            verdict,
        ) {
            votes.last().stake_at_vote as int
        } else {
            0
        }
    }
}

/// The number of votes of one side of one subject.
pub open spec fn count_votes(votes: Seq<SentinelVote>, mint: u64, verdict: Verdict) -> int
    decreases votes.len(),
{
    if votes.len() == 0 {
        0
    } else {
        count_votes(votes.drop_last(), mint, verdict) + if vote_matches(
            votes.last(),
            mint,
            verdict,
        ) {
            1int
        } else {
            0
        }
    }
}

/// Appending a vote adds its stake to the matching side's sum and leaves
/// every other sum and count unchanged.
pub proof fn lemma_tally_push(votes: Seq<SentinelVote>, v: SentinelVote, mint: u64, verdict: Verdict)
    ensures
        sum_stake(votes.push(v), mint, verdict) == sum_stake(votes, mint, verdict) + if vote_matches(
            v,
            mint,
            verdict,
        ) {
            v.stake_at_vote as int
        } else {
            0
        },
        count_votes(votes.push(v), mint, verdict) == count_votes(votes, mint, verdict)
            + if vote_matches(v, mint, verdict) {
            1int
        } else {
            0
        },
{
    assert(votes.push(v).drop_last() =~= votes);
    assert(votes.push(v).last() == v);
}

/// Replacing a vote by one with the same subject, side and stake snapshot
/// (settlement only flips a flag) changes no sum and no count.
pub proof fn lemma_tally_update(
    votes: Seq<SentinelVote>,
    i: int,
    v: SentinelVote,
    mint: u64,
    verdict: Verdict,
)
    requires
        0 <= i < votes.len(),
        v.token_mint == votes[i].token_mint,
        v.verdict == votes[i].verdict,
        v.stake_at_vote == votes[i].stake_at_vote,
    ensures
        sum_stake(votes.update(i, v), mint, verdict) == sum_stake(votes, mint, verdict),
        count_votes(votes.update(i, v), mint, verdict) == count_votes(votes, mint, verdict),
    decreases votes.len(),
{
    let u = votes.update(i, v);
    if i == votes.len() - 1 {
        assert(u.drop_last() =~= votes.drop_last());
        assert(u.last() == v);
    } else {
        assert(u.drop_last() =~= votes.drop_last().update(i, v));
        assert(u.last() == votes.last());
        lemma_tally_update(votes.drop_last(), i, v, mint, verdict);
    }
}

/// A subject on which no vote stands has zero sums and zero counts.
pub proof fn lemma_tally_absent(votes: Seq<SentinelVote>, mint: u64, verdict: Verdict)
    requires
        forall|i: int| 0 <= i < votes.len() ==> (#[trigger] votes[i]).token_mint != mint,
    ensures
        sum_stake(votes, mint, verdict) == 0,
        count_votes(votes, mint, verdict) == 0,
    decreases votes.len(),
{
    if votes.len() > 0 {
        assert(forall|i: int|
            0 <= i < votes.drop_last().len() ==> (#[trigger] votes.drop_last()[i]).token_mint
                != mint) by {
            assert(forall|i: int|
                0 <= i < votes.drop_last().len() ==> votes.drop_last()[i] == votes[i]);
        }
        lemma_tally_absent(votes.drop_last(), mint, verdict);
    }
}

/// Sums and counts are nonnegative.
pub proof fn lemma_tally_nonneg(votes: Seq<SentinelVote>, mint: u64, verdict: Verdict)
    ensures
        sum_stake(votes, mint, verdict) >= 0,
        count_votes(votes, mint, verdict) >= 0,
    decreases votes.len(),
{
    if votes.len() > 0 {
        lemma_tally_nonneg(votes.drop_last(), mint, verdict);
    }
}

/// A side's stake sum is at least the stake snapshot of any single vote on
/// that side, and its count is at least 1.
pub proof fn lemma_tally_at_least(votes: Seq<SentinelVote>, i: int, mint: u64, verdict: Verdict)
    requires
        0 <= i < votes.len(),
        vote_matches(votes[i], mint, verdict),
    ensures
        sum_stake(votes, mint, verdict) >= votes[i].stake_at_vote,
        count_votes(votes, mint, verdict) >= 1,
    decreases votes.len(),
{
    lemma_tally_nonneg(votes.drop_last(), mint, verdict);
    if i == votes.len() - 1 {
        assert(votes.last() == votes[i]);
    } else {
        assert(votes.drop_last()[i] == votes[i]);
        lemma_tally_at_least(votes.drop_last(), i, mint, verdict);
    }
}

} // verus!
