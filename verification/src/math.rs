//! Settlement arithmetic: percentage shares, stake-scaled reputation
//! adjustments, and the odds-weighted reward payout.
//!
//! All amounts are computed over mathematical integers in specifications and
//! over wide (`u128`) integers in executable code, so no intermediate product
//! can overflow and every floor division is exact.

use vstd::prelude::*;
use vstd::arithmetic::mul::lemma_mul_inequality;
use vstd::arithmetic::div_mod::lemma_div_is_ordered;
use vstd::arithmetic::div_mod::lemma_div_multiples_vanish;
use vstd::arithmetic::div_mod::lemma_div_pos_is_pos;

verus! {

/// `floor(amount * percent / 100)`: the slashed share of a stake, and the
/// slash pool taken from the SAFE tally.
pub open spec fn pct_of(amount: u64, percent: u8) -> int {
    (amount as int) * (percent as int) / 100
}

/// `floor(factor * stake / min_stake)`: reputation adjustments scale with the
/// voter's stake relative to the minimum stake.
pub open spec fn stake_scaled(factor: int, stake: u64, min_stake: u64) -> int
    recommends
        min_stake >= 1,
{
    factor * (stake as int) / (min_stake as int)
}

/// Subtraction on a `u64` quantity that saturates at zero.
pub open spec fn sat_sub_u64(a: u64, b: int) -> u64
    recommends
        b >= 0,
{
    if b >= a {
        0u64
    } else {
        (a - b) as u64
    }
}

/// Subtraction on a reputation score that saturates at zero.
pub open spec fn sat_sub_u16(a: u16, b: int) -> u16
    recommends
        b >= 0,
{
    if b >= a {
        0u16
    } else {
        (a - b) as u16
    }
}

/// Addition on a reputation score, capped at the maximum reputation value.
pub open spec fn sat_add_u16(a: u16, b: int) -> u16
    recommends
        b >= 0,
{
    if a + b > 0xffff {
        0xffffu16
    } else {
        (a + b) as u16
    }
}

/// Deterministic fixed-point `min(10, floor(ln(ratio) * 4))` on integer
/// ratios: each branch holds the exact floor of four times the natural
/// logarithm, and from 13 on the value is capped at 10. A ratio below 1
/// (possible only when the losing side outnumbers the total) contributes
/// nothing.
pub open spec fn ln4_floor(ratio: int) -> int {
    if ratio <= 1 {
        0
    } else if ratio == 2 {
        2
    } else if ratio == 3 {
        4
    } else if ratio == 4 {
        5
    } else if ratio == 5 {
        6
    } else if ratio <= 7 {
        7
    } else if ratio <= 9 {
        8
    } else if ratio <= 12 {
        9
    } else {
        10
    }
}

/// The consensus bonus (0-10, in percent points) favoring voters who were in
/// a smaller winning minority: `ln4_floor` of `total_votes / danger_votes`,
/// both counts treated as at least 1.
pub open spec fn consensus_bonus(total_votes: u64, danger_votes: u64) -> int {
    let t: int = if total_votes == 0 { 1int } else { total_votes as int };
    let d: int = if danger_votes == 0 { 1int } else { danger_votes as int };
    ln4_floor(t / d)
}

/// The voter's pro-rata share of the slash pool by stake:
/// `floor(voter_stake * pool / danger_stake)`.
pub open spec fn base_share(voter_stake: u64, pool: u64, danger_stake: u64) -> int
    recommends
        danger_stake >= 1,
{
    (voter_stake as int) * (pool as int) / (danger_stake as int)
}

/// The odds-weighted payout: the base share raised by the consensus bonus and
/// capped at the pool, so the pool is never over-distributed.
pub open spec fn reward_payout(
    voter_stake: u64,
    pool: u64,
    danger_stake: u64,
    total_votes: u64,
    danger_votes: u64,
) -> int
    recommends
        danger_stake >= 1,
{
    let with_bonus: int = base_share(voter_stake, pool, danger_stake) * (100
        + consensus_bonus(total_votes, danger_votes)) / 100;
    if with_bonus > pool {
        pool as int
    } else {
        with_bonus
    }
}

/// A percentage of an amount never exceeds the amount.
pub proof fn lemma_pct_of_bounds(amount: u64, percent: u8)
    requires
        percent <= 100,
    ensures
        0 <= pct_of(amount, percent) <= amount,
{
    lemma_mul_inequality(percent as int, 100, amount as int);
    lemma_div_is_ordered((percent as int) * (amount as int), 100 * (amount as int), 100);
    lemma_div_multiples_vanish(amount as int, 100);
    lemma_div_pos_is_pos((amount as int) * (percent as int), 100);
}

/// A pro-rata share of the pool never exceeds the pool when the voter's
/// stake is no more than the whole winning side's stake.
pub proof fn lemma_base_share_bounds(voter_stake: u64, pool: u64, danger_stake: u64)
    requires
        danger_stake >= 1,
        voter_stake <= danger_stake,
    ensures
        0 <= base_share(voter_stake, pool, danger_stake) <= pool,
{
    lemma_mul_inequality(voter_stake as int, danger_stake as int, pool as int);
    lemma_div_is_ordered(
        (voter_stake as int) * (pool as int),
        (danger_stake as int) * (pool as int),
        danger_stake as int,
    );
    lemma_div_multiples_vanish(pool as int, danger_stake as int);
    lemma_div_pos_is_pos((voter_stake as int) * (pool as int), danger_stake as int);
}

/// Computes `pct_of` exactly, in wide arithmetic.
pub fn percent_share(amount: u64, percent: u8) -> (r: u64)
    requires
        percent <= 100,
    ensures
        r == pct_of(amount, percent),
        r <= amount,
{
    proof {
        lemma_pct_of_bounds(amount, percent);
        lemma_mul_inequality(percent as int, 100, amount as int);
    }
    let wide: u128 = (amount as u128) * (percent as u128) / 100;
    wide as u64
}

/// Applies the stake-scaled slashing penalty `floor(20 * stake / min_stake)`
/// to a reputation score, saturating at zero.
pub fn apply_reputation_penalty(reputation: u16, stake: u64, min_stake: u64) -> (r: u16)
    requires
        min_stake >= 1,
    ensures
        r == sat_sub_u16(reputation, stake_scaled(20, stake, min_stake)),
{
    proof {
        lemma_div_pos_is_pos(20 * (stake as int), min_stake as int);
    }
    let penalty: u128 = 20u128 * (stake as u128) / (min_stake as u128);
    if penalty >= reputation as u128 {
        0
    } else {
        reputation - (penalty as u16)
    }
}

/// Applies the stake-scaled reward bonus `floor(5 * stake / min_stake)` to a
/// reputation score, capped at the maximum reputation value.
pub fn apply_reputation_reward(reputation: u16, stake: u64, min_stake: u64) -> (r: u16)
    requires
        min_stake >= 1,
    ensures
        r == sat_add_u16(reputation, stake_scaled(5, stake, min_stake)),
{
    proof {
        lemma_div_pos_is_pos(5 * (stake as int), min_stake as int);
    }
    let bonus: u128 = 5u128 * (stake as u128) / (min_stake as u128);
    if (reputation as u128) + bonus > 0xffff {
        0xffff
    } else {
        reputation + (bonus as u16)
    }
}

/// Computes the consensus bonus exactly.
pub fn consensus_bonus_of(total_votes: u64, danger_votes: u64) -> (r: u64)
    ensures
        r == consensus_bonus(total_votes, danger_votes),
        r <= 10,
{
    let t: u64 = if total_votes == 0 { 1 } else { total_votes };
    let d: u64 = if danger_votes == 0 { 1 } else { danger_votes };
    let ratio: u64 = t / d;
    if ratio <= 1 {
        0
    } else if ratio == 2 {
        2
    } else if ratio == 3 {
        4
    } else if ratio == 4 {
        5
    } else if ratio == 5 {
        6
    } else if ratio <= 7 {
        7
    } else if ratio <= 9 {
        8
    } else if ratio <= 12 {
        9
    } else {
        10
    }
}

/// Computes the odds-weighted payout exactly, in wide arithmetic.
pub fn reward_payout_of(
    voter_stake: u64,
    pool: u64,
    danger_stake: u64,
    total_votes: u64,
    danger_votes: u64,
) -> (r: u64)
    requires
        danger_stake >= 1,
        voter_stake <= danger_stake,
    ensures
        r == reward_payout(voter_stake, pool, danger_stake, total_votes, danger_votes),
        r <= pool,
{
    proof {
        lemma_base_share_bounds(voter_stake, pool, danger_stake);
        lemma_mul_inequality(voter_stake as int, u64::MAX as int, pool as int);
        lemma_mul_inequality(pool as int, u64::MAX as int, u64::MAX as int);
    }
    let bs: u128 = (voter_stake as u128) * (pool as u128) / (danger_stake as u128);
    let bonus: u64 = consensus_bonus_of(total_votes, danger_votes);
    proof {
        lemma_mul_inequality(bs as int, pool as int, 100 + bonus as int);
        lemma_mul_inequality(100 + bonus as int, 110, pool as int);
    }
    let with_bonus: u128 = bs * (100 + bonus as u128) / 100;
    proof {
        lemma_div_pos_is_pos(bs * (100 + bonus as int), 100);
    }
    if with_bonus > pool as u128 {
        pool
    } else {
        with_bonus as u64
    }
}

} // verus!
