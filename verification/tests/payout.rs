//! The settlement arithmetic and the ledger, exercised directly.

use sentry::ledger::Ledger;
use sentry::math::apply_reputation_penalty;
use sentry::math::apply_reputation_reward;
use sentry::math::consensus_bonus_of;
use sentry::math::percent_share;
use sentry::math::reward_payout_of;
use sentry::state::SentryState;
use sentry::types::ProtocolConfig;
use sentry::types::SentryError;
use sentry::types::TokenAnalysis;
use sentry::types::Verdict;

#[test]
fn percent_share_is_the_floored_percentage() {
    assert_eq!(percent_share(1_000, 10), 100);
    assert_eq!(percent_share(999, 10), 99);
    assert_eq!(percent_share(1_000, 0), 0);
    assert_eq!(percent_share(0, 100), 0);
    assert_eq!(percent_share(u64::MAX, 100), u64::MAX);
    assert_eq!(percent_share(u64::MAX, 50), u64::MAX / 2);
}

#[test]
fn consensus_bonus_follows_the_fixed_point_log_table() {
    assert_eq!(consensus_bonus_of(1, 1), 0);
    assert_eq!(consensus_bonus_of(2, 1), 2);
    assert_eq!(consensus_bonus_of(3, 1), 4);
    assert_eq!(consensus_bonus_of(4, 1), 5);
    assert_eq!(consensus_bonus_of(5, 1), 6);
    assert_eq!(consensus_bonus_of(6, 1), 7);
    assert_eq!(consensus_bonus_of(7, 1), 7);
    assert_eq!(consensus_bonus_of(8, 1), 8);
    assert_eq!(consensus_bonus_of(9, 1), 8);
    assert_eq!(consensus_bonus_of(10, 1), 9);
    assert_eq!(consensus_bonus_of(12, 1), 9);
    assert_eq!(consensus_bonus_of(13, 1), 10);
    assert_eq!(consensus_bonus_of(1_000_000, 1), 10);
    // the ratio uses integer division
    assert_eq!(consensus_bonus_of(10, 3), 4);
    assert_eq!(consensus_bonus_of(10, 5), 2);
    // both counts are treated as at least one
    assert_eq!(consensus_bonus_of(0, 0), 0);
    assert_eq!(consensus_bonus_of(0, 5), 0);
}

#[test]
fn reward_payout_is_capped_at_the_pool() {
    // a ten-to-one vote ratio gives a 9% bonus: 100 * 109 / 100 = 109,
    // capped at the pool of 100
    assert_eq!(consensus_bonus_of(10, 1), 9);
    assert_eq!(reward_payout_of(50, 100, 50, 10, 1), 100);
    // a lone full-stake winner takes the pool whatever the bonus
    assert_eq!(reward_payout_of(200, 100, 200, 2, 1), 100);
}

#[test]
fn reward_payout_splits_pro_rata_with_the_bonus() {
    // two equal winners out of ten voters: base 50, ratio 5, bonus 6%: 53
    assert_eq!(reward_payout_of(100, 100, 200, 10, 2), 53);
    // small voter in a large winning side: base 1, no bonus at ratio 1
    assert_eq!(reward_payout_of(1, 100, 100, 1, 1), 1);
}

#[test]
fn reputation_adjustments_saturate() {
    // penalty 20 * 50 / 10 = 100 wipes a reputation of 100
    assert_eq!(apply_reputation_penalty(100, 50, 10), 0);
    assert_eq!(apply_reputation_penalty(100, 10, 10), 80);
    assert_eq!(apply_reputation_penalty(5, 10, 10), 0);
    // bonus 5 * 50 / 10 = 25
    assert_eq!(apply_reputation_reward(100, 50, 10), 125);
    assert_eq!(apply_reputation_reward(65_000, u64::MAX, 1), 65_535);
}

#[test]
fn ledger_moves_are_atomic_and_typed() {
    let mut l = Ledger::new();
    assert_eq!(l.balance(7), 0);
    l.credit(7, 500).unwrap();
    assert_eq!(l.balance(7), 500);
    assert_eq!(l.deposit(7, 600), Err(SentryError::InsufficientFunds));
    assert_eq!(l.balance(7), 500);
    assert_eq!(l.pool, 0);
    l.deposit(7, 200).unwrap();
    assert_eq!(l.balance(7), 300);
    assert_eq!(l.pool, 200);
    assert_eq!(l.debit_pool(201), Err(SentryError::InsufficientFunds));
    l.debit_pool(150).unwrap();
    assert_eq!(l.pool, 50);
    l.credit(7, u64::MAX - 300).unwrap();
    assert_eq!(l.credit(7, 1), Err(SentryError::Overflow));
    assert_eq!(l.balance(7), u64::MAX);
}

#[test]
fn deposit_overflowing_the_pool_fails() {
    let mut l = Ledger::new();
    l.credit(7, u64::MAX).unwrap();
    l.credit(8, u64::MAX).unwrap();
    l.deposit(7, u64::MAX).unwrap();
    assert_eq!(l.deposit(8, 1), Err(SentryError::Overflow));
    assert_eq!(l.balance(8), u64::MAX);
    assert_eq!(l.pool, u64::MAX);
}

#[test]
fn finalize_with_no_staked_votes_is_rejected_explicitly() {
    // a subject record with empty tallies cannot arise through voting (every
    // vote stakes at least the minimum), but the zero-stake division guard
    // is explicit: quorum zero admits it and it fails with NoStake
    let cfg = ProtocolConfig {
        min_stake: 10,
        verdict_window: 100,
        grace_period: 50,
        quorum: 0,
        slash_percent: 10,
    };
    let mut st = SentryState::initialize(1, cfg);
    st.analyses.push(TokenAnalysis {
        token_mint: 77,
        created_at: 0,
        finalized_at: 0,
        total_votes: 0,
        safe_votes: 0,
        danger_votes: 0,
        safe_stake: 0,
        danger_stake: 0,
        final_verdict: Verdict::Safe,
        consensus_confidence: 0,
        is_finalized: false,
        is_rugged: false,
        rug_evidence: 0,
        rug_reported_at: 0,
        slash_pool: 0,
    });
    let r = st.finalize_consensus(77, 200);
    assert_eq!(r, Err(SentryError::NoStake));
}
