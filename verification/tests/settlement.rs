//! Rug reporting, slashing and reward distribution.

use sentry::state::SentryState;
use sentry::types::ProtocolConfig;
use sentry::types::SentryError;
use sentry::types::Verdict;

const ADMIN: u64 = 1;

fn config(min_stake: u64, quorum: u16, slash_percent: u8) -> ProtocolConfig {
    ProtocolConfig {
        min_stake,
        verdict_window: 100,
        grace_period: 50,
        quorum,
        slash_percent,
    }
}

fn funded(cfg: ProtocolConfig, agents: &[(u64, u64)]) -> SentryState {
    let mut st = SentryState::initialize(ADMIN, cfg);
    for &(agent, balance) in agents {
        st.ledger.credit(agent, balance).unwrap();
    }
    st
}

/// One SAFE voter with stake 1000 and one DANGER voter with stake 200,
/// finalized SAFE (ratio 83) at time 106.
fn safe_vs_danger(slash_percent: u8) -> SentryState {
    let mut st = funded(config(10, 2, slash_percent), &[(2, 1_000), (3, 200)]);
    st.register_sentinel(2, 1_000, 0).unwrap();
    st.register_sentinel(3, 200, 0).unwrap();
    st.submit_verdict(2, 77, Verdict::Safe, 90, 5).unwrap();
    st.submit_verdict(3, 77, Verdict::Danger, 80, 6).unwrap();
    st.finalize_consensus(77, 106).unwrap();
    st
}

#[test]
fn rug_report_by_non_admin_fails() {
    let mut st = safe_vs_danger(10);
    let r = st.report_rug(3, 77, 9, 157);
    assert_eq!(r, Err(SentryError::UnauthorizedReporter));
}

#[test]
fn rug_report_before_finalization_fails() {
    let mut st = funded(config(10, 1, 10), &[(2, 100)]);
    st.register_sentinel(2, 100, 0).unwrap();
    st.submit_verdict(2, 77, Verdict::Safe, 50, 5).unwrap();
    let r = st.report_rug(ADMIN, 77, 9, 200);
    assert_eq!(r, Err(SentryError::NotFinalized));
    let r = st.report_rug(ADMIN, 99, 9, 200);
    assert_eq!(r, Err(SentryError::NotFinalized));
}

#[test]
fn rug_report_within_grace_period_fails() {
    let mut st = safe_vs_danger(10);
    // finalized at 106; grace period 50: at 156 reporting is still too early
    let r = st.report_rug(ADMIN, 77, 9, 156);
    assert_eq!(r, Err(SentryError::GracePeriodNotExpired));
    assert!(st.report_rug(ADMIN, 77, 9, 157).is_ok());
}

#[test]
fn rug_report_on_danger_verdict_fails() {
    let mut st = funded(config(10, 1, 10), &[(2, 100)]);
    st.register_sentinel(2, 100, 0).unwrap();
    st.submit_verdict(2, 77, Verdict::Danger, 50, 5).unwrap();
    st.finalize_consensus(77, 106).unwrap();
    let r = st.report_rug(ADMIN, 77, 9, 1_000);
    assert_eq!(r, Err(SentryError::AlreadyMarkedDanger));
}

#[test]
fn rug_report_computes_the_slash_pool() {
    // slash_percent 10 of safe_stake 1000 yields a pool of 100
    let mut st = safe_vs_danger(10);
    let ev = st.report_rug(ADMIN, 77, 4242, 157).unwrap();
    assert_eq!(ev.token_mint, 77);
    assert_eq!(ev.evidence_hash, 4242);
    assert_eq!(ev.slash_pool, 100);
    let a = st.analysis_record(77).unwrap();
    assert!(a.is_rugged);
    assert_eq!(a.rug_evidence, 4242);
    assert_eq!(a.rug_reported_at, 157);
    assert_eq!(a.slash_pool, 100);
}

#[test]
fn rug_report_twice_fails() {
    let mut st = safe_vs_danger(10);
    st.report_rug(ADMIN, 77, 9, 157).unwrap();
    let r = st.report_rug(ADMIN, 77, 9, 158);
    assert_eq!(r, Err(SentryError::AlreadyReported));
}

#[test]
fn slash_without_rug_fails() {
    let mut st = safe_vs_danger(10);
    let r = st.slash_sentinel(2, 77);
    assert_eq!(r, Err(SentryError::NotRugged));
}

#[test]
fn slash_danger_voter_fails() {
    let mut st = safe_vs_danger(10);
    st.report_rug(ADMIN, 77, 9, 157).unwrap();
    let r = st.slash_sentinel(3, 77);
    assert_eq!(r, Err(SentryError::VotedCorrectly));
    // an agent with no vote at all is exempt as well
    let r = st.slash_sentinel(4, 77);
    assert_eq!(r, Err(SentryError::VotedCorrectly));
}

#[test]
fn slash_debits_stake_and_reputation_from_the_vote_snapshot() {
    let mut st = safe_vs_danger(10);
    st.report_rug(ADMIN, 77, 9, 157).unwrap();
    let ev = st.slash_sentinel(2, 77).unwrap();
    assert_eq!(ev.sentinel, 2);
    assert_eq!(ev.token_mint, 77);
    // 10% of the 1000 staked at vote time
    assert_eq!(ev.amount, 100);
    let s = st.sentinel_record(2).unwrap();
    assert_eq!(s.stake, 900);
    // penalty: 20 * 1000 / 10 = 2000, saturating to zero from 100
    assert_eq!(s.reputation, 0);
    assert_eq!(s.total_verdicts, 1);
    assert_eq!(s.correct_verdicts, 0);
    assert!(s.is_active);
    assert!(st.vote_record(2, 77).unwrap().is_slashed);
    // forfeited funds stay pooled
    assert_eq!(st.ledger.pool, 1_200);
}

#[test]
fn slash_twice_fails() {
    let mut st = safe_vs_danger(10);
    st.report_rug(ADMIN, 77, 9, 157).unwrap();
    st.slash_sentinel(2, 77).unwrap();
    let r = st.slash_sentinel(2, 77);
    assert_eq!(r, Err(SentryError::AlreadySlashed));
    assert_eq!(st.sentinel_record(2).unwrap().stake, 900);
}

#[test]
fn repeated_slashes_saturate_stake_at_zero() {
    // slash percent 60, stake 100 at both votes: 60 then 40 (saturated)
    let mut st = funded(config(50, 1, 60), &[(2, 100), (3, 500)]);
    st.register_sentinel(2, 100, 0).unwrap();
    st.register_sentinel(3, 500, 0).unwrap();
    st.submit_verdict(2, 77, Verdict::Safe, 50, 5).unwrap();
    st.submit_verdict(2, 88, Verdict::Safe, 50, 5).unwrap();
    st.submit_verdict(3, 77, Verdict::Safe, 50, 6).unwrap();
    st.submit_verdict(3, 88, Verdict::Safe, 50, 6).unwrap();
    st.finalize_consensus(77, 106).unwrap();
    st.finalize_consensus(88, 106).unwrap();
    st.report_rug(ADMIN, 77, 9, 157).unwrap();
    st.report_rug(ADMIN, 88, 9, 157).unwrap();
    st.slash_sentinel(2, 77).unwrap();
    let s = st.sentinel_record(2).unwrap();
    assert_eq!(s.stake, 40);
    assert!(!s.is_active);
    st.slash_sentinel(2, 88).unwrap();
    let s = st.sentinel_record(2).unwrap();
    assert_eq!(s.stake, 0);
    // penalty per slash: 20 * 100 / 50 = 40
    assert_eq!(s.reputation, 20);
    assert!(!s.is_active);
}

#[test]
fn reward_before_finalization_fails() {
    let mut st = funded(config(10, 1, 10), &[(2, 100)]);
    st.register_sentinel(2, 100, 0).unwrap();
    st.submit_verdict(2, 77, Verdict::Safe, 50, 5).unwrap();
    let r = st.reward_sentinel(2, 77);
    assert_eq!(r, Err(SentryError::NotFinalized));
}

#[test]
fn reward_wrong_side_fails() {
    let mut st = safe_vs_danger(10);
    st.report_rug(ADMIN, 77, 9, 157).unwrap();
    // on a rugged subject the SAFE voter was wrong
    let r = st.reward_sentinel(2, 77);
    assert_eq!(r, Err(SentryError::VotedIncorrectly));
    // an agent with no vote did not vote correctly either
    let r = st.reward_sentinel(4, 77);
    assert_eq!(r, Err(SentryError::VotedIncorrectly));
}

#[test]
fn reward_danger_voter_on_unrugged_safe_subject_fails() {
    let mut st = safe_vs_danger(10);
    let r = st.reward_sentinel(3, 77);
    assert_eq!(r, Err(SentryError::VotedIncorrectly));
}

#[test]
fn reward_on_unrugged_subject_grants_reputation_but_no_payout() {
    let mut st = safe_vs_danger(10);
    let ev = st.reward_sentinel(2, 77).unwrap();
    assert_eq!(ev.sentinel, 2);
    // bonus: 5 * 1000 / 10 = 500; 100 + 500 = 600
    assert_eq!(ev.reputation, 600);
    let s = st.sentinel_record(2).unwrap();
    assert_eq!(s.reputation, 600);
    assert_eq!(s.correct_verdicts, 1);
    assert_eq!(s.total_verdicts, 1);
    assert_eq!(s.stake, 1_000);
    assert_eq!(st.ledger.pool, 1_200);
    assert!(st.vote_record(2, 77).unwrap().is_rewarded);
}

#[test]
fn reward_twice_fails() {
    let mut st = safe_vs_danger(10);
    st.reward_sentinel(2, 77).unwrap();
    let r = st.reward_sentinel(2, 77);
    assert_eq!(r, Err(SentryError::AlreadyRewarded));
}

#[test]
fn lone_danger_voter_captures_the_whole_pool() {
    // danger_stake 200, slash pool 100, a lone DANGER voter with stake 200:
    // base share 100, capped at the pool whatever the bonus
    let mut st = safe_vs_danger(10);
    st.report_rug(ADMIN, 77, 9, 157).unwrap();
    let pool_before = st.ledger.pool;
    let ev = st.reward_sentinel(3, 77).unwrap();
    // reputation bonus: 5 * 200 / 10 = 100; 100 + 100 = 200
    assert_eq!(ev.reputation, 200);
    let s = st.sentinel_record(3).unwrap();
    assert_eq!(s.stake, 300);
    assert_eq!(s.correct_verdicts, 1);
    assert_eq!(s.total_verdicts, 1);
    assert_eq!(st.ledger.pool, pool_before - 100);
    assert_eq!(st.ledger.balance(3), 100);
    assert!(st.vote_record(3, 77).unwrap().is_rewarded);
}

#[test]
fn slashed_vote_can_never_be_rewarded() {
    let mut st = safe_vs_danger(10);
    st.report_rug(ADMIN, 77, 9, 157).unwrap();
    st.slash_sentinel(2, 77).unwrap();
    let r = st.reward_sentinel(2, 77);
    assert_eq!(r, Err(SentryError::VotedIncorrectly));
    let v = st.vote_record(2, 77).unwrap();
    assert!(v.is_slashed);
    assert!(!v.is_rewarded);
}

#[test]
fn repeated_rewards_cap_reputation() {
    // min_stake 1 and a large stake push the bonus past the cap at once
    let mut st = funded(config(1, 1, 10), &[(2, 200_000)]);
    st.register_sentinel(2, 200_000, 0).unwrap();
    st.submit_verdict(2, 77, Verdict::Safe, 50, 5).unwrap();
    st.submit_verdict(2, 88, Verdict::Safe, 50, 5).unwrap();
    st.finalize_consensus(77, 106).unwrap();
    st.finalize_consensus(88, 106).unwrap();
    st.reward_sentinel(2, 77).unwrap();
    assert_eq!(st.sentinel_record(2).unwrap().reputation, 65_535);
    st.reward_sentinel(2, 88).unwrap();
    assert_eq!(st.sentinel_record(2).unwrap().reputation, 65_535);
}
