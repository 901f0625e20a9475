//! Registration, verdict submission and consensus finalization.

use sentry::state::SentryState;
use sentry::types::ProtocolConfig;
use sentry::types::SentryError;
use sentry::types::Verdict;

const ADMIN: u64 = 1;

fn config(min_stake: u64, quorum: u16, slash_percent: u8) -> ProtocolConfig {
    ProtocolConfig {
        min_stake,
        verdict_window: 100,
        grace_period: 50,
        quorum,
        slash_percent,
    }
}

fn funded(cfg: ProtocolConfig, agents: &[(u64, u64)]) -> SentryState {
    let mut st = SentryState::initialize(ADMIN, cfg);
    for &(agent, balance) in agents {
        st.ledger.credit(agent, balance).unwrap();
    }
    st
}

#[test]
fn register_below_min_stake_fails_and_creates_nothing() {
    let mut st = funded(config(10, 1, 10), &[(2, 1_000)]);
    let r = st.register_sentinel(2, 9, 0);
    assert_eq!(r, Err(SentryError::InsufficientStake));
    assert!(st.sentinel_record(2).is_none());
    assert_eq!(st.protocol.total_agents, 0);
    assert_eq!(st.ledger.balance(2), 1_000);
    assert_eq!(st.ledger.pool, 0);
}

#[test]
fn register_creates_sentinel_and_moves_stake_into_custody() {
    let mut st = funded(config(10, 1, 10), &[(2, 1_000)]);
    let ev = st.register_sentinel(2, 600, 7).unwrap();
    assert_eq!(ev.sentinel, 2);
    assert_eq!(ev.stake, 600);
    let s = st.sentinel_record(2).unwrap();
    assert_eq!(s.authority, 2);
    assert_eq!(s.stake, 600);
    assert_eq!(s.reputation, 100);
    assert_eq!(s.correct_verdicts, 0);
    assert_eq!(s.total_verdicts, 0);
    assert!(s.is_active);
    assert_eq!(s.registered_at, 7);
    assert_eq!(st.protocol.total_agents, 1);
    assert_eq!(st.ledger.balance(2), 400);
    assert_eq!(st.ledger.pool, 600);
}

#[test]
fn register_twice_fails() {
    let mut st = funded(config(10, 1, 10), &[(2, 1_000)]);
    st.register_sentinel(2, 100, 0).unwrap();
    let r = st.register_sentinel(2, 100, 1);
    assert_eq!(r, Err(SentryError::AlreadyRegistered));
    assert_eq!(st.protocol.total_agents, 1);
}

#[test]
fn register_without_funds_fails() {
    let mut st = funded(config(10, 1, 10), &[(2, 50)]);
    let r = st.register_sentinel(2, 100, 0);
    assert_eq!(r, Err(SentryError::InsufficientFunds));
    assert!(st.sentinel_record(2).is_none());
}

#[test]
fn submit_by_unregistered_agent_fails() {
    let mut st = funded(config(10, 1, 10), &[]);
    let r = st.submit_verdict(2, 77, Verdict::Safe, 50, 0);
    assert_eq!(r, Err(SentryError::SentinelInactive));
}

#[test]
fn submit_with_invalid_confidence_fails() {
    let mut st = funded(config(10, 1, 10), &[(2, 100)]);
    st.register_sentinel(2, 100, 0).unwrap();
    let r = st.submit_verdict(2, 77, Verdict::Safe, 101, 0);
    assert_eq!(r, Err(SentryError::InvalidConfidence));
    assert!(st.vote_record(2, 77).is_none());
}

#[test]
fn first_vote_opens_the_window_and_records_the_stake_snapshot() {
    let mut st = funded(config(10, 1, 10), &[(2, 100)]);
    st.register_sentinel(2, 100, 0).unwrap();
    let ev = st.submit_verdict(2, 77, Verdict::Danger, 65, 5).unwrap();
    assert_eq!(ev.sentinel, 2);
    assert_eq!(ev.token_mint, 77);
    assert_eq!(ev.verdict, Verdict::Danger);
    assert_eq!(ev.confidence, 65);
    assert_eq!(ev.stake, 100);
    let a = st.analysis_record(77).unwrap();
    assert_eq!(a.created_at, 5);
    assert_eq!(a.total_votes, 1);
    assert_eq!(a.safe_votes, 0);
    assert_eq!(a.danger_votes, 1);
    assert_eq!(a.safe_stake, 0);
    assert_eq!(a.danger_stake, 100);
    assert!(!a.is_finalized);
    let v = st.vote_record(2, 77).unwrap();
    assert_eq!(v.verdict, Verdict::Danger);
    assert_eq!(v.stake_at_vote, 100);
    assert_eq!(v.submitted_at, 5);
    assert!(!v.is_slashed);
    assert!(!v.is_rewarded);
}

#[test]
fn vote_after_window_close_fails() {
    let mut st = funded(config(10, 1, 10), &[(2, 100), (3, 100)]);
    st.register_sentinel(2, 100, 0).unwrap();
    st.register_sentinel(3, 100, 0).unwrap();
    st.submit_verdict(2, 77, Verdict::Safe, 50, 5).unwrap();
    // exactly at the boundary the window is still open
    let r = st.submit_verdict(3, 77, Verdict::Safe, 50, 105);
    assert!(r.is_ok());
    let r = st.submit_verdict(3, 88, Verdict::Safe, 50, 0).unwrap();
    assert_eq!(r.token_mint, 88);
    let mut st2 = funded(config(10, 1, 10), &[(2, 100), (3, 100)]);
    st2.register_sentinel(2, 100, 0).unwrap();
    st2.register_sentinel(3, 100, 0).unwrap();
    st2.submit_verdict(2, 77, Verdict::Safe, 50, 5).unwrap();
    let r = st2.submit_verdict(3, 77, Verdict::Safe, 50, 106);
    assert_eq!(r, Err(SentryError::VotingClosed));
}

#[test]
fn a_late_first_vote_starts_a_fresh_window() {
    let mut st = funded(config(10, 1, 10), &[(2, 100)]);
    st.register_sentinel(2, 100, 0).unwrap();
    let ev = st.submit_verdict(2, 77, Verdict::Safe, 50, 1_000_000).unwrap();
    assert_eq!(ev.token_mint, 77);
    assert_eq!(st.analysis_record(77).unwrap().created_at, 1_000_000);
}

#[test]
fn double_vote_on_same_subject_fails() {
    let mut st = funded(config(10, 1, 10), &[(2, 100)]);
    st.register_sentinel(2, 100, 0).unwrap();
    st.submit_verdict(2, 77, Verdict::Safe, 50, 5).unwrap();
    let r = st.submit_verdict(2, 77, Verdict::Danger, 50, 6);
    assert_eq!(r, Err(SentryError::AlreadyVoted));
    let a = st.analysis_record(77).unwrap();
    assert_eq!(a.total_votes, 1);
}

#[test]
fn tallies_split_the_total_and_sum_the_stakes() {
    let mut st = funded(config(10, 1, 10), &[(2, 100), (3, 200), (4, 300)]);
    st.register_sentinel(2, 100, 0).unwrap();
    st.register_sentinel(3, 200, 0).unwrap();
    st.register_sentinel(4, 300, 0).unwrap();
    st.submit_verdict(2, 77, Verdict::Safe, 50, 5).unwrap();
    st.submit_verdict(3, 77, Verdict::Danger, 50, 6).unwrap();
    st.submit_verdict(4, 77, Verdict::Safe, 50, 7).unwrap();
    let a = st.analysis_record(77).unwrap();
    assert_eq!(a.safe_votes + a.danger_votes, a.total_votes);
    assert_eq!(a.total_votes, 3);
    assert_eq!(a.safe_stake, 400);
    assert_eq!(a.danger_stake, 200);
    let stakes: u64 = st
        .votes
        .iter()
        .filter(|v| v.token_mint == 77)
        .map(|v| v.stake_at_vote)
        .sum();
    assert_eq!(a.safe_stake + a.danger_stake, stakes);
}

#[test]
fn finalize_before_window_close_fails() {
    let mut st = funded(config(10, 1, 10), &[(2, 100)]);
    st.register_sentinel(2, 100, 0).unwrap();
    st.submit_verdict(2, 77, Verdict::Safe, 50, 5).unwrap();
    let r = st.finalize_consensus(77, 105);
    assert_eq!(r, Err(SentryError::VotingStillOpen));
    let r = st.finalize_consensus(99, 10_000);
    assert_eq!(r, Err(SentryError::VotingStillOpen));
}

#[test]
fn finalize_without_quorum_fails() {
    let mut st = funded(config(10, 2, 10), &[(2, 100)]);
    st.register_sentinel(2, 100, 0).unwrap();
    st.submit_verdict(2, 77, Verdict::Safe, 50, 5).unwrap();
    let r = st.finalize_consensus(77, 106);
    assert_eq!(r, Err(SentryError::QuorumNotReached));
}

#[test]
fn finalize_at_sixty_percent_is_safe() {
    let mut st = funded(config(10, 2, 10), &[(2, 60), (3, 40)]);
    st.register_sentinel(2, 60, 0).unwrap();
    st.register_sentinel(3, 40, 0).unwrap();
    st.submit_verdict(2, 77, Verdict::Safe, 50, 5).unwrap();
    st.submit_verdict(3, 77, Verdict::Danger, 50, 6).unwrap();
    let ev = st.finalize_consensus(77, 106).unwrap();
    assert_eq!(ev.verdict, Verdict::Safe);
    assert_eq!(ev.confidence, 60);
    assert_eq!(ev.total_stake, 100);
    assert_eq!(ev.total_votes, 2);
    let a = st.analysis_record(77).unwrap();
    assert!(a.is_finalized);
    assert_eq!(a.final_verdict, Verdict::Safe);
    assert_eq!(a.consensus_confidence, 60);
    assert_eq!(a.finalized_at, 106);
}

#[test]
fn finalize_at_fifty_nine_percent_is_danger() {
    let mut st = funded(config(10, 2, 10), &[(2, 59), (3, 41)]);
    st.register_sentinel(2, 59, 0).unwrap();
    st.register_sentinel(3, 41, 0).unwrap();
    st.submit_verdict(2, 77, Verdict::Safe, 50, 5).unwrap();
    st.submit_verdict(3, 77, Verdict::Danger, 50, 6).unwrap();
    let ev = st.finalize_consensus(77, 106).unwrap();
    assert_eq!(ev.verdict, Verdict::Danger);
    assert_eq!(ev.confidence, 59);
    let a = st.analysis_record(77).unwrap();
    assert_eq!(a.final_verdict, Verdict::Danger);
    assert_eq!(a.consensus_confidence, 59);
}

#[test]
fn finalize_twice_fails() {
    let mut st = funded(config(10, 1, 10), &[(2, 100)]);
    st.register_sentinel(2, 100, 0).unwrap();
    st.submit_verdict(2, 77, Verdict::Safe, 50, 5).unwrap();
    st.finalize_consensus(77, 106).unwrap();
    let r = st.finalize_consensus(77, 200);
    assert_eq!(r, Err(SentryError::AlreadyFinalized));
}

#[test]
fn inactive_sentinel_cannot_vote() {
    // slash percent 100 with a full-stake vote empties the sentinel, deactivating it
    let mut st = funded(config(10, 1, 100), &[(2, 300), (3, 100)]);
    st.register_sentinel(2, 300, 0).unwrap();
    st.register_sentinel(3, 100, 0).unwrap();
    st.submit_verdict(2, 77, Verdict::Safe, 50, 5).unwrap();
    st.submit_verdict(3, 77, Verdict::Danger, 40, 6).unwrap();
    st.finalize_consensus(77, 106).unwrap();
    st.report_rug(ADMIN, 77, 1234, 157).unwrap();
    st.slash_sentinel(2, 77).unwrap();
    let s = st.sentinel_record(2).unwrap();
    assert_eq!(s.stake, 0);
    assert!(!s.is_active);
    let r = st.submit_verdict(2, 88, Verdict::Safe, 50, 200);
    assert_eq!(r, Err(SentryError::SentinelInactive));
}
