//! A stake-weighted reputation and slashing protocol.
//!
//! Registered sentinel agents stake collateral and cast SAFE/DANGER verdicts
//! on token subjects. Verdicts are aggregated into a stake-weighted consensus;
//! agents who voted against a later-proven rug pull are slashed, and their
//! forfeited collateral is redistributed to correct voters through a
//! proportional, odds-weighted payout.

pub mod laws;
pub mod ledger;
pub mod math;
pub mod state;
pub mod tally;
pub mod types;

use vstd::prelude::*;

verus! {

} // verus!
