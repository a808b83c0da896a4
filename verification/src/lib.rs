//! Accounting core of a collateral-backed synthetic-asset protocol.
//!
//! Given a snapshot of the backing reserves ("depositories"), the library
//! decides how a mint or redeem request is split across them, honoring
//! declared target weights and hard capacity caps, and it computes how much
//! of a time-locked holding has vested at a given instant. Every function is
//! pure: the caller supplies the state, the library returns the result and
//! the deltas to apply. Storage, token transfers and price feeds live with
//! the caller.

use vstd::prelude::*;

pub mod error;
pub mod operations;
pub mod release;
pub mod state;
pub mod utils;

verus! {

/// Basis-point denominator: depository weights are fractions of 10000.
pub const BPS_POWER: u64 = 10000;

/// The fixed number of depositories the mint router is configured for.
pub const ROUTER_DEPOSITORIES_COUNT: usize = 3;

} // verus!
