//! Bonds, incentives and fee rates. Money amounts are in the smallest unit
//! of the currency in which bonds are posted.

use vstd::prelude::*;

verus! {

/// Paid to whoever called an outcome that was closed or declared in epoch 0.
pub const INCENTIVE_AMT_CALL: u64 = 1_000_000;

/// Paid to whoever closes or declares a campaign in epoch 0.
pub const INCENTIVE_AMT_CLOSE: u64 = 1_000_000;

/// Paid to whoever declares the winner of a campaign in epoch 0.
pub const INCENTIVE_AMT_DECLARE: u64 = 5_000_000;

/// Taken at registration: the three incentives together.
pub const INCENTIVE_AMT_TOTAL: u64 = 7_000_000;

/// The bond taken from whoever calls an outcome.
pub const BOND_FOR_CALL: u64 = 2_000_000;

/// The bond taken from whoever whinges about a call.
pub const BOND_FOR_WHINGE: u64 = 7_000_000;

/// The part of a seized stake that goes to the sweeper, in units of
/// `1 / FEE_SCALING`.
pub const FEE_POT_INFRA_PCT: u64 = 100;

/// The denominator of fee rates.
pub const FEE_SCALING: u64 = 1000;

/// The fixed-point factor by which a winner's share of the pot is scaled.
pub const SHARE_SCALING: u64 = 1_000_000_000_000;

} // verus!
