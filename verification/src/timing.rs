//! The periods of an epoch, and the classifier that names the current one.
//!
//! Every period is measured from an anchor, the time of the call or of the
//! whinge. A period of length `w` holds the times whose distance from the
//! anchor is below `w`; the period after it starts at distance `w` exactly.
//! A time before the anchor is at distance zero.

use vstd::prelude::*;

verus! {

/// Length in seconds of the whinging period, and of the predicting period.
pub const TWO_DAYS: u64 = 172800;

/// Seconds from a whinge to the end of its reveal period.
pub const FOUR_DAYS: u64 = 345600;

/// Seconds for which a voter's stake is frozen after a commitment.
pub const A_WEEK_SECS: u64 = 604800;

/// The period that an epoch is in.
#[derive(Clone, Copy, Debug, PartialEq, Eq, Structural)]
pub enum InfraMarketState {
    /// Nothing was called yet: an outcome can be called.
    Callable,
    /// The whinging period went by without a whinge: the call can be closed.
    Closable,
    /// An outcome was called and can be whinged about.
    Whinging,
    /// The call was whinged about: voters commit their predictions.
    Predicting,
    /// Voters reveal their predictions.
    Revealing,
    /// The reveal period is over: the winner can be declared.
    Declarable,
    /// The epoch has a winner: wrong predictions can be swept.
    Sweeping,
    /// No epoch is ever classified so; the name is kept for its code.
    Closed,
}

impl InfraMarketState {
    /// The number by which the period is reported.
    pub open spec fn code_spec(self) -> u8 {
        match self {
            InfraMarketState::Callable => 0,
            InfraMarketState::Closable => 1,
            InfraMarketState::Whinging => 2,
            InfraMarketState::Predicting => 3,
            InfraMarketState::Revealing => 4,
            InfraMarketState::Declarable => 5,
            InfraMarketState::Sweeping => 6,
            InfraMarketState::Closed => 7,
        }
    }

    /// The number by which the period is reported.
    #[verifier::when_used_as_spec(code_spec)]
    pub fn code(self) -> (r: u8)
        ensures
            r == self.code_spec(),
    {
        match self {
            InfraMarketState::Callable => 0,
            InfraMarketState::Closable => 1,
            InfraMarketState::Whinging => 2,
            InfraMarketState::Predicting => 3,
            InfraMarketState::Revealing => 4,
            InfraMarketState::Declarable => 5,
            InfraMarketState::Sweeping => 6,
            InfraMarketState::Closed => 7,
        }
    }
}

/// The seconds from `anchor` to `now`, zero where `now` is earlier.
pub open spec fn elapsed_spec(anchor: u64, now: u64) -> u64 {
    if now >= anchor {
        (now - anchor) as u64
    } else {
        0
    }
}

/// The seconds from `anchor` to `now`, zero where `now` is earlier.
#[verifier::when_used_as_spec(elapsed_spec)]
pub fn elapsed(anchor: u64, now: u64) -> (r: u64)
    ensures
        r == elapsed_spec(anchor, now),
{
    if now >= anchor {
        now - anchor
    } else {
        0
    }
}

/// Whether `now` is within `window` seconds of `anchor`, the end excluded.
pub open spec fn within_spec(anchor: u64, now: u64, window: u64) -> bool {
    elapsed_spec(anchor, now) < window
}

/// Whether `now` is within `window` seconds of `anchor`, the end excluded.
#[verifier::when_used_as_spec(within_spec)]
pub fn within(anchor: u64, now: u64, window: u64) -> (r: bool)
    ensures
        r == within_spec(anchor, now, window),
{
    elapsed(anchor, now) < window
}

/// Whether `now` is in the reveal period of a whinge made at `whinged_at`.
pub open spec fn in_reveal_period_spec(whinged_at: u64, now: u64) -> bool {
    !within_spec(whinged_at, now, TWO_DAYS) && within_spec(whinged_at, now, FOUR_DAYS)
}

/// Whether `now` is in the reveal period of a whinge made at `whinged_at`.
#[verifier::when_used_as_spec(in_reveal_period_spec)]
pub fn in_reveal_period(whinged_at: u64, now: u64) -> (r: bool)
    ensures
        r == in_reveal_period_spec(whinged_at, now),
{
    !within(whinged_at, now, TWO_DAYS) && within(whinged_at, now, FOUR_DAYS)
}

/// The period of an epoch and the seconds that are left of it.
///
/// `called_at` and `whinged_at` are `None` where there is no call or no
/// whinge. A period that no deadline ends has zero seconds left.
pub open spec fn classify_spec(
    called_at: Option<u64>,
    whinged_at: Option<u64>,
    winner_set: bool,
    now: u64,
    call_deadline: u64,
) -> (InfraMarketState, u64) {
    if winner_set {
        (InfraMarketState::Sweeping, 0)
    } else {
        match (called_at, whinged_at) {
            (None, _) => (InfraMarketState::Callable, elapsed_spec(now, call_deadline)),
            (Some(called), None) => if within_spec(called, now, TWO_DAYS) {
                (InfraMarketState::Whinging, (TWO_DAYS - elapsed_spec(called, now)) as u64)
            } else {
                (InfraMarketState::Closable, 0)
            },
            (Some(_), Some(whinged)) => if within_spec(whinged, now, TWO_DAYS) {
                (InfraMarketState::Predicting, (TWO_DAYS - elapsed_spec(whinged, now)) as u64)
            } else if within_spec(whinged, now, FOUR_DAYS) {
                (InfraMarketState::Revealing, (FOUR_DAYS - elapsed_spec(whinged, now)) as u64)
            } else {
                (InfraMarketState::Declarable, 0)
            },
        }
    }
}

/// Names the period of an epoch and counts the seconds that are left of it.
/// No epoch is classified as `Closed`.
#[verifier::when_used_as_spec(classify_spec)]
pub fn classify(
    called_at: Option<u64>,
    whinged_at: Option<u64>,
    winner_set: bool,
    now: u64,
    call_deadline: u64,
) -> (r: (InfraMarketState, u64))
    ensures
        r == classify_spec(called_at, whinged_at, winner_set, now, call_deadline),
        r.0 != InfraMarketState::Closed,
{
    if winner_set {
        return (InfraMarketState::Sweeping, 0);
    }
    match (called_at, whinged_at) {
        (None, _) => (InfraMarketState::Callable, elapsed(now, call_deadline)),
        (Some(called), None) => {
            if within(called, now, TWO_DAYS) {
                (InfraMarketState::Whinging, TWO_DAYS - elapsed(called, now))
            } else {
                (InfraMarketState::Closable, 0)
            }
        },
        (Some(_), Some(whinged)) => {
            if within(whinged, now, TWO_DAYS) {
                (InfraMarketState::Predicting, TWO_DAYS - elapsed(whinged, now))
            } else if within(whinged, now, FOUR_DAYS) {
                (InfraMarketState::Revealing, FOUR_DAYS - elapsed(whinged, now))
            } else {
                (InfraMarketState::Declarable, 0)
            }
        },
    }
}

} // verus!
