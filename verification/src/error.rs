//! The causes for which an operation is refused.

use vstd::prelude::*;

verus! {

/// Why an operation was refused. A refused operation changes nothing.
#[derive(Clone, Copy, Debug, PartialEq, Eq, Structural)]
pub enum Error {
    /// The market was constructed before.
    AlreadyConstructed,
    /// The caller is not the operator.
    NotOperator,
    /// The market is disabled, or was never constructed.
    NotEnabled,
    /// A campaign is registered under this address.
    AlreadyRegistered,
    /// A campaign cannot be registered with a call deadline of zero.
    ZeroCallDeadline,
    /// A campaign cannot be registered under the zero address.
    ZeroTradingAddr,
    /// A campaign cannot be registered with a description of all zero bytes.
    ZeroDesc,
    /// No campaign is registered under this address.
    NotRegistered,
    /// The campaign has not launched yet.
    NotInsideCallingPeriod,
    /// The campaign's call deadline has passed.
    PastCallingDeadline,
    /// The inconclusive outcome cannot be called.
    BadWinner,
    /// The epoch holds a call that was not consumed.
    CampaignAlreadyCalled,
    /// The call was whinged about, so it cannot be closed.
    SomeoneWhinged,
    /// The whinging period is not over.
    NotAfterWhinging,
    /// Nobody has called an outcome.
    CampaignZeroCaller,
    /// The epoch has a winner already; a close cannot set another.
    WinnerAlreadyDeclared,
    /// There is no call, or its whinging period is over.
    NotInWhingingPeriod,
    /// A whinge must prefer another outcome than the one called.
    CantWhingeCalled,
    /// The call was whinged about before.
    AlreadyWhinged,
    /// There is no whinge, or its predicting period is over.
    PredictingNotStarted,
    /// The voter held no stake when the campaign launched.
    ZeroBal,
    /// The voter's stake is below what it was when the campaign launched.
    StakedArbUnusual,
    /// The voter has committed in this epoch before.
    AlreadyCommitted,
    /// A commitment of all zero bytes is not accepted.
    NotAllowedZeroCommit,
    /// There is no whinge, or the time is outside its reveal period. Holds
    /// the time of the whinge and the time of the attempt.
    NotInCommitReveal(u64, u64),
    /// The voter has revealed in this epoch before.
    AlreadyRevealed,
    /// The voter has no commitment, or the disclosure does not reproduce it.
    CommitNotTheSame,
    /// The call was never whinged about.
    WhingedTimeUnset,
    /// The reveal period is not over.
    NotReadyToDeclare,
    /// The epoch has a winner already; a declaration cannot set another.
    CampaignWinnerSet,
    /// No outcome was supplied.
    OutcomesEmpty,
    /// An outcome that was not supplied could outweigh one that was.
    IncorrectSweepInvocation,
    /// The campaign has not reached this epoch.
    InvalidEpoch,
    /// The epoch has no winner yet.
    WinnerUnset,
    /// The reveal period is not over.
    NotInsideSweepingPeriod,
    /// The voter has no stake to seize in this epoch, or voted for the winner.
    BadVictim,
    /// A sum does not fit in 256 bits.
    CheckedAddOverflow,
    /// A product does not fit in 256 bits.
    CheckedMulOverflow,
    /// A division by zero.
    CheckedDivOverflow,
    /// The caller did not reveal the winning outcome.
    NotWinner,
    /// The caller has claimed a share of this epoch's pot before.
    PotAlreadyClaimed,
    /// The deadline has not passed, the campaign has escaped, or a call is
    /// under way.
    CannotEscape,
}

} // verus!
