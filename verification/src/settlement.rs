//! The rules of settlement: declaring a winner from the tallies, sweeping the
//! stake of voters who predicted wrongly into the pot, and capturing a
//! winner's share of it.

use crate::action::{ActionView, EventView};
use crate::error::Error;
use crate::fees::{
    BOND_FOR_CALL, BOND_FOR_WHINGE, FEE_POT_INFRA_PCT, FEE_SCALING, INCENTIVE_AMT_CALL,
    INCENTIVE_AMT_CLOSE, INCENTIVE_AMT_DECLARE, SHARE_SCALING,
};
use crate::ident::{Address, Outcome};
use crate::rules::{gate, paid, pays, ruled, transfer_if, Settlement, Step};
use crate::state::{outcome_weight, EpochView, MarketView, TallyView, VoteView};
use crate::timing::{within_spec, FOUR_DAYS};
use crate::uint::limit;
use vstd::prelude::*;

verus! {

/// The weight revealed for the supplied outcomes together.
pub open spec fn supplied_weight(t: Seq<TallyView>, supplied: Seq<Outcome>) -> nat
    decreases t.len(),
{
    if t.len() == 0 {
        0
    } else if supplied.contains(t.last().outcome) {
        supplied_weight(t.drop_last(), supplied) + t.last().weight
    } else {
        supplied_weight(t.drop_last(), supplied)
    }
}

/// The least weight above zero among the supplied outcomes; `2^256 - 1`
/// where none of them has any.
pub open spec fn lowest_weight(t: Seq<TallyView>, supplied: Seq<Outcome>) -> nat
    decreases t.len(),
{
    if t.len() == 0 {
        (limit() - 1) as nat
    } else {
        let rest = lowest_weight(t.drop_last(), supplied);
        if supplied.contains(t.last().outcome) && 0 < t.last().weight < rest {
            t.last().weight
        } else {
            rest
        }
    }
}

/// Whether `x` is ahead of `best`: it has more weight, or as much and the
/// smaller tag.
pub open spec fn beats(x: TallyView, best: Option<TallyView>) -> bool {
    match best {
        None => true,
        Some(b) => x.weight > b.weight || (x.weight == b.weight && x.outcome.tag < b.outcome.tag),
    }
}

/// The supplied outcome with the most weight above zero, the smallest tag
/// among equals; `None` where none of them has any.
pub open spec fn leader(t: Seq<TallyView>, supplied: Seq<Outcome>) -> Option<TallyView>
    decreases t.len(),
{
    if t.len() == 0 {
        None
    } else {
        let rest = leader(t.drop_last(), supplied);
        if supplied.contains(t.last().outcome) && t.last().weight > 0 && beats(t.last(), rest) {
            Some(t.last())
        } else {
            rest
        }
    }
}

/// Whether what was supplied accounts for the vote: no outcome that was left
/// out can have more weight than the least of those supplied.
pub open spec fn exhaustive(e: EpochView, supplied: Seq<Outcome>) -> bool {
    lowest_weight(e.tallies, supplied) >= e.total_revealed_weight - supplied_weight(
        e.tallies,
        supplied,
    )
}

/// The winner that the supplied outcomes give: their leader, or what the
/// whinger preferred where none of them has any weight.
pub open spec fn declared_winner(e: EpochView, supplied: Seq<Outcome>) -> Outcome {
    match leader(e.tallies, supplied) {
        Some(t) => t.outcome,
        None => e.whinger_preferred_winner,
    }
}

/// The epoch after `winner` was declared. An inconclusive result consumes the call.
pub open spec fn epoch_declared(e: EpochView, winner: Outcome) -> EpochView {
    EpochView {
        winner,
        winner_set: true,
        who_called: if winner.is_zero() {
            Address { hi: 0, mid: 0, lo: 0 }
        } else {
            e.who_called
        },
        ..e
    }
}

/// Why a declaration is refused.
pub open spec fn declare_refusal(
    m: MarketView,
    trading_addr: Address,
    outcomes: Seq<Outcome>,
    now: u64,
) -> Option<Error> {
    let e = m.current(trading_addr);
    if gate(m, trading_addr) is Some {
        gate(m, trading_addr)
    } else if e.who_whinged.is_zero() {
        Some(Error::WhingedTimeUnset)
    } else if within_spec(e.when_whinged, now, FOUR_DAYS) {
        Some(Error::NotReadyToDeclare)
    } else if e.winner_set {
        Some(Error::CampaignWinnerSet)
    } else if outcomes.len() == 0 {
        Some(Error::OutcomesEmpty)
    } else if !exhaustive(e, outcomes) {
        Some(Error::IncorrectSweepInvocation)
    } else {
        None
    }
}

/// What is settled at the declaration of `winner`. Both bonds and the
/// incentive for calling go to whoever backed the winner: to the whinger
/// where the winner is what the whinger preferred, to the caller where it is
/// what was called. The incentives for declaring and closing go to
/// `fee_recipient`, and the amount is what was paid of them. The campaign is
/// told of a winner that is not the inconclusive outcome.
pub open spec fn declare_settlement(
    zero_epoch: bool,
    dao_money: nat,
    e: EpochView,
    trading_addr: Address,
    winner: Outcome,
    fee_recipient: Address,
) -> Settlement {
    let pay_call = pays(zero_epoch, dao_money, INCENTIVE_AMT_CALL);
    let left1 = (dao_money - paid(pay_call, INCENTIVE_AMT_CALL)) as nat;
    let bonds = BOND_FOR_WHINGE as nat + BOND_FOR_CALL as nat + paid(pay_call, INCENTIVE_AMT_CALL);
    let pay_declare = pays(zero_epoch, left1, INCENTIVE_AMT_DECLARE);
    let left2 = (left1 - paid(pay_declare, INCENTIVE_AMT_DECLARE)) as nat;
    let pay_close = pays(zero_epoch, left2, INCENTIVE_AMT_CLOSE);
    Settlement {
        dao_money: (left2 - paid(pay_close, INCENTIVE_AMT_CLOSE)) as nat,
        amount: paid(pay_declare, INCENTIVE_AMT_DECLARE) + paid(pay_close, INCENTIVE_AMT_CLOSE),
        actions: transfer_if(winner == e.whinger_preferred_winner, e.who_whinged, bonds)
            + transfer_if(winner == e.what_called, e.who_called, bonds) + transfer_if(
            pay_declare,
            fee_recipient,
            INCENTIVE_AMT_DECLARE as nat,
        ) + transfer_if(pay_close, fee_recipient, INCENTIVE_AMT_CLOSE as nat) + seq![
            ActionView::Log { event: EventView::Declared { trading_addr, winner, fee_recipient } },
        ] + if winner.is_zero() {
            Seq::<ActionView>::empty()
        } else {
            seq![ActionView::Decide { trading_addr, outcome: winner }]
        },
    }
}

/// What the declaration of `winner` does: the winner is recorded, and bonds
/// and incentives are settled.
pub open spec fn declare_step(
    m: MarketView,
    trading_addr: Address,
    winner: Outcome,
    fee_recipient: Address,
) -> Step {
    let c = m.campaigns[trading_addr];
    let settled = declare_settlement(
        c.cur_epoch() == 0,
        m.dao_money,
        c.current(),
        trading_addr,
        winner,
        fee_recipient,
    );
    Step {
        market: MarketView {
            dao_money: settled.dao_money,
            ..m.with_current(trading_addr, epoch_declared(c.current(), winner))
        },
        amount: settled.amount,
        actions: settled.actions,
    }
}

/// Declaring the winner of a call that was whinged about, after the reveal
/// period, from the tallies of the outcomes supplied.
pub open spec fn declare_spec(
    m: MarketView,
    trading_addr: Address,
    outcomes: Seq<Outcome>,
    fee_recipient: Address,
    now: u64,
) -> Result<Step, Error> {
    ruled(
        declare_refusal(m, trading_addr, outcomes, now),
        declare_step(
            m,
            trading_addr,
            declared_winner(m.current(trading_addr), outcomes),
            fee_recipient,
        ),
    )
}

/// One transfer of staked token where the amount is above zero, else none.
pub open spec fn stake_transfer(recipient: Address, amount: nat) -> Seq<ActionView> {
    if amount > 0 {
        seq![ActionView::TransferStake { recipient, amount }]
    } else {
        Seq::empty()
    }
}

/// Why the stake of `victim_addr` cannot be swept.
pub open spec fn sweep_stake_refusal(
    m: MarketView,
    trading_addr: Address,
    epoch_no: u64,
    victim_addr: Address,
    now: u64,
) -> Option<Error> {
    let c = m.campaigns[trading_addr];
    let e = c.epochs[epoch_no as int];
    let v = e.votes[victim_addr];
    if gate(m, trading_addr) is Some {
        gate(m, trading_addr)
    } else if epoch_no >= c.epochs.len() {
        Some(Error::InvalidEpoch)
    } else if e.who_whinged.is_zero() {
        Some(Error::WhingedTimeUnset)
    } else if !e.winner_set {
        Some(Error::WinnerUnset)
    } else if within_spec(e.when_whinged, now, FOUR_DAYS) {
        Some(Error::NotInsideSweepingPeriod)
    } else if !e.votes.contains_key(victim_addr) || v.weight == 0 || v.swept {
        Some(Error::BadVictim)
    } else if v.outcome == e.winner {
        Some(Error::BadVictim)
    } else {
        None
    }
}

/// The stake that a sweep of `victim_addr` seizes: the weight of a vote for
/// another outcome than the winner, which was not swept before.
pub open spec fn sweep_stake_spec(
    m: MarketView,
    trading_addr: Address,
    epoch_no: u64,
    victim_addr: Address,
    now: u64,
) -> Result<nat, Error> {
    match sweep_stake_refusal(m, trading_addr, epoch_no, victim_addr, now) {
        Some(cause) => Err(cause),
        None => Ok(m.campaigns[trading_addr].epochs[epoch_no as int].votes[victim_addr].weight),
    }
}

/// The sweeper's part of a seized stake.
pub open spec fn sweep_fee(seized: nat) -> nat {
    seized * FEE_POT_INFRA_PCT as nat / FEE_SCALING as nat
}

/// Why a sweep is refused, once `seized` was seized of the victim's stake.
pub open spec fn sweep_refusal(
    m: MarketView,
    trading_addr: Address,
    epoch_no: u64,
    victim_addr: Address,
    now: u64,
    seized: nat,
) -> Option<Error> {
    let e = m.campaigns[trading_addr].epochs[epoch_no as int];
    if sweep_stake_refusal(m, trading_addr, epoch_no, victim_addr, now) is Some {
        sweep_stake_refusal(m, trading_addr, epoch_no, victim_addr, now)
    } else if seized * FEE_POT_INFRA_PCT >= limit() {
        Some(Error::CheckedMulOverflow)
    } else if e.pot_existing + (seized - sweep_fee(seized)) >= limit() {
        Some(Error::CheckedAddOverflow)
    } else {
        None
    }
}

/// The epoch after the stake of `victim_addr` was swept and `into_pot` of it
/// went into the pot.
pub open spec fn epoch_swept(e: EpochView, victim_addr: Address, into_pot: nat) -> EpochView {
    EpochView {
        votes: e.votes.insert(victim_addr, VoteView { swept: true, ..e.votes[victim_addr] }),
        pot_existing: e.pot_existing + into_pot,
        pot_outstanding: e.pot_outstanding + into_pot,
        ..e
    }
}

/// What a sweep does: the sweeper's part of what was seized goes to
/// `fee_recipient_addr` and is the amount, the rest goes into the pot, and
/// the vote is marked as swept.
pub open spec fn sweep_step(
    m: MarketView,
    trading_addr: Address,
    epoch_no: u64,
    victim_addr: Address,
    fee_recipient_addr: Address,
    seized: nat,
) -> Step {
    let e = m.campaigns[trading_addr].epochs[epoch_no as int];
    let fee = sweep_fee(seized);
    Step {
        market: m.with_epoch(
            trading_addr,
            epoch_no as int,
            epoch_swept(e, victim_addr, (seized - fee) as nat),
        ),
        amount: fee,
        actions: stake_transfer(fee_recipient_addr, fee),
    }
}

/// Sweeping the stake of a voter who predicted wrongly into the pot, once
/// `seized` was seized of it.
pub open spec fn sweep_spec(
    m: MarketView,
    trading_addr: Address,
    epoch_no: u64,
    victim_addr: Address,
    fee_recipient_addr: Address,
    now: u64,
    seized: nat,
) -> Result<Step, Error> {
    ruled(
        sweep_refusal(m, trading_addr, epoch_no, victim_addr, now, seized),
        sweep_step(m, trading_addr, epoch_no, victim_addr, fee_recipient_addr, seized),
    )
}

/// A winner's share of the pot: the winner's part of the winning weight,
/// taken of all that was ever swept into the pot, rounded down twice.
pub open spec fn pot_share(weight: nat, winning_weight: nat, pot_existing: nat) -> nat {
    pot_existing * (weight * SHARE_SCALING as nat / winning_weight) / SHARE_SCALING as nat
}

/// Why a capture is refused.
pub open spec fn capture_refusal(
    m: MarketView,
    trading_addr: Address,
    epoch_no: u64,
    caller: Address,
) -> Option<Error> {
    let c = m.campaigns[trading_addr];
    let e = c.epochs[epoch_no as int];
    let v = e.votes[caller];
    let winning = outcome_weight(e.tallies, e.winner);
    if gate(m, trading_addr) is Some {
        gate(m, trading_addr)
    } else if epoch_no >= c.epochs.len() {
        Some(Error::InvalidEpoch)
    } else if !e.winner_set {
        Some(Error::WinnerUnset)
    } else if !e.votes.contains_key(caller) || !v.revealed || v.outcome != e.winner {
        Some(Error::NotWinner)
    } else if v.claimed {
        Some(Error::PotAlreadyClaimed)
    } else if v.weight * SHARE_SCALING >= limit() {
        Some(Error::CheckedMulOverflow)
    } else if winning == 0 {
        Some(Error::CheckedDivOverflow)
    } else if e.pot_existing * (v.weight * SHARE_SCALING as nat / winning) >= limit() {
        Some(Error::CheckedMulOverflow)
    } else {
        None
    }
}

/// What a capture pays: the caller's share, or all that is left in the pot
/// where that is less.
pub open spec fn capture_amount(e: EpochView, caller: Address) -> nat {
    let share = pot_share(
        e.votes[caller].weight,
        outcome_weight(e.tallies, e.winner),
        e.pot_existing,
    );
    if share > e.pot_outstanding {
        e.pot_outstanding
    } else {
        share
    }
}

/// The epoch after `caller` captured `amount`.
pub open spec fn epoch_captured(e: EpochView, caller: Address, amount: nat) -> EpochView {
    EpochView {
        votes: e.votes.insert(caller, VoteView { claimed: true, ..e.votes[caller] }),
        pot_outstanding: (e.pot_outstanding - amount) as nat,
        ..e
    }
}

/// What a capture does: the vote is marked as claimed, and what is paid
/// leaves the pot for `fee_recipient`.
pub open spec fn capture_step(
    m: MarketView,
    trading_addr: Address,
    epoch_no: u64,
    fee_recipient: Address,
    caller: Address,
) -> Step {
    let e = m.campaigns[trading_addr].epochs[epoch_no as int];
    let amount = capture_amount(e, caller);
    Step {
        market: m.with_epoch(trading_addr, epoch_no as int, epoch_captured(e, caller, amount)),
        amount,
        actions: stake_transfer(fee_recipient, amount),
    }
}

/// Capturing the caller's share of the pot of an epoch whose winner the
/// caller revealed.
pub open spec fn capture_spec(
    m: MarketView,
    trading_addr: Address,
    epoch_no: u64,
    fee_recipient: Address,
    caller: Address,
) -> Result<Step, Error> {
    ruled(
        capture_refusal(m, trading_addr, epoch_no, caller),
        capture_step(m, trading_addr, epoch_no, fee_recipient, caller),
    )
}

} // verus!
