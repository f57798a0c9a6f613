//! The rules of the market: for each operation, when it is refused and for
//! which cause, and otherwise the market after it, the amount that it
//! reports and the actions that it leaves to its caller.
//!
//! The checks of an operation are made in the order in which they are
//! written; the first that fails names the cause.

use crate::action::{ActionView, EventView, Receipt, ReceiptView};
use crate::commitment::commit_spec;
use crate::error::Error;
use crate::fees::{
    BOND_FOR_CALL, BOND_FOR_WHINGE, INCENTIVE_AMT_CALL, INCENTIVE_AMT_CLOSE, INCENTIVE_AMT_TOTAL,
};
use crate::ident::{Address, Bytes32, Outcome};
use crate::state::{credit, outcome_weight, CampaignView, EpochView, MarketView, VoteView};
use crate::timing::{
    classify_spec, in_reveal_period_spec, within_spec, A_WEEK_SECS, TWO_DAYS,
};
use crate::uint::{limit, U256};
use vstd::prelude::*;

verus! {

/// An accepted operation: the market after it, the amount that it reports,
/// and the actions that it leaves to its caller.
pub struct Step {
    pub market: MarketView,
    pub amount: nat,
    pub actions: Seq<ActionView>,
}

/// Whether an operation went by its rule: `rule` is what the rule gives for
/// the market `pre` in which the operation began, `post` is the market in
/// which it ended, and `r` is what it returned. A refused operation returns
/// the cause and leaves the market as it was; an accepted one returns the
/// amount and the actions of the rule and leaves the market of the rule.
pub open spec fn follows(
    rule: Result<Step, Error>,
    pre: MarketView,
    post: MarketView,
    r: Result<Receipt, Error>,
) -> bool {
    match rule {
        Ok(step) => r is Ok && r->Ok_0@ == (ReceiptView {
            amount: step.amount,
            actions: step.actions,
        }) && post == step.market,
        Err(cause) => r == Err::<Receipt, Error>(cause) && post == pre,
    }
}

/// What a rule gives: the cause where the operation is refused, else the step.
pub open spec fn ruled(refusal: Option<Error>, step: Step) -> Result<Step, Error> {
    match refusal {
        Some(cause) => Err(cause),
        None => Ok(step),
    }
}

/// `recipient`, or `caller` where `recipient` is the zero address.
pub open spec fn recipient_or(recipient: Address, caller: Address) -> Address {
    if recipient.is_zero() {
        caller
    } else {
        recipient
    }
}

/// The cause, if any, for which every operation on a campaign is refused.
pub open spec fn gate(m: MarketView, trading_addr: Address) -> Option<Error> {
    if !m.enabled {
        Some(Error::NotEnabled)
    } else if !m.registered(trading_addr) {
        Some(Error::NotRegistered)
    } else {
        None
    }
}

/// Why construction is refused: it is accepted once.
pub open spec fn ctor_refusal(m: MarketView) -> Option<Error> {
    if m.created {
        Some(Error::AlreadyConstructed)
    } else {
        None
    }
}

/// What construction does: it records the operator and the collaborators,
/// and enables the market.
pub open spec fn ctor_step(
    m: MarketView,
    operator: Address,
    emergency_council: Address,
    lockup_addr: Address,
    locked_arb_token_addr: Address,
    factory_addr: Address,
) -> Step {
    Step {
        market: MarketView {
            created: true,
            enabled: true,
            operator,
            emergency_council,
            lockup_addr,
            locked_arb_token_addr,
            factory_addr,
            ..m
        },
        amount: 0,
        actions: seq![ActionView::Log { event: EventView::InfraMarketEnabled { status: true } }],
    }
}

/// Construction.
pub open spec fn ctor_spec(
    m: MarketView,
    operator: Address,
    emergency_council: Address,
    lockup_addr: Address,
    locked_arb_token_addr: Address,
    factory_addr: Address,
) -> Result<Step, Error> {
    ruled(
        ctor_refusal(m),
        ctor_step(m, operator, emergency_council, lockup_addr, locked_arb_token_addr, factory_addr),
    )
}

/// Why enabling or disabling is refused: only the operator may.
pub open spec fn enable_contract_refusal(m: MarketView, caller: Address) -> Option<Error> {
    if caller != m.operator {
        Some(Error::NotOperator)
    } else {
        None
    }
}

/// What enabling or disabling does.
pub open spec fn enable_contract_step(m: MarketView, status: bool) -> Step {
    Step {
        market: MarketView { enabled: status, ..m },
        amount: 0,
        actions: seq![ActionView::Log { event: EventView::InfraMarketEnabled { status } }],
    }
}

/// Enabling or disabling the market.
pub open spec fn enable_contract_spec(m: MarketView, status: bool, caller: Address) -> Result<
    Step,
    Error,
> {
    ruled(enable_contract_refusal(m, caller), enable_contract_step(m, status))
}

/// Why a registration is refused.
pub open spec fn register_refusal(
    m: MarketView,
    trading_addr: Address,
    desc: Bytes32,
    call_deadline_ts: u64,
) -> Option<Error> {
    if !m.enabled {
        Some(Error::NotEnabled)
    } else if m.registered(trading_addr) {
        Some(Error::AlreadyRegistered)
    } else if call_deadline_ts == 0 {
        Some(Error::ZeroCallDeadline)
    } else if trading_addr.is_zero() {
        Some(Error::ZeroTradingAddr)
    } else if desc.is_zero() {
        Some(Error::ZeroDesc)
    } else if m.dao_money + INCENTIVE_AMT_TOTAL >= limit() {
        Some(Error::CheckedAddOverflow)
    } else {
        None
    }
}

/// What a registration does: the campaign begins in epoch 0, and the three
/// incentives are taken from the sender and added to the treasury.
pub open spec fn register_step(
    m: MarketView,
    trading_addr: Address,
    desc: Bytes32,
    launch_ts: u64,
    call_deadline_ts: u64,
    caller: Address,
) -> Step {
    Step {
        market: MarketView {
            dao_money: m.dao_money + INCENTIVE_AMT_TOTAL as nat,
            campaigns: m.campaigns.insert(
                trading_addr,
                CampaignView::registered(launch_ts, call_deadline_ts, desc),
            ),
            ..m
        },
        amount: INCENTIVE_AMT_TOTAL as nat,
        actions: seq![
            ActionView::TakeFromSender { amount: INCENTIVE_AMT_TOTAL as nat },
            ActionView::Log {
                event: EventView::MarketCreated {
                    incentive_sender: caller,
                    trading_addr,
                    desc,
                    launch_ts,
                    call_deadline: call_deadline_ts,
                },
            },
        ],
    }
}

/// Registration of a campaign.
pub open spec fn register_spec(
    m: MarketView,
    trading_addr: Address,
    desc: Bytes32,
    launch_ts: u64,
    call_deadline_ts: u64,
    caller: Address,
) -> Result<Step, Error> {
    ruled(
        register_refusal(m, trading_addr, desc, call_deadline_ts),
        register_step(m, trading_addr, desc, launch_ts, call_deadline_ts, caller),
    )
}

/// The epoch with a call recorded.
pub open spec fn epoch_called(e: EpochView, who: Address, now: u64, winner: Outcome) -> EpochView {
    EpochView { who_called: who, when_called: now, what_called: winner, ..e }
}

/// Why a call is refused.
pub open spec fn call_refusal(
    m: MarketView,
    trading_addr: Address,
    winner: Outcome,
    now: u64,
) -> Option<Error> {
    let c = m.campaigns[trading_addr];
    let e = c.current();
    if gate(m, trading_addr) is Some {
        gate(m, trading_addr)
    } else if now < c.call_begins {
        Some(Error::NotInsideCallingPeriod)
    } else if now > c.call_deadline {
        Some(Error::PastCallingDeadline)
    } else if winner.is_zero() {
        Some(Error::BadWinner)
    } else if !e.inconclusive() && !e.who_called.is_zero() {
        Some(Error::CampaignAlreadyCalled)
    } else {
        None
    }
}

/// The epochs of a campaign after a call: where the current epoch resolved
/// to the inconclusive outcome, the call opens the next; else it is
/// recorded in the current one.
pub open spec fn epochs_called(c: CampaignView, who: Address, now: u64, winner: Outcome) -> Seq<
    EpochView,
> {
    if c.current().inconclusive() {
        c.epochs.push(epoch_called(EpochView::fresh(), who, now, winner))
    } else {
        c.epochs.update(c.cur_epoch(), epoch_called(c.current(), who, now, winner))
    }
}

/// What a call does: it is recorded, and the bond is taken from the sender.
pub open spec fn call_step(
    m: MarketView,
    trading_addr: Address,
    winner: Outcome,
    incentive_recipient: Address,
    caller: Address,
    now: u64,
) -> Step {
    let c = m.campaigns[trading_addr];
    let who = recipient_or(incentive_recipient, caller);
    Step {
        market: MarketView {
            campaigns: m.campaigns.insert(
                trading_addr,
                CampaignView { epochs: epochs_called(c, who, now, winner), ..c },
            ),
            ..m
        },
        amount: BOND_FOR_CALL as nat,
        actions: seq![
            ActionView::TakeFromSender { amount: BOND_FOR_CALL as nat },
            ActionView::Log {
                event: EventView::CallMade { trading_addr, winner, incentive_recipient: who },
            },
        ],
    }
}

/// Calling an outcome.
pub open spec fn call_spec(
    m: MarketView,
    trading_addr: Address,
    winner: Outcome,
    incentive_recipient: Address,
    caller: Address,
    now: u64,
) -> Result<Step, Error> {
    ruled(
        call_refusal(m, trading_addr, winner, now),
        call_step(m, trading_addr, winner, incentive_recipient, caller, now),
    )
}

/// What is settled when an epoch is resolved: what is left in the treasury,
/// the amount that is reported, and the payments to make.
pub struct Settlement {
    pub dao_money: nat,
    pub amount: nat,
    pub actions: Seq<ActionView>,
}

/// Whether an incentive of `amount` is paid: only in epoch 0, and only while
/// the treasury holds it.
pub open spec fn pays(zero_epoch: bool, dao_money: nat, amount: u64) -> bool {
    zero_epoch && dao_money >= amount
}

/// `amount` where `paid`, else nothing.
pub open spec fn paid(paid: bool, amount: u64) -> nat {
    if paid {
        amount as nat
    } else {
        0
    }
}

/// One transfer where `paid`, else none.
pub open spec fn transfer_if(paid: bool, recipient: Address, amount: nat) -> Seq<ActionView> {
    if paid {
        seq![ActionView::Transfer { recipient, amount }]
    } else {
        Seq::empty()
    }
}

/// Why a close is refused.
pub open spec fn close_refusal(m: MarketView, trading_addr: Address, now: u64) -> Option<Error> {
    let e = m.current(trading_addr);
    if gate(m, trading_addr) is Some {
        gate(m, trading_addr)
    } else if !e.who_whinged.is_zero() {
        Some(Error::SomeoneWhinged)
    } else if within_spec(e.when_called, now, TWO_DAYS) {
        Some(Error::NotAfterWhinging)
    } else if e.who_called.is_zero() {
        Some(Error::CampaignZeroCaller)
    } else if e.winner_set {
        Some(Error::WinnerAlreadyDeclared)
    } else {
        None
    }
}

/// What is settled at a close: the incentive for closing goes to
/// `recipient`, the caller's bond goes back, and the incentive for calling
/// goes to the caller. The amount is what was paid in incentives.
pub open spec fn close_settlement(
    zero_epoch: bool,
    dao_money: nat,
    e: EpochView,
    trading_addr: Address,
    recipient: Address,
) -> Settlement {
    let pay_close = pays(zero_epoch, dao_money, INCENTIVE_AMT_CLOSE);
    let left = (dao_money - paid(pay_close, INCENTIVE_AMT_CLOSE)) as nat;
    let pay_call = pays(zero_epoch, left, INCENTIVE_AMT_CALL);
    Settlement {
        dao_money: (left - paid(pay_call, INCENTIVE_AMT_CALL)) as nat,
        amount: paid(pay_close, INCENTIVE_AMT_CLOSE) + paid(pay_call, INCENTIVE_AMT_CALL),
        actions: transfer_if(pay_close, recipient, INCENTIVE_AMT_CLOSE as nat) + seq![
            ActionView::Transfer { recipient: e.who_called, amount: BOND_FOR_CALL as nat },
        ] + transfer_if(pay_call, e.who_called, INCENTIVE_AMT_CALL as nat) + seq![
            ActionView::Log {
                event: EventView::InfraMarketClosed {
                    incentive_recipient: recipient,
                    trading_addr,
                    winner: e.what_called,
                },
            },
            ActionView::Decide { trading_addr, outcome: e.what_called },
        ],
    }
}

/// The epoch after it was closed: the called outcome has won.
pub open spec fn epoch_closed(e: EpochView) -> EpochView {
    EpochView { winner: e.what_called, winner_set: true, ..e }
}

/// What a close does: the called outcome wins, and bond and incentives are
/// settled.
pub open spec fn close_step(
    m: MarketView,
    trading_addr: Address,
    fee_recipient: Address,
    caller: Address,
) -> Step {
    let c = m.campaigns[trading_addr];
    let settled = close_settlement(
        c.cur_epoch() == 0,
        m.dao_money,
        c.current(),
        trading_addr,
        recipient_or(fee_recipient, caller),
    );
    Step {
        market: MarketView {
            dao_money: settled.dao_money,
            ..m.with_current(trading_addr, epoch_closed(c.current()))
        },
        amount: settled.amount,
        actions: settled.actions,
    }
}

/// Closing a call that nobody whinged about, after its whinging period.
pub open spec fn close_spec(
    m: MarketView,
    trading_addr: Address,
    fee_recipient: Address,
    caller: Address,
    now: u64,
) -> Result<Step, Error> {
    ruled(
        close_refusal(m, trading_addr, now),
        close_step(m, trading_addr, fee_recipient, caller),
    )
}

/// Why a whinge is refused.
pub open spec fn whinge_refusal(
    m: MarketView,
    trading_addr: Address,
    preferred_outcome: Outcome,
    now: u64,
) -> Option<Error> {
    let e = m.current(trading_addr);
    if gate(m, trading_addr) is Some {
        gate(m, trading_addr)
    } else if e.who_called.is_zero() || !within_spec(e.when_called, now, TWO_DAYS) {
        Some(Error::NotInWhingingPeriod)
    } else if e.what_called == preferred_outcome {
        Some(Error::CantWhingeCalled)
    } else if !e.who_whinged.is_zero() {
        Some(Error::AlreadyWhinged)
    } else {
        None
    }
}

/// The epoch with a whinge recorded.
pub open spec fn epoch_whinged(
    e: EpochView,
    who: Address,
    now: u64,
    preferred_outcome: Outcome,
) -> EpochView {
    EpochView {
        who_whinged: who,
        when_whinged: now,
        whinger_preferred_winner: preferred_outcome,
        ..e
    }
}

/// What a whinge does: it is recorded, and the bond is taken from the sender.
pub open spec fn whinge_step(
    m: MarketView,
    trading_addr: Address,
    preferred_outcome: Outcome,
    bond_recipient: Address,
    caller: Address,
    now: u64,
) -> Step {
    let who = recipient_or(bond_recipient, caller);
    Step {
        market: m.with_current(
            trading_addr,
            epoch_whinged(m.current(trading_addr), who, now, preferred_outcome),
        ),
        amount: BOND_FOR_WHINGE as nat,
        actions: seq![
            ActionView::TakeFromSender { amount: BOND_FOR_WHINGE as nat },
            ActionView::Log {
                event: EventView::Whinged { trading_addr, preferred_outcome, bond_recipient: who },
            },
        ],
    }
}

/// Whinging about a call, inside its whinging period, in favour of another
/// outcome; the inconclusive outcome may be preferred.
pub open spec fn whinge_spec(
    m: MarketView,
    trading_addr: Address,
    preferred_outcome: Outcome,
    bond_recipient: Address,
    caller: Address,
    now: u64,
) -> Result<Step, Error> {
    ruled(
        whinge_refusal(m, trading_addr, preferred_outcome, now),
        whinge_step(m, trading_addr, preferred_outcome, bond_recipient, caller, now),
    )
}

/// Why a commitment is refused. `past_votes` is the sender's stake when the
/// campaign launched, `current_votes` the stake now.
pub open spec fn predict_refusal(
    m: MarketView,
    trading_addr: Address,
    commit: Bytes32,
    caller: Address,
    now: u64,
    past_votes: nat,
    current_votes: nat,
) -> Option<Error> {
    let e = m.current(trading_addr);
    if gate(m, trading_addr) is Some {
        gate(m, trading_addr)
    } else if e.who_whinged.is_zero() || !within_spec(e.when_whinged, now, TWO_DAYS) {
        Some(Error::PredictingNotStarted)
    } else if past_votes == 0 {
        Some(Error::ZeroBal)
    } else if current_votes < past_votes {
        Some(Error::StakedArbUnusual)
    } else if e.votes.contains_key(caller) {
        Some(Error::AlreadyCommitted)
    } else if commit.is_zero() {
        Some(Error::NotAllowedZeroCommit)
    } else if now + A_WEEK_SECS > u64::MAX {
        Some(Error::CheckedAddOverflow)
    } else {
        None
    }
}

/// What a commitment does: it is recorded, and the sender's stake is frozen
/// for a week.
pub open spec fn predict_step(
    m: MarketView,
    trading_addr: Address,
    commit: Bytes32,
    caller: Address,
    now: u64,
) -> Step {
    let e = m.current(trading_addr);
    Step {
        market: m.with_current(
            trading_addr,
            EpochView { votes: e.votes.insert(caller, VoteView::committed(commit)), ..e },
        ),
        amount: 0,
        actions: seq![
            ActionView::Freeze { holder: caller, until: (now + A_WEEK_SECS) as u64 },
            ActionView::Log {
                event: EventView::Committed { trading_addr, predictor: caller, commitment: commit },
            },
        ],
    }
}

/// Committing to a prediction, inside the predicting period.
pub open spec fn predict_spec(
    m: MarketView,
    trading_addr: Address,
    commit: Bytes32,
    caller: Address,
    now: u64,
    past_votes: nat,
    current_votes: nat,
) -> Result<Step, Error> {
    ruled(
        predict_refusal(m, trading_addr, commit, caller, now, past_votes, current_votes),
        predict_step(m, trading_addr, commit, caller, now),
    )
}

/// The epoch after `voter` revealed `outcome` with `weight`.
pub open spec fn epoch_revealed(
    e: EpochView,
    voter: Address,
    outcome: Outcome,
    weight: nat,
) -> EpochView {
    EpochView {
        votes: e.votes.insert(
            voter,
            VoteView { revealed: true, outcome, weight, ..e.votes[voter] },
        ),
        tallies: credit(e.tallies, outcome, weight),
        total_revealed_weight: e.total_revealed_weight + weight,
        ..e
    }
}

/// Why a reveal is refused, where `digest` is the digest of what is
/// disclosed. `past_votes` is the voter's stake when the campaign launched,
/// `current_votes` the voter's stake now.
pub open spec fn reveal_refusal(
    m: MarketView,
    trading_addr: Address,
    committer_addr: Address,
    digest: Bytes32,
    now: u64,
    past_votes: nat,
    current_votes: nat,
) -> Option<Error> {
    let e = m.current(trading_addr);
    if gate(m, trading_addr) is Some {
        gate(m, trading_addr)
    } else if e.who_whinged.is_zero() || !in_reveal_period_spec(e.when_whinged, now) {
        Some(Error::NotInCommitReveal(e.when_whinged, now))
    } else if e.votes.contains_key(committer_addr) && e.votes[committer_addr].revealed {
        Some(Error::AlreadyRevealed)
    } else if !e.votes.contains_key(committer_addr) || e.votes[committer_addr].commitment
        != digest {
        Some(Error::CommitNotTheSame)
    } else if current_votes < past_votes {
        Some(Error::StakedArbUnusual)
    } else if e.total_revealed_weight + past_votes >= limit() {
        Some(Error::CheckedAddOverflow)
    } else {
        None
    }
}

/// What a reveal does: the vote is recorded with `past_votes` as its
/// weight, which is added to the tally of the outcome and to the total.
pub open spec fn reveal_step(
    m: MarketView,
    trading_addr: Address,
    committer_addr: Address,
    outcome: Outcome,
    caller: Address,
    past_votes: nat,
) -> Step {
    Step {
        market: m.with_current(
            trading_addr,
            epoch_revealed(m.current(trading_addr), committer_addr, outcome, past_votes),
        ),
        amount: 0,
        actions: seq![
            ActionView::Log {
                event: EventView::CommitmentRevealed {
                    trading_addr,
                    revealer: committer_addr,
                    caller,
                    outcome,
                    bal: past_votes,
                },
            },
        ],
    }
}

/// Revealing the prediction of `committer_addr`, inside the reveal period,
/// where `digest` is the digest of what is disclosed.
pub open spec fn reveal_digest_spec(
    m: MarketView,
    trading_addr: Address,
    committer_addr: Address,
    outcome: Outcome,
    digest: Bytes32,
    caller: Address,
    now: u64,
    past_votes: nat,
    current_votes: nat,
) -> Result<Step, Error> {
    ruled(
        reveal_refusal(m, trading_addr, committer_addr, digest, now, past_votes, current_votes),
        reveal_step(m, trading_addr, committer_addr, outcome, caller, past_votes),
    )
}

/// Revealing the prediction of `committer_addr`: the disclosed outcome and
/// seed must reproduce the commitment.
pub open spec fn reveal_spec(
    m: MarketView,
    trading_addr: Address,
    committer_addr: Address,
    outcome: Outcome,
    seed: U256,
    caller: Address,
    now: u64,
    past_votes: nat,
    current_votes: nat,
) -> Result<Step, Error> {
    reveal_digest_spec(
        m,
        trading_addr,
        committer_addr,
        outcome,
        commit_spec(committer_addr, outcome, seed),
        caller,
        now,
        past_votes,
        current_votes,
    )
}

/// Whether the campaign may escape at `now`: its deadline has passed, it has
/// not escaped before, and nothing was called or the call came to nothing.
pub open spec fn can_escape(c: CampaignView, now: u64) -> bool {
    &&& c.call_deadline < now
    &&& !c.escaped
    &&& (c.current().inconclusive() || c.current().what_called.is_zero())
}

/// Why an escape is refused.
pub open spec fn escape_refusal(m: MarketView, trading_addr: Address, now: u64) -> Option<Error> {
    if gate(m, trading_addr) is Some {
        gate(m, trading_addr)
    } else if !can_escape(m.campaigns[trading_addr], now) {
        Some(Error::CannotEscape)
    } else {
        None
    }
}

/// What an escape does: the campaign is told, and marked for good.
pub open spec fn escape_step(m: MarketView, trading_addr: Address) -> Step {
    let c = m.campaigns[trading_addr];
    Step {
        market: MarketView {
            campaigns: m.campaigns.insert(trading_addr, CampaignView { escaped: true, ..c }),
            ..m
        },
        amount: 0,
        actions: seq![
            ActionView::Escape { trading_addr },
            ActionView::Log { event: EventView::CampaignEscaped { trading_addr } },
        ],
    }
}

/// The escape of a campaign that was not decided in time.
pub open spec fn escape_spec(m: MarketView, trading_addr: Address, now: u64) -> Result<
    Step,
    Error,
> {
    ruled(escape_refusal(m, trading_addr, now), escape_step(m, trading_addr))
}

/// The time of the call or of the whinge, where somebody made one.
pub open spec fn anchor(who: Address, when: u64) -> Option<u64> {
    if who.is_zero() {
        None
    } else {
        Some(when)
    }
}

/// The period of the campaign's current round and the seconds left of it.
/// After an inconclusive epoch the round is the one that the next call opens.
pub open spec fn status_spec(m: MarketView, trading_addr: Address, now: u64) -> Result<
    (u8, u64),
    Error,
> {
    let c = m.campaigns[trading_addr];
    let e = if c.current().inconclusive() {
        EpochView::fresh()
    } else {
        c.current()
    };
    let (state, left) = classify_spec(
        anchor(e.who_called, e.when_called),
        anchor(e.who_whinged, e.when_whinged),
        e.winner_set,
        now,
        c.call_deadline,
    );
    if gate(m, trading_addr) is Some {
        Err(gate(m, trading_addr)->0)
    } else {
        Ok((state.code(), left))
    }
}

/// The winner of the campaign's current epoch; the inconclusive outcome
/// where there is none, or no campaign.
pub open spec fn winner_spec(m: MarketView, trading_addr: Address) -> Outcome {
    if m.registered(trading_addr) {
        m.current(trading_addr).winner
    } else {
        Outcome { tag: 0 }
    }
}

/// When the campaign launches; zero where there is no campaign.
pub open spec fn start_ts_spec(m: MarketView, trading_addr: Address) -> u64 {
    if m.registered(trading_addr) {
        m.campaigns[trading_addr].call_begins
    } else {
        0
    }
}

/// The campaign's call deadline; zero where there is no campaign.
pub open spec fn end_ts_spec(m: MarketView, trading_addr: Address) -> u64 {
    if m.registered(trading_addr) {
        m.campaigns[trading_addr].call_deadline
    } else {
        0
    }
}

/// The weight revealed for `outcome` in the campaign's current epoch; zero
/// where there is no campaign.
pub open spec fn cur_outcome_vested_arb_spec(
    m: MarketView,
    trading_addr: Address,
    outcome: Outcome,
) -> nat {
    if m.registered(trading_addr) {
        outcome_weight(m.current(trading_addr).tallies, outcome)
    } else {
        0
    }
}

} // verus!
