//! What an accepted operation asks of the world outside the market.
//!
//! The market decides; it moves no money and notifies nobody itself. Each
//! accepted operation hands back the actions that its caller performs, in
//! order. Where one of them fails, the whole operation has failed and the
//! market is put back as it was before.

use crate::ident::{Address, Bytes32, Outcome};
use crate::uint::U256;
use vstd::prelude::*;

verus! {

/// A change of state that is reported to observers.
#[derive(Clone, Copy, Debug, PartialEq, Eq, Structural)]
pub enum Event {
    InfraMarketEnabled { status: bool },
    MarketCreated {
        incentive_sender: Address,
        trading_addr: Address,
        desc: Bytes32,
        launch_ts: u64,
        call_deadline: u64,
    },
    CallMade { trading_addr: Address, winner: Outcome, incentive_recipient: Address },
    Whinged { trading_addr: Address, preferred_outcome: Outcome, bond_recipient: Address },
    Committed { trading_addr: Address, predictor: Address, commitment: Bytes32 },
    CommitmentRevealed {
        trading_addr: Address,
        revealer: Address,
        caller: Address,
        outcome: Outcome,
        bal: U256,
    },
    InfraMarketClosed { incentive_recipient: Address, trading_addr: Address, winner: Outcome },
    Declared { trading_addr: Address, winner: Outcome, fee_recipient: Address },
    CampaignEscaped { trading_addr: Address },
}

/// One thing for the caller to do after an accepted operation.
#[derive(Clone, Copy, Debug, PartialEq, Eq, Structural)]
pub enum Action {
    /// Debit the sender of the operation, in the bond currency.
    TakeFromSender { amount: U256 },
    /// Credit `recipient`, in the bond currency.
    Transfer { recipient: Address, amount: U256 },
    /// Credit `recipient`, in the staked token.
    TransferStake { recipient: Address, amount: U256 },
    /// Have the stake registrar freeze the stake of `holder` until `until`.
    Freeze { holder: Address, until: u64 },
    /// Tell the campaign that `outcome` won.
    Decide { trading_addr: Address, outcome: Outcome },
    /// Tell the campaign that it will not be decided here.
    Escape { trading_addr: Address },
    /// Report `event`.
    Log { event: Event },
}

/// An event, with amounts as natural numbers.
pub enum EventView {
    InfraMarketEnabled { status: bool },
    MarketCreated {
        incentive_sender: Address,
        trading_addr: Address,
        desc: Bytes32,
        launch_ts: u64,
        call_deadline: u64,
    },
    CallMade { trading_addr: Address, winner: Outcome, incentive_recipient: Address },
    Whinged { trading_addr: Address, preferred_outcome: Outcome, bond_recipient: Address },
    Committed { trading_addr: Address, predictor: Address, commitment: Bytes32 },
    CommitmentRevealed {
        trading_addr: Address,
        revealer: Address,
        caller: Address,
        outcome: Outcome,
        bal: nat,
    },
    InfraMarketClosed { incentive_recipient: Address, trading_addr: Address, winner: Outcome },
    Declared { trading_addr: Address, winner: Outcome, fee_recipient: Address },
    CampaignEscaped { trading_addr: Address },
}

/// An action, with amounts as natural numbers.
pub enum ActionView {
    TakeFromSender { amount: nat },
    Transfer { recipient: Address, amount: nat },
    TransferStake { recipient: Address, amount: nat },
    Freeze { holder: Address, until: u64 },
    Decide { trading_addr: Address, outcome: Outcome },
    Escape { trading_addr: Address },
    Log { event: EventView },
}

impl View for Event {
    type V = EventView;

    open spec fn view(&self) -> EventView {
        match *self {
            Event::InfraMarketEnabled { status } => EventView::InfraMarketEnabled { status },
            Event::MarketCreated { incentive_sender, trading_addr, desc, launch_ts, call_deadline } => {
                EventView::MarketCreated {
                    incentive_sender,
                    trading_addr,
                    desc,
                    launch_ts,
                    call_deadline,
                }
            },
            Event::CallMade { trading_addr, winner, incentive_recipient } => EventView::CallMade {
                trading_addr,
                winner,
                incentive_recipient,
            },
            Event::Whinged { trading_addr, preferred_outcome, bond_recipient } => EventView::Whinged {
                trading_addr,
                preferred_outcome,
                bond_recipient,
            },
            Event::Committed { trading_addr, predictor, commitment } => EventView::Committed {
                trading_addr,
                predictor,
                commitment,
            },
            Event::CommitmentRevealed { trading_addr, revealer, caller, outcome, bal } => {
                EventView::CommitmentRevealed { trading_addr, revealer, caller, outcome, bal: bal@ }
            },
            Event::InfraMarketClosed { incentive_recipient, trading_addr, winner } => {
                EventView::InfraMarketClosed { incentive_recipient, trading_addr, winner }
            },
            Event::Declared { trading_addr, winner, fee_recipient } => EventView::Declared {
                trading_addr,
                winner,
                fee_recipient,
            },
            Event::CampaignEscaped { trading_addr } => EventView::CampaignEscaped { trading_addr },
        }
    }
}

impl View for Action {
    type V = ActionView;

    open spec fn view(&self) -> ActionView {
        match *self {
            Action::TakeFromSender { amount } => ActionView::TakeFromSender { amount: amount@ },
            Action::Transfer { recipient, amount } => ActionView::Transfer {
                recipient,
                amount: amount@,
            },
            Action::TransferStake { recipient, amount } => ActionView::TransferStake {
                recipient,
                amount: amount@,
            },
            Action::Freeze { holder, until } => ActionView::Freeze { holder, until },
            Action::Decide { trading_addr, outcome } => ActionView::Decide { trading_addr, outcome },
            Action::Escape { trading_addr } => ActionView::Escape { trading_addr },
            Action::Log { event } => ActionView::Log { event: event@ },
        }
    }
}

/// The views of a list of actions, in order.
pub open spec fn actions_view(actions: Seq<Action>) -> Seq<ActionView> {
    Seq::new(actions.len(), |i: int| actions[i]@)
}

/// What an accepted operation hands back.
#[derive(Clone, Debug, PartialEq, Eq)]
pub struct Receipt {
    /// The amount that the operation took or paid out, as its caller sees it.
    pub amount: U256,
    /// What is left for the caller to do, in order.
    pub actions: Vec<Action>,
}

/// A receipt, with amounts as natural numbers.
pub struct ReceiptView {
    pub amount: nat,
    pub actions: Seq<ActionView>,
}

impl View for Receipt {
    type V = ReceiptView;

    open spec fn view(&self) -> ReceiptView {
        ReceiptView { amount: self.amount@, actions: actions_view(self.actions@) }
    }
}

} // verus!
