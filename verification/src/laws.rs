//! What holds of the market whatever is done to it.
//!
//! The laws are stated over the rules alone: over every operation that the
//! rules accept, and over every sequence of such operations.

use crate::action::{ActionView, EventView};
use crate::error::Error;
use crate::fees::{
    BOND_FOR_CALL, BOND_FOR_WHINGE, INCENTIVE_AMT_CALL, INCENTIVE_AMT_CLOSE, INCENTIVE_AMT_DECLARE,
};
use crate::ident::{Address, Bytes32, Outcome};
use crate::rules::{
    call_refusal, call_spec, close_refusal, close_settlement, close_spec, ctor_spec,
    enable_contract_spec, epoch_revealed, escape_spec, paid, pays, predict_refusal, predict_spec,
    recipient_or, register_spec, reveal_refusal, reveal_spec, status_spec, transfer_if,
    whinge_refusal, whinge_spec, Step,
};
use crate::settlement::{
    capture_spec, declare_refusal, declare_settlement, declare_spec, declared_winner, exhaustive,
    leader, lowest_weight, supplied_weight, sweep_spec, sweep_stake_spec,
};
use crate::state::{
    lemma_credit, sum_weights, CampaignView, EpochView, MarketView, TallyView, VoteView,
};
use crate::timing::{in_reveal_period_spec, within_spec, InfraMarketState, FOUR_DAYS};
use crate::uint::{limit, U256};
use vstd::prelude::*;

verus! {

/// An operation on the market, with its arguments.
pub enum Operation {
    Ctor {
        operator: Address,
        emergency_council: Address,
        lockup_addr: Address,
        locked_arb_token_addr: Address,
        factory_addr: Address,
    },
    EnableContract { status: bool, caller: Address },
    Register {
        trading_addr: Address,
        desc: Bytes32,
        launch_ts: u64,
        call_deadline_ts: u64,
        caller: Address,
    },
    Call {
        trading_addr: Address,
        winner: Outcome,
        incentive_recipient: Address,
        caller: Address,
        now: u64,
    },
    Close { trading_addr: Address, fee_recipient: Address, caller: Address, now: u64 },
    Whinge {
        trading_addr: Address,
        preferred_outcome: Outcome,
        bond_recipient: Address,
        caller: Address,
        now: u64,
    },
    Predict {
        trading_addr: Address,
        commit: Bytes32,
        caller: Address,
        now: u64,
        past_votes: nat,
        current_votes: nat,
    },
    Reveal {
        trading_addr: Address,
        committer_addr: Address,
        outcome: Outcome,
        seed: U256,
        caller: Address,
        now: u64,
        past_votes: nat,
        current_votes: nat,
    },
    Declare { trading_addr: Address, outcomes: Seq<Outcome>, fee_recipient: Address, now: u64 },
    Sweep {
        trading_addr: Address,
        epoch_no: u64,
        victim_addr: Address,
        fee_recipient_addr: Address,
        now: u64,
        seized: nat,
    },
    Capture { trading_addr: Address, epoch_no: u64, fee_recipient: Address, caller: Address },
    Escape { trading_addr: Address, now: u64 },
}

/// What the rules give for `op` in the market `m`.
pub open spec fn apply(m: MarketView, op: Operation) -> Result<Step, Error> {
    match op {
        Operation::Ctor {
            operator,
            emergency_council,
            lockup_addr,
            locked_arb_token_addr,
            factory_addr,
        } => ctor_spec(
            m,
            operator,
            emergency_council,
            lockup_addr,
            locked_arb_token_addr,
            factory_addr,
        ),
        Operation::EnableContract { status, caller } => enable_contract_spec(m, status, caller),
        Operation::Register { trading_addr, desc, launch_ts, call_deadline_ts, caller } => {
            register_spec(m, trading_addr, desc, launch_ts, call_deadline_ts, caller)
        },
        Operation::Call { trading_addr, winner, incentive_recipient, caller, now } => call_spec(
            m,
            trading_addr,
            winner,
            incentive_recipient,
            caller,
            now,
        ),
        Operation::Close { trading_addr, fee_recipient, caller, now } => close_spec(
            m,
            trading_addr,
            fee_recipient,
            caller,
            now,
        ),
        Operation::Whinge { trading_addr, preferred_outcome, bond_recipient, caller, now } => {
            whinge_spec(m, trading_addr, preferred_outcome, bond_recipient, caller, now)
        },
        Operation::Predict { trading_addr, commit, caller, now, past_votes, current_votes } => {
            predict_spec(m, trading_addr, commit, caller, now, past_votes, current_votes)
        },
        Operation::Reveal {
            trading_addr,
            committer_addr,
            outcome,
            seed,
            caller,
            now,
            past_votes,
            current_votes,
        } => reveal_spec(
            m,
            trading_addr,
            committer_addr,
            outcome,
            seed,
            caller,
            now,
            past_votes,
            current_votes,
        ),
        Operation::Declare { trading_addr, outcomes, fee_recipient, now } => declare_spec(
            m,
            trading_addr,
            outcomes,
            fee_recipient,
            now,
        ),
        Operation::Sweep { trading_addr, epoch_no, victim_addr, fee_recipient_addr, now, seized } => {
            sweep_spec(m, trading_addr, epoch_no, victim_addr, fee_recipient_addr, now, seized)
        },
        Operation::Capture { trading_addr, epoch_no, fee_recipient, caller } => capture_spec(
            m,
            trading_addr,
            epoch_no,
            fee_recipient,
            caller,
        ),
        Operation::Escape { trading_addr, now } => escape_spec(m, trading_addr, now),
    }
}

/// The market after `op`: as the rule leaves it where `op` is accepted, and
/// as it was where `op` is refused.
pub open spec fn after(m: MarketView, op: Operation) -> MarketView {
    match apply(m, op) {
        Ok(step) => step.market,
        Err(_) => m,
    }
}

/// The market after the operations of `ops`, in order.
pub open spec fn run(m: MarketView, ops: Seq<Operation>) -> MarketView
    decreases ops.len(),
{
    if ops.len() == 0 {
        m
    } else {
        after(run(m, ops.drop_last()), ops.last())
    }
}

/// Whether `op` is governed by the switch that the operator holds: every
/// operation but construction and the switch itself.
pub open spec fn switched(op: Operation) -> bool {
    !(op is Ctor) && !(op is EnableContract)
}

/// Replacing an epoch by one that is as epochs are, and that resolved to the
/// inconclusive outcome unless it is the current one, keeps the market as
/// markets are.
proof fn lemma_with_epoch_inv(m: MarketView, a: Address, i: int, e: EpochView, dao_money: nat)
    requires
        m.inv(),
        m.registered(a),
        0 <= i < m.campaigns[a].epochs.len(),
        e.inv(),
        i < m.campaigns[a].epochs.len() - 1 ==> e.inconclusive(),
        dao_money < limit(),
    ensures
        (MarketView { dao_money, ..m.with_epoch(a, i, e) }).inv(),
{
    let c = m.campaigns[a];
    let d = c.with_epoch(i, e);
    let n = MarketView { dao_money, ..m.with_epoch(a, i, e) };
    assert(c.inv());
    assert forall|k: int| 0 <= k < d.epochs.len() implies (#[trigger] d.epochs[k]).inv() by {
        if k != i {
            assert(c.epochs[k].inv());
        }
    }
    assert forall|k: int| 0 <= k < d.epochs.len() - 1 implies (#[trigger] d.epochs[k]).inconclusive() by {
        if k != i {
            assert(c.epochs[k].inconclusive());
        }
    }
    assert forall|b: Address| #[trigger] n.campaigns.contains_key(b) implies n.campaigns[b].inv() by {
        if b != a {
            assert(m.campaigns.contains_key(b));
        }
    }
}

/// Changing the vote of one voter to one that is as votes are keeps the
/// votes as they are.
proof fn lemma_votes_inv(e: EpochView, f: EpochView, voter: Address, v: VoteView)
    requires
        e.inv(),
        v.inv(),
        f.votes == e.votes.insert(voter, v),
    ensures
        forall|a: Address| #[trigger] f.votes.contains_key(a) ==> f.votes[a].inv(),
{
    assert forall|a: Address| #[trigger] f.votes.contains_key(a) implies f.votes[a].inv() by {
        if a != voter {
            assert(e.votes.contains_key(a));
        }
    }
}

/// Every accepted operation leaves the market as markets are: in
/// particular, in every epoch the total revealed weight is the sum of the
/// weights of all outcomes, and the pot is not drawn below zero.
pub proof fn law_operations_keep_invariant(m: MarketView, op: Operation)
    requires
        m.inv(),
    ensures
        after(m, op).inv(),
{
    let n = after(m, op);
    if apply(m, op) is Ok {
        match op {
            Operation::Ctor { .. } => {},
            Operation::EnableContract { .. } => {},
            Operation::Register { trading_addr, desc, launch_ts, call_deadline_ts, caller } => {
                let c = CampaignView::registered(launch_ts, call_deadline_ts, desc);
                assert(c.epochs[0] == EpochView::fresh());
                assert(sum_weights(EpochView::fresh().tallies) == 0);
                assert(c.inv());
                assert forall|b: Address| #[trigger] n.campaigns.contains_key(b) implies n.campaigns[b].inv() by {
                    if b != trading_addr {
                        assert(m.campaigns.contains_key(b));
                    }
                }
            },
            Operation::Call { trading_addr, winner, incentive_recipient, caller, now } => {
                let c = m.campaigns[trading_addr];
                let d = n.campaigns[trading_addr];
                assert(c.inv());
                assert(c.current().inv());
                assert(sum_weights(EpochView::fresh().tallies) == 0);
                assert forall|k: int| 0 <= k < d.epochs.len() implies (#[trigger] d.epochs[k]).inv() by {
                    if k < c.epochs.len() - 1 {
                        assert(c.epochs[k].inv());
                    }
                }
                assert forall|k: int| 0 <= k < d.epochs.len() - 1 implies (
                #[trigger] d.epochs[k]).inconclusive() by {
                    if k < c.epochs.len() - 1 {
                        assert(c.epochs[k].inconclusive());
                    }
                }
                assert forall|b: Address| #[trigger] n.campaigns.contains_key(b) implies n.campaigns[b].inv() by {
                    if b != trading_addr {
                        assert(m.campaigns.contains_key(b));
                    }
                }
            },
            Operation::Close { trading_addr, fee_recipient, caller, now } => {
                let c = m.campaigns[trading_addr];
                assert(c.inv());
                assert(c.current().inv());
                lemma_with_epoch_inv(
                    m,
                    trading_addr,
                    c.cur_epoch(),
                    n.campaigns[trading_addr].current(),
                    n.dao_money,
                );
            },
            Operation::Whinge { trading_addr, preferred_outcome, bond_recipient, caller, now } => {
                let c = m.campaigns[trading_addr];
                assert(c.inv());
                assert(c.current().inv());
                lemma_with_epoch_inv(
                    m,
                    trading_addr,
                    c.cur_epoch(),
                    n.campaigns[trading_addr].current(),
                    n.dao_money,
                );
            },
            Operation::Predict { trading_addr, commit, caller, now, past_votes, current_votes } => {
                let c = m.campaigns[trading_addr];
                assert(c.inv());
                assert(c.current().inv());
                let f = n.campaigns[trading_addr].current();
                lemma_votes_inv(c.current(), f, caller, VoteView::committed(commit));
                lemma_with_epoch_inv(m, trading_addr, c.cur_epoch(), f, n.dao_money);
            },
            Operation::Reveal {
                trading_addr,
                committer_addr,
                outcome,
                seed,
                caller,
                now,
                past_votes,
                current_votes,
            } => {
                let c = m.campaigns[trading_addr];
                assert(c.inv());
                let e = c.current();
                assert(e.inv());
                let f = epoch_revealed(e, committer_addr, outcome, past_votes);
                lemma_credit(e.tallies, outcome, past_votes);
                assert(e.votes[committer_addr].inv());
                lemma_votes_inv(e, f, committer_addr, f.votes[committer_addr]);
                lemma_with_epoch_inv(m, trading_addr, c.cur_epoch(), f, n.dao_money);
            },
            Operation::Declare { trading_addr, outcomes, fee_recipient, now } => {
                let c = m.campaigns[trading_addr];
                assert(c.inv());
                assert(c.current().inv());
                lemma_with_epoch_inv(
                    m,
                    trading_addr,
                    c.cur_epoch(),
                    n.campaigns[trading_addr].current(),
                    n.dao_money,
                );
            },
            Operation::Sweep { trading_addr, epoch_no, victim_addr, fee_recipient_addr, now, seized } => {
                let c = m.campaigns[trading_addr];
                assert(c.inv());
                let e = c.epochs[epoch_no as int];
                assert(e.inv());
                let f = n.campaigns[trading_addr].epochs[epoch_no as int];
                assert(e.votes[victim_addr].inv());
                lemma_votes_inv(e, f, victim_addr, f.votes[victim_addr]);
                if epoch_no < c.epochs.len() - 1 {
                    assert(e.inconclusive());
                }
                lemma_with_epoch_inv(m, trading_addr, epoch_no as int, f, n.dao_money);
            },
            Operation::Capture { trading_addr, epoch_no, fee_recipient, caller } => {
                let c = m.campaigns[trading_addr];
                assert(c.inv());
                let e = c.epochs[epoch_no as int];
                assert(e.inv());
                let f = n.campaigns[trading_addr].epochs[epoch_no as int];
                assert(e.votes[caller].inv());
                lemma_votes_inv(e, f, caller, f.votes[caller]);
                if epoch_no < c.epochs.len() - 1 {
                    assert(e.inconclusive());
                }
                lemma_with_epoch_inv(m, trading_addr, epoch_no as int, f, n.dao_money);
            },
            Operation::Escape { trading_addr, now } => {
                let c = m.campaigns[trading_addr];
                assert(c.inv());
                assert forall|b: Address| #[trigger] n.campaigns.contains_key(b) implies n.campaigns[b].inv() by {
                    if b != trading_addr {
                        assert(m.campaigns.contains_key(b));
                    }
                }
            },
        }
    }
}

/// Every sequence of operations leaves the market as markets are.
pub proof fn law_runs_keep_invariant(m: MarketView, ops: Seq<Operation>)
    requires
        m.inv(),
    ensures
        run(m, ops).inv(),
    decreases ops.len(),
{
    if ops.len() > 0 {
        law_runs_keep_invariant(m, ops.drop_last());
        law_operations_keep_invariant(run(m, ops.drop_last()), ops.last());
    }
}

/// Whatever was done to a market since it was made, the total revealed
/// weight of each epoch is the sum of the weights revealed for its outcomes,
/// and no more is left in its pot than went into it.
pub proof fn law_total_is_sum_of_outcomes(ops: Seq<Operation>, trading_addr: Address, epoch_no: int)
    requires
        run(MarketView::empty(), ops).registered(trading_addr),
        0 <= epoch_no < run(MarketView::empty(), ops).campaigns[trading_addr].epochs.len(),
    ensures
        ({
            let e = run(MarketView::empty(), ops).campaigns[trading_addr].epochs[epoch_no];
            e.total_revealed_weight == sum_weights(e.tallies) && e.pot_outstanding <= e.pot_existing
        }),
{
    assert(MarketView::empty().inv());
    law_runs_keep_invariant(MarketView::empty(), ops);
    let m = run(MarketView::empty(), ops);
    assert(m.campaigns[trading_addr].inv());
    assert(m.campaigns[trading_addr].epochs[epoch_no].inv());
}

/// While the market is disabled, every operation but construction and the
/// switch itself is refused for that cause, and changes nothing.
pub proof fn law_disabled_refuses(m: MarketView, op: Operation)
    requires
        !m.enabled,
        switched(op),
    ensures
        apply(m, op) == Err::<Step, Error>(Error::NotEnabled),
        after(m, op) == m,
{
}

/// What a vote keeps: its commitment; what it revealed, once it has; and
/// that it was swept or has claimed.
pub open spec fn vote_keeps(v: VoteView, w: VoteView) -> bool {
    &&& w.commitment == v.commitment
    &&& v.revealed ==> w.revealed && w.outcome == v.outcome && w.weight == v.weight
    &&& v.swept ==> w.swept
    &&& v.claimed ==> w.claimed
}

/// What an epoch keeps: its winner, once it has one; its whinge, once it
/// has one; its votes; and all that ever went into its pot.
pub open spec fn epoch_keeps(e: EpochView, f: EpochView) -> bool {
    &&& e.winner_set ==> f.winner_set && f.winner == e.winner
    &&& !e.who_whinged.is_zero() ==> f.who_whinged == e.who_whinged && f.when_whinged
        == e.when_whinged && f.whinger_preferred_winner == e.whinger_preferred_winner
    &&& f.pot_existing >= e.pot_existing
    &&& forall|v: Address| #[trigger]
        e.votes.contains_key(v) ==> f.votes.contains_key(v) && vote_keeps(e.votes[v], f.votes[v])
}

/// What a campaign keeps: how it was registered, that it escaped, and its epochs.
pub open spec fn campaign_keeps(c: CampaignView, d: CampaignView) -> bool {
    &&& d.call_begins == c.call_begins
    &&& d.call_deadline == c.call_deadline
    &&& d.desc == c.desc
    &&& c.escaped ==> d.escaped
    &&& d.epochs.len() >= c.epochs.len()
    &&& forall|i: int| 0 <= i < c.epochs.len() ==> epoch_keeps(#[trigger] c.epochs[i], d.epochs[i])
}

/// What a market keeps: that it was constructed, and its campaigns.
pub open spec fn market_keeps(m: MarketView, n: MarketView) -> bool {
    &&& m.created ==> n.created
    &&& forall|a: Address| #[trigger]
        m.campaigns.contains_key(a) ==> n.campaigns.contains_key(a) && campaign_keeps(
            m.campaigns[a],
            n.campaigns[a],
        )
}

/// A market in which one epoch was replaced by one that keeps it keeps the market.
proof fn lemma_with_epoch_keeps(m: MarketView, n: MarketView, a: Address, i: int, f: EpochView)
    requires
        m.registered(a),
        0 <= i < m.campaigns[a].epochs.len(),
        epoch_keeps(m.campaigns[a].epochs[i], f),
        n.campaigns == m.with_epoch(a, i, f).campaigns,
        m.created ==> n.created,
    ensures
        market_keeps(m, n),
{
    let c = m.campaigns[a];
    let d = n.campaigns[a];
    assert forall|k: int| 0 <= k < c.epochs.len() implies epoch_keeps(
        #[trigger] c.epochs[k],
        d.epochs[k],
    ) by {}
    assert(campaign_keeps(c, d));
    assert forall|b: Address| #[trigger] m.campaigns.contains_key(b) implies n.campaigns.contains_key(b)
        && campaign_keeps(m.campaigns[b], n.campaigns[b]) by {
        if b != a {
            let x = m.campaigns[b];
            assert forall|k: int| 0 <= k < x.epochs.len() implies epoch_keeps(
                #[trigger] x.epochs[k],
                x.epochs[k],
            ) by {}
        }
    }
}

/// A market in which one campaign was replaced by one that keeps it keeps the market.
proof fn lemma_with_campaign_keeps(m: MarketView, n: MarketView, a: Address, d: CampaignView)
    requires
        m.registered(a) ==> campaign_keeps(m.campaigns[a], d),
        n.campaigns == m.campaigns.insert(a, d),
        m.created ==> n.created,
    ensures
        market_keeps(m, n),
{
    assert forall|b: Address| #[trigger] m.campaigns.contains_key(b) implies n.campaigns.contains_key(b)
        && campaign_keeps(m.campaigns[b], n.campaigns[b]) by {
        if b != a {
            let x = m.campaigns[b];
            assert forall|k: int| 0 <= k < x.epochs.len() implies epoch_keeps(
                #[trigger] x.epochs[k],
                x.epochs[k],
            ) by {}
        }
    }
}

/// No operation undoes what is on record: a winner stays the winner, a
/// whinge stays, a vote keeps what it committed to and revealed, what was
/// swept or claimed stays so, and an escape is for good.
pub proof fn law_operations_keep_history(m: MarketView, op: Operation)
    requires
        m.inv(),
    ensures
        market_keeps(m, after(m, op)),
{
    assert(forall|a: Address| #[trigger] m.campaigns.contains_key(a) ==> m.campaigns[a].inv());
    let n = after(m, op);
    if apply(m, op) is Ok {
        match op {
            Operation::Ctor { .. } => {
                lemma_keeps_itself(m);
            },
            Operation::EnableContract { .. } => {
                lemma_keeps_itself(m);
            },
            Operation::Register { trading_addr, desc, launch_ts, call_deadline_ts, caller } => {
                lemma_with_campaign_keeps(m, n, trading_addr, n.campaigns[trading_addr]);
            },
            Operation::Call { trading_addr, winner, incentive_recipient, caller, now } => {
                let c = m.campaigns[trading_addr];
                let d = n.campaigns[trading_addr];
                assert forall|k: int| 0 <= k < c.epochs.len() implies epoch_keeps(
                    #[trigger] c.epochs[k],
                    d.epochs[k],
                ) by {}
                lemma_with_campaign_keeps(m, n, trading_addr, d);
            },
            Operation::Close { trading_addr, fee_recipient, caller, now } => {
                let c = m.campaigns[trading_addr];
                lemma_with_epoch_keeps(
                    m,
                    n,
                    trading_addr,
                    c.cur_epoch(),
                    n.campaigns[trading_addr].epochs[c.cur_epoch()],
                );
            },
            Operation::Whinge { trading_addr, preferred_outcome, bond_recipient, caller, now } => {
                let c = m.campaigns[trading_addr];
                lemma_with_epoch_keeps(
                    m,
                    n,
                    trading_addr,
                    c.cur_epoch(),
                    n.campaigns[trading_addr].epochs[c.cur_epoch()],
                );
            },
            Operation::Predict { trading_addr, commit, caller, now, past_votes, current_votes } => {
                let c = m.campaigns[trading_addr];
                lemma_with_epoch_keeps(
                    m,
                    n,
                    trading_addr,
                    c.cur_epoch(),
                    n.campaigns[trading_addr].epochs[c.cur_epoch()],
                );
            },
            Operation::Reveal {
                trading_addr,
                committer_addr,
                outcome,
                seed,
                caller,
                now,
                past_votes,
                current_votes,
            } => {
                let c = m.campaigns[trading_addr];
                lemma_with_epoch_keeps(
                    m,
                    n,
                    trading_addr,
                    c.cur_epoch(),
                    n.campaigns[trading_addr].epochs[c.cur_epoch()],
                );
            },
            Operation::Declare { trading_addr, outcomes, fee_recipient, now } => {
                let c = m.campaigns[trading_addr];
                lemma_with_epoch_keeps(
                    m,
                    n,
                    trading_addr,
                    c.cur_epoch(),
                    n.campaigns[trading_addr].epochs[c.cur_epoch()],
                );
            },
            Operation::Sweep {
                trading_addr,
                epoch_no,
                victim_addr,
                fee_recipient_addr,
                now,
                seized,
            } => {
                lemma_with_epoch_keeps(
                    m,
                    n,
                    trading_addr,
                    epoch_no as int,
                    n.campaigns[trading_addr].epochs[epoch_no as int],
                );
            },
            Operation::Capture { trading_addr, epoch_no, fee_recipient, caller } => {
                lemma_with_epoch_keeps(
                    m,
                    n,
                    trading_addr,
                    epoch_no as int,
                    n.campaigns[trading_addr].epochs[epoch_no as int],
                );
            },
            Operation::Escape { trading_addr, now } => {
                let c = m.campaigns[trading_addr];
                let d = n.campaigns[trading_addr];
                assert forall|k: int| 0 <= k < c.epochs.len() implies epoch_keeps(
                    #[trigger] c.epochs[k],
                    d.epochs[k],
                ) by {}
                lemma_with_campaign_keeps(m, n, trading_addr, d);
            },
        }
    } else {
        lemma_keeps_itself(m);
    }
}

/// A market keeps itself.
proof fn lemma_keeps_itself(m: MarketView)
    ensures
        market_keeps(m, m),
{
    assert forall|a: Address| #[trigger] m.campaigns.contains_key(a) implies campaign_keeps(
        m.campaigns[a],
        m.campaigns[a],
    ) by {
        let x = m.campaigns[a];
        assert forall|k: int| 0 <= k < x.epochs.len() implies epoch_keeps(
            #[trigger] x.epochs[k],
            x.epochs[k],
        ) by {}
    }
}

/// What keeps a market that keeps another keeps the other.
proof fn lemma_keeps_chain(m: MarketView, n: MarketView, o: MarketView)
    requires
        market_keeps(m, n),
        market_keeps(n, o),
    ensures
        market_keeps(m, o),
{
    assert forall|a: Address| #[trigger] m.campaigns.contains_key(a) implies o.campaigns.contains_key(a)
        && campaign_keeps(m.campaigns[a], o.campaigns[a]) by {
        assert(n.campaigns.contains_key(a));
        let c = m.campaigns[a];
        let d = n.campaigns[a];
        let x = o.campaigns[a];
        assert(campaign_keeps(c, d));
        assert(campaign_keeps(d, x));
        assert forall|k: int| 0 <= k < c.epochs.len() implies epoch_keeps(
            #[trigger] c.epochs[k],
            x.epochs[k],
        ) by {
            let e = c.epochs[k];
            let f = d.epochs[k];
            let g = x.epochs[k];
            assert(epoch_keeps(e, f));
            assert(epoch_keeps(f, g));
            assert forall|v: Address| #[trigger] e.votes.contains_key(v) implies g.votes.contains_key(v)
                && vote_keeps(e.votes[v], g.votes[v]) by {
                assert(f.votes.contains_key(v));
            }
        }
    }
}

/// No sequence of operations undoes what is on record.
pub proof fn law_runs_keep_history(m: MarketView, ops: Seq<Operation>)
    requires
        m.inv(),
    ensures
        market_keeps(m, run(m, ops)),
    decreases ops.len(),
{
    if ops.len() > 0 {
        let before = run(m, ops.drop_last());
        law_runs_keep_history(m, ops.drop_last());
        law_runs_keep_invariant(m, ops.drop_last());
        law_operations_keep_history(before, ops.last());
        lemma_keeps_chain(m, before, run(m, ops));
    } else {
        lemma_keeps_itself(m);
    }
}

/// Construction is single-shot: once a construction was accepted, every
/// further one is refused as already constructed, whatever its arguments and
/// whatever was done to the market in between.
pub proof fn law_construction_single_shot(
    m: MarketView,
    first: Operation,
    ops: Seq<Operation>,
    second: Operation,
)
    requires
        m.inv(),
        first is Ctor,
        second is Ctor,
        apply(m, first) is Ok,
    ensures
        apply(run(after(m, first), ops), second) == Err::<Step, Error>(Error::AlreadyConstructed),
{
    law_operations_keep_invariant(m, first);
    law_runs_keep_history(after(m, first), ops);
}

/// The winner of an epoch is set at most once: whatever is done to the
/// market, an epoch that has a winner keeps it, and while that epoch is the
/// current one every close and every declaration is refused.
pub proof fn law_winner_set_once(
    m: MarketView,
    ops: Seq<Operation>,
    trading_addr: Address,
    epoch_no: int,
    outcomes: Seq<Outcome>,
    fee_recipient: Address,
    caller: Address,
    now: u64,
)
    requires
        m.inv(),
        m.registered(trading_addr),
        0 <= epoch_no < m.campaigns[trading_addr].epochs.len(),
        m.campaigns[trading_addr].epochs[epoch_no].winner_set,
    ensures
        ({
            let n = run(m, ops);
            &&& n.registered(trading_addr)
            &&& epoch_no < n.campaigns[trading_addr].epochs.len()
            &&& n.campaigns[trading_addr].epochs[epoch_no].winner_set
            &&& n.campaigns[trading_addr].epochs[epoch_no].winner
                == m.campaigns[trading_addr].epochs[epoch_no].winner
            &&& n.campaigns[trading_addr].cur_epoch() == epoch_no ==> close_spec(
                n,
                trading_addr,
                fee_recipient,
                caller,
                now,
            ) is Err && declare_spec(n, trading_addr, outcomes, fee_recipient, now) is Err
        }),
{
    law_runs_keep_history(m, ops);
    assert(m.campaigns.contains_key(trading_addr));
    let c = m.campaigns[trading_addr];
    let d = run(m, ops).campaigns[trading_addr];
    assert(campaign_keeps(c, d));
    assert(epoch_keeps(c.epochs[epoch_no], d.epochs[epoch_no]));
}

/// A voter reveals at most once in an epoch: after an accepted reveal, and
/// whatever was done to the market since, every reveal for the same voter in
/// the same epoch is refused, whatever is disclosed; where the market is
/// enabled and the time in the reveal period, as already revealed.
pub proof fn law_reveal_once(
    m: MarketView,
    trading_addr: Address,
    committer_addr: Address,
    first: Operation,
    ops: Seq<Operation>,
    second: Operation,
)
    requires
        m.inv(),
        first matches Operation::Reveal { trading_addr: a, committer_addr: v, .. } && a
            == trading_addr && v == committer_addr,
        second matches Operation::Reveal { trading_addr: a, committer_addr: v, .. } && a
            == trading_addr && v == committer_addr,
        apply(m, first) is Ok,
        run(after(m, first), ops).campaigns[trading_addr].epochs.len()
            == m.campaigns[trading_addr].epochs.len(),
    ensures
        ({
            let n = run(after(m, first), ops);
            &&& apply(n, second) is Err
            &&& n.enabled && in_reveal_period_spec(
                n.current(trading_addr).when_whinged,
                second->Reveal_now,
            ) ==> apply(n, second) == Err::<Step, Error>(Error::AlreadyRevealed)
        }),
{
    let k = after(m, first);
    let n = run(k, ops);
    law_operations_keep_invariant(m, first);
    law_runs_keep_history(k, ops);
    assert(m.campaigns.contains_key(trading_addr));
    assert(k.campaigns.contains_key(trading_addr));
    assert(m.campaigns[trading_addr].inv());
    let i = m.campaigns[trading_addr].cur_epoch();
    let c = k.campaigns[trading_addr];
    let d = n.campaigns[trading_addr];
    assert(campaign_keeps(c, d));
    assert(epoch_keeps(c.epochs[i], d.epochs[i]));
    assert(c.epochs[i].votes.contains_key(committer_addr));
}

/// A stake is swept at most once: after an accepted sweep, and whatever was
/// done to the market since, every sweep of the same voter in the same
/// epoch is refused, and so is the question for the stake to seize; where
/// the market is enabled and the reveal period over, as a bad victim.
pub proof fn law_sweep_once(
    m: MarketView,
    trading_addr: Address,
    epoch_no: u64,
    victim_addr: Address,
    first: Operation,
    ops: Seq<Operation>,
    second: Operation,
)
    requires
        m.inv(),
        first matches Operation::Sweep { trading_addr: a, epoch_no: i, victim_addr: v, .. } && a
            == trading_addr && i == epoch_no && v == victim_addr,
        second matches Operation::Sweep { trading_addr: a, epoch_no: i, victim_addr: v, .. } && a
            == trading_addr && i == epoch_no && v == victim_addr,
        apply(m, first) is Ok,
    ensures
        ({
            let n = run(after(m, first), ops);
            let whinged = n.campaigns[trading_addr].epochs[epoch_no as int].when_whinged;
            &&& apply(n, second) is Err
            &&& sweep_stake_spec(n, trading_addr, epoch_no, victim_addr, second->Sweep_now) is Err
            &&& n.enabled && !within_spec(whinged, second->Sweep_now, FOUR_DAYS) ==> apply(n, second)
                == Err::<Step, Error>(Error::BadVictim)
        }),
{
    let k = after(m, first);
    let n = run(k, ops);
    law_operations_keep_invariant(m, first);
    law_runs_keep_history(k, ops);
    assert(m.campaigns.contains_key(trading_addr));
    assert(k.campaigns.contains_key(trading_addr));
    let c = k.campaigns[trading_addr];
    let d = n.campaigns[trading_addr];
    assert(campaign_keeps(c, d));
    assert(epoch_keeps(c.epochs[epoch_no as int], d.epochs[epoch_no as int]));
    assert(c.epochs[epoch_no as int].votes.contains_key(victim_addr));
}

/// A share of the pot is captured at most once: after an accepted capture,
/// and whatever was done to the market since, every capture by the same
/// voter in the same epoch is refused, though the pot may hold more; where
/// the market is enabled, as already claimed.
pub proof fn law_capture_once(
    m: MarketView,
    trading_addr: Address,
    epoch_no: u64,
    caller: Address,
    first: Operation,
    ops: Seq<Operation>,
    second: Operation,
)
    requires
        m.inv(),
        first matches Operation::Capture { trading_addr: a, epoch_no: i, caller: v, .. } && a
            == trading_addr && i == epoch_no && v == caller,
        second matches Operation::Capture { trading_addr: a, epoch_no: i, caller: v, .. } && a
            == trading_addr && i == epoch_no && v == caller,
        apply(m, first) is Ok,
    ensures
        ({
            let n = run(after(m, first), ops);
            &&& apply(n, second) is Err
            &&& n.enabled ==> apply(n, second) == Err::<Step, Error>(Error::PotAlreadyClaimed)
        }),
{
    let k = after(m, first);
    let n = run(k, ops);
    law_operations_keep_invariant(m, first);
    law_runs_keep_history(k, ops);
    assert(m.campaigns.contains_key(trading_addr));
    assert(k.campaigns.contains_key(trading_addr));
    let c = k.campaigns[trading_addr];
    let d = n.campaigns[trading_addr];
    assert(campaign_keeps(c, d));
    assert(epoch_keeps(c.epochs[epoch_no as int], d.epochs[epoch_no as int]));
    assert(c.epochs[epoch_no as int].votes.contains_key(caller));
}

/// The leader of the supplied outcomes is one of them, has weight, and no
/// other of them has more, nor as much under a smaller tag. Where there is
/// no leader, none of them has any weight.
pub proof fn law_leader_is_heaviest(t: Seq<TallyView>, supplied: Seq<Outcome>)
    ensures
        match leader(t, supplied) {
            Some(x) => {
                &&& t.contains(x)
                &&& supplied.contains(x.outcome)
                &&& x.weight > 0
                &&& lowest_weight(t, supplied) <= x.weight
                &&& forall|i: int|
                    0 <= i < t.len() && supplied.contains((#[trigger] t[i]).outcome) ==> t[i].weight
                        < x.weight || (t[i].weight == x.weight && x.outcome.tag
                        <= t[i].outcome.tag)
            },
            None => forall|i: int|
                0 <= i < t.len() && supplied.contains((#[trigger] t[i]).outcome) ==> t[i].weight
                    == 0,
        },
    decreases t.len(),
{
    if t.len() > 0 {
        let head = t.drop_last();
        law_leader_is_heaviest(head, supplied);
        assert forall|i: int| 0 <= i < head.len() implies head[i] == t[i] by {}
        match leader(t, supplied) {
            Some(x) => {
                if x == t.last() {
                    assert(t[t.len() - 1] == x);
                } else {
                    let j = choose|j: int| 0 <= j < head.len() && head[j] == x;
                    assert(t[j] == x);
                }
            },
            None => {},
        }
    }
}

/// What was revealed for the outcomes that were left out is no more than
/// what the supplied ones leave of the total.
proof fn lemma_left_out_bound(t: Seq<TallyView>, supplied: Seq<Outcome>, i: int)
    requires
        0 <= i < t.len(),
        !supplied.contains(t[i].outcome),
    ensures
        t[i].weight + supplied_weight(t, supplied) <= sum_weights(t),
    decreases t.len(),
{
    if i < t.len() - 1 {
        lemma_left_out_bound(t.drop_last(), supplied, i);
    } else {
        crate::epoch::lemma_supplied_le_sum(t.drop_last(), supplied);
    }
}

/// A declaration that is accepted on the strength of the outcomes supplied
/// names the outcome with the most weight of all: where the supplied
/// outcomes account for the vote and have a leader, no outcome at all, left
/// out or not, has more weight than the leader.
pub proof fn law_declared_winner_leads_all(e: EpochView, supplied: Seq<Outcome>)
    requires
        e.inv(),
        exhaustive(e, supplied),
        leader(e.tallies, supplied) is Some,
    ensures
        forall|i: int|
            0 <= i < e.tallies.len() ==> (#[trigger] e.tallies[i]).weight <= leader(
                e.tallies,
                supplied,
            )->0.weight,
{
    let t = e.tallies;
    law_leader_is_heaviest(t, supplied);
    assert forall|i: int| 0 <= i < t.len() implies (#[trigger] t[i]).weight <= leader(
        t,
        supplied,
    )->0.weight by {
        if !supplied.contains(t[i].outcome) {
            lemma_left_out_bound(t, supplied, i);
        }
    }
}

/// The period that the status reports is the period that the operations
/// enforce: in the period that it names, the operation of that period is
/// not refused for the time.
pub proof fn law_status_agrees_with_operations(
    m: MarketView,
    trading_addr: Address,
    now: u64,
    winner: Outcome,
    preferred_outcome: Outcome,
    commit: Bytes32,
    voter: Address,
    past_votes: nat,
    current_votes: nat,
    outcomes: Seq<Outcome>,
)
    requires
        m.inv(),
        status_spec(m, trading_addr, now) is Ok,
    ensures
        ({
            let code = status_spec(m, trading_addr, now)->Ok_0.0;
            let e = m.current(trading_addr);
            &&& code != InfraMarketState::Closed.code()
            &&& code == InfraMarketState::Callable.code() ==> call_refusal(
                m,
                trading_addr,
                winner,
                now,
            ) != Some(Error::CampaignAlreadyCalled)
            &&& code == InfraMarketState::Whinging.code() ==> whinge_refusal(
                m,
                trading_addr,
                preferred_outcome,
                now,
            ) == if e.what_called == preferred_outcome {
                Some(Error::CantWhingeCalled)
            } else {
                None
            }
            &&& code == InfraMarketState::Closable.code() ==> close_refusal(m, trading_addr, now)
                is None
            &&& code == InfraMarketState::Predicting.code() ==> predict_refusal(
                m,
                trading_addr,
                commit,
                voter,
                now,
                past_votes,
                current_votes,
            ) != Some(Error::PredictingNotStarted)
            &&& code == InfraMarketState::Revealing.code() ==> reveal_refusal(
                m,
                trading_addr,
                voter,
                commit,
                now,
                past_votes,
                current_votes,
            ) != Some(Error::NotInCommitReveal(e.when_whinged, now))
            &&& code == InfraMarketState::Declarable.code() ==> {
                let refusal = declare_refusal(m, trading_addr, outcomes, now);
                refusal is None || refusal == Some(Error::OutcomesEmpty) || refusal == Some(
                    Error::IncorrectSweepInvocation,
                )
            }
        }),
{
}

/// A voter commits at most once in an epoch: after an accepted commitment,
/// and whatever was done to the market since, every commitment by the same
/// voter in the same epoch is refused, and the digest on record stays.
pub proof fn law_commit_once(
    m: MarketView,
    trading_addr: Address,
    voter: Address,
    first: Operation,
    ops: Seq<Operation>,
    second: Operation,
)
    requires
        m.inv(),
        first matches Operation::Predict { trading_addr: a, caller: v, .. } && a == trading_addr
            && v == voter,
        second matches Operation::Predict { trading_addr: a, caller: v, .. } && a == trading_addr
            && v == voter,
        apply(m, first) is Ok,
        run(after(m, first), ops).campaigns[trading_addr].epochs.len()
            == m.campaigns[trading_addr].epochs.len(),
    ensures
        ({
            let n = run(after(m, first), ops);
            &&& apply(n, second) is Err
            &&& n.current(trading_addr).votes.contains_key(voter)
            &&& n.current(trading_addr).votes[voter].commitment == first->Predict_commit
        }),
{
    let k = after(m, first);
    let n = run(k, ops);
    law_operations_keep_invariant(m, first);
    law_runs_keep_history(k, ops);
    assert(m.campaigns.contains_key(trading_addr));
    assert(k.campaigns.contains_key(trading_addr));
    assert(m.campaigns[trading_addr].inv());
    let i = m.campaigns[trading_addr].cur_epoch();
    let c = k.campaigns[trading_addr];
    let d = n.campaigns[trading_addr];
    assert(campaign_keeps(c, d));
    assert(epoch_keeps(c.epochs[i], d.epochs[i]));
    assert(c.epochs[i].votes.contains_key(voter));
}

/// A campaign escapes at most once: after an accepted escape, and whatever
/// was done to the market since, every escape of the campaign is refused.
pub proof fn law_escape_once(
    m: MarketView,
    trading_addr: Address,
    first: Operation,
    ops: Seq<Operation>,
    second: Operation,
)
    requires
        m.inv(),
        first matches Operation::Escape { trading_addr: a, .. } && a == trading_addr,
        second matches Operation::Escape { trading_addr: a, .. } && a == trading_addr,
        apply(m, first) is Ok,
    ensures
        ({
            let n = run(after(m, first), ops);
            &&& apply(n, second) is Err
            &&& n.enabled ==> apply(n, second) == Err::<Step, Error>(Error::CannotEscape)
        }),
{
    let k = after(m, first);
    law_operations_keep_invariant(m, first);
    law_runs_keep_history(k, ops);
    assert(m.campaigns.contains_key(trading_addr));
    assert(k.campaigns.contains_key(trading_addr));
    assert(campaign_keeps(k.campaigns[trading_addr], run(k, ops).campaigns[trading_addr]));
}

/// Whether `actions` tell the campaign under `trading_addr` that `outcome` won.
pub open spec fn decides(
    actions: Seq<ActionView>,
    trading_addr: Address,
    outcome: Outcome,
) -> bool {
    exists|i: int|
        0 <= i < actions.len() && #[trigger] actions[i] == (ActionView::Decide {
            trading_addr,
            outcome,
        })
}

/// What is appended to some actions tells what either part tells.
proof fn lemma_decides_concat(
    a: Seq<ActionView>,
    b: Seq<ActionView>,
    trading_addr: Address,
    outcome: Outcome,
)
    ensures
        decides(a + b, trading_addr, outcome) == (decides(a, trading_addr, outcome) || decides(
            b,
            trading_addr,
            outcome,
        )),
{
    let told = ActionView::Decide { trading_addr, outcome };
    if decides(a + b, trading_addr, outcome) {
        let i = choose|i: int| 0 <= i < (a + b).len() && #[trigger] (a + b)[i] == told;
        if i < a.len() {
            assert(a[i] == told);
        } else {
            assert(b[i - a.len()] == told);
        }
    }
    if decides(a, trading_addr, outcome) {
        let i = choose|i: int| 0 <= i < a.len() && #[trigger] a[i] == told;
        assert((a + b)[i] == told);
    }
    if decides(b, trading_addr, outcome) {
        let i = choose|i: int| 0 <= i < b.len() && #[trigger] b[i] == told;
        assert((a + b)[i + a.len()] == told);
    }
}

/// What a close leaves to do tells the campaign that was closed, and no
/// other, that the called outcome won.
proof fn lemma_close_decides(
    zero_epoch: bool,
    dao_money: nat,
    e: EpochView,
    closed: Address,
    recipient: Address,
    trading_addr: Address,
    outcome: Outcome,
)
    requires
        decides(
            close_settlement(zero_epoch, dao_money, e, closed, recipient).actions,
            trading_addr,
            outcome,
        ),
    ensures
        trading_addr == closed,
        outcome == e.what_called,
{
    let pay_close = pays(zero_epoch, dao_money, INCENTIVE_AMT_CLOSE);
    let left = (dao_money - paid(pay_close, INCENTIVE_AMT_CLOSE)) as nat;
    let pay_call = pays(zero_epoch, left, INCENTIVE_AMT_CALL);
    let a = transfer_if(pay_close, recipient, INCENTIVE_AMT_CLOSE as nat);
    let b = seq![ActionView::Transfer { recipient: e.who_called, amount: BOND_FOR_CALL as nat }];
    let c = transfer_if(pay_call, e.who_called, INCENTIVE_AMT_CALL as nat);
    let d = seq![
        ActionView::Log {
            event: EventView::InfraMarketClosed {
                incentive_recipient: recipient,
                trading_addr: closed,
                winner: e.what_called,
            },
        },
        ActionView::Decide { trading_addr: closed, outcome: e.what_called },
    ];
    lemma_decides_concat(a + b + c, d, trading_addr, outcome);
    lemma_decides_concat(a + b, c, trading_addr, outcome);
    lemma_decides_concat(a, b, trading_addr, outcome);
}

/// What a declaration leaves to do tells the campaign whose winner was
/// declared, and no other, that the winner won.
proof fn lemma_declare_decides(
    zero_epoch: bool,
    dao_money: nat,
    e: EpochView,
    declared: Address,
    winner: Outcome,
    fee_recipient: Address,
    trading_addr: Address,
    outcome: Outcome,
)
    requires
        decides(
            declare_settlement(zero_epoch, dao_money, e, declared, winner, fee_recipient).actions,
            trading_addr,
            outcome,
        ),
    ensures
        trading_addr == declared,
        outcome == winner,
{
    let pay_call = pays(zero_epoch, dao_money, INCENTIVE_AMT_CALL);
    let left1 = (dao_money - paid(pay_call, INCENTIVE_AMT_CALL)) as nat;
    let bonds = BOND_FOR_WHINGE as nat + BOND_FOR_CALL as nat + paid(pay_call, INCENTIVE_AMT_CALL);
    let pay_declare = pays(zero_epoch, left1, INCENTIVE_AMT_DECLARE);
    let left2 = (left1 - paid(pay_declare, INCENTIVE_AMT_DECLARE)) as nat;
    let pay_close = pays(zero_epoch, left2, INCENTIVE_AMT_CLOSE);
    let a = transfer_if(winner == e.whinger_preferred_winner, e.who_whinged, bonds);
    let b = transfer_if(winner == e.what_called, e.who_called, bonds);
    let c = transfer_if(pay_declare, fee_recipient, INCENTIVE_AMT_DECLARE as nat);
    let d = transfer_if(pay_close, fee_recipient, INCENTIVE_AMT_CLOSE as nat);
    let f = seq![
        ActionView::Log {
            event: EventView::Declared { trading_addr: declared, winner, fee_recipient },
        },
    ];
    let g = if winner.is_zero() {
        Seq::<ActionView>::empty()
    } else {
        seq![ActionView::Decide { trading_addr: declared, outcome: winner }]
    };
    lemma_decides_concat(a + b + c + d + f, g, trading_addr, outcome);
    lemma_decides_concat(a + b + c + d, f, trading_addr, outcome);
    lemma_decides_concat(a + b + c, d, trading_addr, outcome);
    lemma_decides_concat(a + b, c, trading_addr, outcome);
    lemma_decides_concat(a, b, trading_addr, outcome);
}

/// A campaign is told of a winner only as an epoch gets its winner: an
/// accepted operation that tells a campaign of a winner is a close or a
/// declaration for that campaign, the campaign's current epoch had no winner
/// before, and has the winner that is told after. Since a winner is set
/// once, a campaign is told at most once in an epoch.
pub proof fn law_decision_is_told_as_the_winner_is_set(
    m: MarketView,
    op: Operation,
    trading_addr: Address,
    outcome: Outcome,
)
    requires
        m.inv(),
        apply(m, op) is Ok,
        decides(apply(m, op)->Ok_0.actions, trading_addr, outcome),
    ensures
        (op is Close && op->Close_trading_addr == trading_addr) || (op is Declare
            && op->Declare_trading_addr == trading_addr),
        m.registered(trading_addr),
        !m.current(trading_addr).winner_set,
        ({
            let e = after(m, op).campaigns[trading_addr].epochs[m.campaigns[trading_addr].cur_epoch()];
            e.winner_set && e.winner == outcome
        }),
{
    let actions = apply(m, op)->Ok_0.actions;
    let i = choose|i: int|
        0 <= i < actions.len() && #[trigger] actions[i] == (ActionView::Decide {
            trading_addr,
            outcome,
        });
    assert(actions[i] is Decide);
    match op {
        Operation::Close { trading_addr: a, fee_recipient, caller, now } => {
            let c = m.campaigns[a];
            assert(c.inv());
            lemma_close_decides(
                c.cur_epoch() == 0,
                m.dao_money,
                c.current(),
                a,
                recipient_or(fee_recipient, caller),
                trading_addr,
                outcome,
            );
        },
        Operation::Declare { trading_addr: a, outcomes, fee_recipient, now } => {
            let c = m.campaigns[a];
            assert(c.inv());
            lemma_declare_decides(
                c.cur_epoch() == 0,
                m.dao_money,
                c.current(),
                a,
                declared_winner(c.current(), outcomes),
                fee_recipient,
                trading_addr,
                outcome,
            );
        },
        _ => {},
    }
}

} // verus!
