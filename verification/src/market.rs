//! The market as it is stored, and its operations.
//!
//! Every operation takes what it needs of the world as arguments — the
//! sender, the time, a voter's stake — and hands back what is left to do
//! there. What it does to the market, and when it is refused, is stated by
//! its rule; the operation is proved to follow it.

use crate::action::{actions_view, Action, Event, Receipt};
use crate::campaign::{lemma_epoch_pushed, lemma_epoch_replaced, Campaign};
use crate::commitment::create_commit;
use crate::epoch::Epoch;
use crate::error::Error;
use crate::fees::{
    BOND_FOR_CALL, BOND_FOR_WHINGE, FEE_POT_INFRA_PCT, FEE_SCALING, INCENTIVE_AMT_CALL,
    INCENTIVE_AMT_CLOSE, INCENTIVE_AMT_DECLARE, INCENTIVE_AMT_TOTAL, SHARE_SCALING,
};
use crate::ident::{Address, Bytes32, Outcome};
use crate::keyed::{
    distinct_keys, has_key, key_index, keyed_map, lemma_keyed_absent, lemma_keyed_at,
    lemma_keyed_push, lemma_keyed_update, Keyed,
};
use crate::rules::{
    call_refusal, call_spec, call_step, close_refusal, close_settlement, close_spec, ctor_spec,
    ctor_step, cur_outcome_vested_arb_spec, enable_contract_spec, enable_contract_step,
    end_ts_spec, epochs_called, escape_refusal, escape_spec, escape_step, follows, gate,
    predict_refusal, predict_spec, predict_step, register_spec, register_step,
    reveal_digest_spec, reveal_refusal, reveal_spec, reveal_step, start_ts_spec, status_spec,
    transfer_if, whinge_refusal, whinge_spec, whinge_step, winner_spec,
};
use crate::settlement::{
    capture_amount, capture_refusal, capture_spec, capture_step, declare_refusal,
    declare_settlement, declare_spec, declare_step, declared_winner, stake_transfer, sweep_fee,
    sweep_refusal, sweep_spec, sweep_stake_refusal, sweep_stake_spec, sweep_step,
};
use crate::state::{CampaignView, MarketView};
use crate::timing::{classify, in_reveal_period, within, A_WEEK_SECS, FOUR_DAYS, TWO_DAYS};
use crate::uint::{checked_add, checked_div, checked_mul, checked_sub, lemma_below_limit, U256};
use vstd::prelude::*;

verus! {

/// The market.
#[derive(Clone, Debug)]
pub struct StorageInfraMarket {
    created: bool,
    enabled: bool,
    operator: Address,
    emergency_council: Address,
    lockup_addr: Address,
    locked_arb_token_addr: Address,
    factory_addr: Address,
    dao_money: U256,
    campaigns: Vec<Campaign>,
}

impl View for StorageInfraMarket {
    type V = MarketView;

    closed spec fn view(&self) -> MarketView {
        MarketView {
            created: self.created,
            enabled: self.enabled,
            operator: self.operator,
            emergency_council: self.emergency_council,
            lockup_addr: self.lockup_addr,
            locked_arb_token_addr: self.locked_arb_token_addr,
            factory_addr: self.factory_addr,
            dao_money: self.dao_money@,
            campaigns: keyed_map(self.campaigns@),
        }
    }
}

/// A list of campaigns in which one was replaced, under the same address,
/// stands for the old map with that campaign replaced.
proof fn lemma_campaign_replaced(pre: Seq<Campaign>, post: Seq<Campaign>, i: int)
    requires
        distinct_keys(pre),
        0 <= i < pre.len(),
        post.len() == pre.len(),
        forall|j: int| 0 <= j < pre.len() && j != i ==> post[j] == pre[j],
        post[i].trading_addr == pre[i].trading_addr,
    ensures
        distinct_keys(post),
        keyed_map(post) == keyed_map(pre).insert(pre[i].trading_addr, post[i]@),
{
    assert(post =~= pre.update(i, post[i]));
    lemma_keyed_update(pre, i, post[i]);
}

/// Appends `action`.
fn push_action(actions: &mut Vec<Action>, action: Action)
    ensures
        actions_view(final(actions)@) == actions_view(old(actions)@).push(action@),
{
    actions.push(action);
    assert(actions_view(actions@) =~= actions_view(old(actions)@).push(action@));
}

/// Appends a transfer of `amount` to `recipient` where `due`.
fn push_transfer_if(actions: &mut Vec<Action>, due: bool, recipient: Address, amount: U256)
    ensures
        actions_view(final(actions)@) == actions_view(old(actions)@) + transfer_if(
            due,
            recipient,
            amount@,
        ),
{
    if due {
        push_action(actions, Action::Transfer { recipient, amount });
    }
    assert(actions_view(actions@) =~= actions_view(old(actions)@) + transfer_if(
        due,
        recipient,
        amount@,
    ));
}

/// Appends a transfer of `amount` of staked token to `recipient` where the
/// amount is above zero.
fn push_stake_transfer(actions: &mut Vec<Action>, recipient: Address, amount: U256)
    ensures
        actions_view(final(actions)@) == actions_view(old(actions)@) + stake_transfer(
            recipient,
            amount@,
        ),
{
    if !amount.is_zero() {
        push_action(actions, Action::TransferStake { recipient, amount });
    }
    assert(actions_view(actions@) =~= actions_view(old(actions)@) + stake_transfer(
        recipient,
        amount@,
    ));
}

/// Takes an incentive of `amount` out of `dao_money` where the campaign is
/// in epoch 0 and the treasury holds it. Says whether it did.
fn draw_incentive(dao_money: &mut U256, zero_epoch: bool, amount: u64) -> (due: bool)
    ensures
        due == (zero_epoch && old(dao_money)@ >= amount),
        final(dao_money)@ == if due {
            old(dao_money)@ - amount
        } else {
            old(dao_money)@ as int
        },
{
    let incentive = U256::from_u64(amount);
    if zero_epoch && dao_money.ge(incentive) {
        *dao_money = checked_sub(*dao_money, incentive).unwrap();
        true
    } else {
        false
    }
}

/// Settles bonds and incentives at the declaration of `winner`.
fn settle_declaration(
    dao_money: &mut U256,
    zero_epoch: bool,
    e: &Epoch,
    trading_addr: Address,
    winner: Outcome,
    fee_recipient: Address,
) -> (r: Receipt)
    ensures
        final(dao_money)@ == declare_settlement(
            zero_epoch,
            old(dao_money)@,
            e@,
            trading_addr,
            winner,
            fee_recipient,
        ).dao_money,
        r@.amount == declare_settlement(
            zero_epoch,
            old(dao_money)@,
            e@,
            trading_addr,
            winner,
            fee_recipient,
        ).amount,
        r@.actions == declare_settlement(
            zero_epoch,
            old(dao_money)@,
            e@,
            trading_addr,
            winner,
            fee_recipient,
        ).actions,
{
    let mut actions: Vec<Action> = Vec::new();
    let pay_call = draw_incentive(dao_money, zero_epoch, INCENTIVE_AMT_CALL);
    let bonds: u64 = if pay_call {
        BOND_FOR_WHINGE + BOND_FOR_CALL + INCENTIVE_AMT_CALL
    } else {
        BOND_FOR_WHINGE + BOND_FOR_CALL
    };
    push_transfer_if(
        &mut actions,
        winner == e.whinger_preferred_winner,
        e.who_whinged,
        U256::from_u64(bonds),
    );
    push_transfer_if(&mut actions, winner == e.what_called, e.who_called, U256::from_u64(bonds));
    let pay_declare = draw_incentive(dao_money, zero_epoch, INCENTIVE_AMT_DECLARE);
    push_transfer_if(&mut actions, pay_declare, fee_recipient, U256::from_u64(INCENTIVE_AMT_DECLARE));
    let pay_close = draw_incentive(dao_money, zero_epoch, INCENTIVE_AMT_CLOSE);
    push_transfer_if(&mut actions, pay_close, fee_recipient, U256::from_u64(INCENTIVE_AMT_CLOSE));
    let mut paid_out: u64 = 0;
    if pay_declare {
        paid_out = paid_out + INCENTIVE_AMT_DECLARE;
    }
    if pay_close {
        paid_out = paid_out + INCENTIVE_AMT_CLOSE;
    }
    push_action(
        &mut actions,
        Action::Log { event: Event::Declared { trading_addr, winner, fee_recipient } },
    );
    if !winner.is_zero() {
        push_action(&mut actions, Action::Decide { trading_addr, outcome: winner });
    }
    assert(actions_view(actions@) =~= declare_settlement(
        zero_epoch,
        old(dao_money)@,
        e@,
        trading_addr,
        winner,
        fee_recipient,
    ).actions);
    Receipt { amount: U256::from_u64(paid_out), actions }
}

/// Settles bond and incentives at a close.
fn settle_close(
    dao_money: &mut U256,
    zero_epoch: bool,
    e: &Epoch,
    trading_addr: Address,
    recipient: Address,
) -> (r: Receipt)
    ensures
        final(dao_money)@ == close_settlement(
            zero_epoch,
            old(dao_money)@,
            e@,
            trading_addr,
            recipient,
        ).dao_money,
        r@.amount == close_settlement(zero_epoch, old(dao_money)@, e@, trading_addr, recipient).amount,
        r@.actions == close_settlement(
            zero_epoch,
            old(dao_money)@,
            e@,
            trading_addr,
            recipient,
        ).actions,
{
    let mut actions: Vec<Action> = Vec::new();
    let pay_close = draw_incentive(dao_money, zero_epoch, INCENTIVE_AMT_CLOSE);
    push_transfer_if(&mut actions, pay_close, recipient, U256::from_u64(INCENTIVE_AMT_CLOSE));
    push_action(
        &mut actions,
        Action::Transfer { recipient: e.who_called, amount: U256::from_u64(BOND_FOR_CALL) },
    );
    let pay_call = draw_incentive(dao_money, zero_epoch, INCENTIVE_AMT_CALL);
    push_transfer_if(&mut actions, pay_call, e.who_called, U256::from_u64(INCENTIVE_AMT_CALL));
    let mut paid_out: u64 = 0;
    if pay_close {
        paid_out = paid_out + INCENTIVE_AMT_CLOSE;
    }
    if pay_call {
        paid_out = paid_out + INCENTIVE_AMT_CALL;
    }
    push_action(
        &mut actions,
        Action::Log {
            event: Event::InfraMarketClosed {
                incentive_recipient: recipient,
                trading_addr,
                winner: e.what_called,
            },
        },
    );
    push_action(&mut actions, Action::Decide { trading_addr, outcome: e.what_called });
    assert(actions_view(actions@) =~= close_settlement(
        zero_epoch,
        old(dao_money)@,
        e@,
        trading_addr,
        recipient,
    ).actions);
    Receipt { amount: U256::from_u64(paid_out), actions }
}

/// A market in which one epoch of one campaign was replaced, and the
/// treasury perhaps drawn from, is as stored markets are, and its view is
/// the old view with that epoch and the treasury replaced.
proof fn lemma_epoch_step(pre: StorageInfraMarket, post: StorageInfraMarket, ci: int, ei: int)
    requires
        pre.wf(),
        0 <= ci < pre.campaigns@.len(),
        0 <= ei < pre.campaigns@[ci].epochs@.len(),
        post.campaigns@.len() == pre.campaigns@.len(),
        forall|j: int|
            0 <= j < pre.campaigns@.len() && j != ci ==> post.campaigns@[j] == pre.campaigns@[j],
        post.campaigns@[ci].trading_addr == pre.campaigns@[ci].trading_addr,
        post.campaigns@[ci].call_begins == pre.campaigns@[ci].call_begins,
        post.campaigns@[ci].call_deadline == pre.campaigns@[ci].call_deadline,
        post.campaigns@[ci].desc == pre.campaigns@[ci].desc,
        post.campaigns@[ci].escaped == pre.campaigns@[ci].escaped,
        post.campaigns@[ci].epochs@.len() == pre.campaigns@[ci].epochs@.len(),
        forall|k: int|
            0 <= k < pre.campaigns@[ci].epochs@.len() && k != ei ==> post.campaigns@[ci].epochs@[k]
                == pre.campaigns@[ci].epochs@[k],
        post.campaigns@[ci].epochs@[ei].wf(),
        ei < pre.campaigns@[ci].epochs@.len() - 1 ==> post.campaigns@[ci].epochs@[ei]@.inconclusive(),
        post.created == pre.created,
        post.enabled == pre.enabled,
        post.operator == pre.operator,
        post.emergency_council == pre.emergency_council,
        post.lockup_addr == pre.lockup_addr,
        post.locked_arb_token_addr == pre.locked_arb_token_addr,
        post.factory_addr == pre.factory_addr,
    ensures
        post.wf(),
        post@ == (MarketView {
            dao_money: post.dao_money@,
            ..pre@.with_epoch(
                pre.campaigns@[ci].trading_addr,
                ei,
                post.campaigns@[ci].epochs@[ei]@,
            )
        }),
{
    let c = pre.campaigns@[ci];
    let d = post.campaigns@[ci];
    lemma_campaign_replaced(pre.campaigns@, post.campaigns@, ci);
    lemma_epoch_replaced(c, d, ei);
    lemma_keyed_at(pre.campaigns@, ci);
    assert(c.wf());
    assert forall|k: int| 0 <= k < d.epochs@.len() implies (#[trigger] d.epochs@[k]).wf() by {
        if k != ei {
            assert(c.epochs@[k].wf());
        }
    }
    assert forall|k: int| 0 <= k < d@.epochs.len() implies (#[trigger] d@.epochs[k]).inv() by {
        assert(d.epochs@[k].wf());
    }
    assert forall|k: int| 0 <= k < d@.epochs.len() - 1 implies (#[trigger] d@.epochs[k]).inconclusive() by {
        if k != ei {
            assert(c@.epochs[k].inconclusive());
        }
    }
    assert forall|j: int| 0 <= j < post.campaigns@.len() implies (#[trigger] post.campaigns@[j]).wf()
        && !post.campaigns@[j].trading_addr.is_zero() by {
        if j != ci {
            assert(pre.campaigns@[j].wf());
        }
    }
}

/// A market in which one campaign was replaced, under the same address, is
/// as stored markets are, and its view is the old view with that campaign
/// replaced.
proof fn lemma_campaign_step(pre: StorageInfraMarket, post: StorageInfraMarket, ci: int)
    requires
        pre.wf(),
        0 <= ci < pre.campaigns@.len(),
        post.campaigns@.len() == pre.campaigns@.len(),
        forall|j: int|
            0 <= j < pre.campaigns@.len() && j != ci ==> post.campaigns@[j] == pre.campaigns@[j],
        post.campaigns@[ci].trading_addr == pre.campaigns@[ci].trading_addr,
        post.campaigns@[ci].wf(),
        post.created == pre.created,
        post.enabled == pre.enabled,
        post.operator == pre.operator,
        post.emergency_council == pre.emergency_council,
        post.lockup_addr == pre.lockup_addr,
        post.locked_arb_token_addr == pre.locked_arb_token_addr,
        post.factory_addr == pre.factory_addr,
        post.dao_money == pre.dao_money,
    ensures
        post.wf(),
        post@ == (MarketView {
            campaigns: pre@.campaigns.insert(pre.campaigns@[ci].trading_addr, post.campaigns@[ci]@),
            ..pre@
        }),
{
    lemma_campaign_replaced(pre.campaigns@, post.campaigns@, ci);
    assert forall|j: int| 0 <= j < post.campaigns@.len() implies (#[trigger] post.campaigns@[j]).wf()
        && !post.campaigns@[j].trading_addr.is_zero() by {
        if j != ci {
            assert(pre.campaigns@[j].wf());
        } else {
            assert(!pre.campaigns@[j].trading_addr.is_zero());
        }
    }
}

impl StorageInfraMarket {
    /// What holds of the stored market: no address has two campaigns, none
    /// is registered under the zero address, and each is as stored campaigns are.
    pub closed spec fn wf(&self) -> bool {
        &&& distinct_keys(self.campaigns@)
        &&& forall|i: int| 0 <= i < self.campaigns@.len() ==> (#[trigger] self.campaigns@[i]).wf()
        &&& forall|i: int|
            0 <= i < self.campaigns@.len() ==> !(#[trigger] self.campaigns@[i]).trading_addr.is_zero()
    }

    /// The view of a stored market is as every market is.
    pub proof fn lemma_inv(&self)
        requires
            self.wf(),
        ensures
            self@.inv(),
    {
        let s = self.campaigns@;
        assert forall|a: Address| #[trigger] self@.campaigns.contains_key(a) implies self@.campaigns[a].inv()
            && !a.is_zero() by {
            let i = key_index(s, a);
            lemma_keyed_at(s, i);
            assert(s[i].wf());
        }
        lemma_below_limit(self.dao_money);
    }

    /// The market before its construction: disabled, with no campaign.
    pub fn new() -> (r: StorageInfraMarket)
        ensures
            r.wf(),
            r@ == MarketView::empty(),
    {
        let r = StorageInfraMarket {
            created: false,
            enabled: false,
            operator: Address::zero(),
            emergency_council: Address::zero(),
            lockup_addr: Address::zero(),
            locked_arb_token_addr: Address::zero(),
            factory_addr: Address::zero(),
            dao_money: U256::zero(),
            campaigns: Vec::new(),
        };
        assert(r@.campaigns =~= Map::<Address, CampaignView>::empty());
        r
    }

    /// Where the campaign under `trading_addr` is stored, if one is registered.
    fn find(&self, trading_addr: Address) -> (r: Option<usize>)
        requires
            self.wf(),
        ensures
            r is Some == self@.registered(trading_addr),
            r matches Some(i) ==> i < self.campaigns@.len() && self.campaigns@[i as int].trading_addr
                == trading_addr && self@.campaigns[trading_addr] == self.campaigns@[i as int]@,
    {
        let mut i: usize = 0;
        while i < self.campaigns.len()
            invariant
                i <= self.campaigns.len(),
                self.wf(),
                forall|j: int| 0 <= j < i ==> (#[trigger] self.campaigns@[j]).key() != trading_addr,
            decreases self.campaigns.len() - i,
        {
            if self.campaigns[i].trading_addr == trading_addr {
                proof {
                    lemma_keyed_at(self.campaigns@, i as int);
                }
                return Some(i);
            }
            i = i + 1;
        }
        proof {
            lemma_keyed_absent(self.campaigns@, trading_addr);
        }
        None
    }

    /// Constructs the market: records the operator and the collaborators,
    /// and enables it. Accepted once.
    pub fn ctor(
        &mut self,
        operator: Address,
        emergency_council: Address,
        lockup_addr: Address,
        locked_arb_token_addr: Address,
        factory_addr: Address,
    ) -> (r: Result<Receipt, Error>)
        requires
            old(self).wf(),
        ensures
            final(self).wf(),
            follows(
                ctor_spec(
                    old(self)@,
                    operator,
                    emergency_council,
                    lockup_addr,
                    locked_arb_token_addr,
                    factory_addr,
                ),
                old(self)@,
                final(self)@,
                r,
            ),
    {
        if self.created {
            return Err(Error::AlreadyConstructed);
        }
        self.created = true;
        self.enabled = true;
        self.operator = operator;
        self.emergency_council = emergency_council;
        self.lockup_addr = lockup_addr;
        self.locked_arb_token_addr = locked_arb_token_addr;
        self.factory_addr = factory_addr;
        let mut actions: Vec<Action> = Vec::new();
        push_action(
            &mut actions,
            Action::Log { event: Event::InfraMarketEnabled { status: true } },
        );
        assert(actions_view(actions@) =~= ctor_step(
            old(self)@,
            operator,
            emergency_council,
            lockup_addr,
            locked_arb_token_addr,
            factory_addr,
        ).actions);
        Ok(Receipt { amount: U256::zero(), actions })
    }

    /// Enables or disables the market. Only the operator may.
    pub fn enable_contract(&mut self, status: bool, caller: Address) -> (r: Result<
        Receipt,
        Error,
    >)
        requires
            old(self).wf(),
        ensures
            final(self).wf(),
            follows(enable_contract_spec(old(self)@, status, caller), old(self)@, final(self)@, r),
    {
        if caller != self.operator {
            return Err(Error::NotOperator);
        }
        self.enabled = status;
        let mut actions: Vec<Action> = Vec::new();
        push_action(&mut actions, Action::Log { event: Event::InfraMarketEnabled { status } });
        assert(actions_view(actions@) =~= enable_contract_step(old(self)@, status).actions);
        Ok(Receipt { amount: U256::zero(), actions })
    }

    /// Registers a campaign under `trading_addr`, to be called between
    /// `launch_ts` and `call_deadline_ts`. The incentives are taken from the
    /// sender, `caller`, and the amount taken is reported.
    pub fn register(
        &mut self,
        trading_addr: Address,
        desc: Bytes32,
        launch_ts: u64,
        call_deadline_ts: u64,
        caller: Address,
    ) -> (r: Result<Receipt, Error>)
        requires
            old(self).wf(),
        ensures
            final(self).wf(),
            follows(
                register_spec(old(self)@, trading_addr, desc, launch_ts, call_deadline_ts, caller),
                old(self)@,
                final(self)@,
                r,
            ),
    {
        if !self.enabled {
            return Err(Error::NotEnabled);
        }
        if self.find(trading_addr).is_some() {
            return Err(Error::AlreadyRegistered);
        }
        if call_deadline_ts == 0 {
            return Err(Error::ZeroCallDeadline);
        }
        if trading_addr.is_zero() {
            return Err(Error::ZeroTradingAddr);
        }
        if desc.is_zero() {
            return Err(Error::ZeroDesc);
        }
        let amount = U256::from_u64(INCENTIVE_AMT_TOTAL);
        let dao_money = match checked_add(self.dao_money, amount) {
            Some(sum) => sum,
            None => {
                return Err(Error::CheckedAddOverflow);
            },
        };
        let campaign = Campaign::new(trading_addr, launch_ts, call_deadline_ts, desc);
        proof {
            assert(!has_key(self.campaigns@, trading_addr));
            lemma_keyed_push(self.campaigns@, campaign);
        }
        self.dao_money = dao_money;
        self.campaigns.push(campaign);
        let mut actions: Vec<Action> = Vec::new();
        push_action(&mut actions, Action::TakeFromSender { amount });
        push_action(
            &mut actions,
            Action::Log {
                event: Event::MarketCreated {
                    incentive_sender: caller,
                    trading_addr,
                    desc,
                    launch_ts,
                    call_deadline: call_deadline_ts,
                },
            },
        );
        assert(actions_view(actions@) =~= register_step(
            old(self)@,
            trading_addr,
            desc,
            launch_ts,
            call_deadline_ts,
            caller,
        ).actions);
        assert(self@.campaigns == old(self)@.campaigns.insert(trading_addr, campaign@));
        assert(self@.dao_money == old(self)@.dao_money + INCENTIVE_AMT_TOTAL);
        Ok(Receipt { amount, actions })
    }

    /// The winner of the campaign's current epoch.
    pub fn winner(&self, trading: Address) -> (r: Result<Outcome, Error>)
        requires
            self.wf(),
        ensures
            r == Ok::<Outcome, Error>(winner_spec(self@, trading)),
    {
        match self.find(trading) {
            Some(i) => {
                let c = &self.campaigns[i];
                Ok(c.epochs[c.cur_epoch()].winner)
            },
            None => Ok(Outcome::zero()),
        }
    }

    /// When the campaign launches.
    pub fn start_ts(&self, trading_addr: Address) -> (r: Result<u64, Error>)
        requires
            self.wf(),
        ensures
            r == Ok::<u64, Error>(start_ts_spec(self@, trading_addr)),
    {
        match self.find(trading_addr) {
            Some(i) => Ok(self.campaigns[i].call_begins),
            None => Ok(0),
        }
    }

    /// The campaign's call deadline.
    pub fn end_ts(&self, trading_addr: Address) -> (r: Result<u64, Error>)
        requires
            self.wf(),
        ensures
            r == Ok::<u64, Error>(end_ts_spec(self@, trading_addr)),
    {
        match self.find(trading_addr) {
            Some(i) => Ok(self.campaigns[i].call_deadline),
            None => Ok(0),
        }
    }

    /// The weight revealed for `outcome` in the campaign's current epoch.
    pub fn cur_outcome_vested_arb(&self, trading_addr: Address, outcome: Outcome) -> (r: Result<
        U256,
        Error,
    >)
        requires
            self.wf(),
        ensures
            r is Ok,
            r->Ok_0@ == cur_outcome_vested_arb_spec(self@, trading_addr, outcome),
    {
        match self.find(trading_addr) {
            Some(i) => {
                let c = &self.campaigns[i];
                Ok(c.epochs[c.cur_epoch()].weight_of(outcome))
            },
            None => Ok(U256::zero()),
        }
    }

    /// The period of the campaign's current round, by its code, and the
    /// seconds that are left of it.
    pub fn status(&self, trading_addr: Address, now: u64) -> (r: Result<(u8, u64), Error>)
        requires
            self.wf(),
        ensures
            r == status_spec(self@, trading_addr, now),
    {
        if !self.enabled {
            return Err(Error::NotEnabled);
        }
        let i = match self.find(trading_addr) {
            Some(i) => i,
            None => {
                return Err(Error::NotRegistered);
            },
        };
        let c = &self.campaigns[i];
        let e = &c.epochs[c.cur_epoch()];
        let (state, left) = if e.inconclusive() {
            classify(None, None, false, now, c.call_deadline)
        } else {
            let called = if e.who_called.is_zero() {
                None
            } else {
                Some(e.when_called)
            };
            let whinged = if e.who_whinged.is_zero() {
                None
            } else {
                Some(e.when_whinged)
            };
            classify(called, whinged, e.winner_set, now, c.call_deadline)
        };
        Ok((state.code(), left))
    }

    /// Whether the campaign under `a` is stored at `ci`, and has an epoch `ei`.
    closed spec fn located(&self, a: Address, ci: usize, ei: usize) -> bool {
        &&& ci < self.campaigns@.len()
        &&& self.campaigns@[ci as int].trading_addr == a
        &&& self@.registered(a)
        &&& self@.campaigns[a] == self.campaigns@[ci as int]@
        &&& ei < self.campaigns@[ci as int].epochs@.len()
    }

    /// Whether the campaign under `a` is stored at `ci`, with the current epoch `ei`.
    closed spec fn located_current(&self, a: Address, ci: usize, ei: usize) -> bool {
        &&& self.located(a, ci, ei)
        &&& ei == self.campaigns@[ci as int].epochs@.len() - 1
    }

    /// Finds the campaign under `trading_addr` and its current epoch, where
    /// the market is enabled and the campaign registered.
    fn enter(&self, trading_addr: Address) -> (r: Result<(usize, usize), Error>)
        requires
            self.wf(),
        ensures
            match gate(self@, trading_addr) {
                Some(cause) => r == Err::<(usize, usize), Error>(cause),
                None => r is Ok && self.located_current(trading_addr, r->Ok_0.0, r->Ok_0.1),
            },
    {
        if !self.enabled {
            return Err(Error::NotEnabled);
        }
        match self.find(trading_addr) {
            Some(ci) => Ok((ci, self.campaigns[ci].cur_epoch())),
            None => Err(Error::NotRegistered),
        }
    }

    /// Makes the checks of a declaration, and finds the winner.
    fn declare_check(&self, trading_addr: Address, outcomes: &Vec<Outcome>, now: u64) -> (r: Result<
        (usize, usize, Outcome),
        Error,
    >)
        requires
            self.wf(),
        ensures
            match declare_refusal(self@, trading_addr, outcomes@, now) {
                Some(cause) => r == Err::<(usize, usize, Outcome), Error>(cause),
                None => r is Ok && self.located_current(trading_addr, r->Ok_0.0, r->Ok_0.1)
                    && r->Ok_0.2 == declared_winner(self@.current(trading_addr), outcomes@),
            },
    {
        let (ci, ei) = match self.enter(trading_addr) {
            Ok(at) => at,
            Err(cause) => {
                return Err(cause);
            },
        };
        let e = &self.campaigns[ci].epochs[ei];
        if e.who_whinged.is_zero() {
            return Err(Error::WhingedTimeUnset);
        }
        if within(e.when_whinged, now, FOUR_DAYS) {
            return Err(Error::NotReadyToDeclare);
        }
        if e.winner_set {
            return Err(Error::CampaignWinnerSet);
        }
        if outcomes.len() == 0 {
            return Err(Error::OutcomesEmpty);
        }
        let (supplied, lowest, best) = e.scan(outcomes);
        proof {
            crate::epoch::lemma_supplied_le_sum(e@.tallies, outcomes@);
        }
        let left_out = checked_sub(e.total_revealed_weight, supplied).unwrap();
        if lowest.lt(left_out) {
            return Err(Error::IncorrectSweepInvocation);
        }
        match best {
            Some(t) => Ok((ci, ei, t.outcome)),
            None => Ok((ci, ei, e.whinger_preferred_winner)),
        }
    }

    /// Records the declared winner and settles bonds and incentives.
    fn declare_apply(
        &mut self,
        ci: usize,
        ei: usize,
        trading_addr: Address,
        winner: Outcome,
        fee_recipient: Address,
    ) -> (r: Receipt)
        requires
            old(self).wf(),
            old(self).located_current(trading_addr, ci, ei),
        ensures
            final(self).wf(),
            final(self)@ == declare_step(old(self)@, trading_addr, winner, fee_recipient).market,
            r@.amount == declare_step(old(self)@, trading_addr, winner, fee_recipient).amount,
            r@.actions == declare_step(old(self)@, trading_addr, winner, fee_recipient).actions,
    {
        let mut dao_money = self.dao_money;
        let r = settle_declaration(
            &mut dao_money,
            ei == 0,
            &self.campaigns[ci].epochs[ei],
            trading_addr,
            winner,
            fee_recipient,
        );
        self.dao_money = dao_money;
        self.campaigns[ci].epochs[ei].declare(winner);
        proof {
            lemma_epoch_step(*old(self), *self, ci as int, ei as int);
        }
        r
    }

    /// Declares the winner of the campaign's current epoch from the tallies
    /// of the `outcomes` supplied, after the reveal period. Reports what was
    /// paid to `fee_recipient`.
    pub fn declare(
        &mut self,
        trading_addr: Address,
        outcomes: Vec<Outcome>,
        fee_recipient: Address,
        now: u64,
    ) -> (r: Result<Receipt, Error>)
        requires
            old(self).wf(),
        ensures
            final(self).wf(),
            follows(
                declare_spec(old(self)@, trading_addr, outcomes@, fee_recipient, now),
                old(self)@,
                final(self)@,
                r,
            ),
    {
        match self.declare_check(trading_addr, &outcomes, now) {
            Ok((ci, ei, winner)) => Ok(
                self.declare_apply(ci, ei, trading_addr, winner, fee_recipient),
            ),
            Err(cause) => Err(cause),
        }
    }
    /// Makes the checks of a reveal.
    fn reveal_check(
        &self,
        trading_addr: Address,
        committer_addr: Address,
        digest: Bytes32,
        now: u64,
        past_votes: U256,
        current_votes: U256,
    ) -> (r: Result<(usize, usize), Error>)
        requires
            self.wf(),
        ensures
            match reveal_refusal(
                self@,
                trading_addr,
                committer_addr,
                digest,
                now,
                past_votes@,
                current_votes@,
            ) {
                Some(cause) => r == Err::<(usize, usize), Error>(cause),
                None => r is Ok && self.located_current(trading_addr, r->Ok_0.0, r->Ok_0.1),
            },
    {
        let (ci, ei) = match self.enter(trading_addr) {
            Ok(at) => at,
            Err(cause) => {
                return Err(cause);
            },
        };
        let e = &self.campaigns[ci].epochs[ei];
        if e.who_whinged.is_zero() || !in_reveal_period(e.when_whinged, now) {
            return Err(Error::NotInCommitReveal(e.when_whinged, now));
        }
        match e.vote_of(committer_addr) {
            None => {
                return Err(Error::CommitNotTheSame);
            },
            Some(v) => {
                if v.revealed {
                    return Err(Error::AlreadyRevealed);
                }
                if v.commitment != digest {
                    return Err(Error::CommitNotTheSame);
                }
            },
        }
        if current_votes.lt(past_votes) {
            return Err(Error::StakedArbUnusual);
        }
        if checked_add(e.total_revealed_weight, past_votes).is_none() {
            return Err(Error::CheckedAddOverflow);
        }
        Ok((ci, ei))
    }

    /// Reveals the prediction of `committer_addr` in the campaign's current
    /// epoch, where `digest` is the digest of what is disclosed: it must be
    /// the voter's commitment. `past_votes` is the voter's stake when the
    /// campaign launched, `current_votes` the voter's stake now.
    pub fn reveal_digest(
        &mut self,
        trading_addr: Address,
        committer_addr: Address,
        outcome: Outcome,
        digest: Bytes32,
        caller: Address,
        now: u64,
        past_votes: U256,
        current_votes: U256,
    ) -> (r: Result<Receipt, Error>)
        requires
            old(self).wf(),
        ensures
            final(self).wf(),
            follows(
                reveal_digest_spec(
                    old(self)@,
                    trading_addr,
                    committer_addr,
                    outcome,
                    digest,
                    caller,
                    now,
                    past_votes@,
                    current_votes@,
                ),
                old(self)@,
                final(self)@,
                r,
            ),
    {
        let (ci, ei) = match self.reveal_check(
            trading_addr,
            committer_addr,
            digest,
            now,
            past_votes,
            current_votes,
        ) {
            Ok(at) => at,
            Err(cause) => {
                return Err(cause);
            },
        };
        self.campaigns[ci].epochs[ei].record_reveal(committer_addr, outcome, past_votes);
        proof {
            lemma_epoch_step(*old(self), *self, ci as int, ei as int);
        }
        let mut actions: Vec<Action> = Vec::new();
        push_action(
            &mut actions,
            Action::Log {
                event: Event::CommitmentRevealed {
                    trading_addr,
                    revealer: committer_addr,
                    caller,
                    outcome,
                    bal: past_votes,
                },
            },
        );
        assert(actions_view(actions@) =~= reveal_step(
            old(self)@,
            trading_addr,
            committer_addr,
            outcome,
            caller,
            past_votes@,
        ).actions);
        Ok(Receipt { amount: U256::zero(), actions })
    }

    /// Reveals the prediction of `committer_addr` in the campaign's current
    /// epoch: `outcome` and `seed` must reproduce the voter's commitment.
    /// `past_votes` is the voter's stake when the campaign launched and
    /// becomes the weight of the vote; `current_votes` is the voter's stake now.
    pub fn reveal_commitment(
        &mut self,
        trading_addr: Address,
        committer_addr: Address,
        outcome: Outcome,
        seed: U256,
        caller: Address,
        now: u64,
        past_votes: U256,
        current_votes: U256,
    ) -> (r: Result<Receipt, Error>)
        requires
            old(self).wf(),
        ensures
            final(self).wf(),
            follows(
                reveal_spec(
                    old(self)@,
                    trading_addr,
                    committer_addr,
                    outcome,
                    seed,
                    caller,
                    now,
                    past_votes@,
                    current_votes@,
                ),
                old(self)@,
                final(self)@,
                r,
            ),
    {
        let digest = create_commit(committer_addr, outcome, seed);
        self.reveal_digest(
            trading_addr,
            committer_addr,
            outcome,
            digest,
            caller,
            now,
            past_votes,
            current_votes,
        )
    }

    /// Makes the checks of a close.
    fn close_check(&self, trading_addr: Address, now: u64) -> (r: Result<(usize, usize), Error>)
        requires
            self.wf(),
        ensures
            match close_refusal(self@, trading_addr, now) {
                Some(cause) => r == Err::<(usize, usize), Error>(cause),
                None => r is Ok && self.located_current(trading_addr, r->Ok_0.0, r->Ok_0.1),
            },
    {
        let (ci, ei) = match self.enter(trading_addr) {
            Ok(at) => at,
            Err(cause) => {
                return Err(cause);
            },
        };
        let e = &self.campaigns[ci].epochs[ei];
        if !e.who_whinged.is_zero() {
            return Err(Error::SomeoneWhinged);
        }
        if within(e.when_called, now, TWO_DAYS) {
            return Err(Error::NotAfterWhinging);
        }
        if e.who_called.is_zero() {
            return Err(Error::CampaignZeroCaller);
        }
        if e.winner_set {
            return Err(Error::WinnerAlreadyDeclared);
        }
        Ok((ci, ei))
    }

    /// Closes the campaign's current epoch, whose call nobody whinged about
    /// in its whinging period: the called outcome wins. Reports what was
    /// paid in incentives.
    pub fn close(
        &mut self,
        trading_addr: Address,
        fee_recipient: Address,
        caller: Address,
        now: u64,
    ) -> (r: Result<Receipt, Error>)
        requires
            old(self).wf(),
        ensures
            final(self).wf(),
            follows(
                close_spec(old(self)@, trading_addr, fee_recipient, caller, now),
                old(self)@,
                final(self)@,
                r,
            ),
    {
        let (ci, ei) = match self.close_check(trading_addr, now) {
            Ok(at) => at,
            Err(cause) => {
                return Err(cause);
            },
        };
        let recipient = if fee_recipient.is_zero() {
            caller
        } else {
            fee_recipient
        };
        let mut dao_money = self.dao_money;
        let r = settle_close(
            &mut dao_money,
            ei == 0,
            &self.campaigns[ci].epochs[ei],
            trading_addr,
            recipient,
        );
        self.dao_money = dao_money;
        self.campaigns[ci].epochs[ei].close();
        proof {
            lemma_epoch_step(*old(self), *self, ci as int, ei as int);
        }
        Ok(r)
    }

    /// Makes the checks of a whinge.
    fn whinge_check(
        &self,
        trading_addr: Address,
        preferred_outcome: Outcome,
        now: u64,
    ) -> (r: Result<(usize, usize), Error>)
        requires
            self.wf(),
        ensures
            match whinge_refusal(self@, trading_addr, preferred_outcome, now) {
                Some(cause) => r == Err::<(usize, usize), Error>(cause),
                None => r is Ok && self.located_current(trading_addr, r->Ok_0.0, r->Ok_0.1),
            },
    {
        let (ci, ei) = match self.enter(trading_addr) {
            Ok(at) => at,
            Err(cause) => {
                return Err(cause);
            },
        };
        let e = &self.campaigns[ci].epochs[ei];
        if e.who_called.is_zero() || !within(e.when_called, now, TWO_DAYS) {
            return Err(Error::NotInWhingingPeriod);
        }
        if e.what_called == preferred_outcome {
            return Err(Error::CantWhingeCalled);
        }
        if !e.who_whinged.is_zero() {
            return Err(Error::AlreadyWhinged);
        }
        Ok((ci, ei))
    }

    /// Whinges about the call of the campaign's current epoch, inside its
    /// whinging period, in favour of `preferred_outcome`. The bond is taken
    /// from the sender, `caller`, and its amount is reported.
    pub fn whinge(
        &mut self,
        trading_addr: Address,
        preferred_outcome: Outcome,
        bond_recipient: Address,
        caller: Address,
        now: u64,
    ) -> (r: Result<Receipt, Error>)
        requires
            old(self).wf(),
        ensures
            final(self).wf(),
            follows(
                whinge_spec(old(self)@, trading_addr, preferred_outcome, bond_recipient, caller, now),
                old(self)@,
                final(self)@,
                r,
            ),
    {
        let (ci, ei) = match self.whinge_check(trading_addr, preferred_outcome, now) {
            Ok(at) => at,
            Err(cause) => {
                return Err(cause);
            },
        };
        let who = if bond_recipient.is_zero() {
            caller
        } else {
            bond_recipient
        };
        self.campaigns[ci].epochs[ei].record_whinge(who, now, preferred_outcome);
        proof {
            lemma_epoch_step(*old(self), *self, ci as int, ei as int);
        }
        let amount = U256::from_u64(BOND_FOR_WHINGE);
        let mut actions: Vec<Action> = Vec::new();
        push_action(&mut actions, Action::TakeFromSender { amount });
        push_action(
            &mut actions,
            Action::Log {
                event: Event::Whinged { trading_addr, preferred_outcome, bond_recipient: who },
            },
        );
        assert(actions_view(actions@) =~= whinge_step(
            old(self)@,
            trading_addr,
            preferred_outcome,
            bond_recipient,
            caller,
            now,
        ).actions);
        Ok(Receipt { amount, actions })
    }

    /// Makes the checks of a commitment.
    fn predict_check(
        &self,
        trading_addr: Address,
        commit: Bytes32,
        caller: Address,
        now: u64,
        past_votes: U256,
        current_votes: U256,
    ) -> (r: Result<(usize, usize), Error>)
        requires
            self.wf(),
        ensures
            match predict_refusal(
                self@,
                trading_addr,
                commit,
                caller,
                now,
                past_votes@,
                current_votes@,
            ) {
                Some(cause) => r == Err::<(usize, usize), Error>(cause),
                None => r is Ok && self.located_current(trading_addr, r->Ok_0.0, r->Ok_0.1),
            },
    {
        let (ci, ei) = match self.enter(trading_addr) {
            Ok(at) => at,
            Err(cause) => {
                return Err(cause);
            },
        };
        let e = &self.campaigns[ci].epochs[ei];
        if e.who_whinged.is_zero() || !within(e.when_whinged, now, TWO_DAYS) {
            return Err(Error::PredictingNotStarted);
        }
        if past_votes.is_zero() {
            return Err(Error::ZeroBal);
        }
        if current_votes.lt(past_votes) {
            return Err(Error::StakedArbUnusual);
        }
        if e.vote_of(caller).is_some() {
            return Err(Error::AlreadyCommitted);
        }
        if commit.is_zero() {
            return Err(Error::NotAllowedZeroCommit);
        }
        if now > u64::MAX - A_WEEK_SECS {
            return Err(Error::CheckedAddOverflow);
        }
        Ok((ci, ei))
    }

    /// Commits the sender, `caller`, to the prediction behind `commit`, in
    /// the predicting period of the campaign's current epoch. `past_votes`
    /// is the sender's stake when the campaign launched, `current_votes` the
    /// stake now.
    pub fn predict(
        &mut self,
        trading_addr: Address,
        commit: Bytes32,
        caller: Address,
        now: u64,
        past_votes: U256,
        current_votes: U256,
    ) -> (r: Result<Receipt, Error>)
        requires
            old(self).wf(),
        ensures
            final(self).wf(),
            follows(
                predict_spec(
                    old(self)@,
                    trading_addr,
                    commit,
                    caller,
                    now,
                    past_votes@,
                    current_votes@,
                ),
                old(self)@,
                final(self)@,
                r,
            ),
    {
        let (ci, ei) = match self.predict_check(
            trading_addr,
            commit,
            caller,
            now,
            past_votes,
            current_votes,
        ) {
            Ok(at) => at,
            Err(cause) => {
                return Err(cause);
            },
        };
        self.campaigns[ci].epochs[ei].commit(caller, commit);
        proof {
            lemma_epoch_step(*old(self), *self, ci as int, ei as int);
        }
        let mut actions: Vec<Action> = Vec::new();
        push_action(&mut actions, Action::Freeze { holder: caller, until: now + A_WEEK_SECS });
        push_action(
            &mut actions,
            Action::Log {
                event: Event::Committed { trading_addr, predictor: caller, commitment: commit },
            },
        );
        assert(actions_view(actions@) =~= predict_step(
            old(self)@,
            trading_addr,
            commit,
            caller,
            now,
        ).actions);
        Ok(Receipt { amount: U256::zero(), actions })
    }
    /// Finds epoch `epoch_no` of the campaign under `trading_addr`, where the
    /// market is enabled, the campaign registered and the epoch reached.
    fn enter_epoch(&self, trading_addr: Address, epoch_no: u64) -> (r: Result<
        (usize, usize),
        Error,
    >)
        requires
            self.wf(),
        ensures
            match gate(self@, trading_addr) {
                Some(cause) => r == Err::<(usize, usize), Error>(cause),
                None => if epoch_no >= self@.campaigns[trading_addr].epochs.len() {
                    r == Err::<(usize, usize), Error>(Error::InvalidEpoch)
                } else {
                    r is Ok && self.located(trading_addr, r->Ok_0.0, r->Ok_0.1) && r->Ok_0.1
                        == epoch_no
                },
            },
    {
        let (ci, last) = match self.enter(trading_addr) {
            Ok(at) => at,
            Err(cause) => {
                return Err(cause);
            },
        };
        if epoch_no > last as u64 {
            return Err(Error::InvalidEpoch);
        }
        Ok((ci, epoch_no as usize))
    }

    /// Makes the checks on the victim of a sweep, and finds the stake to seize.
    fn sweep_locate(
        &self,
        trading_addr: Address,
        epoch_no: u64,
        victim_addr: Address,
        now: u64,
    ) -> (r: Result<(usize, usize, U256), Error>)
        requires
            self.wf(),
        ensures
            match sweep_stake_refusal(self@, trading_addr, epoch_no, victim_addr, now) {
                Some(cause) => r == Err::<(usize, usize, U256), Error>(cause),
                None => r is Ok && self.located(trading_addr, r->Ok_0.0, r->Ok_0.1) && r->Ok_0.1
                    == epoch_no && r->Ok_0.2@
                    == self@.campaigns[trading_addr].epochs[epoch_no as int].votes[victim_addr].weight,
            },
    {
        let (ci, ei) = match self.enter_epoch(trading_addr, epoch_no) {
            Ok(at) => at,
            Err(cause) => {
                return Err(cause);
            },
        };
        let e = &self.campaigns[ci].epochs[ei];
        if e.who_whinged.is_zero() {
            return Err(Error::WhingedTimeUnset);
        }
        if !e.winner_set {
            return Err(Error::WinnerUnset);
        }
        if within(e.when_whinged, now, FOUR_DAYS) {
            return Err(Error::NotInsideSweepingPeriod);
        }
        match e.vote_of(victim_addr) {
            None => Err(Error::BadVictim),
            Some(v) => {
                if v.weight.is_zero() || v.swept || v.outcome == e.winner {
                    Err(Error::BadVictim)
                } else {
                    Ok((ci, ei, v.weight))
                }
            },
        }
    }

    /// The stake to seize of `victim_addr` before a sweep: the weight of the
    /// victim's vote in epoch `epoch_no`, where the vote was for another
    /// outcome than the winner and was not swept before.
    pub fn sweep_stake(
        &self,
        trading_addr: Address,
        epoch_no: u64,
        victim_addr: Address,
        now: u64,
    ) -> (r: Result<U256, Error>)
        requires
            self.wf(),
        ensures
            match sweep_stake_spec(self@, trading_addr, epoch_no, victim_addr, now) {
                Ok(stake) => r is Ok && r->Ok_0@ == stake,
                Err(cause) => r == Err::<U256, Error>(cause),
            },
    {
        match self.sweep_locate(trading_addr, epoch_no, victim_addr, now) {
            Ok((_, _, stake)) => Ok(stake),
            Err(cause) => Err(cause),
        }
    }

    /// Makes the checks of a sweep, and splits what was seized into the
    /// sweeper's part and the part for the pot.
    fn sweep_check(
        &self,
        trading_addr: Address,
        epoch_no: u64,
        victim_addr: Address,
        now: u64,
        seized: U256,
    ) -> (r: Result<(usize, usize, U256, U256), Error>)
        requires
            self.wf(),
        ensures
            match sweep_refusal(self@, trading_addr, epoch_no, victim_addr, now, seized@) {
                Some(cause) => r == Err::<(usize, usize, U256, U256), Error>(cause),
                None => r is Ok && self.located(trading_addr, r->Ok_0.0, r->Ok_0.1) && r->Ok_0.1
                    == epoch_no && r->Ok_0.2@ == sweep_fee(seized@) && r->Ok_0.3@ == seized@
                    - sweep_fee(seized@),
            },
    {
        let (ci, ei, _) = match self.sweep_locate(trading_addr, epoch_no, victim_addr, now) {
            Ok(at) => at,
            Err(cause) => {
                return Err(cause);
            },
        };
        let scaled = match checked_mul(seized, U256::from_u64(FEE_POT_INFRA_PCT)) {
            Some(p) => p,
            None => {
                return Err(Error::CheckedMulOverflow);
            },
        };
        let fee = checked_div(scaled, U256::from_u64(FEE_SCALING)).unwrap();
        assert(seized@ * 100 / 1000 <= seized@) by (nonlinear_arith);
        let rest = checked_sub(seized, fee).unwrap();
        if checked_add(self.campaigns[ci].epochs[ei].pot_existing, rest).is_none() {
            return Err(Error::CheckedAddOverflow);
        }
        Ok((ci, ei, fee, rest))
    }

    /// Sweeps the stake of `victim_addr`, who predicted wrongly in epoch
    /// `epoch_no`, into the pot of that epoch, once `seized` was seized of
    /// it. The sweeper's part goes to `fee_recipient_addr` and is reported.
    pub fn sweep(
        &mut self,
        trading_addr: Address,
        epoch_no: u64,
        victim_addr: Address,
        fee_recipient_addr: Address,
        now: u64,
        seized: U256,
    ) -> (r: Result<Receipt, Error>)
        requires
            old(self).wf(),
        ensures
            final(self).wf(),
            follows(
                sweep_spec(
                    old(self)@,
                    trading_addr,
                    epoch_no,
                    victim_addr,
                    fee_recipient_addr,
                    now,
                    seized@,
                ),
                old(self)@,
                final(self)@,
                r,
            ),
    {
        let (ci, ei, fee, rest) = match self.sweep_check(
            trading_addr,
            epoch_no,
            victim_addr,
            now,
            seized,
        ) {
            Ok(found) => found,
            Err(cause) => {
                return Err(cause);
            },
        };
        proof {
            let c = self.campaigns@[ci as int];
            assert(c.wf());
            assert(c.epochs@[ei as int].wf());
            assert(c@.epochs[ei as int] == c.epochs@[ei as int]@);
            assert(c.epochs@[ei as int]@.votes[victim_addr].inv());
            if ei < c.epochs@.len() - 1 {
                assert(c@.epochs[ei as int].inconclusive());
            }
        }
        self.campaigns[ci].epochs[ei].sweep(victim_addr, rest);
        proof {
            lemma_epoch_step(*old(self), *self, ci as int, ei as int);
        }
        let mut actions: Vec<Action> = Vec::new();
        push_stake_transfer(&mut actions, fee_recipient_addr, fee);
        assert(actions_view(actions@) =~= sweep_step(
            old(self)@,
            trading_addr,
            epoch_no,
            victim_addr,
            fee_recipient_addr,
            seized@,
        ).actions);
        Ok(Receipt { amount: fee, actions })
    }

    /// Makes the checks of a capture, and finds what it pays.
    fn capture_check(&self, trading_addr: Address, epoch_no: u64, caller: Address) -> (r: Result<
        (usize, usize, U256),
        Error,
    >)
        requires
            self.wf(),
        ensures
            match capture_refusal(self@, trading_addr, epoch_no, caller) {
                Some(cause) => r == Err::<(usize, usize, U256), Error>(cause),
                None => r is Ok && self.located(trading_addr, r->Ok_0.0, r->Ok_0.1) && r->Ok_0.1
                    == epoch_no && r->Ok_0.2@ == capture_amount(
                    self@.campaigns[trading_addr].epochs[epoch_no as int],
                    caller,
                ),
            },
    {
        let (ci, ei) = match self.enter_epoch(trading_addr, epoch_no) {
            Ok(at) => at,
            Err(cause) => {
                return Err(cause);
            },
        };
        proof {
            assert(self.campaigns@[ci as int].wf());
            assert(self.campaigns@[ci as int].epochs@[ei as int].wf());
        }
        let e = &self.campaigns[ci].epochs[ei];
        if !e.winner_set {
            return Err(Error::WinnerUnset);
        }
        let v = match e.vote_of(caller) {
            Some(v) => v,
            None => {
                return Err(Error::NotWinner);
            },
        };
        if !v.revealed || v.outcome != e.winner {
            return Err(Error::NotWinner);
        }
        if v.claimed {
            return Err(Error::PotAlreadyClaimed);
        }
        let scaling = U256::from_u64(SHARE_SCALING);
        let scaled = match checked_mul(v.weight, scaling) {
            Some(p) => p,
            None => {
                return Err(Error::CheckedMulOverflow);
            },
        };
        let part = match checked_div(scaled, e.weight_of(e.winner)) {
            Some(q) => q,
            None => {
                return Err(Error::CheckedDivOverflow);
            },
        };
        let gross = match checked_mul(e.pot_existing, part) {
            Some(p) => p,
            None => {
                return Err(Error::CheckedMulOverflow);
            },
        };
        let share = checked_div(gross, scaling).unwrap();
        if share.gt(e.pot_outstanding) {
            Ok((ci, ei, e.pot_outstanding))
        } else {
            Ok((ci, ei, share))
        }
    }

    /// Captures the share of the sender, `caller`, of the pot of epoch
    /// `epoch_no`, whose winner the sender revealed. What is paid goes to
    /// `fee_recipient` and is reported.
    pub fn capture(
        &mut self,
        trading_addr: Address,
        epoch_no: u64,
        fee_recipient: Address,
        caller: Address,
    ) -> (r: Result<Receipt, Error>)
        requires
            old(self).wf(),
        ensures
            final(self).wf(),
            follows(
                capture_spec(old(self)@, trading_addr, epoch_no, fee_recipient, caller),
                old(self)@,
                final(self)@,
                r,
            ),
    {
        let (ci, ei, amount) = match self.capture_check(trading_addr, epoch_no, caller) {
            Ok(found) => found,
            Err(cause) => {
                return Err(cause);
            },
        };
        proof {
            let c = self.campaigns@[ci as int];
            assert(c.wf());
            assert(c.epochs@[ei as int].wf());
            assert(c@.epochs[ei as int] == c.epochs@[ei as int]@);
            if ei < c.epochs@.len() - 1 {
                assert(c@.epochs[ei as int].inconclusive());
            }
        }
        self.campaigns[ci].epochs[ei].capture(caller, amount);
        proof {
            lemma_epoch_step(*old(self), *self, ci as int, ei as int);
        }
        let mut actions: Vec<Action> = Vec::new();
        push_stake_transfer(&mut actions, fee_recipient, amount);
        assert(actions_view(actions@) =~= capture_step(
            old(self)@,
            trading_addr,
            epoch_no,
            fee_recipient,
            caller,
        ).actions);
        Ok(Receipt { amount, actions })
    }

    /// Makes the checks of a call.
    fn call_check(&self, trading_addr: Address, winner: Outcome, now: u64) -> (r: Result<
        (usize, usize),
        Error,
    >)
        requires
            self.wf(),
        ensures
            match call_refusal(self@, trading_addr, winner, now) {
                Some(cause) => r == Err::<(usize, usize), Error>(cause),
                None => r is Ok && self.located_current(trading_addr, r->Ok_0.0, r->Ok_0.1),
            },
    {
        let (ci, ei) = match self.enter(trading_addr) {
            Ok(at) => at,
            Err(cause) => {
                return Err(cause);
            },
        };
        let c = &self.campaigns[ci];
        if now < c.call_begins {
            return Err(Error::NotInsideCallingPeriod);
        }
        if now > c.call_deadline {
            return Err(Error::PastCallingDeadline);
        }
        if winner.is_zero() {
            return Err(Error::BadWinner);
        }
        if !c.epochs[ei].inconclusive() && !c.epochs[ei].who_called.is_zero() {
            return Err(Error::CampaignAlreadyCalled);
        }
        Ok((ci, ei))
    }

    /// Records a call where the checks have passed: in the next epoch where
    /// the current one resolved to the inconclusive outcome, else in the
    /// current one.
    fn call_apply(
        &mut self,
        ci: usize,
        ei: usize,
        trading_addr: Address,
        who: Address,
        now: u64,
        winner: Outcome,
    )
        requires
            old(self).wf(),
            old(self).located_current(trading_addr, ci, ei),
        ensures
            final(self).wf(),
            final(self)@ == (MarketView {
                campaigns: old(self)@.campaigns.insert(
                    trading_addr,
                    CampaignView {
                        epochs: epochs_called(old(self)@.campaigns[trading_addr], who, now, winner),
                        ..old(self)@.campaigns[trading_addr]
                    },
                ),
                ..old(self)@
            }),
    {
        proof {
            assert(self.campaigns@[ci as int].wf());
            assert(self.campaigns@[ci as int].epochs@[ei as int].wf());
        }
        if self.campaigns[ci].epochs[ei].inconclusive() {
            let mut next = Epoch::new();
            next.record_call(who, now, winner);
            self.campaigns[ci].epochs.push(next);
            proof {
                let c = old(self).campaigns@[ci as int];
                let d = self.campaigns@[ci as int];
                lemma_epoch_pushed(c, d);
                assert forall|k: int| 0 <= k < d.epochs@.len() implies (#[trigger] d.epochs@[k]).wf() by {
                    if k < c.epochs@.len() {
                        assert(c.epochs@[k].wf());
                    }
                }
                assert forall|k: int| 0 <= k < d@.epochs.len() implies (#[trigger] d@.epochs[k]).inv() by {
                    assert(d.epochs@[k].wf());
                }
                assert forall|k: int| 0 <= k < d@.epochs.len() - 1 implies (
                #[trigger] d@.epochs[k]).inconclusive() by {
                    assert(d@.epochs[k] == c@.epochs[k]);
                    if k < c@.epochs.len() - 1 {
                        assert(c@.epochs[k].inconclusive());
                    }
                }
                lemma_campaign_step(*old(self), *self, ci as int);
            }
        } else {
            self.campaigns[ci].epochs[ei].record_call(who, now, winner);
            proof {
                lemma_epoch_step(*old(self), *self, ci as int, ei as int);
            }
        }
    }

    /// Calls `winner` as the outcome of the campaign, between its launch and
    /// its deadline. The bond is taken from the sender, `caller`, and its
    /// amount is reported.
    pub fn call(
        &mut self,
        trading_addr: Address,
        winner: Outcome,
        incentive_recipient: Address,
        caller: Address,
        now: u64,
    ) -> (r: Result<Receipt, Error>)
        requires
            old(self).wf(),
        ensures
            final(self).wf(),
            follows(
                call_spec(old(self)@, trading_addr, winner, incentive_recipient, caller, now),
                old(self)@,
                final(self)@,
                r,
            ),
    {
        let (ci, ei) = match self.call_check(trading_addr, winner, now) {
            Ok(at) => at,
            Err(cause) => {
                return Err(cause);
            },
        };
        let who = if incentive_recipient.is_zero() {
            caller
        } else {
            incentive_recipient
        };
        self.call_apply(ci, ei, trading_addr, who, now, winner);
        let amount = U256::from_u64(BOND_FOR_CALL);
        let mut actions: Vec<Action> = Vec::new();
        push_action(&mut actions, Action::TakeFromSender { amount });
        push_action(
            &mut actions,
            Action::Log {
                event: Event::CallMade { trading_addr, winner, incentive_recipient: who },
            },
        );
        assert(actions_view(actions@) =~= call_step(
            old(self)@,
            trading_addr,
            winner,
            incentive_recipient,
            caller,
            now,
        ).actions);
        Ok(Receipt { amount, actions })
    }

    /// Makes the checks of an escape.
    fn escape_check(&self, trading_addr: Address, now: u64) -> (r: Result<(usize, usize), Error>)
        requires
            self.wf(),
        ensures
            match escape_refusal(self@, trading_addr, now) {
                Some(cause) => r == Err::<(usize, usize), Error>(cause),
                None => r is Ok && self.located_current(trading_addr, r->Ok_0.0, r->Ok_0.1),
            },
    {
        let (ci, ei) = match self.enter(trading_addr) {
            Ok(at) => at,
            Err(cause) => {
                return Err(cause);
            },
        };
        let c = &self.campaigns[ci];
        let e = &c.epochs[ei];
        if c.call_deadline < now && !c.escaped && (e.inconclusive() || e.what_called.is_zero()) {
            Ok((ci, ei))
        } else {
            Err(Error::CannotEscape)
        }
    }

    /// Lets the campaign escape: its deadline has passed, and nothing was
    /// called or the call came to nothing.
    pub fn escape(&mut self, trading_addr: Address, now: u64) -> (r: Result<Receipt, Error>)
        requires
            old(self).wf(),
        ensures
            final(self).wf(),
            follows(escape_spec(old(self)@, trading_addr, now), old(self)@, final(self)@, r),
    {
        let (ci, _) = match self.escape_check(trading_addr, now) {
            Ok(at) => at,
            Err(cause) => {
                return Err(cause);
            },
        };
        self.campaigns[ci].escaped = true;
        proof {
            let c = old(self).campaigns@[ci as int];
            let d = self.campaigns@[ci as int];
            assert(c.wf());
            assert(d@.epochs == c@.epochs);
            assert forall|k: int| 0 <= k < d.epochs@.len() implies (#[trigger] d.epochs@[k]).wf() by {
                assert(c.epochs@[k].wf());
            }
            lemma_campaign_step(*old(self), *self, ci as int);
        }
        let mut actions: Vec<Action> = Vec::new();
        push_action(&mut actions, Action::Escape { trading_addr });
        push_action(&mut actions, Action::Log { event: Event::CampaignEscaped { trading_addr } });
        assert(actions_view(actions@) =~= escape_step(old(self)@, trading_addr).actions);
        Ok(Receipt { amount: U256::zero(), actions })
    }
    /// Whether the market is enabled.
    pub fn is_enabled(&self) -> (r: bool)
        ensures
            r == self@.enabled,
    {
        self.enabled
    }

    /// Who may enable and disable the market.
    pub fn operator(&self) -> (r: Address)
        ensures
            r == self@.operator,
    {
        self.operator
    }

    /// The stake registrar that freezes and seizes stake.
    pub fn lockup_addr(&self) -> (r: Address)
        ensures
            r == self@.lockup_addr,
    {
        self.lockup_addr
    }

    /// The token in which stake is held.
    pub fn locked_arb_token_addr(&self) -> (r: Address)
        ensures
            r == self@.locked_arb_token_addr,
    {
        self.locked_arb_token_addr
    }

    /// The emergency council.
    pub fn emergency_council(&self) -> (r: Address)
        ensures
            r == self@.emergency_council,
    {
        self.emergency_council
    }

    /// The factory of campaigns.
    pub fn factory_addr(&self) -> (r: Address)
        ensures
            r == self@.factory_addr,
    {
        self.factory_addr
    }

    /// What the treasury holds.
    pub fn dao_money(&self) -> (r: U256)
        ensures
            r@ == self@.dao_money,
    {
        self.dao_money
    }

    /// The campaign under `trading_addr`, if one is registered.
    pub fn campaign(&self, trading_addr: Address) -> (r: Option<&Campaign>)
        requires
            self.wf(),
        ensures
            r is Some == self@.registered(trading_addr),
            r is Some ==> r->0@ == self@.campaigns[trading_addr] && r->0.wf(),
    {
        match self.find(trading_addr) {
            Some(i) => Some(&self.campaigns[i]),
            None => None,
        }
    }

    /// The number of the campaign's current epoch; zero where there is no campaign.
    pub fn cur_epoch(&self, trading_addr: Address) -> (r: u64)
        requires
            self.wf(),
        ensures
            r == if self@.registered(trading_addr) {
                self@.campaigns[trading_addr].cur_epoch()
            } else {
                0
            },
    {
        match self.find(trading_addr) {
            Some(i) => self.campaigns[i].cur_epoch() as u64,
            None => 0,
        }
    }
}

} // verus!
