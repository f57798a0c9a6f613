//! The market as a mathematical value: what is recorded, and what always
//! holds of it.

use crate::ident::{Address, Bytes32, Outcome};
use crate::uint::limit;
use vstd::prelude::*;

verus! {

/// What an epoch records of one voter. A voter has a record from the
/// commitment on.
pub struct VoteView {
    /// The digest that the voter committed to.
    pub commitment: Bytes32,
    /// Whether the voter has revealed.
    pub revealed: bool,
    /// The outcome that the voter revealed.
    pub outcome: Outcome,
    /// The weight that was locked in at the reveal.
    pub weight: nat,
    /// Whether the voter's stake was seized for a wrong prediction.
    pub swept: bool,
    /// Whether the voter has claimed a share of the pot.
    pub claimed: bool,
}

/// The weight that was revealed for one outcome.
pub struct TallyView {
    pub outcome: Outcome,
    pub weight: nat,
}

/// One round of a campaign.
pub struct EpochView {
    /// Who called the outcome; the zero address where nobody has, or the call was consumed.
    pub who_called: Address,
    pub when_called: u64,
    pub what_called: Outcome,
    /// Who whinged about the call; the zero address where nobody has.
    pub who_whinged: Address,
    pub when_whinged: u64,
    pub whinger_preferred_winner: Outcome,
    pub winner_set: bool,
    pub winner: Outcome,
    pub votes: Map<Address, VoteView>,
    /// The outcomes that weight was revealed for, in the order of their first reveal.
    pub tallies: Seq<TallyView>,
    pub total_revealed_weight: nat,
    pub pot_existing: nat,
    pub pot_outstanding: nat,
}

/// A registered campaign.
pub struct CampaignView {
    pub call_begins: u64,
    pub call_deadline: u64,
    pub desc: Bytes32,
    pub escaped: bool,
    /// The epochs so far; the last is the current one.
    pub epochs: Seq<EpochView>,
}

/// The market.
pub struct MarketView {
    pub created: bool,
    pub enabled: bool,
    pub operator: Address,
    pub emergency_council: Address,
    pub lockup_addr: Address,
    pub locked_arb_token_addr: Address,
    pub factory_addr: Address,
    /// The treasury that incentives are paid from.
    pub dao_money: nat,
    pub campaigns: Map<Address, CampaignView>,
}

/// The sum of the weights of all tallies.
pub open spec fn sum_weights(t: Seq<TallyView>) -> nat
    decreases t.len(),
{
    if t.len() == 0 {
        0
    } else {
        sum_weights(t.drop_last()) + t.last().weight
    }
}

/// Whether weight was revealed for `o`.
pub open spec fn has_tally(t: Seq<TallyView>, o: Outcome) -> bool {
    exists|i: int| 0 <= i < t.len() && (#[trigger] t[i]).outcome == o
}

/// Where the tally of `o` stands.
pub open spec fn tally_index(t: Seq<TallyView>, o: Outcome) -> int {
    choose|i: int| 0 <= i < t.len() && (#[trigger] t[i]).outcome == o
}

/// The weight that was revealed for `o`.
pub open spec fn outcome_weight(t: Seq<TallyView>, o: Outcome) -> nat {
    if has_tally(t, o) {
        t[tally_index(t, o)].weight
    } else {
        0
    }
}

/// No outcome has two tallies.
pub open spec fn distinct_outcomes(t: Seq<TallyView>) -> bool {
    forall|i: int, j: int|
        0 <= i < j < t.len() ==> (#[trigger] t[i]).outcome != (#[trigger] t[j]).outcome
}

/// The tallies after `w` more was revealed for `o`.
pub open spec fn credit(t: Seq<TallyView>, o: Outcome, w: nat) -> Seq<TallyView> {
    if has_tally(t, o) {
        let i = tally_index(t, o);
        t.update(i, TallyView { outcome: o, weight: t[i].weight + w })
    } else {
        t.push(TallyView { outcome: o, weight: w })
    }
}

impl VoteView {
    /// The record that a commitment opens.
    pub open spec fn committed(commitment: Bytes32) -> VoteView {
        VoteView {
            commitment,
            revealed: false,
            outcome: Outcome { tag: 0 },
            weight: 0,
            swept: false,
            claimed: false,
        }
    }

    /// A record holds a commitment, and nothing more before the reveal.
    pub open spec fn inv(self) -> bool {
        &&& !self.commitment.is_zero()
        &&& !self.revealed ==> self.weight == 0 && !self.swept && !self.claimed
    }
}

impl EpochView {
    /// An epoch in which nothing has happened.
    pub open spec fn fresh() -> EpochView {
        EpochView {
            who_called: Address { hi: 0, mid: 0, lo: 0 },
            when_called: 0,
            what_called: Outcome { tag: 0 },
            who_whinged: Address { hi: 0, mid: 0, lo: 0 },
            when_whinged: 0,
            whinger_preferred_winner: Outcome { tag: 0 },
            winner_set: false,
            winner: Outcome { tag: 0 },
            votes: Map::empty(),
            tallies: Seq::empty(),
            total_revealed_weight: 0,
            pot_existing: 0,
            pot_outstanding: 0,
        }
    }

    /// Whether the epoch resolved to the inconclusive outcome.
    pub open spec fn inconclusive(self) -> bool {
        self.winner_set && self.winner.is_zero()
    }

    /// What holds of every epoch: the total revealed weight is the sum of
    /// the tallies, the pot was not drawn below zero, and only revealed
    /// votes carry weight.
    pub open spec fn inv(self) -> bool {
        &&& distinct_outcomes(self.tallies)
        &&& self.total_revealed_weight == sum_weights(self.tallies)
        &&& self.pot_outstanding <= self.pot_existing
        &&& forall|v: Address| #[trigger] self.votes.contains_key(v) ==> self.votes[v].inv()
    }
}

impl CampaignView {
    /// The campaign as it is registered.
    pub open spec fn registered(
        call_begins: u64,
        call_deadline: u64,
        desc: Bytes32,
    ) -> CampaignView {
        CampaignView {
            call_begins,
            call_deadline,
            desc,
            escaped: false,
            epochs: seq![EpochView::fresh()],
        }
    }

    /// The number of the current epoch.
    pub open spec fn cur_epoch(self) -> int {
        self.epochs.len() - 1
    }

    /// The current epoch.
    pub open spec fn current(self) -> EpochView {
        self.epochs[self.epochs.len() - 1]
    }

    /// The campaign with epoch `i` replaced.
    pub open spec fn with_epoch(self, i: int, e: EpochView) -> CampaignView {
        CampaignView { epochs: self.epochs.update(i, e), ..self }
    }

    /// What holds of every campaign: it has a deadline and a description, and
    /// every epoch before the current one resolved to the inconclusive outcome.
    pub open spec fn inv(self) -> bool {
        &&& self.call_deadline != 0
        &&& !self.desc.is_zero()
        &&& self.epochs.len() >= 1
        &&& forall|i: int| 0 <= i < self.epochs.len() ==> (#[trigger] self.epochs[i]).inv()
        &&& forall|i: int|
            0 <= i < self.epochs.len() - 1 ==> (#[trigger] self.epochs[i]).inconclusive()
    }
}

impl MarketView {
    /// The market before its construction.
    pub open spec fn empty() -> MarketView {
        MarketView {
            created: false,
            enabled: false,
            operator: Address { hi: 0, mid: 0, lo: 0 },
            emergency_council: Address { hi: 0, mid: 0, lo: 0 },
            lockup_addr: Address { hi: 0, mid: 0, lo: 0 },
            locked_arb_token_addr: Address { hi: 0, mid: 0, lo: 0 },
            factory_addr: Address { hi: 0, mid: 0, lo: 0 },
            dao_money: 0,
            campaigns: Map::empty(),
        }
    }

    /// Whether a campaign is registered under `a`.
    pub open spec fn registered(self, a: Address) -> bool {
        self.campaigns.contains_key(a)
    }

    /// The current epoch of the campaign under `a`.
    pub open spec fn current(self, a: Address) -> EpochView {
        self.campaigns[a].current()
    }

    /// The market with epoch `i` of the campaign under `a` replaced.
    pub open spec fn with_epoch(self, a: Address, i: int, e: EpochView) -> MarketView {
        MarketView {
            campaigns: self.campaigns.insert(a, self.campaigns[a].with_epoch(i, e)),
            ..self
        }
    }

    /// The market with the current epoch of the campaign under `a` replaced.
    pub open spec fn with_current(self, a: Address, e: EpochView) -> MarketView {
        self.with_epoch(a, self.campaigns[a].cur_epoch(), e)
    }

    /// What holds of the market at every point.
    pub open spec fn inv(self) -> bool {
        &&& forall|a: Address| #[trigger] self.campaigns.contains_key(a) ==> self.campaigns[a].inv()
        &&& !self.campaigns.contains_key(Address { hi: 0, mid: 0, lo: 0 })
        &&& self.dao_money < limit()
    }
}

/// Replacing a tally changes the sum by the difference of the weights.
pub proof fn lemma_sum_update(t: Seq<TallyView>, i: int, x: TallyView)
    requires
        0 <= i < t.len(),
    ensures
        sum_weights(t.update(i, x)) + t[i].weight == sum_weights(t) + x.weight,
    decreases t.len(),
{
    let u = t.update(i, x);
    if i == t.len() - 1 {
        assert(u.drop_last() =~= t.drop_last());
    } else {
        lemma_sum_update(t.drop_last(), i, x);
        assert(u.drop_last() =~= t.drop_last().update(i, x));
    }
}

/// No tally is above the sum of all.
pub proof fn lemma_sum_bounds(t: Seq<TallyView>, i: int)
    requires
        0 <= i < t.len(),
    ensures
        t[i].weight <= sum_weights(t),
    decreases t.len(),
{
    if i < t.len() - 1 {
        lemma_sum_bounds(t.drop_last(), i);
    }
}

/// Where no outcome has two tallies, the tally of an outcome is the one that names it.
pub proof fn lemma_tally_index(t: Seq<TallyView>, i: int)
    requires
        distinct_outcomes(t),
        0 <= i < t.len(),
    ensures
        has_tally(t, t[i].outcome),
        tally_index(t, t[i].outcome) == i,
        outcome_weight(t, t[i].outcome) == t[i].weight,
{
    let o = t[i].outcome;
    let j = tally_index(t, o);
    assert(0 <= j < t.len() && t[j].outcome == o);
    if j != i {
        if j < i {
            assert(t[j].outcome != t[i].outcome);
        } else {
            assert(t[i].outcome != t[j].outcome);
        }
    }
}

/// Crediting an outcome adds to its weight and to the sum, leaves every
/// other weight as it was, and gives no outcome a second tally.
pub proof fn lemma_credit(t: Seq<TallyView>, o: Outcome, w: nat)
    requires
        distinct_outcomes(t),
    ensures
        distinct_outcomes(credit(t, o, w)),
        sum_weights(credit(t, o, w)) == sum_weights(t) + w,
        outcome_weight(credit(t, o, w), o) == outcome_weight(t, o) + w,
        forall|p: Outcome| p != o ==> outcome_weight(credit(t, o, w), p) == outcome_weight(t, p),
{
    let c = credit(t, o, w);
    if has_tally(t, o) {
        let i = tally_index(t, o);
        lemma_sum_update(t, i, TallyView { outcome: o, weight: t[i].weight + w });
        assert forall|a: int, b: int| 0 <= a < b < c.len() implies (#[trigger] c[a]).outcome != (
        #[trigger] c[b]).outcome by {
            assert(t[a].outcome != t[b].outcome);
        }
        assert(c[i].outcome == o);
        lemma_tally_index(c, i);
        assert forall|p: Outcome| p != o implies outcome_weight(c, p) == outcome_weight(t, p) by {
            lemma_credit_other(t, c, p);
        }
    } else {
        assert(c.drop_last() =~= t);
        assert forall|a: int, b: int| 0 <= a < b < c.len() implies (#[trigger] c[a]).outcome != (
        #[trigger] c[b]).outcome by {
            if b < t.len() {
                assert(t[a].outcome != t[b].outcome);
            } else {
                assert(t[a].outcome != o);
            }
        }
        assert(c[t.len() as int].outcome == o);
        lemma_tally_index(c, t.len() as int);
        assert forall|p: Outcome| p != o implies outcome_weight(c, p) == outcome_weight(t, p) by {
            lemma_credit_other(t, c, p);
        }
    }
}

/// Two lists of tallies that agree on the tallies of `p` give `p` the same weight.
pub proof fn lemma_credit_other(t: Seq<TallyView>, c: Seq<TallyView>, p: Outcome)
    requires
        distinct_outcomes(t),
        distinct_outcomes(c),
        t.len() <= c.len(),
        forall|i: int| 0 <= i < t.len() ==> (#[trigger] t[i]).outcome == c[i].outcome,
        forall|i: int| 0 <= i < t.len() && (#[trigger] t[i]).outcome == p ==> t[i] == c[i],
        forall|i: int| t.len() <= i < c.len() ==> (#[trigger] c[i]).outcome != p,
    ensures
        outcome_weight(c, p) == outcome_weight(t, p),
{
    if has_tally(t, p) {
        let i = tally_index(t, p);
        assert(c[i].outcome == p);
        lemma_tally_index(c, i);
        lemma_tally_index(t, i);
    } else {
        if has_tally(c, p) {
            let j = tally_index(c, p);
            assert(j < t.len());
            assert(t[j].outcome == p);
        }
    }
}

} // verus!
