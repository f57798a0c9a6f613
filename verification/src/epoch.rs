//! One round of a campaign, as it is stored.

use crate::ident::{Address, Bytes32, Outcome};
use crate::keyed::{
    distinct_keys, keyed_map, lemma_keyed_absent, lemma_keyed_at, lemma_keyed_push,
    lemma_keyed_update, Keyed,
};
use crate::rules::{epoch_called, epoch_closed, epoch_revealed, epoch_whinged};
use crate::settlement::{
    beats, epoch_captured, epoch_declared, epoch_swept, leader, lowest_weight, supplied_weight,
};
use crate::state::{
    credit, lemma_credit, lemma_sum_bounds, lemma_tally_index, outcome_weight, sum_weights,
    EpochView, TallyView, VoteView,
};
use crate::uint::{checked_add, checked_sub, lemma_below_limit, limit, U256};
use vstd::prelude::*;

verus! {

/// What an epoch records of one voter.
#[derive(Clone, Copy, Debug, PartialEq, Eq, Structural)]
pub struct Vote {
    pub commitment: Bytes32,
    pub revealed: bool,
    pub outcome: Outcome,
    pub weight: U256,
    pub swept: bool,
    pub claimed: bool,
}

/// A voter and what the epoch records of the voter.
#[derive(Clone, Copy, Debug, PartialEq, Eq, Structural)]
pub struct Ballot {
    pub voter: Address,
    pub vote: Vote,
}

/// The weight that was revealed for one outcome.
#[derive(Clone, Copy, Debug, PartialEq, Eq, Structural)]
pub struct Tally {
    pub outcome: Outcome,
    pub weight: U256,
}

/// One round of a campaign.
#[derive(Clone, Debug)]
pub struct Epoch {
    pub who_called: Address,
    pub when_called: u64,
    pub what_called: Outcome,
    pub who_whinged: Address,
    pub when_whinged: u64,
    pub whinger_preferred_winner: Outcome,
    pub winner_set: bool,
    pub winner: Outcome,
    pub ballots: Vec<Ballot>,
    pub tallies: Vec<Tally>,
    pub total_revealed_weight: U256,
    pub pot_existing: U256,
    pub pot_outstanding: U256,
}

impl View for Vote {
    type V = VoteView;

    open spec fn view(&self) -> VoteView {
        VoteView {
            commitment: self.commitment,
            revealed: self.revealed,
            outcome: self.outcome,
            weight: self.weight@,
            swept: self.swept,
            claimed: self.claimed,
        }
    }
}

impl View for Ballot {
    type V = VoteView;

    open spec fn view(&self) -> VoteView {
        self.vote@
    }
}

impl Keyed for Ballot {
    open spec fn key(&self) -> Address {
        self.voter
    }
}

impl View for Tally {
    type V = TallyView;

    open spec fn view(&self) -> TallyView {
        TallyView { outcome: self.outcome, weight: self.weight@ }
    }
}

/// The views of a list of tallies, in order.
pub open spec fn tallies_view(t: Seq<Tally>) -> Seq<TallyView> {
    Seq::new(t.len(), |i: int| t[i]@)
}

/// The view of a tally, if there is one.
pub open spec fn tally_view(t: Option<Tally>) -> Option<TallyView> {
    match t {
        Some(x) => Some(x@),
        None => None,
    }
}

impl View for Epoch {
    type V = EpochView;

    open spec fn view(&self) -> EpochView {
        EpochView {
            who_called: self.who_called,
            when_called: self.when_called,
            what_called: self.what_called,
            who_whinged: self.who_whinged,
            when_whinged: self.when_whinged,
            whinger_preferred_winner: self.whinger_preferred_winner,
            winner_set: self.winner_set,
            winner: self.winner,
            votes: keyed_map(self.ballots@),
            tallies: tallies_view(self.tallies@),
            total_revealed_weight: self.total_revealed_weight@,
            pot_existing: self.pot_existing@,
            pot_outstanding: self.pot_outstanding@,
        }
    }
}

/// The supplied weight of some tallies is no more than their sum.
pub proof fn lemma_supplied_le_sum(t: Seq<TallyView>, supplied: Seq<Outcome>)
    ensures
        supplied_weight(t, supplied) <= sum_weights(t),
    decreases t.len(),
{
    if t.len() > 0 {
        lemma_supplied_le_sum(t.drop_last(), supplied);
    }
}

/// The sum of the first tallies is no more than the sum of all.
pub proof fn lemma_sum_take(t: Seq<TallyView>, n: int)
    requires
        0 <= n <= t.len(),
    ensures
        sum_weights(t.take(n)) <= sum_weights(t),
    decreases t.len(),
{
    if n < t.len() {
        lemma_sum_take(t.drop_last(), n);
        assert(t.drop_last().take(n) =~= t.take(n));
    } else {
        assert(t.take(n) =~= t);
    }
}

/// Whether `o` is among `outcomes`.
pub fn contains_outcome(outcomes: &Vec<Outcome>, o: Outcome) -> (r: bool)
    ensures
        r == outcomes@.contains(o),
{
    let mut i: usize = 0;
    while i < outcomes.len()
        invariant
            i <= outcomes.len(),
            forall|j: int| 0 <= j < i ==> outcomes@[j] != o,
        decreases outcomes.len() - i,
    {
        if outcomes[i] == o {
            return true;
        }
        i = i + 1;
    }
    false
}

impl Epoch {
    /// What holds of every stored epoch: no voter has two ballots, and the
    /// epoch's view is as every epoch is.
    pub open spec fn wf(&self) -> bool {
        &&& distinct_keys(self.ballots@)
        &&& self@.inv()
    }

    /// An epoch in which nothing has happened.
    pub fn new() -> (r: Epoch)
        ensures
            r.wf(),
            r@ == EpochView::fresh(),
    {
        let r = Epoch {
            who_called: Address::zero(),
            when_called: 0,
            what_called: Outcome::zero(),
            who_whinged: Address::zero(),
            when_whinged: 0,
            whinger_preferred_winner: Outcome::zero(),
            winner_set: false,
            winner: Outcome::zero(),
            ballots: Vec::new(),
            tallies: Vec::new(),
            total_revealed_weight: U256::zero(),
            pot_existing: U256::zero(),
            pot_outstanding: U256::zero(),
        };
        proof {
            assert(r@.votes =~= Map::<Address, VoteView>::empty());
            assert(r@.tallies =~= Seq::<TallyView>::empty());
        }
        r
    }

    /// Whether the epoch resolved to the inconclusive outcome.
    pub fn inconclusive(&self) -> (r: bool)
        ensures
            r == self@.inconclusive(),
    {
        self.winner_set && self.winner.is_zero()
    }

    /// What the epoch records of `voter`, if anything.
    pub fn vote_of(&self, voter: Address) -> (r: Option<Vote>)
        requires
            distinct_keys(self.ballots@),
        ensures
            r is Some == self@.votes.contains_key(voter),
            r is Some ==> self@.votes[voter] == r->0@,
    {
        let mut i: usize = 0;
        while i < self.ballots.len()
            invariant
                i <= self.ballots.len(),
                distinct_keys(self.ballots@),
                forall|j: int| 0 <= j < i ==> (#[trigger] self.ballots@[j]).key() != voter,
            decreases self.ballots.len() - i,
        {
            if self.ballots[i].voter == voter {
                proof {
                    lemma_keyed_at(self.ballots@, i as int);
                }
                return Some(self.ballots[i].vote);
            }
            i = i + 1;
        }
        proof {
            lemma_keyed_absent(self.ballots@, voter);
        }
        None
    }

    /// Records `vote` of `voter`, in place of what was recorded before.
    pub(crate) fn put_vote(&mut self, voter: Address, vote: Vote)
        requires
            distinct_keys(old(self).ballots@),
        ensures
            distinct_keys(final(self).ballots@),
            final(self)@ == (EpochView {
                votes: old(self)@.votes.insert(voter, vote@),
                ..old(self)@
            }),
    {
        let mut i: usize = 0;
        while i < self.ballots.len()
            invariant
                i <= self.ballots.len(),
                *self == *old(self),
                distinct_keys(self.ballots@),
                forall|j: int| 0 <= j < i ==> (#[trigger] self.ballots@[j]).key() != voter,
            decreases self.ballots.len() - i,
        {
            if self.ballots[i].voter == voter {
                proof {
                    lemma_keyed_update(self.ballots@, i as int, Ballot { voter, vote });
                }
                self.ballots[i].vote = vote;
                assert(self.ballots@ =~= old(self).ballots@.update(i as int, Ballot { voter, vote }));
                return ;
            }
            i = i + 1;
        }
        proof {
            lemma_keyed_absent(self.ballots@, voter);
            lemma_keyed_push(self.ballots@, Ballot { voter, vote });
        }
        self.ballots.push(Ballot { voter, vote });
    }

    /// Where the tally of `outcome` stands, if weight was revealed for it.
    pub fn find_tally(&self, outcome: Outcome) -> (r: Option<usize>)
        ensures
            r matches Some(i) ==> i < self.tallies.len() && self.tallies[i as int].outcome == outcome,
            r is None ==> forall|j: int|
                0 <= j < self.tallies.len() ==> (#[trigger] self.tallies@[j]).outcome != outcome,
    {
        let mut i: usize = 0;
        while i < self.tallies.len()
            invariant
                i <= self.tallies.len(),
                forall|j: int| 0 <= j < i ==> (#[trigger] self.tallies@[j]).outcome != outcome,
            decreases self.tallies.len() - i,
        {
            if self.tallies[i].outcome == outcome {
                return Some(i);
            }
            i = i + 1;
        }
        None
    }

    /// The weight that was revealed for `outcome`.
    pub fn weight_of(&self, outcome: Outcome) -> (r: U256)
        requires
            self.wf(),
        ensures
            r@ == outcome_weight(self@.tallies, outcome),
    {
        match self.find_tally(outcome) {
            Some(i) => {
                proof {
                    lemma_tally_index(self@.tallies, i as int);
                }
                self.tallies[i].weight
            },
            None => {
                proof {
                    let t = self@.tallies;
                    if crate::state::has_tally(t, outcome) {
                        let j = crate::state::tally_index(t, outcome);
                        assert(self.tallies@[j].outcome == outcome);
                    }
                }
                U256::zero()
            },
        }
    }

    /// Adds `weight` to the tally of `outcome` and to the total, where the
    /// total stays below `2^256`; else nothing changes.
    pub(crate) fn credit(&mut self, outcome: Outcome, weight: U256) -> (ok: bool)
        requires
            old(self).wf(),
        ensures
            ok == (old(self)@.total_revealed_weight + weight@ < limit()),
            ok ==> final(self)@ == (EpochView {
                tallies: credit(old(self)@.tallies, outcome, weight@),
                total_revealed_weight: old(self)@.total_revealed_weight + weight@,
                ..old(self)@
            }),
            ok ==> final(self).wf(),
            !ok ==> *final(self) == *old(self),
    {
        let total = match checked_add(self.total_revealed_weight, weight) {
            Some(t) => t,
            None => {
                return false;
            },
        };
        let ghost before = self@.tallies;
        proof {
            lemma_credit(before, outcome, weight@);
        }
        match self.find_tally(outcome) {
            Some(i) => {
                proof {
                    lemma_tally_index(before, i as int);
                    lemma_sum_bounds(before, i as int);
                }
                let sum = checked_add(self.tallies[i].weight, weight).unwrap();
                self.tallies[i].weight = sum;
                assert(self@.tallies =~= credit(before, outcome, weight@));
            },
            None => {
                proof {
                    if crate::state::has_tally(before, outcome) {
                        let j = crate::state::tally_index(before, outcome);
                        assert(self.tallies@[j].outcome == outcome);
                    }
                }
                self.tallies.push(Tally { outcome, weight });
                assert(self@.tallies =~= credit(before, outcome, weight@));
            },
        }
        self.total_revealed_weight = total;
        true
    }

    /// The weight of the supplied outcomes together, the least weight above
    /// zero among them, and their leader.
    pub fn scan(&self, outcomes: &Vec<Outcome>) -> (r: (U256, U256, Option<Tally>))
        requires
            self.wf(),
        ensures
            r.0@ == supplied_weight(self@.tallies, outcomes@),
            r.1@ == lowest_weight(self@.tallies, outcomes@),
            tally_view(r.2) == leader(self@.tallies, outcomes@),
    {
        let ghost t = self@.tallies;
        let mut supplied = U256::zero();
        let mut lowest = U256::max_value();
        let mut best: Option<Tally> = None;
        let mut i: usize = 0;
        assert(t.take(0) =~= Seq::<TallyView>::empty());
        while i < self.tallies.len()
            invariant
                i <= self.tallies.len(),
                self.wf(),
                t == self@.tallies,
                supplied@ == supplied_weight(t.take(i as int), outcomes@),
                lowest@ == lowest_weight(t.take(i as int), outcomes@),
                tally_view(best) == leader(t.take(i as int), outcomes@),
            decreases self.tallies.len() - i,
        {
            let cur = self.tallies[i];
            proof {
                let next = t.take(i + 1);
                assert(next.drop_last() =~= t.take(i as int));
                assert(next.last() == cur@);
                lemma_supplied_le_sum(next, outcomes@);
                lemma_sum_take(t, i + 1);
                lemma_below_limit(self.total_revealed_weight);
            }
            if contains_outcome(outcomes, cur.outcome) {
                supplied = checked_add(supplied, cur.weight).unwrap();
                if !cur.weight.is_zero() {
                    if cur.weight.lt(lowest) {
                        lowest = cur.weight;
                    }
                    let ahead = match best {
                        None => true,
                        Some(b) => cur.weight.gt(b.weight) || (cur.weight == b.weight
                            && cur.outcome.tag < b.outcome.tag),
                    };
                    proof {
                        if best is Some {
                            crate::uint::lemma_view_injective(cur.weight, best->0.weight);
                        }
                        assert(ahead == beats(cur@, tally_view(best)));
                    }
                    if ahead {
                        best = Some(cur);
                    }
                }
            }
            i = i + 1;
        }
        assert(t.take(i as int) =~= t);
        (supplied, lowest, best)
    }
    /// Records `winner` as the winner. An inconclusive result consumes the call.
    pub(crate) fn declare(&mut self, winner: Outcome)
        requires
            old(self).wf(),
        ensures
            final(self).wf(),
            final(self)@ == epoch_declared(old(self)@, winner),
    {
        self.winner = winner;
        self.winner_set = true;
        if winner.is_zero() {
            self.who_called = Address::zero();
        }
        assert(self@.votes == old(self)@.votes);
        assert(self@.tallies == old(self)@.tallies);
    }
    /// Records a call.
    pub(crate) fn record_call(&mut self, who: Address, now: u64, winner: Outcome)
        requires
            old(self).wf(),
        ensures
            final(self).wf(),
            final(self)@ == epoch_called(old(self)@, who, now, winner),
    {
        self.who_called = who;
        self.when_called = now;
        self.what_called = winner;
        assert(self@.votes == old(self)@.votes);
        assert(self@.tallies == old(self)@.tallies);
    }

    /// Records that the call was closed: the called outcome has won.
    pub(crate) fn close(&mut self)
        requires
            old(self).wf(),
        ensures
            final(self).wf(),
            final(self)@ == epoch_closed(old(self)@),
    {
        self.winner = self.what_called;
        self.winner_set = true;
        assert(self@.votes == old(self)@.votes);
        assert(self@.tallies == old(self)@.tallies);
    }

    /// Records a whinge.
    pub(crate) fn record_whinge(&mut self, who: Address, now: u64, preferred_outcome: Outcome)
        requires
            old(self).wf(),
        ensures
            final(self).wf(),
            final(self)@ == epoch_whinged(old(self)@, who, now, preferred_outcome),
    {
        self.who_whinged = who;
        self.when_whinged = now;
        self.whinger_preferred_winner = preferred_outcome;
        assert(self@.votes == old(self)@.votes);
        assert(self@.tallies == old(self)@.tallies);
    }

    /// Records the commitment of a voter who has none yet.
    pub(crate) fn commit(&mut self, voter: Address, commitment: Bytes32)
        requires
            old(self).wf(),
            !commitment.is_zero(),
        ensures
            final(self).wf(),
            final(self)@ == (EpochView {
                votes: old(self)@.votes.insert(voter, VoteView::committed(commitment)),
                ..old(self)@
            }),
    {
        let vote = Vote {
            commitment,
            revealed: false,
            outcome: Outcome::zero(),
            weight: U256::zero(),
            swept: false,
            claimed: false,
        };
        self.put_vote(voter, vote);
        assert forall|v: Address| #[trigger] self@.votes.contains_key(v) implies self@.votes[v].inv() by {
            if v != voter {
                assert(old(self)@.votes.contains_key(v));
            }
        }
    }

    /// Records what a voter who has committed revealed, with its weight.
    pub(crate) fn record_reveal(&mut self, voter: Address, outcome: Outcome, weight: U256)
        requires
            old(self).wf(),
            old(self)@.votes.contains_key(voter),
            old(self)@.total_revealed_weight + weight@ < limit(),
        ensures
            final(self).wf(),
            final(self)@ == epoch_revealed(old(self)@, voter, outcome, weight@),
    {
        let v = self.vote_of(voter).unwrap();
        assert(old(self)@.votes[voter].inv());
        let credited = self.credit(outcome, weight);
        let ghost mid = self@;
        self.put_vote(voter, Vote { revealed: true, outcome, weight, ..v });
        assert forall|a: Address| #[trigger] self@.votes.contains_key(a) implies self@.votes[a].inv() by {
            if a != voter {
                assert(mid.votes.contains_key(a));
            }
        }
    }

    /// Marks the vote of `victim` as swept and adds `into_pot` to the pot.
    pub(crate) fn sweep(&mut self, victim: Address, into_pot: U256)
        requires
            old(self).wf(),
            old(self)@.votes.contains_key(victim),
            old(self)@.votes[victim].revealed,
            old(self)@.pot_existing + into_pot@ < limit(),
        ensures
            final(self).wf(),
            final(self)@ == epoch_swept(old(self)@, victim, into_pot@),
    {
        let v = self.vote_of(victim).unwrap();
        assert(old(self)@.votes[victim].inv());
        self.pot_existing = checked_add(self.pot_existing, into_pot).unwrap();
        self.pot_outstanding = checked_add(self.pot_outstanding, into_pot).unwrap();
        assert(self@.votes == old(self)@.votes);
        assert(self@.tallies == old(self)@.tallies);
        let ghost mid = self@;
        self.put_vote(victim, Vote { swept: true, ..v });
        assert forall|a: Address| #[trigger] self@.votes.contains_key(a) implies self@.votes[a].inv() by {
            if a != victim {
                assert(mid.votes.contains_key(a));
            }
        }
    }

    /// Marks the vote of `caller` as claimed and takes `amount` out of the pot.
    pub(crate) fn capture(&mut self, caller: Address, amount: U256)
        requires
            old(self).wf(),
            old(self)@.votes.contains_key(caller),
            old(self)@.votes[caller].revealed,
            amount@ <= old(self)@.pot_outstanding,
        ensures
            final(self).wf(),
            final(self)@ == epoch_captured(old(self)@, caller, amount@),
    {
        let v = self.vote_of(caller).unwrap();
        assert(old(self)@.votes[caller].inv());
        self.pot_outstanding = checked_sub(self.pot_outstanding, amount).unwrap();
        assert(self@.votes == old(self)@.votes);
        assert(self@.tallies == old(self)@.tallies);
        let ghost mid = self@;
        self.put_vote(caller, Vote { claimed: true, ..v });
        assert forall|a: Address| #[trigger] self@.votes.contains_key(a) implies self@.votes[a].inv() by {
            if a != caller {
                assert(mid.votes.contains_key(a));
            }
        }
    }
}

} // verus!
