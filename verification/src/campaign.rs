//! A registered campaign, as it is stored.

use crate::epoch::Epoch;
use crate::ident::{Address, Bytes32};
use crate::keyed::Keyed;
use crate::state::{CampaignView, EpochView};
use vstd::prelude::*;

verus! {

/// A registered campaign.
#[derive(Clone, Debug)]
pub struct Campaign {
    /// The address under which the campaign is registered.
    pub trading_addr: Address,
    pub call_begins: u64,
    pub call_deadline: u64,
    pub desc: Bytes32,
    pub escaped: bool,
    /// The epochs so far; the last is the current one.
    pub epochs: Vec<Epoch>,
}

/// The views of a list of epochs, in order.
pub open spec fn epochs_view(s: Seq<Epoch>) -> Seq<EpochView> {
    Seq::new(s.len(), |i: int| s[i]@)
}

impl View for Campaign {
    type V = CampaignView;

    open spec fn view(&self) -> CampaignView {
        CampaignView {
            call_begins: self.call_begins,
            call_deadline: self.call_deadline,
            desc: self.desc,
            escaped: self.escaped,
            epochs: epochs_view(self.epochs@),
        }
    }
}

impl Keyed for Campaign {
    open spec fn key(&self) -> Address {
        self.trading_addr
    }
}

impl Campaign {
    /// What holds of every stored campaign: its epochs are as stored epochs
    /// are, and its view is as every campaign is.
    pub open spec fn wf(&self) -> bool {
        &&& forall|i: int| 0 <= i < self.epochs@.len() ==> (#[trigger] self.epochs@[i]).wf()
        &&& self@.inv()
    }

    /// The campaign as it is registered: in epoch 0, with nothing called.
    pub(crate) fn new(
        trading_addr: Address,
        call_begins: u64,
        call_deadline: u64,
        desc: Bytes32,
    ) -> (r: Campaign)
        requires
            call_deadline != 0,
            !desc.is_zero(),
        ensures
            r.wf(),
            r.trading_addr == trading_addr,
            r@ == CampaignView::registered(call_begins, call_deadline, desc),
    {
        let mut epochs: Vec<Epoch> = Vec::new();
        epochs.push(Epoch::new());
        let r = Campaign { trading_addr, call_begins, call_deadline, desc, escaped: false, epochs };
        assert(r@.epochs =~= seq![EpochView::fresh()]);
        r
    }

    /// The number of the current epoch.
    pub fn cur_epoch(&self) -> (r: usize)
        requires
            self.wf(),
        ensures
            r == self@.cur_epoch(),
            r < self.epochs@.len(),
            self.epochs@[r as int]@ == self@.current(),
    {
        self.epochs.len() - 1
    }
}

/// A campaign in which one epoch was replaced has the view of the old
/// campaign with the view of that epoch replaced.
pub proof fn lemma_epoch_replaced(pre: Campaign, post: Campaign, i: int)
    requires
        0 <= i < pre.epochs@.len(),
        post.epochs@.len() == pre.epochs@.len(),
        forall|k: int| 0 <= k < pre.epochs@.len() && k != i ==> post.epochs@[k] == pre.epochs@[k],
        post.call_begins == pre.call_begins,
        post.call_deadline == pre.call_deadline,
        post.desc == pre.desc,
        post.escaped == pre.escaped,
    ensures
        post@ == pre@.with_epoch(i, post.epochs@[i]@),
{
    assert(post@.epochs =~= pre@.epochs.update(i, post.epochs@[i]@));
}

/// A campaign to which an epoch was appended has the view of the old
/// campaign with the view of that epoch appended.
pub proof fn lemma_epoch_pushed(pre: Campaign, post: Campaign)
    requires
        post.epochs@.len() == pre.epochs@.len() + 1,
        forall|k: int| 0 <= k < pre.epochs@.len() ==> post.epochs@[k] == pre.epochs@[k],
        post.call_begins == pre.call_begins,
        post.call_deadline == pre.call_deadline,
        post.desc == pre.desc,
        post.escaped == pre.escaped,
    ensures
        post@ == (CampaignView { epochs: pre@.epochs.push(post.epochs@.last()@), ..pre@ }),
{
    assert(post@.epochs =~= pre@.epochs.push(post.epochs@.last()@));
}

} // verus!
