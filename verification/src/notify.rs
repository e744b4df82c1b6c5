//! The deliveries that report a cycle's statuses to the webhooks.

use crate::aggregate::{cycle_state, ready_behind};
use crate::pod::PodView;
use crate::state::{lists, CycleState};
use crate::status::PodStatus;
use vstd::prelude::*;

verus! {

/// The seconds after which an attempt to deliver is given up, so that a
/// webhook that does not answer cannot hold up the next cycle for ever.
pub const DELIVERY_TIMEOUT_SECS: u64 = 10;

/// One notification: a status to report to a webhook by HTTP POST.
#[derive(Clone, Debug, PartialEq, Eq)]
pub struct Delivery {
    /// The URL of the webhook.
    pub url: String,
    /// The status to report.
    pub status: PodStatus,
}

/// The mathematical content of a [`Delivery`].
pub struct DeliveryView {
    pub url: Seq<char>,
    pub status: PodStatus,
}

impl View for Delivery {
    type V = DeliveryView;

    open spec fn view(&self) -> DeliveryView {
        DeliveryView { url: self.url@, status: self.status }
    }
}

impl DeliveryView {
    /// The body of the request, character by character.
    pub open spec fn body(self) -> Seq<char> {
        self.status.payload_text()
    }
}

/// The views of a list of deliveries, in the same order.
pub open spec fn delivery_views(plan: Seq<Delivery>) -> Seq<DeliveryView> {
    Seq::new(plan.len(), |i: int| plan[i]@)
}

/// Holds when `plan` notifies every target of `state` once: each delivery
/// goes to a target of `state` and reports that target's status, no two go to
/// the same target, and no target is left out.
pub open spec fn notifies(plan: Seq<DeliveryView>, state: Map<Seq<char>, PodStatus>) -> bool {
    &&& forall|i: int|
        0 <= i < plan.len() ==> state.contains_key((#[trigger] plan[i]).url)
            && plan[i].status == state[plan[i].url]
    &&& forall|i: int, j: int|
        0 <= i < j < plan.len() ==> (#[trigger] plan[i]).url != (#[trigger] plan[j]).url
    &&& forall|target: Seq<char>| #[trigger]
        state.contains_key(target) ==> exists|i: int|
            0 <= i < plan.len() && (#[trigger] plan[i]).url == target
}

impl Delivery {
    /// The delivery that reports `status` to the webhook `url`.
    pub fn new(url: &str, status: PodStatus) -> (delivery: Delivery)
        ensures
            delivery@ == (DeliveryView { url: url@, status }),
    {
        Delivery { url: url.to_owned(), status }
    }

    /// The word that the delivery reports: `up` or `down`.
    pub fn trigger(&self) -> (word: &'static str)
        ensures
            word@ == self@.status.trigger_text(),
    {
        self.status.trigger()
    }

    /// The JSON text to send as the body of the request: `{"trigger":"up"}`
    /// for `Up` and `{"trigger":"down"}` for `Down`.
    pub fn body(&self) -> (body: String)
        ensures
            body@ == self@.body(),
    {
        self.status.payload()
    }
}

/// The deliveries of a cycle: one for each target, reporting its status.
/// Their order carries no meaning.
pub fn notifications(state: &CycleState) -> (plan: Vec<Delivery>)
    ensures
        notifies(delivery_views(plan@), state@),
        state@.dom().finite(),
        plan@.len() == state@.dom().len(),
{
    let count = state.len();
    let mut plan: Vec<Delivery> = Vec::new();
    let mut i: usize = 0;
    while i < count
        invariant
            i <= count,
            count == state.entries().len(),
            plan@.len() == i,
            forall|k: int|
                0 <= k < i ==> (#[trigger] plan@[k])@ == (DeliveryView {
                    url: state.entries()[k].0,
                    status: state.entries()[k].1,
                }),
        decreases count - i,
    {
        match state.entry(i) {
            Some((url, status)) => {
                plan.push(Delivery::new(url.as_str(), status));
            },
            None => {},
        }
        i += 1;
    }
    proof {
        use_type_invariant(state);
        state.entries_list_view();
        let entries = state.entries();
        let views = delivery_views(plan@);
        assert(lists(entries, state@));
        assert forall|k: int| 0 <= k < views.len() implies (#[trigger] views[k]).url
            == entries[k].0 && views[k].status == entries[k].1 by {
            assert(plan@[k]@ == views[k]);
        }
        assert forall|target: Seq<char>| #[trigger] state@.contains_key(target) implies (exists|
            k: int,
        | 0 <= k < views.len() && (#[trigger] views[k]).url == target) by {
            let k = choose|k: int| 0 <= k < entries.len() && (#[trigger] entries[k]).0 == target;
            assert(views[k].url == target);
        }
    }
    plan
}

/// The webhook of every monitored pod is notified in its cycle, once, and told
/// `Up` exactly when a pod that names it is ready.
pub proof fn each_webhook_is_notified_once(plan: Seq<DeliveryView>, pods: Seq<PodView>, i: int)
    requires
        notifies(plan, cycle_state(pods)),
        0 <= i < pods.len(),
        pods[i].is_monitored(),
    ensures
        ({
            let target = pods[i].webhook()->0;
            &&& exists|k: int|
                0 <= k < plan.len() && (#[trigger] plan[k]).url == target && plan[k].status
                    == PodStatus::of(ready_behind(pods, target))
            &&& forall|j: int, k: int|
                0 <= j < plan.len() && 0 <= k < plan.len() && (#[trigger] plan[j]).url == target
                    && (#[trigger] plan[k]).url == target ==> j == k
        }),
{
    let target = pods[i].webhook()->0;
    assert(cycle_state(pods).contains_key(target));
    let k = choose|k: int| 0 <= k < plan.len() && (#[trigger] plan[k]).url == target;
    assert(plan[k].status == cycle_state(pods)[target]);
    assert forall|j: int, k: int|
        0 <= j < plan.len() && 0 <= k < plan.len() && (#[trigger] plan[j]).url == target
            && (#[trigger] plan[k]).url == target implies j == k by {
        if j < k {
            assert(plan[j].url != plan[k].url);
        }
        if k < j {
            assert(plan[k].url != plan[j].url);
        }
    }
}

/// A cycle without targets has no deliveries.
pub proof fn nothing_to_notify(plan: Seq<DeliveryView>)
    requires
        notifies(plan, Map::<Seq<char>, PodStatus>::empty()),
    ensures
        plan.len() == 0,
{
    if plan.len() > 0 {
        assert(Map::<Seq<char>, PodStatus>::empty().contains_key(plan[0].url));
    }
}

/// What notifies a cycle holds as many deliveries as the cycle has targets.
pub proof fn one_delivery_per_target(plan: Seq<DeliveryView>, state: Map<Seq<char>, PodStatus>)
    requires
        notifies(plan, state),
    ensures
        state.dom().finite(),
        state.dom().len() == plan.len(),
{
    let urls = Seq::new(plan.len(), |i: int| plan[i].url);
    assert forall|target: Seq<char>|
        state.dom().contains(target) <==> urls.to_set().contains(target) by {
        if state.contains_key(target) {
            let i = choose|i: int| 0 <= i < plan.len() && (#[trigger] plan[i]).url == target;
            assert(urls[i] == target);
        }
        if urls.contains(target) {
            let i = choose|i: int| 0 <= i < urls.len() && urls[i] == target;
            assert(plan[i].url == target);
        }
    }
    assert(state.dom() =~= urls.to_set());
    assert forall|i: int, j: int|
        0 <= i < urls.len() && 0 <= j < urls.len() && i != j implies urls[i] != urls[j] by {
        if i < j {
            assert(plan[i].url != plan[j].url);
        } else {
            assert(plan[j].url != plan[i].url);
        }
    }
    urls.unique_seq_to_set();
    vstd::seq_lib::seq_to_set_is_finite(urls);
}

} // verus!
