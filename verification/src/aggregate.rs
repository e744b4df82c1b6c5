//! From the pods that a cluster lists to one status per webhook target.

use crate::pod::{pod_views, Pod, PodView};
use crate::state::{observed, CycleState};
use crate::status::PodStatus;
use vstd::prelude::*;

verus! {

/// Holds when some pod of `pods` names `target` as its webhook.
pub open spec fn names(pods: Seq<PodView>, target: Seq<char>) -> bool {
    exists|i: int| 0 <= i < pods.len() && (#[trigger] pods[i]).webhook() == Some(target)
}

/// Holds when some pod of `pods` names `target` as its webhook and is ready.
pub open spec fn ready_behind(pods: Seq<PodView>, target: Seq<char>) -> bool {
    exists|i: int|
        0 <= i < pods.len() && (#[trigger] pods[i]).webhook() == Some(target) && pods[i].is_ready()
}

/// The statuses that a cycle over `pods` arrives at: each webhook that a pod
/// names has a status, `Up` if a pod that names it is ready and `Down` if
/// none is.
pub open spec fn cycle_state(pods: Seq<PodView>) -> Map<Seq<char>, PodStatus> {
    Map::new(
        |target: Seq<char>| names(pods, target),
        |target: Seq<char>| PodStatus::of(ready_behind(pods, target)),
    )
}

/// The pods of a listing: those it returned, or none where it failed.
pub open spec fn listed(listing: Option<Vec<Pod>>) -> Seq<PodView> {
    match listing {
        Some(pods) => pod_views(pods@),
        None => Seq::empty(),
    }
}

/// The pods of `pods` that carry the monitoring annotation, in their order.
pub open spec fn monitored(pods: Seq<PodView>) -> Seq<PodView> {
    pods.filter(|pod: PodView| pod.is_monitored())
}

/// One more pod at the end of the list changes the statuses as one
/// observation does, and not at all if the pod is not monitored.
pub proof fn cycle_state_push(pods: Seq<PodView>, pod: PodView)
    ensures
        cycle_state(pods.push(pod)) == (match pod.webhook() {
            Some(target) => observed(cycle_state(pods), target, pod.is_ready()),
            None => cycle_state(pods),
        }),
{
    let more = pods.push(pod);
    let n = pods.len() as int;
    assert(more[n] == pod);
    assert forall|t: Seq<char>| names(more, t) == (names(pods, t) || pod.webhook() == Some(t)) by {
        if names(pods, t) {
            let i = choose|i: int| 0 <= i < pods.len() && (#[trigger] pods[i]).webhook() == Some(t);
            assert(more[i] == pods[i]);
        }
        if names(more, t) {
            let i = choose|i: int| 0 <= i < more.len() && (#[trigger] more[i]).webhook() == Some(t);
            if i < n {
                assert(pods[i] == more[i]);
            }
        }
    }
    assert forall|t: Seq<char>|
        ready_behind(more, t) == (ready_behind(pods, t) || (pod.webhook() == Some(t)
            && pod.is_ready())) by {
        if ready_behind(pods, t) {
            let i = choose|i: int|
                0 <= i < pods.len() && (#[trigger] pods[i]).webhook() == Some(t)
                    && pods[i].is_ready();
            assert(more[i] == pods[i]);
        }
        if ready_behind(more, t) {
            let i = choose|i: int|
                0 <= i < more.len() && (#[trigger] more[i]).webhook() == Some(t)
                    && more[i].is_ready();
            if i < n {
                assert(pods[i] == more[i]);
            }
        }
    }
    match pod.webhook() {
        Some(target) => {
            assert(ready_behind(pods, target) ==> names(pods, target)) by {
                if ready_behind(pods, target) {
                    let i = choose|i: int|
                        0 <= i < pods.len() && (#[trigger] pods[i]).webhook() == Some(target)
                            && pods[i].is_ready();
                    assert(pods[i].webhook() == Some(target));
                }
            }
            assert(cycle_state(more) =~= observed(cycle_state(pods), target, pod.is_ready()));
        },
        None => {
            assert(cycle_state(more) =~= cycle_state(pods));
        },
    }
}

/// Works out the status of every webhook that the pods of `pods` name.
/// Pods without the monitoring annotation are passed over.
pub fn tally(pods: &Vec<Pod>) -> (state: CycleState)
    ensures
        state@ == cycle_state(pod_views(pods@)),
{
    let mut state = CycleState::new();
    let mut i: usize = 0;
    assert(cycle_state(pod_views(pods@).take(0)) =~= Map::<Seq<char>, PodStatus>::empty());
    while i < pods.len()
        invariant
            i <= pods.len(),
            state@ == cycle_state(pod_views(pods@).take(i as int)),
        decreases pods.len() - i,
    {
        let pod = &pods[i];
        proof {
            cycle_state_push(pod_views(pods@).take(i as int), pod@);
            assert(pod_views(pods@).take(i + 1) =~= pod_views(pods@).take(i as int).push(pod@));
        }
        match pod.webhook() {
            Some(url) => {
                state = state.observe(url.as_str(), pod.is_ready());
            },
            None => {},
        }
        i += 1;
    }
    assert(pod_views(pods@).take(pods.len() as int) =~= pod_views(pods@));
    state
}

/// One more pod at the end of the list is kept if it is monitored and
/// dropped if it is not.
pub proof fn monitored_push(pods: Seq<PodView>, pod: PodView)
    ensures
        monitored(pods.push(pod)) == (if pod.is_monitored() {
            monitored(pods).push(pod)
        } else {
            monitored(pods)
        }),
{
    reveal(Seq::filter);
    assert(pods.push(pod).drop_last() =~= pods);
}

/// Keeps the pods of a listing that carry the monitoring annotation, in the
/// order in which they were listed. A listing that failed, `None`, counts as
/// one without pods.
pub fn monitored_pods(listing: Option<Vec<Pod>>) -> (kept: Vec<Pod>)
    ensures
        pod_views(kept@) == monitored(listed(listing)),
{
    let mut kept: Vec<Pod> = Vec::new();
    match listing {
        Some(pods) => {
            assert(pod_views(kept@) =~= monitored(pod_views(pods@.take(0)))) by {
                reveal(Seq::filter);
            }
            for pod in it: pods
                invariant
                    it.seq() == pods@,
                    pod_views(kept@) == monitored(pod_views(pods@.take(it.index() as int))),
            {
                proof {
                    let seen = pod_views(pods@.take(it.index() as int));
                    monitored_push(seen, pod@);
                    assert(pod_views(pods@.take(it.index() + 1)) =~= seen.push(pod@));
                }
                if pod.is_monitored() {
                    let ghost before = pod_views(kept@);
                    kept.push(pod);
                    assert(pod_views(kept@) =~= before.push(pod@));
                }
            }
            assert(pods@.take(pods@.len() as int) =~= pods@);
        },
        None => {
            assert(pod_views(kept@) =~= monitored(Seq::empty())) by {
                reveal(Seq::filter);
            }
        },
    }
    kept
}

/// Works out the statuses of a cycle from what the cluster listed: the pods
/// without the monitoring annotation are dropped, the others are tallied. A
/// listing that failed, `None`, gives a cycle without targets.
pub fn aggregate(listing: Option<Vec<Pod>>) -> (state: CycleState)
    ensures
        state@ == cycle_state(listed(listing)),
        listing is None ==> state@ == Map::<Seq<char>, PodStatus>::empty(),
{
    proof {
        unmonitored_pods_add_nothing(listed(listing));
        nothing_listed_nothing_found();
    }
    let kept = monitored_pods(listing);
    tally(&kept)
}

/// A webhook that a pod names has a status in the cycle, and that status is
/// one of `Up` and `Down`, never both.
pub proof fn named_target_has_one_status(pods: Seq<PodView>, i: int)
    requires
        0 <= i < pods.len(),
        pods[i].is_monitored(),
    ensures
        cycle_state(pods).contains_key(pods[i].webhook()->0),
        (cycle_state(pods)[pods[i].webhook()->0] == PodStatus::Up) != (cycle_state(
            pods,
        )[pods[i].webhook()->0] == PodStatus::Down),
{
}

/// Every target of a cycle is the webhook of a monitored pod.
pub proof fn target_has_monitored_pod(pods: Seq<PodView>, target: Seq<char>)
    requires
        cycle_state(pods).contains_key(target),
    ensures
        exists|i: int|
            0 <= i < pods.len() && (#[trigger] pods[i]).is_monitored() && pods[i].webhook()
                == Some(target),
{
    let i = choose|i: int| 0 <= i < pods.len() && (#[trigger] pods[i]).webhook() == Some(target);
    assert(pods[i].is_monitored());
}

/// A pod without the monitoring annotation, wherever it stands among the
/// pods, adds no target and changes no status.
pub proof fn unmonitored_pod_adds_nothing(pods: Seq<PodView>, at: int, pod: PodView)
    requires
        0 <= at <= pods.len(),
        !pod.is_monitored(),
    ensures
        cycle_state(pods.insert(at, pod)) == cycle_state(pods),
{
    let more = pods.insert(at, pod);
    assert forall|x: PodView|
        #![trigger more.contains(x)]
        #![trigger pods.contains(x)]
        x.is_monitored() implies (more.contains(x) <==> pods.contains(x)) by {
        if pods.contains(x) {
            let i = choose|i: int| 0 <= i < pods.len() && pods[i] == x;
            if i < at {
                assert(more[i] == x);
            } else {
                assert(more[i + 1] == x);
            }
        }
        if more.contains(x) {
            let j = choose|j: int| 0 <= j < more.len() && more[j] == x;
            if j < at {
                assert(pods[j] == x);
            } else {
                assert(more[at] == pod);
                assert(pods[j - 1] == x);
            }
        }
    }
    cycle_state_depends_on_monitored_members(more, pods);
}

/// Dropping the pods without the monitoring annotation changes nothing.
pub proof fn unmonitored_pods_add_nothing(pods: Seq<PodView>)
    ensures
        cycle_state(monitored(pods)) == cycle_state(pods),
    decreases pods.len(),
{
    if pods.len() == 0 {
        assert(monitored(pods) =~= pods) by {
            reveal(Seq::filter);
        }
    } else {
        let front = pods.drop_last();
        let last = pods.last();
        assert(pods =~= front.push(last));
        unmonitored_pods_add_nothing(front);
        monitored_push(front, last);
        cycle_state_push(front, last);
        cycle_state_push(monitored(front), last);
    }
}

/// The statuses of a cycle depend only on which monitored pods occur among
/// the pods, not on where or how often.
pub proof fn cycle_state_depends_on_monitored_members(a: Seq<PodView>, b: Seq<PodView>)
    requires
        forall|pod: PodView|
            #![trigger a.contains(pod)]
            #![trigger b.contains(pod)]
            pod.is_monitored() ==> (a.contains(pod) <==> b.contains(pod)),
    ensures
        cycle_state(a) == cycle_state(b),
{
    assert forall|t: Seq<char>| names(a, t) == names(b, t) && ready_behind(a, t) == ready_behind(
        b,
        t,
    ) by {
        members_decide(a, b, t);
        members_decide(b, a, t);
    }
    assert(cycle_state(a) =~= cycle_state(b));
}

proof fn members_decide(a: Seq<PodView>, b: Seq<PodView>, target: Seq<char>)
    requires
        forall|pod: PodView|
            #![trigger a.contains(pod)]
            #![trigger b.contains(pod)]
            pod.is_monitored() ==> (a.contains(pod) <==> b.contains(pod)),
    ensures
        names(a, target) ==> names(b, target),
        ready_behind(a, target) ==> ready_behind(b, target),
{
    if names(a, target) {
        let i = choose|i: int| 0 <= i < a.len() && (#[trigger] a[i]).webhook() == Some(target);
        assert(a.contains(a[i]) && a[i].is_monitored());
        assert(b.contains(a[i]));
        let j = choose|j: int| 0 <= j < b.len() && b[j] == a[i];
        assert(b[j].webhook() == Some(target));
    }
    if ready_behind(a, target) {
        let i = choose|i: int|
            0 <= i < a.len() && (#[trigger] a[i]).webhook() == Some(target) && a[i].is_ready();
        assert(a.contains(a[i]) && a[i].is_monitored());
        assert(b.contains(a[i]));
        let j = choose|j: int| 0 <= j < b.len() && b[j] == a[i];
        assert(b[j].webhook() == Some(target) && b[j].is_ready());
    }
}

/// A target is `Up` exactly when a pod that names it is ready, and `Down`
/// exactly when none is.
pub proof fn up_exactly_when_ready(pods: Seq<PodView>, target: Seq<char>)
    requires
        cycle_state(pods).contains_key(target),
    ensures
        cycle_state(pods)[target] == PodStatus::Up <==> ready_behind(pods, target),
        cycle_state(pods)[target] == PodStatus::Down <==> !ready_behind(pods, target),
{
}

/// The order in which the pods are processed has no part in the statuses: two
/// lists that hold the same pods, each as often in one as in the other, give
/// the same statuses.
pub proof fn cycle_state_ignores_order(a: Seq<PodView>, b: Seq<PodView>)
    requires
        a.to_multiset() == b.to_multiset(),
    ensures
        cycle_state(a) == cycle_state(b),
{
    assert forall|pod: PodView| a.contains(pod) <==> b.contains(pod) by {
        vstd::seq_lib::to_multiset_contains(a, pod);
        vstd::seq_lib::to_multiset_contains(b, pod);
    }
    cycle_state_depends_on_monitored_members(a, b);
}

/// Processing the same pods a second time changes nothing.
pub proof fn cycle_state_is_idempotent(pods: Seq<PodView>)
    ensures
        cycle_state(pods + pods) == cycle_state(pods),
{
    let twice = pods + pods;
    assert forall|pod: PodView| twice.contains(pod) <==> pods.contains(pod) by {
        if pods.contains(pod) {
            let i = choose|i: int| 0 <= i < pods.len() && pods[i] == pod;
            assert(twice[i] == pod);
        }
        if twice.contains(pod) {
            let j = choose|j: int| 0 <= j < twice.len() && twice[j] == pod;
            if j < pods.len() {
                assert(pods[j] == pod);
            } else {
                assert(pods[j - pods.len()] == pod);
            }
        }
    }
    cycle_state_depends_on_monitored_members(twice, pods);
}

/// Without pods, and after a listing that failed, a cycle has no targets.
pub proof fn nothing_listed_nothing_found()
    ensures
        cycle_state(Seq::empty()) == Map::<Seq<char>, PodStatus>::empty(),
        cycle_state(listed(None)) == Map::<Seq<char>, PodStatus>::empty(),
{
    assert(cycle_state(Seq::empty()) =~= Map::<Seq<char>, PodStatus>::empty());
}

} // verus!
