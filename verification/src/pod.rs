//! What a cluster reports about a pod, as far as monitoring reads it.

use crate::text::same_text;
use vstd::prelude::*;

verus! {

/// The annotation by which a pod opts into monitoring. Its value is the URL
/// of the webhook to notify.
pub const WEBHOOK_ANNOTATION: &'static str = "anotherland/status-webhook";

/// One entry of a pod's readiness report.
#[derive(Clone, Debug, PartialEq, Eq)]
pub struct Condition {
    /// The name of the condition, such as `Ready`.
    pub type_: String,
    /// The reported value, such as `True`, `False` or `Unknown`.
    pub status: String,
}

/// The mathematical content of a [`Condition`].
pub struct ConditionView {
    pub type_: Seq<char>,
    pub status: Seq<char>,
}

impl ConditionView {
    /// Holds for the condition named `Ready` with the value `True`.
    pub open spec fn is_ready(self) -> bool {
        self.type_ == "Ready"@ && self.status == "True"@
    }
}

impl View for Condition {
    type V = ConditionView;

    open spec fn view(&self) -> ConditionView {
        ConditionView { type_: self.type_@, status: self.status@ }
    }
}

impl Condition {
    /// Tells whether this is the condition `Ready` with the value `True`.
    pub fn is_ready(&self) -> (ready: bool)
        ensures
            ready == self@.is_ready(),
    {
        same_text(self.type_.as_str(), "Ready") && same_text(self.status.as_str(), "True")
    }
}

/// Holds when a list of conditions holds `Ready` with the value `True`.
pub open spec fn holds_ready(conditions: Seq<ConditionView>) -> bool {
    exists|i: int| 0 <= i < conditions.len() && (#[trigger] conditions[i]).is_ready()
}

/// The views of a list of conditions, in the same order.
pub open spec fn condition_views(conditions: Seq<Condition>) -> Seq<ConditionView> {
    Seq::new(conditions.len(), |i: int| conditions[i]@)
}

/// The mapping that a list of key-value pairs denotes: the pairs are entered
/// in order, so of two pairs with the same key the later one counts.
pub open spec fn annotation_map(pairs: Seq<(String, String)>) -> Map<Seq<char>, Seq<char>>
    decreases pairs.len(),
{
    if pairs.len() == 0 {
        Map::empty()
    } else {
        annotation_map(pairs.drop_last()).insert(pairs.last().0@, pairs.last().1@)
    }
}

/// The value of a key in the mapping is that of the last pair that carries it.
pub proof fn annotation_map_last(pairs: Seq<(String, String)>, key: Seq<char>, i: int)
    requires
        0 <= i < pairs.len(),
        pairs[i].0@ == key,
        forall|j: int| i < j < pairs.len() ==> (#[trigger] pairs[j]).0@ != key,
    ensures
        annotation_map(pairs).contains_key(key),
        annotation_map(pairs)[key] == pairs[i].1@,
    decreases pairs.len(),
{
    let front = pairs.drop_last();
    if i < front.len() {
        assert(pairs[pairs.len() - 1].0@ != key);
        assert forall|j: int| i < j < front.len() implies (#[trigger] front[j]).0@ != key by {
            assert(pairs[j].0@ != key);
        }
        annotation_map_last(front, key, i);
    }
}

/// A key that no pair carries is not in the mapping.
pub proof fn annotation_map_absent(pairs: Seq<(String, String)>, key: Seq<char>)
    requires
        forall|j: int| 0 <= j < pairs.len() ==> (#[trigger] pairs[j]).0@ != key,
    ensures
        !annotation_map(pairs).contains_key(key),
    decreases pairs.len(),
{
    if pairs.len() > 0 {
        let front = pairs.drop_last();
        assert(pairs[pairs.len() - 1].0@ != key);
        assert forall|j: int| 0 <= j < front.len() implies (#[trigger] front[j]).0@ != key by {
            assert(pairs[j].0@ != key);
        }
        annotation_map_absent(front, key);
    }
}

/// Finds the value that a list of key-value pairs gives to `key`.
pub fn lookup<'a>(pairs: &'a Vec<(String, String)>, key: &str) -> (found: Option<&'a String>)
    ensures
        found is Some <==> annotation_map(pairs@).contains_key(key@),
        found matches Some(value) ==> value@ == annotation_map(pairs@)[key@],
{
    let mut i: usize = pairs.len();
    while i > 0
        invariant
            i <= pairs.len(),
            forall|j: int| i <= j < pairs.len() ==> (#[trigger] pairs@[j]).0@ != key@,
        decreases i,
    {
        i -= 1;
        if same_text(pairs[i].0.as_str(), key) {
            proof {
                annotation_map_last(pairs@, key@, i as int);
            }
            return Some(&pairs[i].1);
        }
    }
    proof {
        annotation_map_absent(pairs@, key@);
    }
    None
}

/// A pod as the cluster reports it.
#[derive(Clone, Debug, PartialEq, Eq)]
pub struct Pod {
    /// The annotations of the pod as key-value pairs, if it has any. Of two
    /// pairs with the same key the later one counts.
    pub annotations: Option<Vec<(String, String)>>,
    /// The conditions of the pod's status, if it reports any.
    pub conditions: Option<Vec<Condition>>,
}

/// The mathematical content of a [`Pod`].
pub struct PodView {
    pub annotations: Option<Map<Seq<char>, Seq<char>>>,
    pub conditions: Option<Seq<ConditionView>>,
}

impl PodView {
    /// The webhook that the pod names, if it opts into monitoring.
    pub open spec fn webhook(self) -> Option<Seq<char>> {
        match self.annotations {
            Some(annotations) => if annotations.contains_key(WEBHOOK_ANNOTATION@) {
                Some(annotations[WEBHOOK_ANNOTATION@])
            } else {
                None
            },
            None => None,
        }
    }

    /// Holds when the pod carries the monitoring annotation.
    pub open spec fn is_monitored(self) -> bool {
        self.webhook() is Some
    }

    /// Holds when the pod reports the condition `Ready` with the value `True`.
    pub open spec fn is_ready(self) -> bool {
        match self.conditions {
            Some(conditions) => holds_ready(conditions),
            None => false,
        }
    }
}

impl View for Pod {
    type V = PodView;

    open spec fn view(&self) -> PodView {
        PodView {
            annotations: match self.annotations {
                Some(pairs) => Some(annotation_map(pairs@)),
                None => None,
            },
            conditions: match self.conditions {
                Some(conditions) => Some(condition_views(conditions@)),
                None => None,
            },
        }
    }
}

impl Pod {
    /// The webhook that the pod names, if it opts into monitoring.
    pub fn webhook(&self) -> (target: Option<&String>)
        ensures
            target is Some <==> self@.is_monitored(),
            target matches Some(url) ==> self@.webhook() == Some(url@),
    {
        match &self.annotations {
            Some(pairs) => lookup(pairs, WEBHOOK_ANNOTATION),
            None => None,
        }
    }

    /// Tells whether the pod carries the monitoring annotation.
    pub fn is_monitored(&self) -> (monitored: bool)
        ensures
            monitored == self@.is_monitored(),
    {
        self.webhook().is_some()
    }

    /// Tells whether the pod reports the condition `Ready` with the value
    /// `True`. A pod without a status, or without that condition, does not.
    pub fn is_ready(&self) -> (ready: bool)
        ensures
            ready == self@.is_ready(),
    {
        match &self.conditions {
            Some(conditions) => any_ready(conditions),
            None => false,
        }
    }
}

/// Tells whether a list of conditions holds `Ready` with the value `True`.
pub fn any_ready(conditions: &Vec<Condition>) -> (ready: bool)
    ensures
        ready == holds_ready(condition_views(conditions@)),
{
    let mut i: usize = 0;
    while i < conditions.len()
        invariant
            i <= conditions.len(),
            forall|j: int| 0 <= j < i ==> !(#[trigger] condition_views(conditions@)[j]).is_ready(),
        decreases conditions.len() - i,
    {
        if conditions[i].is_ready() {
            assert(condition_views(conditions@)[i as int].is_ready());
            return true;
        }
        i += 1;
    }
    false
}

/// The views of a list of pods, in the same order.
pub open spec fn pod_views(pods: Seq<Pod>) -> Seq<PodView> {
    Seq::new(pods.len(), |i: int| pods[i]@)
}

} // verus!
