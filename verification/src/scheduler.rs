//! The order of work in a polling loop: list, deliver, wait, and again.
//!
//! The scheduler decides and its driver acts. It hands out an [`Action`]; the
//! driver carries it out and reports the [`Event`] that ended it, which the
//! scheduler answers with the next action.

use crate::aggregate::{aggregate, cycle_state, listed};
use crate::notify::{
    delivery_views, notifications, notifies, Delivery, DeliveryView, DELIVERY_TIMEOUT_SECS,
};
use crate::pod::Pod;
use crate::status::PodStatus;
use vstd::prelude::*;

verus! {

/// How an attempt to deliver ended.
#[derive(Clone, Copy, Debug, PartialEq, Eq, Structural)]
pub enum Outcome {
    /// The webhook answered, with this HTTP status.
    Responded(u16),
    /// No answer came: the request could not be sent, or it timed out.
    Failed,
}

/// What the driver reports to the scheduler.
#[derive(Debug)]
pub enum Event {
    /// The cluster was asked for its pods. `None` stands for a listing that
    /// failed.
    Listed(Option<Vec<Pod>>),
    /// The delivery last handed out was attempted.
    Delivered(Outcome),
    /// The time to sleep has passed.
    Elapsed,
}

/// What the scheduler asks of its driver.
#[derive(Debug, PartialEq, Eq)]
pub enum Action {
    /// List the pods of the whole cluster and report `Event::Listed`.
    List,
    /// Send this delivery by HTTP POST, give up after `timeout_secs` seconds
    /// without an answer, and report `Event::Delivered`.
    Post { delivery: Delivery, timeout_secs: u64 },
    /// Sleep for this many seconds and report `Event::Elapsed`.
    Sleep(u64),
}

/// The mathematical content of an [`Action`].
pub enum ActionView {
    List,
    Post { delivery: DeliveryView, timeout_secs: u64 },
    Sleep(u64),
}

impl View for Action {
    type V = ActionView;

    open spec fn view(&self) -> ActionView {
        match self {
            Action::List => ActionView::List,
            Action::Post { delivery, timeout_secs } => ActionView::Post {
                delivery: delivery@,
                timeout_secs: *timeout_secs,
            },
            Action::Sleep(seconds) => ActionView::Sleep(*seconds),
        }
    }
}

/// The event that the scheduler waits for.
#[derive(Clone, Copy, Debug, PartialEq, Eq, Structural)]
pub enum Phase {
    /// A listing is under way.
    Listing,
    /// A delivery is under way.
    Delivering,
    /// The cycle is over and the driver sleeps.
    Waiting,
}

/// The mathematical content of a [`Scheduler`].
pub struct SchedulerView {
    /// The seconds to sleep between two cycles.
    pub interval_secs: u64,
    /// The event that the scheduler waits for.
    pub phase: Phase,
    /// The deliveries of the cycle that have not been handed out yet. The
    /// last one is handed out first.
    pub pending: Seq<DeliveryView>,
}

/// Where a scheduler goes with `plan` left to deliver: it hands out the last
/// delivery of the plan, to be given up after [`DELIVERY_TIMEOUT_SECS`]
/// seconds, or sends the driver to sleep when nothing is left.
pub open spec fn proceed(interval_secs: u64, plan: Seq<DeliveryView>) -> (
    SchedulerView,
    ActionView,
) {
    if plan.len() == 0 {
        (
            SchedulerView { interval_secs, phase: Phase::Waiting, pending: plan },
            ActionView::Sleep(interval_secs),
        )
    } else {
        (
            SchedulerView { interval_secs, phase: Phase::Delivering, pending: plan.drop_last() },
            ActionView::Post { delivery: plan.last(), timeout_secs: DELIVERY_TIMEOUT_SECS },
        )
    }
}

/// The deliveries that a scheduler still owes after a step: the one it has
/// just handed out, if any, and those it holds back.
pub open spec fn owed(after: SchedulerView, action: ActionView) -> Seq<DeliveryView> {
    match action {
        ActionView::Post { delivery, .. } => after.pending.push(delivery),
        _ => after.pending,
    }
}

/// Holds when `after` and `action` are what a scheduler in the state `before`
/// makes of `event`.
///
/// - A listing is turned into the deliveries that notify its cycle, and the
///   scheduler proceeds with them.
/// - After a delivery the scheduler proceeds with what is left, whatever the
///   outcome was.
/// - When the sleep is over the next listing begins.
/// - An event that the scheduler does not wait for changes nothing and gets
///   no action.
pub open spec fn steps(
    before: SchedulerView,
    event: Event,
    after: SchedulerView,
    action: Option<ActionView>,
) -> bool {
    match (before.phase, event) {
        (Phase::Listing, Event::Listed(listing)) => {
            &&& action matches Some(act)
            &&& notifies(owed(after, act), cycle_state(listed(listing)))
            &&& (after, act) == proceed(before.interval_secs, owed(after, act))
        },
        (Phase::Delivering, Event::Delivered(_)) => {
            &&& action matches Some(act)
            &&& (after, act) == proceed(before.interval_secs, before.pending)
        },
        (Phase::Waiting, Event::Elapsed) => {
            &&& action == Some(ActionView::List)
            &&& after == SchedulerView { phase: Phase::Listing, ..before }
        },
        _ => action is None && after == before,
    }
}

/// The view of an action that may be absent.
pub open spec fn action_view(action: Option<Action>) -> Option<ActionView> {
    match action {
        Some(act) => Some(act@),
        None => None,
    }
}

/// The decisions of a polling loop, held between the events of its driver.
#[derive(Debug)]
pub struct Scheduler {
    interval_secs: u64,
    phase: Phase,
    pending: Vec<Delivery>,
}

impl View for Scheduler {
    type V = SchedulerView;

    closed spec fn view(&self) -> SchedulerView {
        SchedulerView {
            interval_secs: self.interval_secs,
            phase: self.phase,
            pending: delivery_views(self.pending@),
        }
    }
}

impl Scheduler {
    /// A scheduler for cycles that are `interval_secs` seconds apart, and its
    /// first action: the first listing starts at once.
    pub fn start(interval_secs: u64) -> (begun: (Scheduler, Action))
        ensures
            begun.0@ == (SchedulerView {
                interval_secs,
                phase: Phase::Listing,
                pending: Seq::empty(),
            }),
            begun.1@ == ActionView::List,
    {
        let scheduler = Scheduler { interval_secs, phase: Phase::Listing, pending: Vec::new() };
        assert(scheduler@.pending =~= Seq::empty());
        (scheduler, Action::List)
    }

    /// The seconds to sleep between two cycles.
    pub fn interval_secs(&self) -> (seconds: u64)
        ensures
            seconds == self@.interval_secs,
    {
        self.interval_secs
    }

    /// The event that the scheduler waits for.
    pub fn phase(&self) -> (phase: Phase)
        ensures
            phase == self@.phase,
    {
        self.phase
    }

    /// The number of deliveries of the cycle that have not been handed out.
    pub fn pending(&self) -> (count: usize)
        ensures
            count == self@.pending.len(),
    {
        self.pending.len()
    }

    /// Hands out the next delivery, or ends the cycle when none is left.
    fn advance(&mut self) -> (action: Action)
        ensures
            (final(self)@, action@) == proceed(old(self)@.interval_secs, old(self)@.pending),
    {
        let ghost before = self@;
        match self.pending.pop() {
            Some(delivery) => {
                self.phase = Phase::Delivering;
                assert(self@.pending =~= before.pending.drop_last());
                Action::Post { delivery, timeout_secs: DELIVERY_TIMEOUT_SECS }
            },
            None => {
                self.phase = Phase::Waiting;
                Action::Sleep(self.interval_secs)
            },
        }
    }

    /// Takes the event that ended the last action and decides the next one.
    ///
    /// `None` means that the scheduler was not waiting for this event; it has
    /// then changed nothing.
    pub fn step(&mut self, event: Event) -> (action: Option<Action>)
        ensures
            steps(old(self)@, event, final(self)@, action_view(action)),
    {
        match event {
            Event::Listed(listing) => match self.phase {
                Phase::Listing => {
                    let state = aggregate(listing);
                    self.pending = notifications(&state);
                    let ghost plan = self@.pending;
                    let action = self.advance();
                    proof {
                        assert(owed(self@, action@) =~= plan);
                    }
                    Some(action)
                },
                _ => None,
            },
            Event::Delivered(_) => match self.phase {
                Phase::Delivering => Some(self.advance()),
                _ => None,
            },
            Event::Elapsed => match self.phase {
                Phase::Waiting => {
                    self.phase = Phase::Listing;
                    Some(Action::List)
                },
                _ => None,
            },
        }
    }
}

/// A listing that failed, and one in which no pod is monitored, lead to no
/// delivery: the scheduler sends the driver to sleep at once.
pub proof fn nothing_found_nothing_posted(
    before: SchedulerView,
    listing: Option<Vec<Pod>>,
    after: SchedulerView,
    action: Option<ActionView>,
)
    requires
        before.phase == Phase::Listing,
        steps(before, Event::Listed(listing), after, action),
        cycle_state(listed(listing)) == Map::<Seq<char>, PodStatus>::empty(),
    ensures
        action == Some(ActionView::Sleep(before.interval_secs)),
        after.phase == Phase::Waiting,
        after.pending.len() == 0,
{
    crate::notify::nothing_to_notify(owed(after, action->0));
}

/// How a delivery ended has no part in what follows it: after a rejection or
/// a failure the scheduler goes on as after a success.
pub proof fn outcome_is_discarded(
    before: SchedulerView,
    one: Outcome,
    other: Outcome,
    after_one: SchedulerView,
    action_one: Option<ActionView>,
    after_other: SchedulerView,
    action_other: Option<ActionView>,
)
    requires
        steps(before, Event::Delivered(one), after_one, action_one),
        steps(before, Event::Delivered(other), after_other, action_other),
    ensures
        after_one == after_other,
        action_one == action_other,
{
}

/// While deliveries are left, the end of one hands out the next; the driver
/// is sent to sleep only when none is left.
pub proof fn deliveries_run_to_the_end(
    before: SchedulerView,
    outcome: Outcome,
    after: SchedulerView,
    action: Option<ActionView>,
)
    requires
        before.phase == Phase::Delivering,
        steps(before, Event::Delivered(outcome), after, action),
    ensures
        before.pending.len() > 0 ==> action == Some(
            ActionView::Post {
                delivery: before.pending.last(),
                timeout_secs: DELIVERY_TIMEOUT_SECS,
            },
        ) && after.phase == Phase::Delivering && after.pending == before.pending.drop_last(),
        before.pending.len() == 0 ==> action == Some(ActionView::Sleep(before.interval_secs))
            && after.phase == Phase::Waiting,
{
}

} // verus!
