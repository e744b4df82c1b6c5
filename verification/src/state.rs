//! The statuses gathered in one polling cycle, one per webhook target.

use crate::status::PodStatus;
use crate::text::same_text;
use vstd::prelude::*;

verus! {

/// Holds when `entries` lists `state`: every target of `state` occurs in it
/// once, beside its status, and nothing else occurs in it.
pub open spec fn lists(
    entries: Seq<(Seq<char>, PodStatus)>,
    state: Map<Seq<char>, PodStatus>,
) -> bool {
    &&& forall|i: int|
        0 <= i < entries.len() ==> state.contains_key((#[trigger] entries[i]).0)
            && state[entries[i].0] == entries[i].1
    &&& forall|i: int, j: int|
        0 <= i < j < entries.len() ==> (#[trigger] entries[i]).0 != (#[trigger] entries[j]).0
    &&& forall|target: Seq<char>| #[trigger]
        state.contains_key(target) ==> exists|i: int|
            0 <= i < entries.len() && (#[trigger] entries[i]).0 == target
}

/// What one more observation makes of a cycle's statuses: a target seen for
/// the first time enters with the status that `ready` gives, a target already
/// there turns `Up` when `ready` holds and otherwise keeps what it has.
pub open spec fn observed(
    state: Map<Seq<char>, PodStatus>,
    target: Seq<char>,
    ready: bool,
) -> Map<Seq<char>, PodStatus> {
    if ready || !state.contains_key(target) {
        state.insert(target, PodStatus::of(ready))
    } else {
        state
    }
}

/// A target that is `Up` stays `Up`, whatever is observed after it, and no
/// target is ever dropped.
pub proof fn up_stays_up(
    state: Map<Seq<char>, PodStatus>,
    seen: Seq<char>,
    ready: bool,
    target: Seq<char>,
)
    requires
        state.contains_key(target),
    ensures
        observed(state, seen, ready).contains_key(target),
        state[target] == PodStatus::Up ==> observed(state, seen, ready)[target] == PodStatus::Up,
{
}

/// Observing the same pod a second time changes nothing.
pub proof fn observing_again_changes_nothing(
    state: Map<Seq<char>, PodStatus>,
    target: Seq<char>,
    ready: bool,
)
    ensures
        observed(observed(state, target, ready), target, ready) == observed(state, target, ready),
{
    assert(observed(observed(state, target, ready), target, ready) =~= observed(
        state,
        target,
        ready,
    ));
}

/// Two observations lead to the same statuses in either order.
pub proof fn observations_commute(
    state: Map<Seq<char>, PodStatus>,
    one: Seq<char>,
    one_ready: bool,
    other: Seq<char>,
    other_ready: bool,
)
    ensures
        observed(observed(state, one, one_ready), other, other_ready) == observed(
            observed(state, other, other_ready),
            one,
            one_ready,
        ),
{
    assert(observed(observed(state, one, one_ready), other, other_ready) =~= observed(
        observed(state, other, other_ready),
        one,
        one_ready,
    ));
}

/// The statuses of one polling cycle: a mapping from webhook target to status.
///
/// It is filled during a cycle and dropped at its end. A target has one
/// status, and a status that is `Up` stays `Up`.
#[derive(Debug)]
pub struct CycleState {
    targets: Vec<String>,
    statuses: Vec<PodStatus>,
}

impl CycleState {
    /// The targets held, in the order in which they are stored.
    spec fn keys(&self) -> Seq<Seq<char>> {
        Seq::new(self.targets@.len(), |i: int| self.targets@[i]@)
    }

    /// The targets with their statuses, in the order in which they are stored.
    /// The order carries no meaning.
    pub closed spec fn entries(&self) -> Seq<(Seq<char>, PodStatus)> {
        Seq::new(self.targets@.len(), |i: int| (self.targets@[i]@, self.statuses@[i]))
    }

    /// Every target is stored once and has a status.
    #[verifier::type_invariant]
    pub closed spec fn wf(&self) -> bool {
        &&& self.targets@.len() == self.statuses@.len()
        &&& self.keys().no_duplicates()
    }

    /// The stored entries list the mapping.
    pub proof fn entries_list_view(&self)
        requires
            self.wf(),
        ensures
            lists(self.entries(), self@),
            self@.dom().finite(),
            self@.dom().len() == self.entries().len(),
    {
        let keys = self.keys();
        let entries = self.entries();
        assert forall|i: int| 0 <= i < entries.len() implies self@.contains_key(
            (#[trigger] entries[i]).0,
        ) && self@[entries[i].0] == entries[i].1 by {
            assert(keys[i] == entries[i].0);
            assert(keys.contains(entries[i].0));
            assert(keys.index_of(entries[i].0) == i);
        }
        assert forall|i: int, j: int| 0 <= i < j < entries.len() implies (#[trigger] entries[i]).0
            != (#[trigger] entries[j]).0 by {
            assert(keys[i] != keys[j]);
        }
        assert forall|target: Seq<char>| #[trigger] self@.contains_key(target) implies (exists|
            i: int,
        | 0 <= i < entries.len() && (#[trigger] entries[i]).0 == target) by {
            let i = keys.index_of(target);
            assert(entries[i].0 == target);
        }
        assert(self@.dom() =~= keys.to_set());
        keys.unique_seq_to_set();
        vstd::seq_lib::seq_to_set_is_finite(keys);
    }
}

impl View for CycleState {
    type V = Map<Seq<char>, PodStatus>;

    closed spec fn view(&self) -> Map<Seq<char>, PodStatus> {
        Map::new(
            |target: Seq<char>| self.keys().contains(target),
            |target: Seq<char>| self.statuses@[self.keys().index_of(target)],
        )
    }
}

impl CycleState {
    /// A cycle in which nothing has been observed yet.
    pub fn new() -> (state: CycleState)
        ensures
            state@ == Map::<Seq<char>, PodStatus>::empty(),
    {
        let state = CycleState { targets: Vec::new(), statuses: Vec::new() };
        assert(state@ =~= Map::<Seq<char>, PodStatus>::empty());
        state
    }

    /// The place at which `target` is stored, if it is.
    fn position(&self, target: &str) -> (found: Option<usize>)
        ensures
            found is Some <==> self.keys().contains(target@),
            found matches Some(i) ==> i < self.keys().len() && self.keys()[i as int] == target@,
    {
        let mut i: usize = 0;
        while i < self.targets.len()
            invariant
                i <= self.targets@.len(),
                forall|j: int| 0 <= j < i ==> self.keys()[j] != target@,
            decreases self.targets@.len() - i,
        {
            if same_text(self.targets[i].as_str(), target) {
                assert(self.keys()[i as int] == target@);
                return Some(i);
            }
            i += 1;
        }
        None
    }

    /// The cycle after one more pod behind `target` was seen, ready or not.
    pub fn observe(self, target: &str, ready: bool) -> (next: CycleState)
        ensures
            next@ == observed(self@, target@, ready),
    {
        proof {
            use_type_invariant(&self);
        }
        let found = self.position(target);
        let CycleState { mut targets, mut statuses } = self;
        match found {
            Some(i) => {
                if ready {
                    statuses.set(i, PodStatus::Up);
                }
                let next = CycleState { targets, statuses };
                proof {
                    assert(next.keys() == self.keys());
                    if ready {
                        assert forall|t: Seq<char>| next@.contains_key(t) implies #[trigger] next@[t]
                            == self@.insert(target@, PodStatus::Up)[t] by {
                            let k = next.keys().index_of(t);
                            assert(next.keys()[k] == t);
                        }
                        assert(next@ =~= self@.insert(target@, PodStatus::Up));
                    } else {
                        assert(next@ =~= self@);
                    }
                }
                next
            },
            None => {
                targets.push(target.to_owned());
                statuses.push(PodStatus::from_ready(ready));
                proof {
                    let keys = Seq::new(targets@.len(), |i: int| targets@[i]@);
                    assert(keys =~= self.keys().push(target@));
                    assert forall|i: int, j: int|
                        0 <= i < keys.len() && 0 <= j < keys.len() && i != j implies keys[i]
                        != keys[j] by {
                        if i < self.keys().len() {
                            assert(self.keys()[i] != target@);
                        }
                        if j < self.keys().len() {
                            assert(self.keys()[j] != target@);
                        }
                    }
                }
                let next = CycleState { targets, statuses };
                proof {
                    let n = self.keys().len() as int;
                    assert(next.keys() =~= self.keys().push(target@));
                    assert(next.keys()[n] == target@);
                    assert forall|t: Seq<char>| next@.contains_key(t) implies #[trigger] next@[t]
                        == self@.insert(target@, PodStatus::of(ready))[t] by {
                        let k = next.keys().index_of(t);
                        assert(next.keys()[k] == t);
                        if t != target@ {
                            assert(self.keys()[k] == t);
                            let k0 = self.keys().index_of(t);
                            assert(self.keys()[k0] == t);
                            assert(next.keys()[k0] == t);
                        }
                    }
                    assert forall|t: Seq<char>|
                        self@.insert(target@, PodStatus::of(ready)).contains_key(
                            t,
                        ) implies #[trigger] next@.contains_key(t) by {
                        if t != target@ {
                            let k0 = self.keys().index_of(t);
                            assert(next.keys()[k0] == t);
                        }
                    }
                    assert(next@ =~= self@.insert(target@, PodStatus::of(ready)));
                }
                next
            },
        }
    }

    /// The status of `target`, if the cycle has one for it.
    pub fn get(&self, target: &str) -> (status: Option<PodStatus>)
        ensures
            status == (if self@.contains_key(target@) {
                Some(self@[target@])
            } else {
                None
            }),
    {
        proof {
            use_type_invariant(self);
        }
        match self.position(target) {
            Some(i) => {
                assert(self.keys().index_of(target@) == i);
                Some(self.statuses[i])
            },
            None => None,
        }
    }

    /// The number of targets.
    pub fn len(&self) -> (count: usize)
        ensures
            count == self.entries().len(),
            self@.dom().finite(),
            count == self@.dom().len(),
    {
        proof {
            use_type_invariant(self);
            self.entries_list_view();
        }
        self.targets.len()
    }

    /// Tells whether the cycle holds no target at all.
    pub fn is_empty(&self) -> (empty: bool)
        ensures
            empty == (self@ == Map::<Seq<char>, PodStatus>::empty()),
    {
        proof {
            use_type_invariant(self);
            self.entries_list_view();
            if self.targets@.len() == 0 {
                assert(self@ =~= Map::<Seq<char>, PodStatus>::empty());
            } else {
                assert(self@.contains_key(self.entries()[0].0));
            }
        }
        self.targets.len() == 0
    }

    /// The target stored at `index` and its status, if `index` is below
    /// [`CycleState::len`]. Walking the indices from zero visits every target
    /// once.
    pub fn entry(&self, index: usize) -> (found: Option<(&String, PodStatus)>)
        ensures
            lists(self.entries(), self@),
            found is Some <==> index < self.entries().len(),
            found matches Some(pair) ==> (pair.0@, pair.1) == self.entries()[index as int],
    {
        proof {
            use_type_invariant(self);
            self.entries_list_view();
        }
        if index < self.targets.len() {
            Some((&self.targets[index], self.statuses[index]))
        } else {
            None
        }
    }
}

} // verus!
