//! The aggregate status of a webhook target and the payload that reports it.

use crate::json::{encode_member, needs_no_escape, object_text};
use vstd::prelude::*;

verus! {

/// The verdict for one webhook target within one polling cycle.
#[derive(Clone, Copy, Debug, PartialEq, Eq, Structural)]
pub enum PodStatus {
    /// At least one pod behind the target reports that it is ready.
    Up,
    /// No pod behind the target reports that it is ready.
    Down,
}

impl PodStatus {
    /// `Up` when `ready` holds, `Down` otherwise.
    pub open spec fn of(ready: bool) -> PodStatus {
        if ready {
            PodStatus::Up
        } else {
            PodStatus::Down
        }
    }

    /// The value a webhook receives for this status.
    pub open spec fn trigger_text(self) -> Seq<char> {
        match self {
            PodStatus::Up => "up"@,
            PodStatus::Down => "down"@,
        }
    }

    /// The body a webhook receives for this status, character by character.
    pub open spec fn payload_text(self) -> Seq<char> {
        match self {
            PodStatus::Up => "{\"trigger\":\"up\"}"@,
            PodStatus::Down => "{\"trigger\":\"down\"}"@,
        }
    }

    /// `Up` when `ready` holds, `Down` otherwise.
    pub fn from_ready(ready: bool) -> (status: PodStatus)
        ensures
            status == PodStatus::of(ready),
    {
        if ready {
            PodStatus::Up
        } else {
            PodStatus::Down
        }
    }

    /// Tells whether this status is `Up`.
    pub fn is_up(&self) -> (up: bool)
        ensures
            up == (*self == PodStatus::Up),
    {
        match self {
            PodStatus::Up => true,
            PodStatus::Down => false,
        }
    }

    /// The value a webhook receives for this status: `up` or `down`.
    pub fn trigger(&self) -> (word: &'static str)
        ensures
            word@ == self.trigger_text(),
    {
        match self {
            PodStatus::Up => "up",
            PodStatus::Down => "down",
        }
    }

    /// The JSON body a webhook receives for this status: an object whose only
    /// member, `trigger`, holds `up` or `down`.
    pub fn payload(&self) -> (body: String)
        ensures
            body@ == self.payload_text(),
    {
        let word = self.trigger();
        proof {
            reveal_strlit("trigger");
            reveal_strlit("up");
            reveal_strlit("down");
            reveal_strlit("{\"trigger\":\"up\"}");
            reveal_strlit("{\"trigger\":\"down\"}");
            assert(needs_no_escape("trigger"@));
            assert(needs_no_escape(word@));
            assert(object_text("trigger"@, word@) =~= self.payload_text());
        }
        encode_member("trigger", word)
    }
}

/// A payload is a JSON object with the single member `trigger`, whose value
/// is the word of the status; the two statuses never share a payload.
pub proof fn payload_is_trigger_object(a: PodStatus, b: PodStatus)
    ensures
        a.payload_text() == object_text("trigger"@, a.trigger_text()),
        a.payload_text() == b.payload_text() <==> a == b,
{
    reveal_strlit("trigger");
    reveal_strlit("up");
    reveal_strlit("down");
    reveal_strlit("{\"trigger\":\"up\"}");
    reveal_strlit("{\"trigger\":\"down\"}");
    assert(object_text("trigger"@, a.trigger_text()) =~= a.payload_text());
    assert(PodStatus::Up.payload_text().len() != PodStatus::Down.payload_text().len());
}

} // verus!
