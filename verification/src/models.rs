//! Protocol data: event kinds and the payload carried with a dispatched event.

use vstd::prelude::*;

pub mod message;

verus! {

/// A protocol event kind; used as the key of the handler table.
#[derive(Debug, Clone, Copy, PartialEq, Eq, Hash, Structural)]
pub enum Event {
    /// The connection is ready.
    Ready,
    /// The remote endpoint reported an error.
    Error,
    /// The user joined an activity.
    ActivityJoin,
    /// Someone asked to join the user's activity.
    ActivityJoinRequest,
    /// The user started spectating an activity.
    ActivitySpectate,
}

/// The structured payload delivered with one event, carried as its
/// serialized text form; the registry never inspects it.
#[derive(Debug)]
pub struct EventData {
    /// The serialized text of the payload.
    pub payload: String,
}

impl View for EventData {
    type V = Seq<char>;

    open spec fn view(&self) -> Seq<char> {
        self.payload@
    }
}

impl Clone for EventData {
    fn clone(&self) -> (res: Self)
        ensures
            res@ == self@,
    {
        EventData { payload: self.payload.clone() }
    }
}

impl EventData {
    /// Wraps the serialized text of a payload.
    pub fn new(payload: String) -> (res: Self)
        ensures
            res@ == payload@,
    {
        EventData { payload }
    }
}

} // verus!
