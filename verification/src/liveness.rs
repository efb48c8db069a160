//! Liveness of protocol objects and the outcome of sending to them.

use vstd::prelude::*;

verus! {

/// State of liveness of a protocol object, as seen through one handle.
#[derive(Copy, Clone, PartialEq, Eq, Structural, Debug)]
pub enum Liveness {
    /// The object is alive: events can be sent to it.
    Alive,
    /// The object was destroyed: sends are rejected.
    Dead,
    /// The object is not managed by the engine: events can be sent, but the
    /// engine cannot tell whether the object still exists.
    Unmanaged,
}

/// Outcome of sending an event to a resource.
#[derive(Debug)]
pub enum EventResult<T> {
    /// The message was buffered and will be sent to the client.
    Sent(T),
    /// The resource is already destroyed: the request was ignored.
    Destroyed,
}

impl<T> EventResult<T> {
    /// Whether the message was buffered.
    pub fn is_sent(&self) -> (sent: bool)
        ensures
            sent == (*self is Sent),
    {
        match self {
            EventResult::Sent(_) => true,
            EventResult::Destroyed => false,
        }
    }

    /// Extracts the value of a successful send.
    ///
    /// A `Destroyed` result carries no value, so the caller has to rule it
    /// out; `error` says what the caller expected.
    pub fn expect(self, error: &str) -> (value: T)
        requires
            self is Sent,
        ensures
            value == self->Sent_0,
    {
        match self {
            EventResult::Sent(v) => v,
            EventResult::Destroyed => vstd::pervasive::unreached(),
        }
    }
}

} // verus!
