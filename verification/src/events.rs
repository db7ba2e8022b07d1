//! The values that the client engine hands to whoever watches it.
use vstd::prelude::*;

verus! {

/// A probe left the client.
#[derive(Clone, Copy, Debug, PartialEq, Eq, Structural)]
pub struct MessageSentEvent {
    pub idx: u64,
    pub snt_time: u128,
}

impl MessageSentEvent {
    pub fn new(idx: u64, snt_time: u128) -> (event: Self)
        ensures
            event.idx == idx,
            event.snt_time == snt_time,
    {
        Self { idx, snt_time }
    }
}

/// The echo of a probe came back and passed the integrity check.
#[derive(Clone, Copy, Debug, PartialEq, Eq, Structural)]
pub struct MessageReceivedEvent {
    pub idx: u64,
    pub rcv_time: u128,
}

impl MessageReceivedEvent {
    pub fn new(idx: u64, rcv_time: u128) -> (event: Self)
        ensures
            event.idx == idx,
            event.rcv_time == rcv_time,
    {
        Self { idx, rcv_time }
    }
}

/// What the client engine reports: a copy of the facts, nothing of the
/// socket or of the engine's own state.
#[derive(Clone, Copy, Debug, PartialEq, Eq, Structural)]
pub enum NetupEvent {
    MessageSent(MessageSentEvent),
    MessageReceived(MessageReceivedEvent),
}

} // verus!
