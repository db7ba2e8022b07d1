//! The client's decisions: which local port to try next, when the next probe
//! is due, and what an incoming datagram amounts to.
//!
//! Nothing here touches a socket or a clock. The caller binds, sends,
//! receives and reads the time, and tells the engine what happened.
use crate::events::{MessageReceivedEvent, MessageSentEvent, NetupEvent};
use crate::message::{built_message, parse_wire, RawMessage};
use vstd::prelude::*;

verus! {

/// The first local port that a scan tries.
pub const FIRST_PORT: u16 = 10000;

/// The last local port that a scan tries.
pub const LAST_PORT: u16 = 65534;

/// The time between two probes, in milliseconds.
pub const SEND_INTERVAL_MS: u128 = 50;

/// Where the client's socket is to be bound.
#[derive(Clone, Copy, Debug, PartialEq, Eq, Structural)]
pub enum LocalPort {
    /// This port and no other.
    Fixed(u16),
    /// The first free port from `FIRST_PORT` upwards.
    Scan,
}

/// How an attempt to bind went.
#[derive(Clone, Copy, Debug, PartialEq, Eq, Structural)]
pub enum BindOutcome {
    Bound,
    /// The address is in use.
    AddrInUse,
    /// Any other failure.
    Failed,
}

/// Why no port could be acquired.
#[derive(Clone, Copy, Debug, PartialEq, Eq, Structural)]
pub enum PortError {
    /// Binding `port` failed, and not because a scan found it in use.
    BindFailed { port: u16 },
    /// Every port up to `LAST_PORT` was in use.
    Exhausted,
}

/// What to do after an attempt to bind.
#[derive(Clone, Copy, Debug, PartialEq, Eq, Structural)]
pub enum PortStep {
    /// Bind this port next.
    Try(u16),
    /// The socket is bound to this port.
    Acquired(u16),
    /// Give up: the client cannot start.
    Abort(PortError),
}

/// The port to bind first.
pub open spec fn first_port(config: LocalPort) -> u16 {
    match config {
        LocalPort::Fixed(port) => port,
        LocalPort::Scan => FIRST_PORT,
    }
}

/// The step that follows an attempt to bind `port`. A scan moves on to the
/// next port only where the port was in use, and only up to `LAST_PORT`.
pub open spec fn port_step(config: LocalPort, port: u16, outcome: BindOutcome) -> PortStep {
    match outcome {
        BindOutcome::Bound => PortStep::Acquired(port),
        BindOutcome::Failed => PortStep::Abort(PortError::BindFailed { port }),
        BindOutcome::AddrInUse => match config {
            LocalPort::Fixed(_) => PortStep::Abort(PortError::BindFailed { port }),
            LocalPort::Scan => if port < LAST_PORT {
                PortStep::Try((port + 1) as u16)
            } else {
                PortStep::Abort(PortError::Exhausted)
            },
        },
    }
}

/// The port to bind first.
pub fn first_attempt(config: LocalPort) -> (port: u16)
    ensures
        port == first_port(config),
{
    match config {
        LocalPort::Fixed(port) => port,
        LocalPort::Scan => FIRST_PORT,
    }
}

/// Decides what follows an attempt to bind `port`.
pub fn next_attempt(config: LocalPort, port: u16, outcome: BindOutcome) -> (step: PortStep)
    ensures
        step == port_step(config, port, outcome),
{
    match outcome {
        BindOutcome::Bound => PortStep::Acquired(port),
        BindOutcome::Failed => PortStep::Abort(PortError::BindFailed { port }),
        BindOutcome::AddrInUse => match config {
            LocalPort::Fixed(_) => PortStep::Abort(PortError::BindFailed { port }),
            LocalPort::Scan => {
                if port < LAST_PORT {
                    PortStep::Try(port + 1)
                } else {
                    PortStep::Abort(PortError::Exhausted)
                }
            },
        },
    }
}

/// Why an incoming datagram was dropped.
#[derive(Clone, Copy, Debug, PartialEq, Eq, Structural)]
pub enum DropReason {
    /// Too short to hold a message.
    Malformed,
    /// The hash does not fit index and send time; `idx` is the index that
    /// the datagram claims.
    HashMismatch { idx: u64 },
}

/// A valid echo.
#[derive(Clone, Copy, Debug, PartialEq, Eq, Structural)]
pub struct Inbound {
    /// The event to hand on.
    pub event: NetupEvent,
    /// Round-trip delay in milliseconds: the time of receipt less the send
    /// time that the echo carries. Absent where that send time lies after
    /// the time of receipt.
    pub delay: Option<u128>,
}

/// What a datagram received at `now` amounts to.
pub open spec fn inbound_of(payload: Seq<u8>, now: u128) -> Result<Inbound, DropReason> {
    match parse_wire(payload) {
        None => Err(DropReason::Malformed),
        Some(msg) => if !msg.hash_ok() {
            Err(DropReason::HashMismatch { idx: msg.idx })
        } else {
            Ok(
                Inbound {
                    event: NetupEvent::MessageReceived(
                        MessageReceivedEvent { idx: msg.idx, rcv_time: now },
                    ),
                    delay: if msg.timestamp <= now {
                        Some((now - msg.timestamp) as u128)
                    } else {
                        None
                    },
                },
            )
        },
    }
}

/// The sending side of the client: the port it is bound to, the index of the
/// next probe and the time at which that probe is due.
#[derive(Clone, Copy, Debug, PartialEq, Eq, Structural)]
pub struct ClientEngine {
    pub local_port: u16,
    pub next_idx: u64,
    pub next_send: u128,
    pub interval: u128,
}

impl ClientEngine {
    /// A probe is due at `now`: the deadline has come, and an index is left
    /// for the probe after this one.
    pub open spec fn is_due(self, now: u128) -> bool {
        now >= self.next_send && self.next_idx < u64::MAX
    }

    /// The engine after the probe with index `next_idx` went out: the index
    /// grows by one and the deadline by the interval. A deadline past the end
    /// of time stays at the end of time.
    pub open spec fn advanced(self) -> ClientEngine {
        ClientEngine {
            local_port: self.local_port,
            next_idx: (self.next_idx + 1) as u64,
            next_send: if self.next_send + self.interval <= u128::MAX {
                (self.next_send + self.interval) as u128
            } else {
                u128::MAX
            },
            interval: self.interval,
        }
    }

    /// An engine bound to `local_port` whose first probe, index 0, is due at
    /// `start`, with `interval` milliseconds between probes.
    pub fn new(local_port: u16, start: u128, interval: u128) -> (engine: Self)
        ensures
            engine == (ClientEngine { local_port, next_idx: 0, next_send: start, interval }),
    {
        ClientEngine { local_port, next_idx: 0, next_send: start, interval }
    }

    /// The probe to transmit at `now`, if one is due. The engine itself does
    /// not change: it moves on when `confirm_sent` is told that the probe
    /// went out.
    pub fn due_probe(&self, now: u128) -> (probe: Option<RawMessage>)
        ensures
            probe == if self.is_due(now) {
                Some(built_message(self.next_idx, now))
            } else {
                None
            },
    {
        if now >= self.next_send && self.next_idx < u64::MAX {
            Some(RawMessage::build(self.next_idx, now))
        } else {
            None
        }
    }

    /// Takes note that `probe` was transmitted, and gives the event to emit.
    /// The probe must be the one that was due, that is, carry the engine's
    /// next index; otherwise nothing changes and there is no event.
    pub fn confirm_sent(&mut self, probe: &RawMessage) -> (event: Option<NetupEvent>)
        ensures
            old(self).next_idx == probe.idx && probe.idx < u64::MAX ==> {
                &&& *final(self) == old(self).advanced()
                &&& event == Some(
                    NetupEvent::MessageSent(
                        MessageSentEvent { idx: probe.idx, snt_time: probe.timestamp },
                    ),
                )
            },
            !(old(self).next_idx == probe.idx && probe.idx < u64::MAX) ==> {
                &&& *final(self) == *old(self)
                &&& event is None
            },
    {
        if self.next_idx != probe.idx || probe.idx == u64::MAX {
            return None;
        }
        self.next_idx = self.next_idx + 1;
        self.next_send = match self.next_send.checked_add(self.interval) {
            Some(deadline) => deadline,
            None => u128::MAX,
        };
        Some(NetupEvent::MessageSent(MessageSentEvent::new(probe.idx, probe.timestamp)))
    }

    /// Judges a datagram received at `now`. A datagram that is too short or
    /// whose hash does not fit is dropped, with the reason; a valid echo
    /// gives the event to emit and the round-trip delay. The engine does not
    /// change either way.
    pub fn on_datagram(&self, payload: Vec<u8>, now: u128) -> (verdict: Result<Inbound, DropReason>)
        ensures
            verdict == inbound_of(payload@, now),
    {
        let msg = match RawMessage::from_bytes(payload) {
            Some(msg) => msg,
            None => return Err(DropReason::Malformed),
        };
        if !msg.check_hash() {
            return Err(DropReason::HashMismatch { idx: msg.idx });
        }
        let delay = if msg.timestamp <= now {
            Some(now - msg.timestamp)
        } else {
            None
        };
        Ok(
            Inbound {
                event: NetupEvent::MessageReceived(MessageReceivedEvent::new(msg.idx, now)),
                delay,
            },
        )
    }
}

/// A scan tries the ports in growing order and ends: each further attempt is
/// at the next higher port, none goes beyond `LAST_PORT`.
pub proof fn lemma_scan_moves_up(port: u16, outcome: BindOutcome)
    ensures
        port_step(LocalPort::Scan, port, outcome) matches PortStep::Try(next) ==> next == port + 1
            && next <= LAST_PORT,
{
}

/// What the engine transmits passes its own check when echoed unchanged: the
/// encoding of a due probe, received back at `later`, is a valid echo of
/// that probe's index, and the delay is the time that has passed.
pub proof fn lemma_echo_of_due_probe_is_valid(engine: ClientEngine, now: u128, later: u128)
    requires
        engine.is_due(now),
        now <= later,
    ensures
        inbound_of(crate::message::wire_bytes(built_message(engine.next_idx, now)), later) == Ok::<
            Inbound,
            DropReason,
        >(
            Inbound {
                event: NetupEvent::MessageReceived(
                    MessageReceivedEvent { idx: engine.next_idx, rcv_time: later },
                ),
                delay: Some((later - now) as u128),
            },
        ),
{
    crate::message::lemma_wire_round_trip(built_message(engine.next_idx, now));
}

} // verus!
