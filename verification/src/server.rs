//! The responder's decisions: whether a datagram is echoed, where to, and
//! which state the responder is in.
//!
//! The caller owns the socket. It reports what the socket did as events and
//! carries out the action that each step returns.
use crate::message::parse_return_port;
use crate::message::return_port;
use vstd::prelude::*;
use vstd::slice::slice_to_vec;

verus! {

/// A UDP address: what a socket address holds, as plain numbers.
#[allow(inconsistent_fields)]
#[derive(Clone, Copy, Debug, PartialEq, Eq, Structural)]
pub enum Endpoint {
    V4 { host: u32, port: u16 },
    V6 { host: u128, port: u16, flowinfo: u32, scope_id: u32 },
}

impl Endpoint {
    /// The same host with another port.
    pub open spec fn spec_with_port(self, port: u16) -> Endpoint {
        match self {
            Endpoint::V4 { host, .. } => Endpoint::V4 { host, port },
            Endpoint::V6 { host, flowinfo, scope_id, .. } => Endpoint::V6 {
                host,
                port,
                flowinfo,
                scope_id,
            },
        }
    }

    /// The same host with another port.
    #[verifier::when_used_as_spec(spec_with_port)]
    pub fn with_port(self, port: u16) -> (out: Endpoint)
        ensures
            out == self.spec_with_port(port),
    {
        match self {
            Endpoint::V4 { host, .. } => Endpoint::V4 { host, port },
            Endpoint::V6 { host, flowinfo, scope_id, .. } => Endpoint::V6 {
                host,
                port,
                flowinfo,
                scope_id,
            },
        }
    }
}

/// Where echoes go. It is set when the responder is made, not per datagram.
#[derive(Clone, Copy, Debug, PartialEq, Eq, Structural)]
pub enum EchoPolicy {
    /// To the address that the datagram came from.
    Source,
    /// To the host that the datagram came from, at the port that its first
    /// two bytes name.
    ReturnPort,
}

/// The responder's place in its cycle.
#[derive(Clone, Copy, Debug, PartialEq, Eq, Structural)]
pub enum ResponderState {
    /// The socket is bound; nothing has been received yet.
    Bound,
    /// Waiting for a datagram.
    Listening,
    /// A datagram came in and its echo is on its way out.
    Echoing,
    /// The last receive gave nothing to echo.
    Idle,
}

/// What the socket did.
#[derive(Debug)]
pub enum ResponderEvent {
    /// The caller is ready to receive.
    Listen,
    /// A datagram came in.
    Datagram { payload: Vec<u8>, source: Endpoint },
    /// Receiving failed.
    ReceiveFailed,
    /// The echo was sent, or sending it failed.
    EchoDone,
}

/// A datagram to send back.
#[derive(Debug)]
pub struct Echo {
    pub payload: Vec<u8>,
    pub destination: Endpoint,
}

/// What the caller is to do next.
#[derive(Debug)]
pub enum ResponderAction {
    /// Receive the next datagram.
    Receive,
    /// Send this echo, then report `EchoDone`.
    Send(Echo),
    /// Nothing: report `Listen` to go on.
    Nothing,
}

/// Where the echo of `payload`, received from `source`, goes. Under
/// `ReturnPort` a datagram too short to name a port has no echo.
pub open spec fn echo_destination(policy: EchoPolicy, payload: Seq<u8>, source: Endpoint) -> Option<
    Endpoint,
> {
    match policy {
        EchoPolicy::Source => Some(source),
        EchoPolicy::ReturnPort => match parse_return_port(payload) {
            Some(port) => Some(source.spec_with_port(port)),
            None => None,
        },
    }
}

/// The state after `event`. An event that does not fit the state changes
/// nothing.
pub open spec fn next_state(
    policy: EchoPolicy,
    state: ResponderState,
    event: ResponderEvent,
) -> ResponderState {
    match (state, event) {
        (ResponderState::Bound, ResponderEvent::Listen) => ResponderState::Listening,
        (ResponderState::Idle, ResponderEvent::Listen) => ResponderState::Listening,
        (ResponderState::Echoing, ResponderEvent::EchoDone) => ResponderState::Listening,
        (ResponderState::Listening, ResponderEvent::ReceiveFailed) => ResponderState::Idle,
        (ResponderState::Listening, ResponderEvent::Datagram { payload, source }) => {
            if echo_destination(policy, payload@, source) is Some {
                ResponderState::Echoing
            } else {
                ResponderState::Idle
            }
        },
        _ => state,
    }
}

/// Whether `action` is what `event` calls for in `state`: to receive where
/// the responder starts to listen, to send the echo where a datagram that
/// has a destination arrives while it listens, and nothing otherwise. The
/// echo is the datagram, byte for byte.
pub open spec fn action_fits(
    policy: EchoPolicy,
    state: ResponderState,
    event: ResponderEvent,
    action: ResponderAction,
) -> bool {
    match (state, event) {
        (ResponderState::Bound, ResponderEvent::Listen) => action is Receive,
        (ResponderState::Idle, ResponderEvent::Listen) => action is Receive,
        (ResponderState::Echoing, ResponderEvent::EchoDone) => action is Receive,
        (ResponderState::Listening, ResponderEvent::Datagram { payload, source }) => {
            match echo_destination(policy, payload@, source) {
                Some(destination) => {
                    &&& action matches ResponderAction::Send(echo)
                    &&& echo.payload@ == payload@
                    &&& echo.destination == destination
                },
                None => action is Nothing,
            }
        },
        _ => action is Nothing,
    }
}

/// The echo of a datagram, if it has one: the same bytes, to the address
/// that the policy picks.
pub fn echo_of(policy: EchoPolicy, payload: &[u8], source: Endpoint) -> (echo: Option<Echo>)
    ensures
        match echo_destination(policy, payload@, source) {
            Some(destination) => echo matches Some(e) && e.payload@ == payload@ && e.destination
                == destination,
            None => echo is None,
        },
{
    let destination = match policy {
        EchoPolicy::Source => source,
        EchoPolicy::ReturnPort => match return_port(payload) {
            Some(port) => source.with_port(port),
            None => return None,
        },
    };
    Some(Echo { payload: slice_to_vec(payload), destination })
}

/// An echo responder.
pub struct Responder {
    policy: EchoPolicy,
    state: ResponderState,
}

impl Responder {
    /// The addressing policy.
    pub closed spec fn policy(&self) -> EchoPolicy {
        self.policy
    }

    /// The place in the cycle.
    pub closed spec fn state(&self) -> ResponderState {
        self.state
    }

    /// A responder whose socket has just been bound.
    pub fn new(policy: EchoPolicy) -> (responder: Self)
        ensures
            responder.policy() == policy,
            responder.state() == ResponderState::Bound,
    {
        Responder { policy, state: ResponderState::Bound }
    }

    /// The place in the cycle.
    pub fn current_state(&self) -> (state: ResponderState)
        ensures
            state == self.state(),
    {
        self.state
    }

    /// Takes one event and says what to do next.
    ///
    /// A datagram that arrives while listening is echoed where the policy
    /// gives it a destination. After an echo, whether it was sent or failed,
    /// and after a receive that gave nothing, the responder listens again:
    /// no event ends the cycle.
    pub fn step(&mut self, event: ResponderEvent) -> (action: ResponderAction)
        ensures
            final(self).policy() == old(self).policy(),
            final(self).state() == next_state(old(self).policy(), old(self).state(), event),
            action_fits(old(self).policy(), old(self).state(), event, action),
    {
        match (self.state, event) {
            (ResponderState::Bound, ResponderEvent::Listen) => {
                self.state = ResponderState::Listening;
                ResponderAction::Receive
            },
            (ResponderState::Idle, ResponderEvent::Listen) => {
                self.state = ResponderState::Listening;
                ResponderAction::Receive
            },
            (ResponderState::Echoing, ResponderEvent::EchoDone) => {
                self.state = ResponderState::Listening;
                ResponderAction::Receive
            },
            (ResponderState::Listening, ResponderEvent::ReceiveFailed) => {
                self.state = ResponderState::Idle;
                ResponderAction::Nothing
            },
            (ResponderState::Listening, ResponderEvent::Datagram { payload, source }) => {
                match echo_of(self.policy, payload.as_slice(), source) {
                    Some(echo) => {
                        self.state = ResponderState::Echoing;
                        ResponderAction::Send(echo)
                    },
                    None => {
                        self.state = ResponderState::Idle;
                        ResponderAction::Nothing
                    },
                }
            },
            _ => ResponderAction::Nothing,
        }
    }
}

/// Under the plain policy every datagram is echoed, byte for byte, to the
/// address it came from.
pub proof fn lemma_plain_echo_goes_back_to_source(payload: Seq<u8>, source: Endpoint)
    ensures
        echo_destination(EchoPolicy::Source, payload, source) == Some(source),
{
}

/// A listening responder with the plain policy answers every datagram with
/// an echo of the same bytes to the address that the datagram came from.
pub proof fn lemma_listening_responder_echoes_to_source(
    payload: Vec<u8>,
    source: Endpoint,
    action: ResponderAction,
)
    requires
        action_fits(
            EchoPolicy::Source,
            ResponderState::Listening,
            ResponderEvent::Datagram { payload, source },
            action,
        ),
    ensures
        action matches ResponderAction::Send(echo) && echo.payload@ == payload@ && echo.destination
            == source,
        next_state(
            EchoPolicy::Source,
            ResponderState::Listening,
            ResponderEvent::Datagram { payload, source },
        ) == ResponderState::Echoing,
{
}

/// From every other state one event leads back to listening: the responder
/// cannot get stuck.
pub proof fn lemma_responder_returns_to_listening(policy: EchoPolicy, state: ResponderState)
    ensures
        state != ResponderState::Listening ==> exists|event: ResponderEvent|
            #[trigger] next_state(policy, state, event) == ResponderState::Listening,
{
    assert(next_state(policy, ResponderState::Bound, ResponderEvent::Listen)
        == ResponderState::Listening);
    assert(next_state(policy, ResponderState::Idle, ResponderEvent::Listen)
        == ResponderState::Listening);
    assert(next_state(policy, ResponderState::Echoing, ResponderEvent::EchoDone)
        == ResponderState::Listening);
}

} // verus!
