//! Measurement core of a UDP latency and uptime probe.
//!
//! A client sends numbered, timestamped, hash-protected datagrams to a
//! responder that echoes them back. This crate holds the parts of that system
//! that decide things: the wire codec, the ordered history of probes with its
//! export, the client's send and receive decisions, the port scan and the
//! responder's reply rule. Sockets, files and windows live with the caller.
pub mod client;
pub mod clock;
pub mod digits;
pub mod endian;
pub mod events;
pub mod export;
pub mod history;
pub mod message;
pub mod server;
pub mod sha;
pub mod store;

pub use client::{
    first_attempt, next_attempt, BindOutcome, ClientEngine, DropReason, Inbound, LocalPort,
    PortError, PortStep, FIRST_PORT, LAST_PORT, SEND_INTERVAL_MS,
};
pub use clock::{format_timestamp_ms, get_timestamp, TIMESTAMP_PATTERN};
pub use digits::u128_to_decimal;
pub use events::{MessageReceivedEvent, MessageSentEvent, NetupEvent};
pub use export::{header_row, record_row};
pub use history::MessageMap;
pub use message::{return_port, RawMessage, RETURN_PORT_LEN, WIRE_LEN};
pub use server::{
    echo_of, Echo, EchoPolicy, Endpoint, Responder, ResponderAction, ResponderEvent,
    ResponderState,
};
pub use store::{FindMode, SortedMessages, TrackedMessage};
