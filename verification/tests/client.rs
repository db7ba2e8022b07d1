use netup::{
    first_attempt, next_attempt, BindOutcome, ClientEngine, DropReason, Inbound, LocalPort,
    MessageReceivedEvent, MessageSentEvent, NetupEvent, PortError, PortStep, RawMessage,
    FIRST_PORT, LAST_PORT, SEND_INTERVAL_MS,
};

#[test]
fn scan_starts_at_the_first_port() {
    assert_eq!(FIRST_PORT, 10000);
    assert_eq!(LAST_PORT, 65534);
    assert_eq!(first_attempt(LocalPort::Scan), 10000);
    assert_eq!(first_attempt(LocalPort::Fixed(4242)), 4242);
}

#[test]
fn scan_takes_the_first_port_that_binds() {
    assert_eq!(next_attempt(LocalPort::Scan, 10000, BindOutcome::Bound), PortStep::Acquired(10000));
    assert_eq!(next_attempt(LocalPort::Scan, 10017, BindOutcome::Bound), PortStep::Acquired(10017));
    assert_eq!(next_attempt(LocalPort::Fixed(80), 80, BindOutcome::Bound), PortStep::Acquired(80));
}

#[test]
fn scan_moves_on_when_the_port_is_in_use() {
    assert_eq!(next_attempt(LocalPort::Scan, 10000, BindOutcome::AddrInUse), PortStep::Try(10001));
    assert_eq!(next_attempt(LocalPort::Scan, 65533, BindOutcome::AddrInUse), PortStep::Try(65534));
}

#[test]
fn scan_gives_up_after_the_last_port() {
    assert_eq!(
        next_attempt(LocalPort::Scan, 65534, BindOutcome::AddrInUse),
        PortStep::Abort(PortError::Exhausted)
    );
}

#[test]
fn scan_aborts_on_any_other_bind_error() {
    assert_eq!(
        next_attempt(LocalPort::Scan, 10003, BindOutcome::Failed),
        PortStep::Abort(PortError::BindFailed { port: 10003 })
    );
}

#[test]
fn fixed_port_is_never_replaced() {
    assert_eq!(
        next_attempt(LocalPort::Fixed(10000), 10000, BindOutcome::AddrInUse),
        PortStep::Abort(PortError::BindFailed { port: 10000 })
    );
    assert_eq!(
        next_attempt(LocalPort::Fixed(10000), 10000, BindOutcome::Failed),
        PortStep::Abort(PortError::BindFailed { port: 10000 })
    );
}

#[test]
fn whole_scan_over_busy_ports() {
    let mut port = first_attempt(LocalPort::Scan);
    let mut tried = 0u32;
    let end = loop {
        tried += 1;
        let outcome = if port < 10005 { BindOutcome::AddrInUse } else { BindOutcome::Bound };
        match next_attempt(LocalPort::Scan, port, outcome) {
            PortStep::Try(next) => port = next,
            other => break other,
        }
    };
    assert_eq!(end, PortStep::Acquired(10005));
    assert_eq!(tried, 6);
}

#[test]
fn whole_scan_with_every_port_in_use() {
    let mut port = first_attempt(LocalPort::Scan);
    let mut tried = 0u32;
    let end = loop {
        tried += 1;
        match next_attempt(LocalPort::Scan, port, BindOutcome::AddrInUse) {
            PortStep::Try(next) => port = next,
            other => break other,
        }
    };
    assert_eq!(end, PortStep::Abort(PortError::Exhausted));
    assert_eq!(tried, 55535);
}

#[test]
fn new_engine_starts_at_index_zero() {
    assert_eq!(SEND_INTERVAL_MS, 50);
    let engine = ClientEngine::new(10000, 1000, SEND_INTERVAL_MS);
    assert_eq!(
        engine,
        ClientEngine { local_port: 10000, next_idx: 0, next_send: 1000, interval: 50 }
    );
}

#[test]
fn probe_is_due_from_the_deadline_on() {
    let engine = ClientEngine::new(10000, 1000, 50);
    assert_eq!(engine.due_probe(999), None);
    assert_eq!(engine.due_probe(1000), Some(RawMessage::build(0, 1000)));
    assert_eq!(engine.due_probe(1234), Some(RawMessage::build(0, 1234)));
}

#[test]
fn confirm_sent_advances_index_and_deadline() {
    let mut engine = ClientEngine::new(10000, 1000, 50);
    let probe = engine.due_probe(1003).unwrap();
    let event = engine.confirm_sent(&probe);
    assert_eq!(event, Some(NetupEvent::MessageSent(MessageSentEvent::new(0, 1003))));
    assert_eq!(
        engine,
        ClientEngine { local_port: 10000, next_idx: 1, next_send: 1050, interval: 50 }
    );
    assert_eq!(engine.due_probe(1049), None);
    let probe = engine.due_probe(1050).unwrap();
    assert_eq!((probe.idx, probe.timestamp), (1, 1050));
    assert_eq!(
        engine.confirm_sent(&probe),
        Some(NetupEvent::MessageSent(MessageSentEvent::new(1, 1050)))
    );
    assert_eq!((engine.next_idx, engine.next_send), (2, 1100));
}

#[test]
fn unsent_probe_leaves_the_engine_as_it_was() {
    let engine = ClientEngine::new(10000, 1000, 50);
    let first = engine.due_probe(1000).unwrap();
    let again = engine.due_probe(1001).unwrap();
    assert_eq!(first.idx, again.idx);
    assert_eq!(engine.next_idx, 0);
    assert_eq!(engine.next_send, 1000);
}

#[test]
fn confirm_sent_ignores_a_probe_that_was_not_due() {
    let mut engine = ClientEngine::new(10000, 1000, 50);
    let before = engine;
    assert_eq!(engine.confirm_sent(&RawMessage::build(5, 1000)), None);
    assert_eq!(engine, before);
}

#[test]
fn engine_stops_when_the_indices_run_out() {
    let mut engine =
        ClientEngine { local_port: 1, next_idx: u64::MAX - 1, next_send: 0, interval: 50 };
    let probe = engine.due_probe(10).unwrap();
    assert_eq!(probe.idx, u64::MAX - 1);
    assert!(engine.confirm_sent(&probe).is_some());
    assert_eq!(engine.next_idx, u64::MAX);
    assert_eq!(engine.due_probe(u128::MAX), None);
    let before = engine;
    assert_eq!(engine.confirm_sent(&RawMessage::build(u64::MAX, 0)), None);
    assert_eq!(engine, before);
}

#[test]
fn deadline_stops_at_the_end_of_time() {
    let mut engine =
        ClientEngine { local_port: 1, next_idx: 3, next_send: u128::MAX - 10, interval: 50 };
    let probe = engine.due_probe(u128::MAX - 5).unwrap();
    assert!(engine.confirm_sent(&probe).is_some());
    assert_eq!(engine.next_send, u128::MAX);
    assert_eq!(engine.next_idx, 4);
}

#[test]
fn valid_echo_gives_a_received_event() {
    let engine = ClientEngine::new(10000, 1000, 50);
    let payload = RawMessage::build(7, 1000).to_bytes();
    assert_eq!(
        engine.on_datagram(payload, 1030),
        Ok(Inbound {
            event: NetupEvent::MessageReceived(MessageReceivedEvent::new(7, 1030)),
            delay: Some(30),
        })
    );
}

#[test]
fn echo_from_the_future_has_no_delay() {
    let engine = ClientEngine::new(10000, 1000, 50);
    let payload = RawMessage::build(7, 1000).to_bytes();
    assert_eq!(
        engine.on_datagram(payload, 999),
        Ok(Inbound {
            event: NetupEvent::MessageReceived(MessageReceivedEvent::new(7, 999)),
            delay: None,
        })
    );
}

#[test]
fn short_datagram_is_dropped_as_malformed() {
    let engine = ClientEngine::new(10000, 1000, 50);
    assert_eq!(engine.on_datagram(Vec::new(), 5), Err(DropReason::Malformed));
    let mut payload = RawMessage::build(7, 1000).to_bytes();
    payload.pop();
    assert_eq!(engine.on_datagram(payload, 5), Err(DropReason::Malformed));
}

#[test]
fn datagram_with_wrong_hash_is_dropped() {
    let engine = ClientEngine::new(10000, 1000, 50);
    let mut payload = RawMessage::build(7, 1000).to_bytes();
    payload[0] ^= 1;
    assert_eq!(engine.on_datagram(payload, 1030), Err(DropReason::HashMismatch { idx: 6 }));
    assert_eq!(engine.on_datagram(vec![0; 40], 1030), Err(DropReason::HashMismatch { idx: 0 }));
}
