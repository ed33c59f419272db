use multi_tcp_client::client::{Client, Config, SendAction};
use multi_tcp_client::endpoint::Endpoint;
use multi_tcp_client::error::TransportError;
use multi_tcp_client::reconnect::{ReconnectEvent, Reconnector, ReconnectorState};
use multi_tcp_client::writer::{ConnectionWriter, ProbeOutcome, WriteOutcome};

fn one_endpoint_client(ep: Endpoint, conn: u64, max_attempts: u32) -> Client {
    let config = Config::new(vec![ep], 50, 500, max_attempts);
    Client::new(config, vec![Some(conn)]).expect("bootstrap should succeed")
}

#[test]
fn fresh_reconnector_is_armed_with_zero_delay() {
    let ep = Endpoint::new(0x7f000001, 5000);
    let r = Reconnector::new(ep, 5, 50, 500);
    assert_eq!(r.state, ReconnectorState::Backoff { delay_ms: 0 });
    assert_eq!(r.attempts_made, 0);
}

#[test]
fn reconnector_succeeds_on_connect() {
    let ep = Endpoint::new(0x7f000001, 5000);
    let mut r = Reconnector::new(ep, 5, 50, 500);
    assert!(!r.step(ReconnectEvent::TimerElapsed));
    assert_eq!(r.state, ReconnectorState::Connecting);
    assert!(r.step(ReconnectEvent::ConnectSucceeded { conn: 7 }));
    assert_eq!(r.state, ReconnectorState::Succeeded { conn: 7 });
}

#[test]
fn reconnector_waits_out_pending_operations() {
    let ep = Endpoint::new(0x7f000001, 5000);
    let mut r = Reconnector::new(ep, 5, 50, 500);
    assert!(!r.step(ReconnectEvent::TimerPending));
    assert_eq!(r.state, ReconnectorState::Backoff { delay_ms: 0 });
    assert!(!r.step(ReconnectEvent::TimerElapsed));
    assert!(!r.step(ReconnectEvent::ConnectPending));
    assert_eq!(r.state, ReconnectorState::Connecting);
}

#[test]
fn reconnector_budget_of_one_allows_one_attempt() {
    let ep = Endpoint::new(0x7f000001, 5000);
    let mut r = Reconnector::new(ep, 1, 50, 500);
    r.step(ReconnectEvent::TimerElapsed);
    assert!(r.step(ReconnectEvent::ConnectFailed));
    assert_eq!(
        r.state,
        ReconnectorState::Failed { error: TransportError::MaxRetriesExceeded }
    );
    assert_eq!(r.attempts_made, 1);
}

#[test]
fn reconnector_budget_of_zero_still_allows_one_attempt() {
    let ep = Endpoint::new(0x7f000001, 5000);
    let mut r = Reconnector::new(ep, 0, 50, 500);
    r.step(ReconnectEvent::TimerElapsed);
    assert!(r.step(ReconnectEvent::ConnectFailed));
    assert_eq!(
        r.state,
        ReconnectorState::Failed { error: TransportError::MaxRetriesExceeded }
    );
    assert_eq!(r.attempts_made, 1);
}

#[test]
fn reconnector_makes_exactly_three_attempts_with_growing_delays() {
    let ep = Endpoint::new(0x7f000001, 5000);
    let mut r = Reconnector::new(ep, 3, 50, 500);

    r.step(ReconnectEvent::TimerElapsed);
    assert!(!r.step(ReconnectEvent::ConnectFailed));
    assert_eq!(r.state, ReconnectorState::Backoff { delay_ms: 100 });
    assert_eq!(r.attempts_made, 1);

    r.step(ReconnectEvent::TimerElapsed);
    assert!(!r.step(ReconnectEvent::ConnectFailed));
    assert_eq!(r.state, ReconnectorState::Backoff { delay_ms: 200 });
    assert_eq!(r.attempts_made, 2);

    r.step(ReconnectEvent::TimerElapsed);
    assert!(r.step(ReconnectEvent::ConnectFailed));
    assert_eq!(
        r.state,
        ReconnectorState::Failed { error: TransportError::MaxRetriesExceeded }
    );
    assert_eq!(r.attempts_made, 3);
}

#[test]
fn terminal_reconnector_ignores_further_events() {
    let ep = Endpoint::new(0x7f000001, 5000);
    let mut r = Reconnector::new(ep, 1, 50, 500);
    r.step(ReconnectEvent::TimerElapsed);
    r.step(ReconnectEvent::ConnectFailed);
    assert!(r.step(ReconnectEvent::ConnectSucceeded { conn: 9 }));
    assert_eq!(
        r.state,
        ReconnectorState::Failed { error: TransportError::MaxRetriesExceeded }
    );
}

#[test]
fn probe_end_of_stream_refuses_the_write() {
    let w = ConnectionWriter::new(3);
    assert_eq!(
        w.check_alive(ProbeOutcome::EndOfStream),
        Err(TransportError::ConnectionClosed)
    );
}

#[test]
fn other_probe_outcomes_let_the_write_proceed() {
    let w = ConnectionWriter::new(3);
    assert_eq!(w.check_alive(ProbeOutcome::DataAvailable), Ok(()));
    assert_eq!(w.check_alive(ProbeOutcome::WouldBlock), Ok(()));
    assert_eq!(w.check_alive(ProbeOutcome::ReadError), Ok(()));
}

#[test]
fn write_failures_carry_their_cause() {
    let w = ConnectionWriter::new(3);
    assert_eq!(w.write_verdict(WriteOutcome::Written), Ok(()));
    assert_eq!(
        w.write_verdict(WriteOutcome::WriteError { cause: 11 }),
        Err(TransportError::WriteFailed { cause: 11 })
    );
}

#[test]
fn bootstrap_fails_when_any_endpoint_is_unreachable() {
    let a = Endpoint::new(1, 1);
    let b = Endpoint::new(2, 2);
    let config = Config::new(vec![a, b], 50, 500, 5);
    let r = Client::new(config, vec![Some(1), None]);
    assert!(matches!(r, Err(TransportError::BootstrapFailed)));
}

#[test]
fn send_to_unknown_destination_fails_without_io() {
    let known = Endpoint::new(1, 1);
    let unknown = Endpoint::new(2, 2);
    let client = one_endpoint_client(known, 1, 5);
    let (_, action) = client.begin_send(unknown, b"hello".to_vec());
    assert_eq!(
        action,
        SendAction::Done { result: Err(TransportError::UnknownDestination) }
    );
}

#[test]
fn healthy_send_writes_and_finishes() {
    let ep = Endpoint::new(1, 1);
    let client = one_endpoint_client(ep, 1, 5);
    let (mut task, action) = client.begin_send(ep, b"hello".to_vec());
    assert_eq!(action, SendAction::Write { conn: 1 });
    assert_eq!(task.payload, b"hello".to_vec());
    let action = client.on_write_result(&mut task, Ok(()));
    assert_eq!(action, SendAction::Done { result: Ok(()) });
}

#[test]
fn failed_write_reconnects_and_retries_once() {
    let ep = Endpoint::new(1, 1);
    let mut client = one_endpoint_client(ep, 1, 5);
    let (mut task, _) = client.begin_send(ep, b"hello".to_vec());
    let action = client.on_write_result(&mut task, Err(TransportError::ConnectionClosed));
    assert_eq!(action, SendAction::Reconnect);
    let action = client.on_reconnect_succeeded(&task, 9);
    assert_eq!(action, SendAction::Write { conn: 9 });
    let action = client.on_write_result(&mut task, Ok(()));
    assert_eq!(action, SendAction::Done { result: Ok(()) });
    // the fresh connection is installed for later sends
    let (_, action) = client.begin_send(ep, b"again".to_vec());
    assert_eq!(action, SendAction::Write { conn: 9 });
}

#[test]
fn retried_write_failure_is_surfaced_as_it_is() {
    let ep = Endpoint::new(1, 1);
    let mut client = one_endpoint_client(ep, 1, 5);
    let (mut task, _) = client.begin_send(ep, b"hello".to_vec());
    client.on_write_result(&mut task, Err(TransportError::ConnectionClosed));
    client.on_reconnect_succeeded(&task, 9);
    let action = client.on_write_result(&mut task, Err(TransportError::WriteFailed { cause: 4 }));
    assert_eq!(
        action,
        SendAction::Done { result: Err(TransportError::WriteFailed { cause: 4 }) }
    );
}

#[test]
fn reconnecting_endpoint_does_not_disturb_healthy_ones() {
    let a = Endpoint::new(1, 1);
    let b = Endpoint::new(2, 2);
    let config = Config::new(vec![a, b], 50, 500, 5);
    let mut client = Client::new(config, vec![Some(1), Some(2)]).unwrap();

    // endpoint a goes down and enters reconnection
    let (mut task_a, _) = client.begin_send(a, b"to a".to_vec());
    let action = client.on_write_result(&mut task_a, Err(TransportError::ConnectionClosed));
    assert_eq!(action, SendAction::Reconnect);

    // a send to endpoint b still routes to b's own connection and finishes
    let (mut task_b, action) = client.begin_send(b, b"to b".to_vec());
    assert_eq!(action, SendAction::Write { conn: 2 });
    let action = client.on_write_result(&mut task_b, Ok(()));
    assert_eq!(action, SendAction::Done { result: Ok(()) });

    // even after a's eviction, b keeps its connection
    let action = client.on_reconnect_failed(&task_a);
    assert_eq!(
        action,
        SendAction::Done { result: Err(TransportError::DestinationUnreachable) }
    );
    let (_, action) = client.begin_send(b, b"to b again".to_vec());
    assert_eq!(action, SendAction::Write { conn: 2 });
}

#[test]
fn whole_lifetime_of_one_endpoint() {
    // one endpoint, backoff base 50 ms, cap 500 ms, at most 5 attempts
    let ep = Endpoint::new(0x7f000001, 5000);
    let mut client = one_endpoint_client(ep, 1, 5);

    // two healthy sends go through in order, no reconnection involved
    for payload in [b"foomp1".to_vec(), b"foomp2".to_vec()] {
        let (mut task, action) = client.begin_send(ep, payload.clone());
        assert_eq!(action, SendAction::Write { conn: 1 });
        assert_eq!(task.payload, payload);
        let action = client.on_write_result(&mut task, Ok(()));
        assert_eq!(action, SendAction::Done { result: Ok(()) });
    }

    // the peer closes; the third send detects it and turns to reconnection
    let (mut task, action) = client.begin_send(ep, b"foomp3".to_vec());
    assert_eq!(action, SendAction::Write { conn: 1 });
    let action = client.on_write_result(&mut task, Err(TransportError::ConnectionClosed));
    assert_eq!(action, SendAction::Reconnect);

    // no listener comes back: all five attempts fail, with capped delays
    let mut rec = client.start_reconnect(ep);
    assert_eq!(rec.state, ReconnectorState::Backoff { delay_ms: 0 });
    let mut delays = Vec::new();
    loop {
        rec.step(ReconnectEvent::TimerElapsed);
        if rec.step(ReconnectEvent::ConnectFailed) {
            break;
        }
        match rec.state {
            ReconnectorState::Backoff { delay_ms } => delays.push(delay_ms),
            _ => panic!("expected another backoff"),
        }
    }
    assert_eq!(
        rec.state,
        ReconnectorState::Failed { error: TransportError::MaxRetriesExceeded }
    );
    assert_eq!(rec.attempts_made, 5);
    assert_eq!(delays, vec![100, 200, 400, 500]);

    // the endpoint is evicted and the send fails as unreachable
    let action = client.on_reconnect_failed(&task);
    assert_eq!(
        action,
        SendAction::Done { result: Err(TransportError::DestinationUnreachable) }
    );

    // later sends to it are refused outright
    let (_, action) = client.begin_send(ep, b"foomp4".to_vec());
    assert_eq!(
        action,
        SendAction::Done { result: Err(TransportError::UnknownDestination) }
    );
}
