use netbench::{
    duration_nanos, handle_control_message, next_action, Direction, EndCondition, EngineState,
    IntervalResult, IntervalStats, IoOutcome, ManagerAction, MessageType, NBError,
    NewTestMessage, Protocol, Registry, Role, ServerAction, TCPTestInfo, TestAssociationMessage,
    TestControlMessage, TestDuration, TokenBucket, UDPTest,
};

const SEC: u64 = 1_000_000_000;

fn message_with_code(tag: u8) -> NewTestMessage {
    let mut code = [0u8; 32];
    code[0] = tag;
    NewTestMessage {
        direction: Direction::ClientToServer,
        protocol: Protocol::TCP(TCPTestInfo { recv_buf_size: 16, send_buf_size: 16 }),
        bw: 0,
        code,
        end_condition: EndCondition::Time(TestDuration { secs: 10, nanos: 0 }),
    }
}

#[test]
fn test_token_bucket_gate() {
    // a fresh bucket admits a full burst and nothing more
    let mut bucket = TokenBucket::new_at(50 * 1024, 100 * 1024, 0);
    assert!(bucket.try_consume_at(100 * 1024, 0).is_ok());
    assert!(matches!(bucket.try_consume_at(1, 0), Err(NBError::BucketEmpty)));
    // sub-second elapsed time adds nothing
    assert!(matches!(
        bucket.try_consume_at(1, SEC - 1),
        Err(NBError::BucketEmpty)
    ));
    // after one whole second the rate is available again
    assert!(bucket.try_consume_at(50 * 1024, SEC).is_ok());
    assert!(matches!(bucket.try_consume_at(1, SEC), Err(NBError::BucketEmpty)));
}

#[test]
fn test_token_bucket_cap() {
    let mut bucket = TokenBucket::new_at(10, 20, 0);
    assert!(bucket.try_consume_at(20, 0).is_ok());
    // a long idle stretch refills only up to the capacity
    assert!(bucket.try_consume_at(20, 1000 * SEC).is_ok());
    assert!(matches!(
        bucket.try_consume_at(1, 1000 * SEC),
        Err(NBError::BucketEmpty)
    ));
}

#[test]
fn test_token_bucket_clock_backwards() {
    let mut bucket = TokenBucket::new_at(10, 20, 5 * SEC);
    assert!(bucket.try_consume_at(20, 5 * SEC).is_ok());
    // a clock that moved backwards adds no tokens
    assert!(matches!(bucket.try_consume_at(1, 0), Err(NBError::BucketEmpty)));
}

#[test]
fn test_token_bucket_wall_clock() {
    let mut bucket = TokenBucket::new(1000, 4000);
    assert_eq!(bucket.rate, 1000);
    assert_eq!(bucket.max_token, 4000);
    assert!(bucket.try_consume(4000).is_ok());
}

#[test]
fn test_interval_stats_take() {
    let mut stats = IntervalStats::default();
    stats.add_sent(10);
    stats.add_recv(3);
    let taken = stats.take();
    assert_eq!(taken.bytes_sent, 10);
    assert_eq!(taken.bytes_recv, 3);
    assert_eq!(stats.bytes_sent, 0);
    assert_eq!(stats.bytes_recv, 0);
}

#[test]
fn test_interval_reset() {
    let mut interval = IntervalResult::new_at(0);
    interval.add_bytes_sent(100);
    interval.add_bytes_received(40);
    let first = interval.take_at(10);
    assert_eq!(first.bytes_sent.n, 100);
    assert_eq!(first.bytes_received.n, 40);
    assert_eq!(first.end, 10);
    // no traffic in between: the second snapshot reads zero
    let second = interval.take_at(20);
    assert_eq!(second.bytes_sent.n, 0);
    assert_eq!(second.bytes_received.n, 0);
    assert_eq!(second.start, 10);
    assert_eq!(second.end, 20);

    // with no traffic at all, two consecutive snapshots both read zero
    let mut quiet = IntervalResult::new_at(0);
    let s1 = quiet.take_at(5);
    let s2 = quiet.take_at(9);
    assert_eq!((s1.bytes_sent.n, s1.bytes_received.n), (0, 0));
    assert_eq!((s2.bytes_sent.n, s2.bytes_received.n), (0, 0));
}

#[test]
fn test_engine_gating_and_counters() {
    let mut e = EngineState::new(Direction::ClientToServer, Role::Client, 0);
    assert!(e.should_send);
    assert!(!e.should_recv);
    assert!(!e.is_done);

    assert!(e.on_write(IoOutcome::Transferred(1500)));
    assert!(e.on_write(IoOutcome::WouldBlock));
    assert_eq!(e.interval.bytes_sent.n, 1500);

    let reply = e.on_control(Some(TestControlMessage::GetIntervalResult), 7);
    let snapshot = reply.expect("a snapshot must be returned");
    assert_eq!(snapshot.bytes_sent.n, 1500);
    assert_eq!(snapshot.end, 7);
    assert_eq!(e.interval.bytes_sent.n, 0);

    assert!(e.on_control(Some(TestControlMessage::Done), 8).is_none());
    assert!(e.is_done);
    // a finished sender stops on the next write opportunity
    assert!(!e.on_write(IoOutcome::Transferred(10)));
}

#[test]
fn test_engine_read_branch() {
    let mut e = EngineState::new(Direction::ClientToServer, Role::Server, 0);
    assert!(!e.should_send);
    assert!(e.should_recv);
    assert!(e.on_read(IoOutcome::Transferred(700)));
    assert!(e.on_read(IoOutcome::WouldBlock));
    assert_eq!(e.interval.bytes_received.n, 700);
    // zero bytes read means the peer closed: the loop ends
    assert!(!e.on_read(IoOutcome::Transferred(0)));
    // a fatal error also ends the loop
    let mut e2 = EngineState::new(Direction::Bidirectional, Role::Server, 0);
    assert!(e2.should_send && e2.should_recv);
    assert!(!e2.on_read(IoOutcome::Failed));
    assert!(!e2.on_write(IoOutcome::Failed));
}

#[test]
fn test_registry_association() {
    let mut registry = Registry::new();
    let (m1, m2, m3) = (message_with_code(1), message_with_code(2), message_with_code(3));
    registry.add(m1);
    registry.add(m2);
    registry.add(m3);
    assert_eq!(registry.len(), 3);

    // the association with code 2 removes exactly that entry
    let taken = registry
        .take_matching(&TestAssociationMessage { code: m2.code })
        .expect("code 2 is outstanding");
    assert_eq!(taken, m2);
    assert_eq!(registry.len(), 2);

    // the other two entries are untouched
    assert!(registry
        .take_matching(&TestAssociationMessage { code: m2.code })
        .is_none());
    assert_eq!(registry.len(), 2);
    assert!(registry
        .take_matching(&TestAssociationMessage { code: m1.code })
        .is_some());
    assert!(registry
        .take_matching(&TestAssociationMessage { code: m3.code })
        .is_some());
    assert_eq!(registry.len(), 0);
}

#[test]
fn test_handle_control_message() {
    let mut registry = Registry::new();
    let m = message_with_code(9);
    let body = netbench::encode_new_test(&m);
    let action = handle_control_message(&mut registry, MessageType::NewTest(body.len()), &body);
    assert!(matches!(action, ServerAction::TestRegistered));
    assert_eq!(registry.len(), 1);

    // an association with an unknown code shuts the connection down
    let stranger = TestAssociationMessage { code: [0xAB; 32] };
    let body = netbench::encode_association(&stranger);
    let action = handle_control_message(
        &mut registry,
        MessageType::TestAssociation(body.len()),
        &body,
    );
    assert!(matches!(action, ServerAction::ShutdownConnection));
    assert_eq!(registry.len(), 1);

    // the matching association removes the entry and starts the test
    let body = netbench::encode_association(&m.association());
    let action = handle_control_message(
        &mut registry,
        MessageType::TestAssociation(body.len()),
        &body,
    );
    match action {
        ServerAction::StartTest(started) => assert_eq!(started, m),
        other => panic!("unexpected action: {other:?}"),
    }
    assert_eq!(registry.len(), 0);

    // malformed bodies are fatal for the connection
    let action = handle_control_message(&mut registry, MessageType::NewTest(2), b"{}");
    assert!(matches!(action, ServerAction::Malformed));
    let action = handle_control_message(&mut registry, MessageType::Close(0), b"");
    assert!(matches!(action, ServerAction::Unsupported));
}

#[test]
fn test_manager_decisions() {
    let start: u64 = 100 * SEC;
    let duration: u64 = 10 * SEC;
    assert_eq!(next_action(start, start, start, duration), ManagerAction::Wait);
    assert_eq!(
        next_action(start + SEC / 2, start, start, duration),
        ManagerAction::Wait
    );
    assert_eq!(
        next_action(start + SEC + 1, start, start, duration),
        ManagerAction::Sample
    );
    assert_eq!(
        next_action(start + 2 * SEC, start, start + 15 * SEC / 10, duration),
        ManagerAction::Wait
    );
    assert_eq!(
        next_action(start + duration, start, start, duration),
        ManagerAction::Finish
    );
    assert_eq!(
        next_action(start - 1, start, start, duration),
        ManagerAction::Wait
    );
}

#[test]
fn test_duration_nanos() {
    assert_eq!(
        duration_nanos(EndCondition::Time(TestDuration { secs: 2, nanos: 5 })),
        2_000_000_005
    );
    assert_eq!(
        duration_nanos(EndCondition::Time(TestDuration { secs: 0, nanos: 0 })),
        0
    );
}

#[test]
fn test_udp_stub() {
    let _ = UDPTest::new();
}
