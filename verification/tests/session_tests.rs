use cdrs_core::codec::{decode_frame, encode_with};
use cdrs_core::compression::Compression;
use cdrs_core::error::{Error, ServerError, TransportError, UNPREPARED_CODE};
use cdrs_core::frame::{Direction, Flags, Frame, Opcode, Version};
use cdrs_core::handshake::{handshake_on_frame, start_handshake, HandshakeAction, HandshakeState};
use cdrs_core::load_balancing::{LoadBalancingStrategy, RoundRobinLoadBalancingStrategy};
use cdrs_core::policies::{DefaultRetryPolicy, ExponentialReconnectionPolicy,
    NeverReconnectionPolicy, ReconnectionPolicy, RetryDecision, RetryPolicy, READ_TIMEOUT_CODE,
    UNAVAILABLE_CODE, WRITE_TIMEOUT_CODE};
use cdrs_core::query::{BatchQuery, BatchQuerySubject, BatchType, Consistency, QueryBatch,
    QueryParams, SimpleServerEvent};
use cdrs_core::response::{parse_error_body, parse_event_body, parse_prepared_body,
    parse_result_kind, ResultKind, ServerEvent};
use cdrs_core::session::{on_execute_response, on_reprepare_response, start_execute,
    ClusterTcpConfig, ConnectionChoice, ConnectionManager, ExecStep, NodeAddress, NodeTcpConfig,
    PreparedQuery, Session, SessionBuilder, TcpSessionBuilder};
use cdrs_core::streams::{Routing, StreamTable, WriteQueue};

fn server_error(code: i32) -> Error {
    Error::Server(ServerError { code, message: "boom".to_string() })
}

fn response_frame(opcode: Opcode, body: Vec<u8>) -> Frame {
    Frame::new(Version::V4, Direction::Response, Flags::empty(), opcode, body, None, Vec::new())
}

// --- multiplexer -----------------------------------------------------------

#[test]
fn stream_ids_never_collide() {
    let mut table: StreamTable<u32> = StreamTable::new();
    table.set_ready();
    let mut seen = std::collections::HashSet::new();
    for k in 0..1000u32 {
        let id = table.acquire(k).unwrap();
        assert!((0..=32767).contains(&id));
        assert!(seen.insert(id), "stream id {} handed out twice", id);
    }
}

#[test]
fn responses_route_to_their_own_waiter() {
    let mut table: StreamTable<u32> = StreamTable::new();
    table.set_ready();
    let id_a = table.acquire(0xAAAA).unwrap();
    let id_b = table.acquire(0xBBBB).unwrap();
    let id_c = table.acquire(0xCCCC).unwrap();
    // The scripted server answers in a permuted order.
    match table.route_response(id_b, false) {
        Routing::Deliver(w) => assert_eq!(w, 0xBBBB),
        _ => panic!("expected delivery"),
    }
    match table.route_response(id_c, false) {
        Routing::Deliver(w) => assert_eq!(w, 0xCCCC),
        _ => panic!("expected delivery"),
    }
    match table.route_response(id_a, false) {
        Routing::Deliver(w) => assert_eq!(w, 0xAAAA),
        _ => panic!("expected delivery"),
    }
    // A second response on a freed id has no waiter.
    assert!(matches!(table.route_response(id_a, false), Routing::DiscardUnknown));
}

#[test]
fn cancelled_wait_keeps_id_until_response() {
    let mut table: StreamTable<u32> = StreamTable::new();
    table.set_ready();
    let id = table.acquire(7).unwrap();
    assert_eq!(table.cancel(id), Some(7));
    // The late response is discarded, and only then is the id free again.
    assert!(matches!(table.route_response(id, false), Routing::DiscardLate));
}

#[test]
fn negative_stream_id_routes_events() {
    let mut table: StreamTable<u32> = StreamTable::new();
    assert!(matches!(table.route_response(-1, true), Routing::Event));
    assert!(matches!(table.route_response(-1, false), Routing::DiscardUnknown));
}

#[test]
fn write_queue_backpressure() {
    let mut q: WriteQueue<u8> = WriteQueue::new(2);
    assert!(q.try_enqueue(1).is_ok());
    assert!(q.try_enqueue(2).is_ok());
    // The third concurrent send must wait for the writer.
    assert_eq!(q.try_enqueue(3), Err(3));
    assert_eq!(q.dequeue(), Some(1));
    assert!(q.try_enqueue(3).is_ok());
    assert_eq!(q.dequeue(), Some(2));
    assert_eq!(q.dequeue(), Some(3));
    assert_eq!(q.dequeue(), None);
}

// --- policies --------------------------------------------------------------

#[test]
fn write_timeout_retried_only_when_idempotent() {
    let p = DefaultRetryPolicy;
    let wt = server_error(WRITE_TIMEOUT_CODE);
    assert_eq!(p.decide(&wt, 0, false), RetryDecision::DontRetry);
    assert_eq!(p.decide(&wt, 0, true), RetryDecision::RetrySame);
    let rt = server_error(READ_TIMEOUT_CODE);
    assert_eq!(p.decide(&rt, 0, false), RetryDecision::RetrySame);
    let ua = server_error(UNAVAILABLE_CODE);
    assert_eq!(p.decide(&ua, 0, false), RetryDecision::RetryNext);
    assert_eq!(p.decide(&wt, 1, true), RetryDecision::DontRetry);
    let io = Error::Transport(TransportError::Io);
    assert_eq!(p.decide(&io, 0, true), RetryDecision::RetryNext);
    assert_eq!(p.decide(&io, 0, false), RetryDecision::DontRetry);
}

#[test]
fn reconnection_policies() {
    assert_eq!(NeverReconnectionPolicy.next_delay(0), None);
    let exp = ExponentialReconnectionPolicy::default();
    assert_eq!(exp.next_delay(0), Some(2000));
    assert_eq!(exp.next_delay(1), Some(4000));
    assert_eq!(exp.next_delay(4), Some(32000));
    assert_eq!(exp.next_delay(5), Some(60000));
    assert_eq!(exp.next_delay(50), Some(60000));
}

// --- load balancing --------------------------------------------------------

#[test]
fn round_robin_is_fair_over_thirty_calls() {
    let mut lb: RoundRobinLoadBalancingStrategy<&str> = RoundRobinLoadBalancingStrategy::new();
    lb.init(vec!["a", "b", "c"]);
    let mut counts = [0usize; 3];
    for _ in 0..30 {
        let i = lb.next_index().unwrap();
        counts[i] += 1;
    }
    assert_eq!(counts, [10, 10, 10]);
}

// --- session ---------------------------------------------------------------

fn addr(last: u8, port: u16) -> NodeAddress {
    NodeAddress { ip: vec![10, 0, 0, last], port }
}

fn tcp_session(n: u8) -> Session<
    RoundRobinLoadBalancingStrategy<ConnectionManager>,
    DefaultRetryPolicy,
    ExponentialReconnectionPolicy,
> {
    let nodes = (0..n).map(|i| NodeTcpConfig { addr: addr(i + 1, 9042) }).collect();
    TcpSessionBuilder::new(RoundRobinLoadBalancingStrategy::new(), ClusterTcpConfig(nodes))
        .with_compression(Compression::Uncompressed)
        .build()
}

#[test]
fn single_node_uses_session_reconnection_policy() {
    let mut s = tcp_session(1);
    assert_eq!(s.load_balanced_connection(), Some(ConnectionChoice::WithSessionPolicy(0)));
    assert_eq!(s.load_balanced_connection(), Some(ConnectionChoice::WithSessionPolicy(0)));
}

#[test]
fn multi_node_rotates_with_fast_fail() {
    let mut s = tcp_session(3);
    assert_eq!(s.load_balanced_connection(), Some(ConnectionChoice::FastFail(0)));
    assert_eq!(s.load_balanced_connection(), Some(ConnectionChoice::FastFail(1)));
    assert_eq!(s.load_balanced_connection(), Some(ConnectionChoice::FastFail(2)));
    assert_eq!(s.load_balanced_connection(), Some(ConnectionChoice::FastFail(0)));
}

#[test]
fn node_connection_finds_by_address() {
    let s = tcp_session(3);
    assert_eq!(s.node_connection(&addr(2, 9042)), Some(1));
    assert_eq!(s.node_connection(&addr(9, 9042)), None);
    assert_eq!(s.node_connection(&addr(2, 9043)), None);
}

#[test]
fn paged_keeps_page_size() {
    let s = tcp_session(1);
    assert_eq!(s.paged(500).page_size, 500);
}

#[test]
fn connection_manager_counts_attempts() {
    let mut cm = ConnectionManager::new(addr(1, 9042), None, Compression::Uncompressed, 1024, true);
    let exp = ExponentialReconnectionPolicy::default();
    assert_eq!(cm.on_connect_failed(&exp), Some(2000));
    assert_eq!(cm.on_connect_failed(&exp), Some(4000));
    cm.on_connected();
    assert_eq!(cm.on_connect_failed(&exp), Some(2000));
    assert_eq!(cm.on_connect_failed(&NeverReconnectionPolicy), None);
}

// --- scenarios -------------------------------------------------------------

#[test]
fn scenario_startup_ready() {
    // STARTUP goes out as the literal bytes of the protocol exchange.
    let (state, frame) = start_handshake(None, Version::V4);
    assert_eq!(state, HandshakeState::AwaitingReady);
    let bytes = encode_with(&frame, Compression::Uncompressed).unwrap();
    let mut expected: Vec<u8> = vec![0x04, 0x00, 0x00, 0x00, 0x01, 0x00, 0x00, 0x00, 0x16];
    expected.extend_from_slice(&[0x00, 0x01, 0x00, 0x0B]);
    expected.extend_from_slice(b"CQL_VERSION");
    expected.extend_from_slice(&[0x00, 0x05]);
    expected.extend_from_slice(b"3.0.0");
    assert_eq!(bytes, expected);
    // The server answers READY; the transport becomes ready.
    let ready_bytes: Vec<u8> = vec![0x84, 0x00, 0x00, 0x00, 0x02, 0x00, 0x00, 0x00, 0x00];
    let ready = decode_frame(&ready_bytes, Compression::Uncompressed).unwrap();
    assert_eq!(ready.opcode, Opcode::Ready);
    let (state, action) = handshake_on_frame(state, &ready);
    assert_eq!(state, HandshakeState::Complete);
    assert!(matches!(action, HandshakeAction::Done));
    let mut table: StreamTable<u32> = StreamTable::new();
    table.set_ready();
    assert!(table.acquire(1).is_some());
}

#[test]
fn scenario_simple_query() {
    let s = tcp_session(1);
    let (frame, idempotent) = s.query_with_params_frame(
        "SELECT key FROM system.local".to_string(),
        QueryParams::new(Consistency::One),
        false,
        false,
    );
    assert!(!idempotent);
    assert_eq!(frame.opcode, Opcode::Query);
    // [long string] of the text, then consistency ONE (0x0001) and flags 0.
    let mut expected: Vec<u8> = vec![0x00, 0x00, 0x00, 0x1C];
    expected.extend_from_slice(b"SELECT key FROM system.local");
    expected.extend_from_slice(&[0x00, 0x01, 0x00]);
    assert_eq!(frame.body, expected);
    // A RESULT of kind Rows comes back.
    let mut result_body: Vec<u8> = vec![0x00, 0x00, 0x00, 0x02];
    result_body.extend_from_slice(b"rows payload");
    assert_eq!(parse_result_kind(&result_body), Ok(ResultKind::Rows));
}

#[test]
fn scenario_prepare_and_execute() {
    // PREPARE yields a Prepared result carrying the statement id.
    let mut prepared_body: Vec<u8> = vec![0x00, 0x00, 0x00, 0x04, 0x00, 0x04];
    prepared_body.extend_from_slice(&[0xCA, 0xFE, 0xBA, 0xBE]);
    let prepared_res = parse_prepared_body(&prepared_body).unwrap();
    assert_eq!(prepared_res.id, vec![0xCA, 0xFE, 0xBA, 0xBE]);
    let prepared = PreparedQuery {
        id: prepared_res.id,
        query: "SELECT v FROM t WHERE k=?".to_string(),
    };
    // EXECUTE with the id and one bound int value 42.
    let mut params = QueryParams::new(Consistency::One);
    params.values = Some(cdrs_core::query::QueryValues::Simple(vec![
        cdrs_core::query::Value::Bytes(vec![0, 0, 0, 42]),
    ]));
    let (frame, flow) = start_execute(&prepared, &params, false, false);
    assert_eq!(frame.opcode, Opcode::Execute);
    let mut expected: Vec<u8> = vec![0x00, 0x04, 0xCA, 0xFE, 0xBA, 0xBE];
    expected.extend_from_slice(&[0x00, 0x01, 0x01, 0x00, 0x01, 0x00, 0x00, 0x00, 0x04, 0, 0, 0,
        42]);
    assert_eq!(frame.body, expected);
    assert!(!flow.reprepared);
    // Rows come back: the call is done.
    let rows = response_frame(Opcode::Result, vec![0x00, 0x00, 0x00, 0x02]);
    match on_execute_response(&flow, Ok(rows), &prepared) {
        ExecStep::Done(Ok(f)) => assert_eq!(f.opcode, Opcode::Result),
        _ => panic!("expected completion"),
    }
}

#[test]
fn scenario_unprepared_recovery() {
    let mut prepared = PreparedQuery {
        id: vec![0xCA, 0xFE, 0xBA, 0xBE],
        query: "SELECT v FROM t WHERE k=?".to_string(),
    };
    let params = QueryParams::new(Consistency::One);
    let (_frame, flow) = start_execute(&prepared, &params, false, false);
    // A second coordinator does not know the id.
    let step = on_execute_response(&flow, Err(server_error(UNPREPARED_CODE)), &prepared);
    let reprepare = match step {
        ExecStep::Reprepare(f, original) => {
            // The original UNPREPARED travels with the step: a failed
            // re-prepare surfaces it, the id untouched.
            assert!(original.is_unprepared());
            f
        },
        _ => panic!("expected a re-prepare"),
    };
    assert_eq!(reprepare.opcode, Opcode::Prepare);
    // The new coordinator returns a new id; the handle is updated and the
    // EXECUTE is retried once with it.
    let (frame2, flow2) = on_reprepare_response(&flow, vec![0xDE, 0xAD, 0xBE, 0xEF], &mut prepared,
        &params);
    assert_eq!(prepared.id, vec![0xDE, 0xAD, 0xBE, 0xEF]);
    assert_eq!(prepared.query, "SELECT v FROM t WHERE k=?");
    assert_eq!(&frame2.body[0..6], &[0x00, 0x04, 0xDE, 0xAD, 0xBE, 0xEF]);
    assert!(flow2.reprepared);
    let rows = response_frame(Opcode::Result, vec![0x00, 0x00, 0x00, 0x02]);
    match on_execute_response(&flow2, Ok(rows), &prepared) {
        ExecStep::Done(Ok(f)) => assert_eq!(f.opcode, Opcode::Result),
        _ => panic!("expected completion"),
    }
    // A second UNPREPARED in the same call is surfaced, not retried.
    match on_execute_response(&flow2, Err(server_error(UNPREPARED_CODE)), &prepared) {
        ExecStep::Done(Err(e)) => assert!(e.is_unprepared()),
        _ => panic!("expected the error to surface"),
    }
    // A failed re-prepare leaves the handle exactly as the flow set it.
    assert_eq!(prepared.id, vec![0xDE, 0xAD, 0xBE, 0xEF]);
}

#[test]
fn scenario_register_and_event() {
    let frame = Frame::new_req_register(vec![SimpleServerEvent::StatusChange]);
    assert_eq!(frame.opcode, Opcode::Register);
    let mut expected: Vec<u8> = vec![0x00, 0x01, 0x00, 0x0D];
    expected.extend_from_slice(b"STATUS_CHANGE");
    assert_eq!(frame.body, expected);
    // The server pushes an event on stream −1; the reader forwards it.
    let mut table: StreamTable<u32> = StreamTable::new();
    table.set_ready();
    assert!(matches!(table.route_response(-1, true), Routing::Event));
    let mut event_body: Vec<u8> = vec![0x00, 0x0D];
    event_body.extend_from_slice(b"STATUS_CHANGE");
    event_body.extend_from_slice(&[0x00, 0x02]);
    event_body.extend_from_slice(b"UP");
    event_body.extend_from_slice(&[0x04, 10, 0, 0, 2, 0x00, 0x00, 0x23, 0x52]);
    match parse_event_body(&event_body).unwrap() {
        ServerEvent::StatusChange { up, addr } => {
            assert!(up);
            assert_eq!(addr.ip, vec![10, 0, 0, 2]);
            assert_eq!(addr.port, 9042);
        },
        _ => panic!("expected a status change"),
    }
}

#[test]
fn scenario_broken_socket() {
    let mut table: StreamTable<u32> = StreamTable::new();
    table.set_ready();
    table.acquire(11).unwrap();
    table.acquire(22).unwrap();
    // Mid-query the socket dies: every outstanding waiter is resolved and
    // the transport never comes back.
    let waiters = table.fail_all();
    assert_eq!(waiters, vec![22, 11]);
    // The next request reopens under the reconnection policy.
    let mut cm = ConnectionManager::new(addr(1, 9042), None, Compression::Uncompressed, 1024, true);
    assert_eq!(cm.on_connect_failed(&ExponentialReconnectionPolicy::default()), Some(2000));
}

#[test]
fn error_body_parses_code_and_message() {
    let mut body: Vec<u8> = vec![0x00, 0x00, 0x25, 0x00, 0x00, 0x0A];
    body.extend_from_slice(b"unprepared");
    let e = parse_error_body(&body).unwrap();
    assert_eq!(e.code, UNPREPARED_CODE);
    assert_eq!(e.message, "unprepared");
    assert!(Error::Server(e).is_unprepared());
}

#[test]
fn batch_frame_exact_bytes() {
    let batch = QueryBatch {
        batch_type: BatchType::Logged,
        queries: vec![BatchQuery {
            subject: BatchQuerySubject::QueryString("USE ks".to_string()),
            values: Vec::new(),
        }],
        consistency: Consistency::Quorum,
        is_idempotent: true,
    };
    let s = tcp_session(1);
    let (frame, idempotent) = s.batch_with_params_frame(batch, false, false);
    assert!(idempotent);
    assert_eq!(frame.opcode, Opcode::Batch);
    let mut expected: Vec<u8> = vec![0x00, 0x00, 0x01, 0x00, 0x00, 0x00, 0x00, 0x06];
    expected.extend_from_slice(b"USE ks");
    expected.extend_from_slice(&[0x00, 0x00, 0x00, 0x04, 0x00]);
    assert_eq!(frame.body, expected);
}

#[test]
fn listener_manager_takes_session_settings() {
    let s = tcp_session(1);
    let cm = s.listener_manager(addr(7, 9042));
    assert_eq!(cm.addr.ip, vec![10, 0, 0, 7]);
    assert_eq!(cm.addr.port, 9042);
    assert_eq!(cm.dns_name, None);
    assert_eq!(cm.transport_buffer_size, 1024);
    assert!(cm.tcp_nodelay);
    let cm_tls = s.listener_manager_tls(addr(8, 9042), "db.example".to_string());
    assert_eq!(cm_tls.dns_name, Some("db.example".to_string()));
}

#[test]
fn session_rotation_is_fair_over_thirty_calls() {
    let mut s = tcp_session(3);
    let mut counts = [0usize; 3];
    for _ in 0..30 {
        match s.load_balanced_connection().unwrap() {
            ConnectionChoice::FastFail(i) => counts[i] += 1,
            _ => panic!("expected rotation"),
        }
    }
    assert_eq!(counts, [10, 10, 10]);
}
