use unkprox::addr::parse_endpoint;
use unkprox::errors::ProxyError;
use unkprox::errors::init_code;
use unkprox::errors::status_code;
use unkprox::gate::Acquire;
use unkprox::gate::PauseGate;
use unkprox::poller::Notifications;
use unkprox::poller::PollStep;
use unkprox::poller::poller_may_probe;
use unkprox::poller::poller_iteration;
use unkprox::poller::probe_reaction;
use unkprox::session::complete_connect;
use unkprox::session::connect_code;
use unkprox::session::plan_connect;
use unkprox::transport::RecvAll;
use unkprox::transport::RecvChunk;
use unkprox::transport::RecvState;
use unkprox::transport::SendOutcome;
use unkprox::transport::TransportLock;
use unkprox::transport::locked_send;
use unkprox::transport::send_code;
use unkprox::poller::start_result;

#[test]
fn connect_succeeds_when_reachable() {
    let ep = plan_connect(b"192.168.1.7:4000").expect("valid address");
    let session = complete_connect(ep, Ok(())).expect("listener reachable");
    assert_eq!(session.endpoint, ep);
    assert_eq!(connect_code(&Ok(session)), 0);
}

#[test]
fn connect_reports_system_error() {
    let ep = plan_connect(b"192.168.1.7:4000").expect("valid address");
    let r = complete_connect(ep, Err(111));
    assert_eq!(r, Err(ProxyError::Connection(111)));
    assert_eq!(connect_code(&r), -1);
}

#[test]
fn invalid_address_fails_before_any_socket() {
    // The parse error arrives without any connect outcome being needed.
    assert_eq!(plan_connect(b"not an address"), Err(ProxyError::AddressParse));
    assert_eq!(connect_code(&Err(ProxyError::AddressParse)), -1);
}

#[test]
fn initialization_codes() {
    assert_eq!(init_code(0, 0, 0), 0);
    assert_eq!(init_code(0, 0, -1), -1);
    assert_eq!(init_code(1, 0, 0), -1);
    assert_eq!(init_code(0, 22, 0), -1);
    assert_eq!(status_code(&Ok(())), 0);
    assert_eq!(status_code(&Err(ProxyError::MutexInit)), -1);
}

#[test]
fn pause_then_pause_deadlocks() {
    // The pause gate is a plain mutex, not a counting semaphore: the first
    // pause takes it, a second pause without an intervening resume
    // blocks its caller for good. Expected behavior, not a bug.
    let mut gate = PauseGate::new();
    assert_eq!(gate.acquire(), Acquire::Acquired);
    assert_eq!(gate.acquire(), Acquire::Blocks);
    assert_eq!(gate.acquire(), Acquire::Blocks);
    gate.release();
    assert_eq!(gate.acquire(), Acquire::Acquired);
}

#[test]
fn paused_poller_issues_no_probe() {
    let mut gate = PauseGate::new();
    assert!(poller_may_probe(&gate));
    assert_eq!(gate.acquire(), Acquire::Acquired); // pause
    assert!(!poller_may_probe(&gate));
    assert!(!poller_may_probe(&gate)); // still none, however often polled
    gate.release(); // resume
    assert!(poller_may_probe(&gate)); // next interval probes again
}

#[test]
fn probe_outcomes_drive_notifications() {
    assert_eq!(probe_reaction(RecvChunk::Bytes(1)), PollStep::Notify(1));
    // End of stream and errors are swallowed, same as "no data".
    assert_eq!(probe_reaction(RecvChunk::Closed), PollStep::Quiet);
    assert_eq!(probe_reaction(RecvChunk::SysError(104)), PollStep::Quiet);
    let mut hook = Notifications::new();
    assert_eq!(hook.message_received(1), 1);
    assert_eq!(hook.message_received(1), 1);
    assert_eq!(hook.delivered, 2);
}

#[test]
fn transport_lock_serializes_contenders() {
    // Two would-be operations on one lock, attempts interleaved as a
    // recording mock would see them: the second can only run after
    // the first released, so the byte streams appear serialized.
    let mut lock = TransportLock::new();
    let mut order: Vec<&str> = Vec::new();
    assert_eq!(lock.acquire(), Acquire::Acquired);
    order.push("send begins");
    assert_eq!(lock.acquire(), Acquire::Blocks); // concurrent receive waits
    order.push("send ends");
    lock.release();
    assert_eq!(lock.acquire(), Acquire::Acquired);
    order.push("receive begins");
    order.push("receive ends");
    lock.release();
    assert_eq!(order, vec!["send begins", "send ends", "receive begins", "receive ends"]);
}

#[test]
fn send_releases_lock_even_on_error() {
    let mut lock = TransportLock::new();
    assert_eq!(locked_send(&mut lock, 4, SendOutcome::Sent(4)), Ok(4));
    assert_eq!(locked_send(&mut lock, 4, SendOutcome::Sent(2)), Ok(2)); // short write
    assert_eq!(
        locked_send(&mut lock, 4, SendOutcome::SysError(32)),
        Err(ProxyError::Io(32))
    );
    // The lock came back free after the error: the next send runs.
    assert_eq!(locked_send(&mut lock, 1, SendOutcome::Sent(1)), Ok(1));
}

#[test]
fn receive_waits_for_all_requested_bytes() {
    let mut r = RecvAll::new(8);
    assert_eq!(r.state, RecvState::Pending);
    r.feed(RecvChunk::Bytes(3));
    assert_eq!(r.state, RecvState::Pending);
    assert_eq!(r.remaining(), 5);
    r.feed(RecvChunk::Bytes(5));
    assert_eq!(r.state, RecvState::Complete);
    assert_eq!(r.result_code(), 8);
}

#[test]
fn receive_reports_zero_when_peer_closes() {
    // Never a partial count: a close after 3 of 8 bytes reports 0.
    let mut r = RecvAll::new(8);
    r.feed(RecvChunk::Bytes(3));
    r.feed(RecvChunk::Closed);
    assert_eq!(r.state, RecvState::PeerClosed);
    assert_eq!(r.result_code(), 0);
}

#[test]
fn receive_reports_error() {
    let mut r = RecvAll::new(8);
    r.feed(RecvChunk::Bytes(7));
    r.feed(RecvChunk::SysError(104));
    assert_eq!(r.state, RecvState::Failed(104));
    assert_eq!(r.result_code(), -1);
}

#[test]
fn receive_of_nothing_is_complete_at_once() {
    let r = RecvAll::new(0);
    assert_eq!(r.state, RecvState::Complete);
    assert_eq!(r.result_code(), 0);
}

#[test]
fn loopback_echo_round_trip() {
    // A listener on the loopback endpoint echoes "PONG" to "PING".
    let ep = parse_endpoint(b"127.0.0.1:9009").expect("valid address");
    assert_eq!((ep.a, ep.b, ep.c, ep.d, ep.port), (127, 0, 0, 1, 9009));
    let session = complete_connect(ep, Ok(())).expect("listener reachable");
    assert_eq!(connect_code(&Ok(session)), 0);

    // sendToServer with the 4-byte payload: the platform accepts it all.
    let mut lock = TransportLock::new();
    let payload = b"PING";
    assert_eq!(
        locked_send(&mut lock, payload.len(), SendOutcome::Sent(4)),
        Ok(4)
    );

    // The poller, probing before the application drains the echo,
    // raises one notification with a positive count.
    let gate = PauseGate::new();
    assert!(poller_may_probe(&gate));
    let step = probe_reaction(RecvChunk::Bytes(1));
    assert_eq!(step, PollStep::Notify(1));
    let mut hook = Notifications::new();
    match step {
        PollStep::Notify(_) => {
            assert_eq!(hook.message_received(1), 1);
        }
        _ => panic!("expected a notification"),
    }
    assert_eq!(hook.delivered, 1);

    // receiveFromServer for 4 bytes returns the echo and count 4.
    let mut r = RecvAll::new(4);
    r.feed(RecvChunk::Bytes(4));
    assert_eq!(r.state, RecvState::Complete);
    assert_eq!(r.result_code(), 4);
}

#[test]
fn poller_iteration_respects_pause() {
    let mut gate = PauseGate::new();
    assert_eq!(gate.acquire(), Acquire::Acquired); // pause
    assert_eq!(
        poller_iteration(&mut gate, RecvChunk::Bytes(1)),
        PollStep::Blocked
    );
    gate.release(); // resume
    assert_eq!(
        poller_iteration(&mut gate, RecvChunk::Bytes(2)),
        PollStep::Notify(2)
    );
    assert_eq!(
        poller_iteration(&mut gate, RecvChunk::Closed),
        PollStep::Quiet
    );
    // The iteration left the pause gate as it found it.
    assert_eq!(gate.acquire(), Acquire::Acquired);
    gate.release();
}

#[test]
fn send_codes() {
    assert_eq!(send_code(&Ok(4)), 4);
    assert_eq!(send_code(&Ok(0)), 0);
    assert_eq!(send_code(&Err(ProxyError::Io(32))), -1);
}

#[test]
fn poller_start_results() {
    assert_eq!(start_result(0), Ok(()));
    assert_eq!(start_result(11), Err(ProxyError::Thread(11)));
}
