use puki::events::HandlerCall;
use puki::reactor::Reactor;
use puki::status::{ExitStatus, Phase};

fn running_reactor() -> Reactor {
    let mut r = Reactor::new();
    r.bind_ok();
    r
}

#[test]
fn bind_failure_is_immediate_and_silent() {
    let mut r = Reactor::new();
    let status = r.bind_failed();
    assert_eq!(status, ExitStatus::BindFailed);
    assert_eq!(r.phase, Phase::Done { status: ExitStatus::BindFailed });
}

#[test]
fn accept_orders_one_connect() {
    let mut r = running_reactor();
    let call = r.accept_ready(5, 0x7F000001, 40000);
    assert_eq!(call, Some(HandlerCall::Connect { fd: 5, ip: 0x7F000001, port: 40000 }));
}

#[test]
fn duplicate_descriptor_is_refused() {
    let mut r = running_reactor();
    let first = r.accept_ready(5, 1, 1);
    assert!(first.is_some());
    let second = r.accept_ready(5, 2, 2);
    assert_eq!(second, None);
}

#[test]
fn data_carries_exactly_the_bytes_read() {
    let mut r = running_reactor();
    r.accept_ready(4, 1, 1);
    let chunk1 = "hel".as_bytes().to_vec();
    let chunk2 = "lo".as_bytes().to_vec();
    let c1 = r.data_ready(4, chunk1);
    let c2 = r.data_ready(4, chunk2);
    assert_eq!(c1, Some(HandlerCall::Data { fd: 4, bytes: "hel".as_bytes().to_vec() }));
    assert_eq!(c2, Some(HandlerCall::Data { fd: 4, bytes: "lo".as_bytes().to_vec() }));
}

#[test]
fn empty_read_orders_nothing() {
    let mut r = running_reactor();
    r.accept_ready(4, 1, 1);
    let call = r.data_ready(4, Vec::new());
    assert_eq!(call, None);
}

#[test]
fn data_for_unknown_descriptor_orders_nothing() {
    let mut r = running_reactor();
    let call = r.data_ready(9, "x".as_bytes().to_vec());
    assert_eq!(call, None);
}

#[test]
fn zero_bytes_then_disconnect_gives_connect_then_close() {
    let mut r = running_reactor();
    let opened = r.accept_ready(6, 0x0A000001, 1234);
    assert_eq!(opened, Some(HandlerCall::Connect { fd: 6, ip: 0x0A000001, port: 1234 }));
    let closed = r.client_gone(6);
    assert_eq!(closed, Some(HandlerCall::Close { fd: 6 }));
}

#[test]
fn close_for_unknown_descriptor_orders_nothing() {
    let mut r = running_reactor();
    let call = r.client_gone(3);
    assert_eq!(call, None);
}

#[test]
fn cancellation_closes_every_open_connection_once() {
    let mut r = running_reactor();
    r.accept_ready(4, 1, 1);
    r.accept_ready(7, 2, 2);
    let calls = r.cancel_ready();
    assert_eq!(r.phase, Phase::Done { status: ExitStatus::Stopped });
    assert_eq!(calls.len(), 2);
    let mut fds: Vec<i32> = calls
        .iter()
        .map(|c| match c {
            HandlerCall::Close { fd } => *fd,
            other => panic!("expected a close, got {:?}", other),
        })
        .collect();
    fds.sort();
    assert_eq!(fds, vec![4, 7]);
}

#[test]
fn cancellation_with_nothing_open_closes_nothing() {
    let mut r = running_reactor();
    let calls = r.cancel_ready();
    assert_eq!(calls.len(), 0);
    assert_eq!(r.phase, Phase::Done { status: ExitStatus::Stopped });
}

#[test]
fn fatal_wait_error_ends_the_run() {
    let mut r = running_reactor();
    r.accept_ready(4, 1, 1);
    let calls = r.wait_fatal();
    assert_eq!(r.phase, Phase::Done { status: ExitStatus::Fatal });
    assert_eq!(calls, vec![HandlerCall::Close { fd: 4 }]);
}

#[test]
fn two_clients_interleaved_then_stop() {
    let mut r = running_reactor();
    let mut observed: Vec<HandlerCall> = Vec::new();
    observed.extend(r.accept_ready(4, 0x0A000001, 1111));
    observed.extend(r.data_ready(4, "hello".as_bytes().to_vec()));
    observed.extend(r.accept_ready(7, 0x0A000002, 2222));
    observed.extend(r.data_ready(7, "world".as_bytes().to_vec()));
    observed.extend(r.client_gone(4));
    observed.extend(r.client_gone(7));
    let shutdown = r.cancel_ready();
    assert_eq!(shutdown.len(), 0);
    assert_eq!(r.phase, Phase::Done { status: ExitStatus::Stopped });
    assert_eq!(
        observed,
        vec![
            HandlerCall::Connect { fd: 4, ip: 0x0A000001, port: 1111 },
            HandlerCall::Data { fd: 4, bytes: "hello".as_bytes().to_vec() },
            HandlerCall::Connect { fd: 7, ip: 0x0A000002, port: 2222 },
            HandlerCall::Data { fd: 7, bytes: "world".as_bytes().to_vec() },
            HandlerCall::Close { fd: 4 },
            HandlerCall::Close { fd: 7 },
        ]
    );
}

#[test]
fn descriptor_may_return_after_close() {
    let mut r = running_reactor();
    assert!(r.accept_ready(5, 1, 1).is_some());
    assert!(r.client_gone(5).is_some());
    let again = r.accept_ready(5, 3, 3);
    assert_eq!(again, Some(HandlerCall::Connect { fd: 5, ip: 3, port: 3 }));
}
