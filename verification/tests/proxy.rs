use wezcmd::protocol::{Port, Response};
use wezcmd::proxy::{registration_outcome, ListenStep, ProxyError, ProxyState};

type State = ProxyState<&'static str, u32, char>;

#[test]
fn register_and_check() {
    let mut s: State = ProxyState::new();
    assert_eq!(s.register("w1".into(), "tok".into(), "events-1"), Ok(()));
    assert_eq!(s.register("w1".into(), "other".into(), "events-2"), Err(ProxyError::SessionExists));
    assert_eq!(s.check_session("w1", "tok"), Ok(()));
    assert_eq!(s.check_session("w1", "other"), Err(ProxyError::InvalidToken));
    assert_eq!(s.check_session("w2", "tok"), Err(ProxyError::UnknownSession));
    match s.stream_event("w1", 4, Port(8443)) {
        Ok((events, event)) => {
            assert_eq!(*events, "events-1");
            assert_eq!(event.stream, 4);
            assert_eq!(event.remote_port, Port(8443));
        }
        Err(e) => panic!("unexpected {:?}", e),
    }
    assert!(matches!(s.stream_event("w2", 4, Port(8443)), Err(ProxyError::SessionGone)));
    assert_eq!(ProxyError::SessionExists.message(), "session exists");
    assert_eq!(ProxyError::PortForwarded.message(), "local port already forwarded");
}

#[test]
fn listen_and_stop() {
    let mut s: State = ProxyState::new();
    s.register("a".into(), "ta".into(), "ea").unwrap();
    s.register("b".into(), "tb".into(), "eb").unwrap();
    assert!(!s.is_forwarded(8443));
    s.add_listener(8443, "a".into(), 7);
    assert!(s.is_forwarded(8443));
    assert_eq!(s.stop("b", "tb", 8443), Err(ProxyError::OwnedByAnotherSession));
    assert_eq!(s.stop("a", "wrong", 8443), Err(ProxyError::InvalidToken));
    assert_eq!(s.stop("a", "ta", 9000), Err(ProxyError::NotForwarded));
    assert_eq!(s.stop("a", "ta", 8443), Ok(7));
    assert!(!s.is_forwarded(8443));
    assert_eq!(s.stop("a", "ta", 8443), Err(ProxyError::NotForwarded));
}

#[test]
fn streams_open_attach_cancel() {
    let mut s: State = ProxyState::new();
    s.register("a".into(), "ta".into(), "ea").unwrap();
    let first = s.open_stream("a", 'x');
    let second = s.open_stream("a", 'y');
    assert_eq!(first, 1);
    assert_eq!(second, 2);
    assert_eq!(s.attach_stream("a", "bad", first), None);
    assert_eq!(s.attach_stream("a", "ta", first), Some('x'));
    assert_eq!(s.attach_stream("a", "ta", first), None);
    assert_eq!(s.cancel_stream("a", second), Some('y'));
    assert_eq!(s.cancel_stream("a", second), None);
}

#[test]
fn cleanup_drops_only_that_session() {
    let mut s: State = ProxyState::new();
    s.register("a".into(), "ta".into(), "ea").unwrap();
    s.register("b".into(), "tb".into(), "eb").unwrap();
    s.add_listener(1000, "a".into(), 1);
    s.add_listener(2000, "b".into(), 2);
    s.add_listener(3000, "a".into(), 3);
    let sa = s.open_stream("a", 'a');
    let sb = s.open_stream("b", 'b');
    let mut tasks = s.cleanup_session("a");
    tasks.sort();
    assert_eq!(tasks, vec![1, 3]);
    assert_eq!(s.check_session("a", "ta"), Err(ProxyError::UnknownSession));
    assert_eq!(s.check_session("b", "tb"), Ok(()));
    assert!(!s.is_forwarded(1000));
    assert!(s.is_forwarded(2000));
    assert!(!s.is_forwarded(3000));
    assert_eq!(s.cancel_stream("a", sa), None);
    assert_eq!(s.cancel_stream("b", sb), Some('b'));
    // a new session may take the name again
    assert_eq!(s.register("a".into(), "new".into(), "ea2"), Ok(()));
}

fn reply_of(step: ListenStep) -> Response {
    match step {
        ListenStep::Reply(r) => r,
        _ => panic!("expected a reply"),
    }
}

#[test]
fn listen_steps_in_order() {
    let mut s: State = ProxyState::new();
    s.register("a".into(), "ta".into(), "ea").unwrap();
    s.register("b".into(), "tb".into(), "eb").unwrap();
    let r = reply_of(s.listen_start("nobody", "x", 8443));
    assert_eq!(r.err.as_deref(), Some("unknown session"));
    let r = reply_of(s.listen_start("a", "wrong", 8443));
    assert_eq!(r.err.as_deref(), Some("invalid token"));
    match s.listen_start("a", "ta", 8443) {
        ListenStep::Bind { host, port } => {
            assert_eq!(host, "127.0.0.1");
            assert_eq!(port, 8443);
        }
        _ => panic!("expected a bind"),
    }
    let r = reply_of(s.listen_bound(8443, Err("address in use".into())));
    assert!(!r.ok);
    assert_eq!(r.err.as_deref(), Some("address in use"));
    assert!(matches!(s.listen_bound(8443, Ok(())), ListenStep::Spawn { port: 8443 }));
    let done = s.add_listener(8443, "a".into(), 1);
    assert!(done.ok && done.err.is_none());
    let r = reply_of(s.listen_bound(8443, Ok(())));
    assert_eq!(r.err.as_deref(), Some("local port already forwarded"));
    assert_eq!(s.stop("a", "ta", 8443), Ok(1));
}

#[test]
fn stream_numbers_count_from_one() {
    let mut s: State = ProxyState::new();
    let ids: Vec<u64> = (0..50).map(|_| s.open_stream("a", 'w')).collect();
    assert_eq!(ids, (1..=50).collect::<Vec<u64>>());
    assert!(s.can_open_stream());
}

#[test]
fn registration_replies() {
    assert_eq!(registration_outcome(Response::ok()), Ok(()));
    assert_eq!(
        registration_outcome(Response::error("session exists")),
        Err("session exists".to_string())
    );
    assert_eq!(
        registration_outcome(Response { ok: false, err: None }),
        Err("register failed".to_string())
    );
}
