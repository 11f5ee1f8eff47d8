use wezcmd::daemon::{idle_expired, invalid_reply, line_payload, reply, request_payload, MAX_LINE};

#[test]
fn request_framing() {
    assert_eq!(request_payload(b"{\"cmd\":\"open\"}\n"), Some(b"{\"cmd\":\"open\"}".to_vec()));
    assert_eq!(request_payload(b"\n"), Some(Vec::new()));
    assert_eq!(request_payload(b""), None);
    assert_eq!(request_payload(b"no newline"), None);
    let mut at_limit = vec![b'a'; MAX_LINE - 1];
    at_limit.push(b'\n');
    assert_eq!(request_payload(&at_limit), Some(vec![b'a'; MAX_LINE - 1]));
    let mut over = vec![b'a'; MAX_LINE];
    over.push(b'\n');
    assert_eq!(request_payload(&over), None);
}

#[test]
fn line_framing_has_no_limit() {
    let mut long = vec![b'x'; MAX_LINE * 2];
    long.push(b'\n');
    assert_eq!(line_payload(&long), Some(vec![b'x'; MAX_LINE * 2]));
    assert_eq!(line_payload(b"partial"), None);
}

#[test]
fn replies_follow_outcome() {
    let ok = reply(Ok(()));
    assert!(ok.ok && ok.err.is_none());
    let err = reply(Err("timeout".into()));
    assert!(!err.ok);
    assert_eq!(err.err.as_deref(), Some("timeout"));
    let bad = invalid_reply();
    assert!(!bad.ok);
    assert_eq!(bad.err.as_deref(), Some("invalid"));
}

#[test]
fn idle_limit() {
    assert!(!idle_expired(0, 1_000_000_000_000));
    assert!(!idle_expired(5, 5));
    assert!(idle_expired(5, 6));
}
