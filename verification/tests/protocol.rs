use wezcmd::protocol::{
    default_title, validate_host, validate_path, validate_port, validate_url, Command, Forward,
    Notify, Open, Port, PortField, ProtocolError, Response, Vscode,
};

fn open(url: &str) -> Command {
    Command::Open(Open { url: url.to_string() })
}

fn forward(port: Port, host: &str) -> Command {
    Command::Forward(Forward { port, host: host.to_string() })
}

fn vscode(path: &str, host: &str) -> Command {
    Command::Vscode(Vscode { path: path.to_string(), host: host.to_string() })
}

fn notify(title: &str, body: &str) -> Command {
    Command::Notify(Notify { title: title.to_string(), body: body.to_string() })
}

/// The cases of the wire protocol that reach the validation rules: each
/// request is written as the command (or the port) that decoding it yields.
/// Requests that do not decode at all (unknown verb, extra or missing field,
/// text that is not JSON) are the decoder's business and are not listed.
#[test]
fn validates_protocol_cases() {
    let cases: Vec<(Result<Command, ProtocolError>, bool, &str)> = vec![
        (Ok(open("https://example.com/x")), true, "open https"),
        (Ok(open("http://example.com")), true, "open http"),
        (Port::from_u64(8443).map(|p| forward(p, "")), true, "forward valid port"),
        (
            PortField::Text("9090".into()).decode().map(|p| forward(p, "")),
            true,
            "forward numeric-string port",
        ),
        (Ok(open("file:///etc/passwd")), false, "reject file: scheme"),
        (Ok(open("javascript:alert(1)")), false, "reject javascript:"),
        (Port::from_u64(80).map(|p| forward(p, "")), false, "reject port < 1024"),
        (Port::from_u64(70000).map(|p| forward(p, "")), false, "reject port > 65535"),
        (Port::from_text("notaport").map(|p| forward(p, "")), false, "reject non-numeric port"),
        (Ok(vscode("/home/exedev/workplace/x", "")), true, "vscode abs path"),
        (Ok(vscode("/x", "my-host")), true, "vscode with host"),
        (Ok(vscode("/x", "bad host!")), false, "reject bad host chars"),
        (
            Port::from_u64(8443).map(|p| forward(p, "-oProxyCommand=x")),
            false,
            "reject leading-dash host",
        ),
        (Port::from_u64(8443).map(|p| forward(p, "")), true, "empty host ok"),
        (Port::from_u64(8443).map(|p| forward(p, "my-host")), true, "forward with host"),
        (Ok(vscode("relative/x", "")), false, "reject vscode relative path"),
        (Ok(notify("Build", "done")), true, "notify title+body"),
        (Ok(notify(&default_title(), "body only, default title")), true, "notify default title"),
        (Ok(notify("Notification", "")), false, "reject notify empty body"),
    ];
    for (decoded, accept, desc) in cases {
        let got = Command::from_parsed(decoded.ok()).is_ok();
        assert_eq!(got, accept, "{desc}");
    }
}

#[test]
fn undecodable_request_is_refused() {
    assert_eq!(Command::from_parsed(None), Err(ProtocolError::Invalid));
}

#[test]
fn accepted_request_is_handed_back_unchanged() {
    let c = notify("Build", "done");
    assert_eq!(Command::from_parsed(Some(c.clone())), Ok(c));
    let bad = open("ftp://x");
    assert_eq!(Command::from_parsed(Some(bad)), Err(ProtocolError::Invalid));
}

#[test]
fn default_title_is_notification() {
    assert_eq!(default_title(), "Notification");
}

#[test]
fn host_rules() {
    assert_eq!(validate_host(""), Ok(()));
    assert_eq!(validate_host("my-host"), Ok(()));
    assert_eq!(validate_host("user@host.example_1"), Ok(()));
    assert_eq!(validate_host("-oProxyCommand=x"), Err(ProtocolError::Invalid));
    assert_eq!(validate_host(".host"), Err(ProtocolError::Invalid));
    assert_eq!(validate_host("bad host"), Err(ProtocolError::Invalid));
    assert_eq!(validate_host("héllo"), Err(ProtocolError::Invalid));
    assert_eq!(validate_host(&"a".repeat(255)), Ok(()));
    assert_eq!(validate_host(&"a".repeat(256)), Err(ProtocolError::Invalid));
}

#[test]
fn path_rules() {
    assert_eq!(validate_path("/x"), Ok(()));
    assert_eq!(validate_path("/with space/ü"), Ok(()));
    assert_eq!(validate_path(""), Err(ProtocolError::Invalid));
    assert_eq!(validate_path("x/"), Err(ProtocolError::Invalid));
    assert_eq!(validate_path("/a\nb"), Err(ProtocolError::Invalid));
    assert_eq!(validate_path("/a\u{85}b"), Err(ProtocolError::Invalid));
    let long = format!("/{}", "a".repeat(4095));
    assert_eq!(validate_path(&long), Ok(()));
    let too_long = format!("/{}", "a".repeat(4096));
    assert_eq!(validate_path(&too_long), Err(ProtocolError::Invalid));
    // the limit is in bytes: 2048 two-byte characters are 4096 bytes plus the slash
    let wide = format!("/{}", "é".repeat(2048));
    assert_eq!(validate_path(&wide), Err(ProtocolError::Invalid));
}

#[test]
fn url_rules() {
    assert_eq!(validate_url("https://example.com/x"), Ok(()));
    assert_eq!(validate_url("http://example.com?q"), Ok(()));
    assert_eq!(validate_url("https://"), Err(ProtocolError::Invalid));
    assert_eq!(validate_url("https:///path"), Err(ProtocolError::Invalid));
    assert_eq!(validate_url("http://?q"), Err(ProtocolError::Invalid));
    assert_eq!(validate_url("https://#frag"), Err(ProtocolError::Invalid));
    assert_eq!(validate_url("HTTPS://example.com"), Err(ProtocolError::Invalid));
    assert_eq!(validate_url("https://exa mple.com"), Err(ProtocolError::Invalid));
    assert_eq!(validate_url("https://example.com/\u{3000}"), Err(ProtocolError::Invalid));
    assert_eq!(validate_url("https://example.com/\t"), Err(ProtocolError::Invalid));
    assert_eq!(validate_url("file:///etc/passwd"), Err(ProtocolError::Invalid));
}

#[test]
fn notify_rules() {
    assert_eq!(notify("Build", "done").validate(), Ok(()));
    assert_eq!(notify("", "done").validate(), Ok(()));
    assert_eq!(notify(&"t".repeat(200), "b").validate(), Ok(()));
    assert_eq!(notify(&"t".repeat(201), "b").validate(), Err(ProtocolError::Invalid));
    // 100 three-byte characters are 300 bytes
    assert_eq!(notify(&"€".repeat(100), "b").validate(), Err(ProtocolError::Invalid));
    assert_eq!(notify("t", &"b".repeat(2000)).validate(), Ok(()));
    assert_eq!(notify("t", &"b".repeat(2001)).validate(), Err(ProtocolError::Invalid));
    assert_eq!(notify("t", "").validate(), Err(ProtocolError::Invalid));
}

#[test]
fn vscode_checks_path_then_host() {
    assert_eq!(vscode("/x", "").validate(), Ok(()));
    assert_eq!(vscode("x", "ok").validate(), Err(ProtocolError::Invalid));
    assert_eq!(vscode("/x", "no way").validate(), Err(ProtocolError::Invalid));
}

#[test]
fn port_rules() {
    assert_eq!(validate_port(1023), Err(ProtocolError::Invalid));
    assert_eq!(validate_port(1024), Ok(()));
    assert_eq!(Port::from_u64(8443), Ok(Port(8443)));
    assert_eq!(Port::from_u64(80), Err(ProtocolError::Invalid));
    assert_eq!(Port::from_u64(65535), Ok(Port(65535)));
    assert_eq!(Port::from_u64(65536), Err(ProtocolError::InvalidPort));
    assert_eq!(Port::from_i64(-1), Err(ProtocolError::InvalidPort));
    assert_eq!(Port::from_i64(2000), Ok(Port(2000)));
    assert_eq!(Port::from_i64(0), Err(ProtocolError::Invalid));
    assert_eq!(Port::from_text("9090"), Ok(Port(9090)));
    assert_eq!(Port::from_text("+9090"), Ok(Port(9090)));
    assert_eq!(Port::from_text("09090"), Ok(Port(9090)));
    assert_eq!(Port::from_text("80"), Err(ProtocolError::Invalid));
    assert_eq!(Port::from_text("70000"), Err(ProtocolError::InvalidPort));
    assert_eq!(Port::from_text(""), Err(ProtocolError::InvalidPort));
    assert_eq!(Port::from_text("+"), Err(ProtocolError::InvalidPort));
    assert_eq!(Port::from_text(" 9090"), Err(ProtocolError::InvalidPort));
    assert_eq!(Port::from_text("-9090"), Err(ProtocolError::InvalidPort));
    assert_eq!(ProtocolError::InvalidPort.message(), "invalid port");
    assert_eq!(ProtocolError::Invalid.message(), "invalid");
}

#[test]
fn port_text_matches_number() {
    for n in [0u16, 1, 80, 1023, 1024, 8443, 9090, 65535] {
        assert_eq!(Port::from_text(&n.to_string()), Port::from_u64(n as u64));
    }
}

#[test]
fn replies() {
    let ok = Response::ok();
    assert!(ok.ok);
    assert_eq!(ok.err, None);
    let err = Response::error("denied");
    assert!(!err.ok);
    assert_eq!(err.err.as_deref(), Some("denied"));
    let long = "é".repeat(130);
    let cut = Response::error(&long);
    assert_eq!(cut.err.unwrap(), "é".repeat(120));
}

#[test]
fn decoded_forward_ports() {
    let fields = [
        PortField::Unsigned(8443),
        PortField::Unsigned(80),
        PortField::Unsigned(70000),
        PortField::Signed(-5),
        PortField::Signed(2222),
        PortField::Text("9090".into()),
        PortField::Text("80".into()),
        PortField::Text("notaport".into()),
    ];
    for field in fields {
        let decoded = field.decode().ok().map(|p| forward(p, "my-host"));
        match Command::from_parsed(decoded) {
            Ok(Command::Forward(f)) => assert!(f.port.0 >= 1024),
            Ok(other) => panic!("unexpected {:?}", other),
            Err(e) => assert_eq!(e.message(), "invalid"),
        }
    }
}

#[test]
fn encode_decode_round_trip() {
    // a port is written as a number and read back through the number rule
    for (port, ok) in [(Port(8443), true), (Port(1024), true), (Port(80), false)] {
        let c = forward(port, "host");
        let again = PortField::Unsigned(port.0 as u64)
            .decode()
            .ok()
            .map(|p| forward(p, "host"));
        let r = Command::from_parsed(again);
        assert_eq!(r.is_ok(), ok);
        if let Ok(d) = r {
            assert_eq!(d, c);
        }
    }
}
