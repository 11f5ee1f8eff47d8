use wezcmd::actions::{command_outcome, ActionConfig, Dispatch, Invocation, Step, CONFIRM_SCRIPT};
use wezcmd::protocol::{Command, Forward, Notify, Open, Port, Vscode};

fn run_of(step: Step) -> Invocation {
    match step {
        Step::Run(i) => i,
        Step::Done(r) => panic!("expected a program to run, got {:?}", r),
    }
}

fn done_of(step: Step) -> Result<(), String> {
    match step {
        Step::Done(r) => r,
        Step::Run(i) => panic!("expected the end, got {:?}", i.argv),
    }
}

#[test]
fn open_runs_open() {
    let (mut d, step) =
        Dispatch::start(Command::Open(Open { url: "https://example.com".into() }), &ActionConfig);
    let inv = run_of(step);
    assert_eq!(inv.argv, vec!["/usr/bin/open", "--", "https://example.com"]);
    assert_eq!(inv.wait_secs, 10);
    assert!(!inv.quiet_stderr);
    assert_eq!(done_of(d.resume(Ok(()))), Ok(()));
}

#[test]
fn notify_runs_terminal_notifier() {
    let (mut d, step) = Dispatch::start(
        Command::Notify(Notify { title: "Build".into(), body: "done".into() }),
        &ActionConfig,
    );
    let inv = run_of(step);
    assert_eq!(
        inv.argv,
        vec!["/opt/homebrew/bin/terminal-notifier", "-title", "Build", "-message", "done"]
    );
    assert_eq!(done_of(d.resume(Err("boom".into()))), Err("boom".to_string()));
}

#[test]
fn vscode_urls() {
    let (_, step) = Dispatch::start(
        Command::Vscode(Vscode { path: "/src/x".into(), host: "".into() }),
        &ActionConfig,
    );
    assert_eq!(run_of(step).argv, vec!["/usr/bin/open", "--", "vscode://file/src/x"]);
    let (_, step) = Dispatch::start(
        Command::Vscode(Vscode { path: "/src/x".into(), host: "cd".into() }),
        &ActionConfig,
    );
    assert_eq!(
        run_of(step).argv,
        vec!["/usr/bin/open", "--", "vscode://vscode-remote/ssh-remote+cd/src/x"]
    );
}

#[test]
fn forward_without_host_is_refused() {
    let (_, step) = Dispatch::start(
        Command::Forward(Forward { port: Port(8443), host: "".into() }),
        &ActionConfig,
    );
    assert_eq!(done_of(step), Err("no forward target host".to_string()));
}

#[test]
fn forward_asks_then_tunnels() {
    let (mut d, step) = Dispatch::start(
        Command::Forward(Forward { port: Port(8443), host: "cd".into() }),
        &ActionConfig,
    );
    let confirm = run_of(step);
    assert_eq!(confirm.argv, vec!["/usr/bin/osascript", "-e", CONFIRM_SCRIPT, "cd", "8443"]);
    assert_eq!(confirm.wait_secs, 120);
    let tunnel = run_of(d.resume(Ok(())));
    assert_eq!(
        tunnel.argv,
        vec![
            "/usr/bin/ssh",
            "-f",
            "-N",
            "-o",
            "ExitOnForwardFailure=yes",
            "-o",
            "BatchMode=yes",
            "-L",
            "8443:localhost:8443",
            "cd"
        ]
    );
    assert_eq!(tunnel.wait_secs, 10);
    assert!(tunnel.quiet_stderr);
    assert_eq!(done_of(d.resume(Err("ssh failed".into()))), Err("ssh failed".to_string()));
}

#[test]
fn forward_denied_never_tunnels() {
    let (mut d, _) = Dispatch::start(
        Command::Forward(Forward { port: Port(2222), host: "cd".into() }),
        &ActionConfig,
    );
    assert_eq!(done_of(d.resume(Err("user cancelled".into()))), Err("denied".to_string()));
    assert_eq!(done_of(d.resume(Ok(()))), Ok(()));
}

#[test]
fn command_outcomes() {
    assert_eq!(command_outcome(true, b"ignored"), Ok(()));
    assert_eq!(command_outcome(false, b""), Err("command failed".to_string()));
    assert_eq!(command_outcome(false, b"first\r\nsecond\n"), Err("first".to_string()));
    assert_eq!(command_outcome(false, b"\nsecond"), Err("".to_string()));
    assert_eq!(
        command_outcome(false, b"bad \xff byte\nmore"),
        Err("bad \u{fffd} byte".to_string())
    );
}
