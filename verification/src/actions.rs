//! What the daemon runs for each accepted command.
//!
//! A command becomes a short sequence of programs to run. [`Dispatch::start`]
//! gives the first one; the caller runs it and hands the outcome to
//! [`Dispatch::resume`], which says what comes next.
use vstd::prelude::*;

use crate::protocol::{valid_command, valid_host, Command, Forward, Notify, Open, Vscode};
use crate::text::{concat2, decimal, decimal_string, decode_lossy, first_line, first_line_of, owned, utf8_lossy};

verus! {

/// Settings of the action runner (none are needed yet).
pub struct ActionConfig;

/// A program to run: its argument vector, how long to wait for it, and
/// whether its standard error is discarded.
pub struct Invocation {
    pub argv: Vec<String>,
    pub wait_secs: u64,
    pub quiet_stderr: bool,
}

/// The model of an [`Invocation`].
pub struct RunSpec {
    pub argv: Seq<Seq<char>>,
    pub wait_secs: u64,
    pub quiet_stderr: bool,
}

impl View for Invocation {
    type V = RunSpec;

    open spec fn view(&self) -> RunSpec {
        RunSpec { argv: self.argv.deep_view(), wait_secs: self.wait_secs, quiet_stderr: self.quiet_stderr }
    }
}

/// What to do next: run a program, or finish with a result.
pub enum Step {
    Run(Invocation),
    Done(Result<(), String>),
}

/// The plan for a command: one program, a confirmation dialog followed by a
/// program, or a refusal with its message.
pub enum Plan {
    Run(RunSpec),
    Confirm { confirm: RunSpec, then: RunSpec },
    Refuse(Seq<char>),
}

/// The AppleScript of the dialog that asks before a port is forwarded; it
/// takes the host and the port as arguments.
pub const CONFIRM_SCRIPT: &'static str = "on run argv
  set h to item 1 of argv
  set p to item 2 of argv
  display dialog \"A remote session requests forwarding port \" & p & \" on \" & h & \" to your Mac. Allow?\" buttons {\"Deny\", \"Allow\"} default button \"Deny\" cancel button \"Deny\" with title \"wezcmd\"
end run";

/// Seconds to wait for an ordinary program.
pub const RUN_WAIT_SECS: u64 = 10;

/// Seconds to wait for the user to answer the confirmation dialog.
pub const CONFIRM_WAIT_SECS: u64 = 120;

pub open spec fn open_argv(url: Seq<char>) -> Seq<Seq<char>> {
    seq!["/usr/bin/open"@, "--"@, url]
}

pub open spec fn notify_argv(title: Seq<char>, body: Seq<char>) -> Seq<Seq<char>> {
    seq!["/opt/homebrew/bin/terminal-notifier"@, "-title"@, title, "-message"@, body]
}

/// The `vscode:` URL that opens `path`, on `host` over SSH when it is named.
pub open spec fn vscode_url(path: Seq<char>, host: Seq<char>) -> Seq<char> {
    if host.len() == 0 {
        "vscode://file"@ + path
    } else {
        "vscode://vscode-remote/ssh-remote+"@ + host + path
    }
}

pub open spec fn confirm_argv(host: Seq<char>, port: u16) -> Seq<Seq<char>> {
    seq!["/usr/bin/osascript"@, "-e"@, CONFIRM_SCRIPT@, host, decimal(port as nat)]
}

/// The `-L` argument of the tunnel: `PORT:localhost:PORT`.
pub open spec fn tunnel_bind(port: u16) -> Seq<char> {
    decimal(port as nat) + ":localhost:"@ + decimal(port as nat)
}

pub open spec fn tunnel_argv(host: Seq<char>, port: u16) -> Seq<Seq<char>> {
    seq![
        "/usr/bin/ssh"@,
        "-f"@,
        "-N"@,
        "-o"@,
        "ExitOnForwardFailure=yes"@,
        "-o"@,
        "BatchMode=yes"@,
        "-L"@,
        tunnel_bind(port),
        host,
    ]
}

pub open spec fn run_spec(argv: Seq<Seq<char>>, wait_secs: u64, quiet_stderr: bool) -> RunSpec {
    RunSpec { argv, wait_secs, quiet_stderr }
}

/// What the daemon does for `c`.
pub open spec fn plan(c: Command) -> Plan {
    match c {
        Command::Open(o) => Plan::Run(run_spec(open_argv(o.url@), RUN_WAIT_SECS, false)),
        Command::Notify(n) => Plan::Run(
            run_spec(notify_argv(n.title@, n.body@), RUN_WAIT_SECS, false),
        ),
        Command::Vscode(v) => Plan::Run(
            run_spec(open_argv(vscode_url(v.path@, v.host@)), RUN_WAIT_SECS, false),
        ),
        Command::Forward(f) => if f.host@.len() == 0 {
            Plan::Refuse("no forward target host"@)
        } else {
            Plan::Confirm {
                confirm: run_spec(confirm_argv(f.host@, f.port.0), CONFIRM_WAIT_SECS, false),
                then: run_spec(tunnel_argv(f.host@, f.port.0), RUN_WAIT_SECS, true),
            }
        },
    }
}

/// The progress of one command through its plan.
pub struct Dispatch {
    after_confirm: Option<Invocation>,
}

impl Dispatch {
    /// The program that runs once the confirmation succeeds, if the
    /// dispatch is waiting for one.
    pub closed spec fn awaiting(&self) -> Option<RunSpec> {
        match self.after_confirm {
            Some(i) => Some(i@),
            None => None,
        }
    }

    /// Plans `command` and gives its first step.
    pub fn start(command: Command, config: &ActionConfig) -> (res: (Dispatch, Step))
        ensures
            match plan(command) {
                Plan::Run(r) => res.1 matches Step::Run(i) && i@ == r && res.0.awaiting() is None,
                Plan::Confirm { confirm, then } => res.1 matches Step::Run(i) && i@ == confirm
                    && res.0.awaiting() == Some(then),
                Plan::Refuse(m) => res.1 matches Step::Done(Err(e)) && e@ == m
                    && res.0.awaiting() is None,
            },
    {
        match command {
            Command::Open(Open { url }) => {
                let ghost u = url@;
                let argv = vec![owned("/usr/bin/open"), owned("--"), url];
                assert(argv.deep_view() =~= open_argv(u));
                (Dispatch { after_confirm: None }, Step::Run(run(argv, RUN_WAIT_SECS, false)))
            },
            Command::Notify(Notify { title, body }) => {
                let ghost (t, b) = (title@, body@);
                let argv = vec![
                    owned("/opt/homebrew/bin/terminal-notifier"),
                    owned("-title"),
                    title,
                    owned("-message"),
                    body,
                ];
                assert(argv.deep_view() =~= notify_argv(t, b));
                (Dispatch { after_confirm: None }, Step::Run(run(argv, RUN_WAIT_SECS, false)))
            },
            Command::Vscode(Vscode { path, host }) => {
                let url = if host.as_str().is_empty() {
                    concat2("vscode://file", path.as_str())
                } else {
                    let mut u = concat2("vscode://vscode-remote/ssh-remote+", host.as_str());
                    u.append(path.as_str());
                    u
                };
                let ghost u = url@;
                let argv = vec![owned("/usr/bin/open"), owned("--"), url];
                assert(argv.deep_view() =~= open_argv(u));
                (Dispatch { after_confirm: None }, Step::Run(run(argv, RUN_WAIT_SECS, false)))
            },
            Command::Forward(Forward { port, host }) => {
                if host.as_str().is_empty() {
                    return (
                        Dispatch { after_confirm: None },
                        Step::Done(Err(owned("no forward target host"))),
                    );
                }
                let ghost h = host@;
                let confirm = vec![
                    owned("/usr/bin/osascript"),
                    owned("-e"),
                    owned(CONFIRM_SCRIPT),
                    host.clone(),
                    decimal_string(port.0 as u64),
                ];
                let mut bind = decimal_string(port.0 as u64);
                bind.append(":localhost:");
                let digits = decimal_string(port.0 as u64);
                bind.append(digits.as_str());
                let tunnel = vec![
                    owned("/usr/bin/ssh"),
                    owned("-f"),
                    owned("-N"),
                    owned("-o"),
                    owned("ExitOnForwardFailure=yes"),
                    owned("-o"),
                    owned("BatchMode=yes"),
                    owned("-L"),
                    bind,
                    host,
                ];
                assert(confirm.deep_view() =~= confirm_argv(h, port.0));
                assert(tunnel.deep_view() =~= tunnel_argv(h, port.0));
                (
                    Dispatch { after_confirm: Some(run(tunnel, RUN_WAIT_SECS, true)) },
                    Step::Run(run(confirm, CONFIRM_WAIT_SECS, false)),
                )
            },
        }
    }

    /// The step after a program finished with `outcome`. After the
    /// confirmation dialog, a success runs the planned program and a failure
    /// ends the command with `denied`; after any other program its outcome
    /// is the command's result.
    pub fn resume(&mut self, outcome: Result<(), String>) -> (step: Step)
        ensures
            final(self).awaiting() is None,
            match old(self).awaiting() {
                Some(next) => match outcome {
                    Ok(()) => step matches Step::Run(i) && i@ == next,
                    Err(_) => step matches Step::Done(Err(e)) && e@ == "denied"@,
                },
                None => step == Step::Done(outcome),
            },
    {
        match self.after_confirm.take() {
            Some(next) => match outcome {
                Ok(()) => Step::Run(next),
                Err(_) => Step::Done(Err(owned("denied"))),
            },
            None => Step::Done(outcome),
        }
    }
}

fn run(argv: Vec<String>, wait_secs: u64, quiet_stderr: bool) -> (i: Invocation)
    ensures
        i@ == run_spec(argv.deep_view(), wait_secs, quiet_stderr),
{
    Invocation { argv, wait_secs, quiet_stderr }
}

/// The error text of a program that failed: the first line of its standard
/// error, or `command failed` when it wrote nothing.
pub open spec fn failure_text(stderr: Seq<u8>) -> Seq<char> {
    match first_line(utf8_lossy(stderr)) {
        Some(l) => l,
        None => "command failed"@,
    }
}

/// The result of a program that exited, given whether it succeeded and what
/// it wrote to standard error.
pub fn command_outcome(success: bool, stderr: &[u8]) -> (r: Result<(), String>)
    ensures
        success ==> r is Ok,
        !success ==> (r matches Err(e) && e@ == failure_text(stderr@)),
{
    if success {
        return Ok(());
    }
    let text = decode_lossy(stderr);
    match first_line_of(text.as_str()) {
        Some(line) => Err(line),
        None => Err(owned("command failed")),
    }
}

/// A forward is never run without asking: for an accepted `forward`
/// command with a target host, the first program is the confirmation dialog
/// (which names the host and the port), and the tunnel that follows names
/// the host last, which does not start with `-`.
pub proof fn law_forward_asks_first(c: Command)
    requires
        valid_command(c),
        c matches Command::Forward(f) && f.host@.len() > 0,
    ensures
        plan(c) matches Plan::Confirm { confirm, then } && ({
            let f = c->Forward_0;
            &&& confirm.argv[3] == f.host@
            &&& confirm.argv[4] == decimal(f.port.0 as nat)
            &&& then.argv.last() == f.host@
            &&& then.argv.last()[0] != '-'
            &&& then.argv[8] == tunnel_bind(f.port.0)
        }),
{
    let f = c->Forward_0;
    assert(valid_host(f.host@));
}

/// The programs run for `open`, `notify` and `vscode` hand the request's
/// text over unchanged: `open` runs `/usr/bin/open -- URL` with the URL as
/// sent, `notify` passes the title and body as sent, and `vscode` opens
/// `vscode://file` followed by the path, or
/// `vscode://vscode-remote/ssh-remote+` followed by the host and the path.
/// None of them asks first, and each waits ten seconds.
pub proof fn law_requests_run_unchanged(c: Command)
    ensures
        c matches Command::Open(o) ==> (plan(c) matches Plan::Run(r) && r.argv.len() == 3
            && r.argv[0] == "/usr/bin/open"@ && r.argv[1] == "--"@ && r.argv[2] == o.url@
            && r.wait_secs == 10 && !r.quiet_stderr),
        c matches Command::Notify(n) ==> (plan(c) matches Plan::Run(r) && r.argv.len() == 5
            && r.argv[0] == "/opt/homebrew/bin/terminal-notifier"@ && r.argv[1] == "-title"@
            && r.argv[2] == n.title@ && r.argv[3] == "-message"@ && r.argv[4] == n.body@
            && r.wait_secs == 10 && !r.quiet_stderr),
        c matches Command::Vscode(v) ==> (plan(c) matches Plan::Run(r) && r.argv.len() == 3
            && r.argv[0] == "/usr/bin/open"@ && r.argv[1] == "--"@ && r.argv[2] == (if v.host@.len()
            == 0 {
            "vscode://file"@ + v.path@
        } else {
            "vscode://vscode-remote/ssh-remote+"@ + v.host@ + v.path@
        }) && r.wait_secs == 10 && !r.quiet_stderr),
{
}

/// What a `forward` runs: without a host it is refused with `no forward
/// target host`; with one, first `osascript -e SCRIPT HOST PORT` (waiting up
/// to 120 seconds for the user), then `ssh -f -N -o ExitOnForwardFailure=yes
/// -o BatchMode=yes -L PORT:localhost:PORT HOST` with its standard error
/// discarded, the port written in decimal.
pub proof fn law_forward_plan(f: Forward)
    ensures
        f.host@.len() == 0 ==> plan(Command::Forward(f)) == Plan::Refuse("no forward target host"@),
        f.host@.len() > 0 ==> (plan(Command::Forward(f)) matches Plan::Confirm { confirm, then }
            && confirm.argv == seq![
            "/usr/bin/osascript"@,
            "-e"@,
            CONFIRM_SCRIPT@,
            f.host@,
            decimal(f.port.0 as nat),
        ] && confirm.wait_secs == 120 && !confirm.quiet_stderr && then.argv == seq![
            "/usr/bin/ssh"@,
            "-f"@,
            "-N"@,
            "-o"@,
            "ExitOnForwardFailure=yes"@,
            "-o"@,
            "BatchMode=yes"@,
            "-L"@,
            decimal(f.port.0 as nat) + ":localhost:"@ + decimal(f.port.0 as nat),
            f.host@,
        ] && then.wait_secs == 10 && then.quiet_stderr),
{
}

} // verus!
