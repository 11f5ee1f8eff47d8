# wezcmd

`wezcmd` lets a remote SSH session ask the local machine to perform a small,
whitelisted set of actions through a reverse-forwarded Unix socket: open a
URL, show a notification, open a path in VS Code, or forward a port after the
user confirms it. An experimental TCP proxy lets a remote worker bridge local
TCP connections back over the same socket.

## Layout

- `src/` is the verified library.
  - `protocol.rs`: the commands, the reply, and the validation rules
    (hosts, paths, URLs, notifications, ports).
  - `actions.rs`: the programs run for each command, as a small state
    machine (`Dispatch::start`, `Dispatch::resume`), and how a finished
    program becomes a result.
  - `daemon.rs`: request framing, replies, the idle limit.
  - `proxy.rs`: the registry of worker sessions, forwarded ports and
    waiting streams.
  - `text.rs`: character classes, decimal numbers, lines and small string
    helpers.
- `app/` is the program around it: command line, sockets, processes, JSON.
- `tests/` exercises the library on concrete values.
