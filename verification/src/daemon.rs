//! The daemon's decisions: how a request line is framed, what is answered,
//! and when an idle daemon stops.
use vstd::prelude::*;

use crate::protocol::{Response, ERROR_CHARS};
use crate::text::truncate_chars;

verus! {

/// Longest request line, newline included, in bytes.
pub const MAX_LINE: usize = 8192;

/// The content of a line read up to and including `\n`: `raw` without its
/// final `\n`, or `None` when `raw` does not end with one (end of stream).
pub fn line_payload(raw: &[u8]) -> (r: Option<Vec<u8>>)
    ensures
        match r {
            Some(p) => raw@.len() > 0 && raw@.last() == 10u8 && p@ == raw@.drop_last(),
            None => !(raw@.len() > 0 && raw@.last() == 10u8),
        },
{
    let n = raw.len();
    if n == 0 || raw[n - 1] != 10u8 {
        return None;
    }
    let mut p: Vec<u8> = Vec::new();
    let mut i: usize = 0;
    while i < n - 1
        invariant
            n == raw@.len(),
            n > 0,
            i <= n - 1,
            p@ == raw@.take(i as int),
        decreases n - 1 - i,
    {
        p.push(raw[i]);
        assert(raw@.take(i + 1) =~= raw@.take(i as int).push(raw@[i as int]));
        i = i + 1;
    }
    assert(raw@.take(i as int) =~= raw@.drop_last());
    Some(p)
}

/// The request carried by a line read from a client: the line must end with
/// `\n` and be at most `MAX_LINE` bytes long; the request is what precedes
/// the `\n`.
pub open spec fn request_of(raw: Seq<u8>) -> Option<Seq<u8>> {
    if raw.len() > 0 && raw.last() == 10u8 && raw.len() <= MAX_LINE {
        Some(raw.drop_last())
    } else {
        None
    }
}

/// Frames a request read from a client (see [`request_of`]).
pub fn request_payload(raw: &[u8]) -> (r: Option<Vec<u8>>)
    ensures
        match r {
            Some(p) => request_of(raw@) == Some(p@),
            None => request_of(raw@) is None,
        },
{
    if raw.len() > MAX_LINE {
        return None;
    }
    line_payload(raw)
}

/// The reply to a request whose action finished with `outcome`.
pub fn reply(outcome: Result<(), String>) -> (r: Response)
    ensures
        match outcome {
            Ok(()) => r.ok && r.err is None,
            Err(e) => !r.ok && (r.err matches Some(m) && m@ == truncate_chars(e@, ERROR_CHARS as nat)),
        },
{
    match outcome {
        Ok(()) => Response::ok(),
        Err(e) => Response::error(e.as_str()),
    }
}

/// The reply to a request that could not be read or was refused.
pub fn invalid_reply() -> (r: Response)
    ensures
        !r.ok,
        r.err matches Some(m) && m@ == "invalid"@,
{
    let r = Response::error("invalid");
    proof {
        reveal_strlit("invalid");
    }
    r
}

/// Whether a daemon that was idle for `idle` should stop, given its idle
/// limit (a limit of zero means never). Both are in nanoseconds.
pub fn idle_expired(limit: u128, idle: u128) -> (b: bool)
    ensures
        b == (limit > 0 && idle > limit),
{
    limit > 0 && idle > limit
}

/// What a client writes, a request followed by `\n`, is read back as the
/// same request, as long as the line fits in `MAX_LINE` bytes.
pub proof fn law_request_framing(request: Seq<u8>)
    requires
        request.len() < MAX_LINE,
    ensures
        request_of(request.push(10u8)) == Some(request),
{
    assert(request.push(10u8).drop_last() == request);
}

} // verus!
