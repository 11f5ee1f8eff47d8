//! The registry behind the TCP proxy: worker sessions with their tokens,
//! the local ports forwarded for them, and the streams waiting for a worker
//! to connect back.
//!
//! The registry holds the channels and tasks that the runtime gives it as
//! opaque values: `E` carries events to a session's worker, `T` is the task
//! that accepts connections on a forwarded port, `W` is the waiter of a
//! stream.
use vstd::prelude::*;

use crate::protocol::{Port, Response, ERROR_CHARS};
use crate::text::{owned, truncate_chars};

verus! {

// ---------------------------------------------------------------------------
// Tables with unique keys
// ---------------------------------------------------------------------------

/// Keys that can be compared for equality of their views.
pub trait TableKey: View + Sized {
    fn same(&self, other: &Self) -> (b: bool)
        ensures
            b == (self@ == other@),
    ;
}

impl TableKey for String {
    fn same(&self, other: &Self) -> (b: bool) {
        *self == *other
    }
}

impl TableKey for u16 {
    fn same(&self, other: &Self) -> (b: bool) {
        *self == *other
    }
}

/// A stream that waits for its worker: the session and the stream number.
pub struct StreamKey {
    pub session: String,
    pub stream: u64,
}

impl View for StreamKey {
    type V = (Seq<char>, u64);

    open spec fn view(&self) -> (Seq<char>, u64) {
        (self.session@, self.stream)
    }
}

impl TableKey for StreamKey {
    fn same(&self, other: &Self) -> (b: bool) {
        self.stream == other.stream && self.session == other.session
    }
}

pub open spec fn keys_unique<K: View, V>(s: Seq<(K, V)>) -> bool {
    forall|i: int, j: int|
        0 <= i < s.len() && 0 <= j < s.len() && i != j ==> #[trigger] s[i].0@ != #[trigger] s[j].0@
}

pub open spec fn has_key<K: View, V>(s: Seq<(K, V)>, k: K::V) -> bool {
    exists|i: int| 0 <= i < s.len() && #[trigger] s[i].0@ == k
}

/// The map from key views to values that a sequence of entries stands for.
pub open spec fn entries_map<K: View, V>(s: Seq<(K, V)>) -> Map<K::V, V> {
    Map::new(
        |k: K::V| has_key(s, k),
        |k: K::V| s[choose|i: int| 0 <= i < s.len() && #[trigger] s[i].0@ == k].1,
    )
}

proof fn lemma_entry<K: View, V>(s: Seq<(K, V)>, i: int)
    requires
        keys_unique(s),
        0 <= i < s.len(),
    ensures
        entries_map(s).contains_key(s[i].0@),
        entries_map(s)[s[i].0@] == s[i].1,
{
    let k = s[i].0@;
    assert(has_key(s, k));
    let j = choose|j: int| 0 <= j < s.len() && #[trigger] s[j].0@ == k;
    assert(j == i);
}

proof fn lemma_entries_map_empty<K: View, V>(s: Seq<(K, V)>)
    requires
        s.len() == 0,
    ensures
        entries_map(s) == Map::<K::V, V>::empty(),
{
    assert(entries_map(s) =~= Map::<K::V, V>::empty());
}

proof fn lemma_push<K: View, V>(s: Seq<(K, V)>, k: K, v: V)
    requires
        keys_unique(s),
        !has_key(s, k@),
    ensures
        keys_unique(s.push((k, v))),
        entries_map(s.push((k, v))) == entries_map(s).insert(k@, v),
{
    let t = s.push((k, v));
    assert(keys_unique(t)) by {
        assert forall|i: int, j: int|
            0 <= i < t.len() && 0 <= j < t.len() && i != j implies #[trigger] t[i].0@
            != #[trigger] t[j].0@ by {
            if i < s.len() && j < s.len() {
                assert(t[i] == s[i] && t[j] == s[j]);
            } else if i < s.len() {
                assert(t[i] == s[i]);
            } else {
                assert(t[j] == s[j]);
            }
        }
    }
    let m = entries_map(s).insert(k@, v);
    assert forall|key: K::V| #[trigger] entries_map(t).contains_key(key) == m.contains_key(key) by {
        if has_key(t, key) {
            let i = choose|i: int| 0 <= i < t.len() && #[trigger] t[i].0@ == key;
            if i < s.len() {
                assert(s[i] == t[i]);
            }
        }
        if has_key(s, key) {
            let i = choose|i: int| 0 <= i < s.len() && #[trigger] s[i].0@ == key;
            assert(t[i] == s[i]);
        }
        if key == k@ {
            assert(t[s.len() as int].0@ == key);
        }
    }
    assert forall|key: K::V| #[trigger] entries_map(t).contains_key(key) implies entries_map(t)[key]
        == m[key] by {
        let i = choose|i: int| 0 <= i < t.len() && #[trigger] t[i].0@ == key;
        lemma_entry(t, i);
        if i < s.len() {
            assert(t[i] == s[i]);
            lemma_entry(s, i);
        }
    }
    assert(entries_map(t) =~= m);
}

proof fn lemma_remove<K: View, V>(s: Seq<(K, V)>, i: int)
    requires
        keys_unique(s),
        0 <= i < s.len(),
    ensures
        keys_unique(s.remove(i)),
        entries_map(s.remove(i)) == entries_map(s).remove(s[i].0@),
{
    let t = s.remove(i);
    let k = s[i].0@;
    assert(keys_unique(t)) by {
        assert forall|a: int, b: int|
            0 <= a < t.len() && 0 <= b < t.len() && a != b implies #[trigger] t[a].0@
            != #[trigger] t[b].0@ by {
            let a2 = if a < i {
                a
            } else {
                a + 1
            };
            let b2 = if b < i {
                b
            } else {
                b + 1
            };
            assert(t[a] == s[a2] && t[b] == s[b2]);
        }
    }
    let m = entries_map(s).remove(k);
    assert forall|key: K::V| #[trigger] entries_map(t).contains_key(key) == m.contains_key(key) by {
        if has_key(t, key) {
            let a = choose|a: int| 0 <= a < t.len() && #[trigger] t[a].0@ == key;
            let a2 = if a < i {
                a
            } else {
                a + 1
            };
            assert(t[a] == s[a2]);
            assert(s[a2].0@ == key);
        }
        if has_key(s, key) && key != k {
            let a = choose|a: int| 0 <= a < s.len() && #[trigger] s[a].0@ == key;
            if a < i {
                assert(t[a] == s[a]);
            } else {
                assert(a != i);
                assert(t[a - 1] == s[a]);
            }
        }
    }
    assert forall|key: K::V| #[trigger] entries_map(t).contains_key(key) implies entries_map(t)[key]
        == m[key] by {
        let a = choose|a: int| 0 <= a < t.len() && #[trigger] t[a].0@ == key;
        let a2 = if a < i {
            a
        } else {
            a + 1
        };
        assert(t[a] == s[a2]);
        lemma_entry(t, a);
        lemma_entry(s, a2);
    }
    assert(entries_map(t) =~= m);
}

/// A table of entries with pairwise distinct keys.
struct Table<K, V> {
    entries: Vec<(K, V)>,
}

impl<K: TableKey, V> Table<K, V> {
    closed spec fn wf(&self) -> bool {
        keys_unique(self.entries@)
    }

    closed spec fn map(&self) -> Map<K::V, V> {
        entries_map(self.entries@)
    }

    fn new() -> (t: Self)
        ensures
            t.wf(),
            t.map() == Map::<K::V, V>::empty(),
    {
        let t = Table { entries: Vec::new() };
        proof {
            lemma_entries_map_empty(t.entries@);
        }
        t
    }

    /// The position of the entry with key `k`.
    fn find(&self, k: &K) -> (r: Option<usize>)
        requires
            self.wf(),
        ensures
            match r {
                Some(i) => i < self.entries@.len() && self.entries@[i as int].0@ == k@,
                None => !self.map().contains_key(k@),
            },
    {
        let mut i: usize = 0;
        while i < self.entries.len()
            invariant
                i <= self.entries@.len(),
                forall|j: int| 0 <= j < i ==> #[trigger] self.entries@[j].0@ != k@,
            decreases self.entries@.len() - i,
        {
            if self.entries[i].0.same(k) {
                return Some(i);
            }
            i = i + 1;
        }
        None
    }

    fn insert(&mut self, k: K, v: V)
        requires
            old(self).wf(),
            !old(self).map().contains_key(k@),
        ensures
            final(self).wf(),
            final(self).map() == old(self).map().insert(k@, v),
    {
        proof {
            lemma_push(self.entries@, k, v);
        }
        self.entries.push((k, v));
    }

    fn remove_at(&mut self, i: usize) -> (e: (K, V))
        requires
            old(self).wf(),
            i < old(self).entries@.len(),
        ensures
            final(self).wf(),
            e == old(self).entries@[i as int],
            final(self).entries@ == old(self).entries@.remove(i as int),
            old(self).map().contains_key(e.0@),
            old(self).map()[e.0@] == e.1,
            final(self).map() == old(self).map().remove(e.0@),
    {
        proof {
            lemma_entry(self.entries@, i as int);
            lemma_remove(self.entries@, i as int);
        }
        self.entries.remove(i)
    }

    /// Removes the entry with key `k` and gives back its value.
    fn take(&mut self, k: &K) -> (r: Option<V>)
        requires
            old(self).wf(),
        ensures
            final(self).wf(),
            match r {
                Some(v) => old(self).map().contains_key(k@) && old(self).map()[k@] == v
                    && final(self).map() == old(self).map().remove(k@),
                None => !old(self).map().contains_key(k@) && final(self).map() == old(self).map(),
            },
    {
        match self.find(k) {
            Some(i) => {
                let e = self.remove_at(i);
                Some(e.1)
            },
            None => None,
        }
    }

    fn get(&self, k: &K) -> (r: Option<&V>)
        requires
            self.wf(),
        ensures
            match r {
                Some(v) => self.map().contains_key(k@) && self.map()[k@] == *v,
                None => !self.map().contains_key(k@),
            },
    {
        match self.find(k) {
            Some(i) => {
                proof {
                    lemma_entry(self.entries@, i as int);
                }
                Some(&self.entries[i].1)
            },
            None => None,
        }
    }
}


// ---------------------------------------------------------------------------
// The registry
// ---------------------------------------------------------------------------

/// Why a proxy request was refused.
#[derive(Debug, Clone, Copy, PartialEq, Eq)]
pub enum ProxyError {
    SessionExists,
    UnknownSession,
    InvalidToken,
    PortForwarded,
    NotForwarded,
    OwnedByAnotherSession,
    SessionGone,
}

impl ProxyError {
    pub open spec fn spec_message(self) -> Seq<char> {
        match self {
            ProxyError::SessionExists => "session exists"@,
            ProxyError::UnknownSession => "unknown session"@,
            ProxyError::InvalidToken => "invalid token"@,
            ProxyError::PortForwarded => "local port already forwarded"@,
            ProxyError::NotForwarded => "not forwarded"@,
            ProxyError::OwnedByAnotherSession => "owned by another session"@,
            ProxyError::SessionGone => "session gone"@,
        }
    }

    /// The text reported for this error.
    pub fn message(&self) -> (m: String)
        ensures
            m@ == self.spec_message(),
    {
        match self {
            ProxyError::SessionExists => owned("session exists"),
            ProxyError::UnknownSession => owned("unknown session"),
            ProxyError::InvalidToken => owned("invalid token"),
            ProxyError::PortForwarded => owned("local port already forwarded"),
            ProxyError::NotForwarded => owned("not forwarded"),
            ProxyError::OwnedByAnotherSession => owned("owned by another session"),
            ProxyError::SessionGone => owned("session gone"),
        }
    }
}

/// What a session check answers: the session must be registered, with the
/// same token.
pub open spec fn session_check<E>(
    sessions: Map<Seq<char>, (String, E)>,
    session: Seq<char>,
    token: Seq<char>,
) -> Result<(), ProxyError> {
    if !sessions.contains_key(session) {
        Err(ProxyError::UnknownSession)
    } else if sessions[session].0@ != token {
        Err(ProxyError::InvalidToken)
    } else {
        Ok(())
    }
}

/// The entries of `listeners` that `session` does not own.
pub open spec fn listeners_not_of<T>(listeners: Map<u16, (String, T)>, session: Seq<char>) -> Map<
    u16,
    (String, T),
> {
    listeners.restrict(listeners.dom().filter(|p: u16| listeners[p].0@ != session))
}

/// The waiting streams that do not belong to `session`.
pub open spec fn pending_not_of<W>(pending: Map<(Seq<char>, u64), W>, session: Seq<char>) -> Map<
    (Seq<char>, u64),
    W,
> {
    pending.restrict(pending.dom().filter(|k: (Seq<char>, u64)| k.0 != session))
}

/// The event that asks a worker to connect back for a new stream.
pub struct TcpOpen {
    pub stream: u64,
    pub remote_port: Port,
}

/// The progress of a `listen` request.
pub enum ListenStep {
    /// Bind a TCP listener on `host`:`port`, then hand the outcome to
    /// `listen_bound`.
    Bind { host: String, port: u16 },
    /// Start the accept task and record it with `add_listener`.
    Spawn { port: u16 },
    /// Answer with this reply; the request is over.
    Reply(Response),
}

/// What a `listen` request comes to, given the outcome of the bind it asks
/// for (the bind is only made once the session check passed).
pub open spec fn listen_result<E, T>(
    sessions: Map<Seq<char>, (String, E)>,
    listeners: Map<u16, (String, T)>,
    session: Seq<char>,
    token: Seq<char>,
    port: u16,
    bind: Result<(), Seq<char>>,
) -> Result<(), Seq<char>> {
    match session_check(sessions, session, token) {
        Err(e) => Err(e.spec_message()),
        Ok(()) => match bind {
            Err(m) => Err(m),
            Ok(()) => if listeners.contains_key(port) {
                Err(ProxyError::PortForwarded.spec_message())
            } else {
                Ok(())
            },
        },
    }
}

/// What a worker makes of the daemon's reply to its registration: success,
/// or the error the daemon gave (`register failed` when it gave none).
pub fn registration_outcome(response: Response) -> (r: Result<(), String>)
    ensures
        response.ok ==> r is Ok,
        !response.ok ==> (r matches Err(e) && match response.err {
            Some(m) => e@ == m@,
            None => e@ == "register failed"@,
        }),
{
    if response.ok {
        Ok(())
    } else {
        match response.err {
            Some(m) => Err(m),
            None => Err(owned("register failed")),
        }
    }
}

/// The proxy registry.
pub struct ProxyState<E, T, W> {
    sessions: Table<String, (String, E)>,
    listeners: Table<u16, (String, T)>,
    pending: Table<StreamKey, W>,
    next_stream: u64,
}

impl<E, T, W> ProxyState<E, T, W> {
    /// Registered sessions: name to token and event channel.
    pub closed spec fn sessions(&self) -> Map<Seq<char>, (String, E)> {
        self.sessions.map()
    }

    /// Forwarded local ports: port to owning session and accept task.
    pub closed spec fn listeners(&self) -> Map<u16, (String, T)> {
        self.listeners.map()
    }

    /// Streams waiting for their worker: (session, stream) to waiter.
    pub closed spec fn pending(&self) -> Map<(Seq<char>, u64), W> {
        self.pending.map()
    }

    /// The last stream number handed out.
    pub closed spec fn last_stream(&self) -> u64 {
        self.next_stream
    }

    /// The registry's invariant: keys are unique in each table, and no
    /// waiting stream has a number above the last one handed out.
    pub closed spec fn wf(&self) -> bool {
        &&& self.sessions.wf()
        &&& self.listeners.wf()
        &&& self.pending.wf()
        &&& forall|k: (Seq<char>, u64)| #[trigger]
            self.pending.map().contains_key(k) ==> k.1 <= self.next_stream
    }

    /// An empty registry.
    pub fn new() -> (s: Self)
        ensures
            s.wf(),
            s.sessions() == Map::<Seq<char>, (String, E)>::empty(),
            s.listeners() == Map::<u16, (String, T)>::empty(),
            s.pending() == Map::<(Seq<char>, u64), W>::empty(),
            s.last_stream() == 0,
    {
        ProxyState {
            sessions: Table::new(),
            listeners: Table::new(),
            pending: Table::new(),
            next_stream: 0,
        }
    }

    /// Registers a worker session. A name that is already registered is
    /// refused and nothing changes.
    pub fn register(&mut self, session: String, token: String, events: E) -> (r: Result<
        (),
        ProxyError,
    >)
        requires
            old(self).wf(),
        ensures
            final(self).wf(),
            final(self).listeners() == old(self).listeners(),
            final(self).pending() == old(self).pending(),
            final(self).last_stream() == old(self).last_stream(),
            old(self).sessions().contains_key(session@) ==> r == Err::<(), ProxyError>(
                ProxyError::SessionExists,
            ) && final(self).sessions() == old(self).sessions(),
            !old(self).sessions().contains_key(session@) ==> r is Ok && final(self).sessions()
                == old(self).sessions().insert(session@, (token, events)),
    {
        match self.sessions.find(&session) {
            Some(_) => Err(ProxyError::SessionExists),
            None => {
                self.sessions.insert(session, (token, events));
                Ok(())
            },
        }
    }

    /// Checks that `session` is registered with `token`.
    pub fn check_session(&self, session: &str, token: &str) -> (r: Result<(), ProxyError>)
        requires
            self.wf(),
        ensures
            r == session_check(self.sessions(), session@, token@),
    {
        let name = owned(session);
        match self.sessions.get(&name) {
            None => Err(ProxyError::UnknownSession),
            Some(entry) => {
                let t = owned(token);
                if entry.0 == t {
                    Ok(())
                } else {
                    Err(ProxyError::InvalidToken)
                }
            },
        }
    }

    /// The event that asks `session`'s worker to connect back for `stream`,
    /// and the channel it goes to; `SessionGone` when the session is no
    /// longer registered.
    pub fn stream_event(&self, session: &str, stream: u64, remote_port: Port) -> (r: Result<
        (&E, TcpOpen),
        ProxyError,
    >)
        requires
            self.wf(),
        ensures
            match r {
                Ok((events, event)) => self.sessions().contains_key(session@)
                    && self.sessions()[session@].1 == *events && event.stream == stream
                    && event.remote_port == remote_port,
                Err(e) => !self.sessions().contains_key(session@) && e == ProxyError::SessionGone,
            },
    {
        let name = owned(session);
        match self.sessions.get(&name) {
            Some(entry) => Ok((&entry.1, TcpOpen { stream, remote_port })),
            None => Err(ProxyError::SessionGone),
        }
    }

    /// The first step of a `listen` request: check the session; when it
    /// passes, bind a listener on the loopback address.
    pub fn listen_start(&self, session: &str, token: &str, port: u16) -> (step: ListenStep)
        requires
            self.wf(),
        ensures
            match session_check(self.sessions(), session@, token@) {
                Ok(()) => step matches ListenStep::Bind { host, port: p } && host@ == "127.0.0.1"@
                    && p == port,
                Err(e) => step matches ListenStep::Reply(r) && !r.ok && (r.err matches Some(m)
                    && m@ == truncate_chars(e.spec_message(), ERROR_CHARS as nat)),
            },
    {
        match self.check_session(session, token) {
            Ok(()) => ListenStep::Bind { host: owned("127.0.0.1"), port },
            Err(e) => ListenStep::Reply(Response::error(e.message().as_str())),
        }
    }

    /// The step after the bind of `listen` ended with `bound`: a failed bind
    /// is answered with its error, a port that is forwarded already is
    /// refused, otherwise the accept task is to be started.
    pub fn listen_bound(&self, port: u16, bound: Result<(), String>) -> (step: ListenStep)
        requires
            self.wf(),
        ensures
            match bound {
                Err(m) => step matches ListenStep::Reply(r) && !r.ok && (r.err matches Some(t)
                    && t@ == truncate_chars(m@, ERROR_CHARS as nat)),
                Ok(()) => if self.listeners().contains_key(port) {
                    step matches ListenStep::Reply(r) && !r.ok && (r.err matches Some(t) && t@
                        == truncate_chars(
                        ProxyError::PortForwarded.spec_message(),
                        ERROR_CHARS as nat,
                    ))
                } else {
                    step == ListenStep::Spawn { port }
                },
            },
    {
        match bound {
            Err(m) => ListenStep::Reply(Response::error(m.as_str())),
            Ok(()) => {
                if self.is_forwarded(port) {
                    ListenStep::Reply(Response::error(ProxyError::PortForwarded.message().as_str()))
                } else {
                    ListenStep::Spawn { port }
                }
            },
        }
    }

    /// Whether `port` is forwarded already.
    pub fn is_forwarded(&self, port: u16) -> (b: bool)
        requires
            self.wf(),
        ensures
            b == self.listeners().contains_key(port),
    {
        self.listeners.find(&port).is_some()
    }

    /// The last step of a `listen` request: records the accept task of the
    /// newly forwarded port and answers with success.
    pub fn add_listener(&mut self, port: u16, session: String, task: T) -> (r: Response)
        requires
            old(self).wf(),
            !old(self).listeners().contains_key(port),
        ensures
            final(self).wf(),
            final(self).sessions() == old(self).sessions(),
            final(self).pending() == old(self).pending(),
            final(self).last_stream() == old(self).last_stream(),
            final(self).listeners() == old(self).listeners().insert(port, (session, task)),
            r.ok && r.err is None,
    {
        self.listeners.insert(port, (session, task));
        Response::ok()
    }

    /// Stops forwarding `port` for `session` and gives back its accept task.
    pub fn stop(&mut self, session: &str, token: &str, port: u16) -> (r: Result<T, ProxyError>)
        requires
            old(self).wf(),
        ensures
            final(self).wf(),
            final(self).sessions() == old(self).sessions(),
            final(self).pending() == old(self).pending(),
            final(self).last_stream() == old(self).last_stream(),
            match session_check(old(self).sessions(), session@, token@) {
                Err(e) => r == Err::<T, ProxyError>(e) && final(self).listeners() == old(self).listeners(),
                Ok(()) => if !old(self).listeners().contains_key(port) {
                    r == Err::<T, ProxyError>(ProxyError::NotForwarded) && final(self).listeners()
                        == old(self).listeners()
                } else if old(self).listeners()[port].0@ != session@ {
                    r == Err::<T, ProxyError>(ProxyError::OwnedByAnotherSession)
                        && final(self).listeners() == old(self).listeners()
                } else {
                    r == Ok::<T, ProxyError>(old(self).listeners()[port].1) && final(self).listeners() == old(self).listeners().remove(port)
                },
            },
    {
        match self.check_session(session, token) {
            Err(e) => {
                return Err(e);
            },
            Ok(()) => {},
        }
        match self.listeners.find(&port) {
            None => Err(ProxyError::NotForwarded),
            Some(i) => {
                let name = owned(session);
                if !(self.listeners.entries[i].1.0 == name) {
                    proof {
                        lemma_entry(self.listeners.entries@, i as int);
                    }
                    return Err(ProxyError::OwnedByAnotherSession);
                }
                let e = self.listeners.remove_at(i);
                Ok(e.1.1)
            },
        }
    }

    /// Whether another stream number can be handed out.
    pub fn can_open_stream(&self) -> (b: bool)
        ensures
            b == (self.last_stream() < u64::MAX),
    {
        self.next_stream < u64::MAX
    }

    /// Hands out the next stream number and records `waiter` for it.
    pub fn open_stream(&mut self, session: &str, waiter: W) -> (stream: u64)
        requires
            old(self).wf(),
            old(self).last_stream() < u64::MAX,
        ensures
            final(self).wf(),
            stream == old(self).last_stream() + 1,
            final(self).last_stream() == stream,
            !old(self).pending().contains_key((session@, stream)),
            final(self).pending() == old(self).pending().insert((session@, stream), waiter),
            final(self).sessions() == old(self).sessions(),
            final(self).listeners() == old(self).listeners(),
    {
        self.next_stream = self.next_stream + 1;
        let stream = self.next_stream;
        let key = StreamKey { session: owned(session), stream };
        self.pending.insert(key, waiter);
        stream
    }

    /// Forgets a waiting stream and gives back its waiter.
    pub fn cancel_stream(&mut self, session: &str, stream: u64) -> (r: Option<W>)
        requires
            old(self).wf(),
        ensures
            final(self).wf(),
            final(self).sessions() == old(self).sessions(),
            final(self).listeners() == old(self).listeners(),
            final(self).last_stream() == old(self).last_stream(),
            match r {
                Some(w) => old(self).pending().contains_key((session@, stream)) && old(self).pending()[(session@, stream)] == w && final(self).pending() == old(self).pending().remove((session@, stream)),
                None => !old(self).pending().contains_key((session@, stream)) && final(self).pending() == old(self).pending(),
            },
    {
        let key = StreamKey { session: owned(session), stream };
        self.pending.take(&key)
    }

    /// A worker connected back for `stream`: after the session check, gives
    /// back the stream's waiter, if it is still waiting.
    pub fn attach_stream(&mut self, session: &str, token: &str, stream: u64) -> (r: Option<W>)
        requires
            old(self).wf(),
        ensures
            final(self).wf(),
            final(self).sessions() == old(self).sessions(),
            final(self).listeners() == old(self).listeners(),
            final(self).last_stream() == old(self).last_stream(),
            session_check(old(self).sessions(), session@, token@) is Err ==> r is None && final(self).pending() == old(self).pending(),
            session_check(old(self).sessions(), session@, token@) is Ok ==> match r {
                Some(w) => old(self).pending().contains_key((session@, stream)) && old(self).pending()[(session@, stream)] == w && final(self).pending() == old(self).pending().remove((session@, stream)),
                None => !old(self).pending().contains_key((session@, stream)) && final(self).pending() == old(self).pending(),
            },
    {
        if self.check_session(session, token).is_err() {
            return None;
        }
        self.cancel_stream(session, stream)
    }

    /// Forgets `session` when its worker went away: the session, the ports
    /// it forwarded and its waiting streams. Gives back the accept tasks of
    /// those ports, to be stopped.
    pub fn cleanup_session(&mut self, session: &str) -> (tasks: Vec<T>)
        requires
            old(self).wf(),
        ensures
            final(self).wf(),
            final(self).sessions() == old(self).sessions().remove(session@),
            final(self).listeners() == listeners_not_of(old(self).listeners(), session@),
            final(self).pending() == pending_not_of(old(self).pending(), session@),
            final(self).last_stream() == old(self).last_stream(),
            forall|t: T|
                tasks@.contains(t) <==> exists|p: u16|
                    old(self).listeners().contains_key(p) && old(self).listeners()[p].0@
                        == session@ && #[trigger] old(self).listeners()[p].1 == t,
    {
        let name = owned(session);
        let _ = self.sessions.take(&name);
        let ghost sessions1 = self.sessions.map();
        let ghost m0 = self.listeners.map();
        let ghost p0 = self.pending.map();
        let mut tasks: Vec<T> = Vec::new();
        let mut i: usize = 0;
        while i < self.listeners.entries.len()
            invariant
                self.sessions.wf(),
                self.pending.wf(),
                self.listeners.wf(),
                self.sessions.map() == sessions1,
                self.pending.map() == p0,
                self.next_stream == old(self).next_stream,
                name@ == session@,
                i <= self.listeners.entries@.len(),
                forall|k: u16| #[trigger]
                    self.listeners.map().contains_key(k) ==> m0.contains_key(k)
                        && self.listeners.map()[k] == m0[k],
                forall|k: u16| #[trigger]
                    m0.contains_key(k) && m0[k].0@ != session@ ==> self.listeners.map().contains_key(
                        k,
                    ),
                forall|j: int|
                    0 <= j < i ==> #[trigger] self.listeners.entries@[j].1.0@ != session@,
                forall|k: u16| #[trigger]
                    m0.contains_key(k) && m0[k].0@ == session@ && !self.listeners.map().contains_key(
                        k,
                    ) ==> tasks@.contains(m0[k].1),
                forall|t: T|
                    tasks@.contains(t) ==> exists|p: u16|
                        m0.contains_key(p) && m0[p].0@ == session@ && #[trigger] m0[p].1 == t,
            decreases self.listeners.entries@.len() - i,
        {
            if self.listeners.entries[i].1.0 == name {
                let ghost before = self.listeners.map();
                let ghost tasks_before = tasks@;
                let e = self.listeners.remove_at(i);
                let ghost k = e.0;
                tasks.push(e.1.1);
                proof {
                    assert(tasks@.last() == m0[k].1);
                    assert forall|t: T| tasks@.contains(t) implies exists|p: u16|
                        m0.contains_key(p) && m0[p].0@ == session@ && #[trigger] m0[p].1 == t by {
                        let a = choose|a: int| 0 <= a < tasks@.len() && tasks@[a] == t;
                        if a < tasks_before.len() {
                            assert(tasks_before[a] == t);
                            assert(tasks_before.contains(t));
                        }
                    }
                    assert forall|k2: u16| #[trigger]
                        m0.contains_key(k2) && m0[k2].0@ == session@
                            && !self.listeners.map().contains_key(k2) implies tasks@.contains(
                        m0[k2].1,
                    ) by {
                        if k2 == k {
                            assert(tasks@[tasks@.len() - 1] == m0[k2].1);
                        } else {
                            assert(tasks_before.contains(m0[k2].1));
                            let a = choose|a: int|
                                0 <= a < tasks_before.len() && tasks_before[a] == m0[k2].1;
                            assert(tasks@[a] == m0[k2].1);
                        }
                    }
                }
            } else {
                i = i + 1;
            }
        }
        proof {
            let fm = self.listeners.map();
            let want = listeners_not_of(m0, session@);
            assert forall|k: u16| #[trigger] fm.contains_key(k) implies m0[k].0@ != session@ by {
                let j = choose|j: int|
                    0 <= j < self.listeners.entries@.len() && #[trigger] self.listeners.entries@[j].0@
                        == k;
                lemma_entry(self.listeners.entries@, j);
            }
            assert(fm =~= want);
        }
        let ghost tasks_done = tasks@;
        let mut i: usize = 0;
        while i < self.pending.entries.len()
            invariant
                self.sessions.wf(),
                self.pending.wf(),
                self.listeners.wf(),
                self.sessions.map() == sessions1,
                self.listeners.map() == listeners_not_of(m0, session@),
                self.next_stream == old(self).next_stream,
                tasks@ == tasks_done,
                name@ == session@,
                i <= self.pending.entries@.len(),
                forall|k: (Seq<char>, u64)| #[trigger]
                    self.pending.map().contains_key(k) ==> p0.contains_key(k)
                        && self.pending.map()[k] == p0[k],
                forall|k: (Seq<char>, u64)| #[trigger]
                    p0.contains_key(k) && k.0 != session@ ==> self.pending.map().contains_key(k),
                forall|j: int| 0 <= j < i ==> #[trigger] self.pending.entries@[j].0@.0 != session@,
            decreases self.pending.entries@.len() - i,
        {
            if self.pending.entries[i].0.session == name {
                let _ = self.pending.remove_at(i);
            } else {
                i = i + 1;
            }
        }
        proof {
            let fp = self.pending.map();
            assert forall|k: (Seq<char>, u64)| #[trigger] fp.contains_key(k) implies k.0 != session@ by {
                let j = choose|j: int|
                    0 <= j < self.pending.entries@.len() && #[trigger] self.pending.entries@[j].0@
                        == k;
            }
            assert(fp =~= pending_not_of(p0, session@));
            assert(sessions1 == old(self).sessions().remove(session@));
        }
        tasks
    }
}

// ---------------------------------------------------------------------------
// Laws
// ---------------------------------------------------------------------------

/// A session that was just registered passes the session check with its own
/// token, and with no other.
pub proof fn law_register_then_check<E>(
    sessions: Map<Seq<char>, (String, E)>,
    session: Seq<char>,
    token: String,
    other: Seq<char>,
    events: E,
)
    ensures
        session_check(sessions.insert(session, (token, events)), session, token@) is Ok,
        other != token@ ==> session_check(sessions.insert(session, (token, events)), session, other)
            == Err::<(), ProxyError>(ProxyError::InvalidToken),
{
}

/// Stopping a port right after its owner forwarded it gives back the accept
/// task and leaves the forwarded ports as they were before.
pub proof fn law_stop_undoes_listen<T>(
    listeners: Map<u16, (String, T)>,
    port: u16,
    owner: String,
    task: T,
)
    requires
        !listeners.contains_key(port),
    ensures
        ({
            let after = listeners.insert(port, (owner, task));
            &&& after.contains_key(port)
            &&& after[port].0@ == owner@
            &&& after[port].1 == task
            &&& after.remove(port) == listeners
        }),
{
    assert(listeners.insert(port, (owner, task)).remove(port) =~= listeners);
}

/// When a session's worker goes away, nothing of the session is left: no
/// forwarded port and no waiting stream belongs to it, and what belongs to
/// other sessions stays as it was.
pub proof fn law_cleanup_forgets_session<T, W>(
    listeners: Map<u16, (String, T)>,
    pending: Map<(Seq<char>, u64), W>,
    session: Seq<char>,
)
    ensures
        forall|p: u16| #[trigger]
            listeners_not_of(listeners, session).contains_key(p) ==> listeners[p].0@ != session,
        forall|p: u16|
            listeners.contains_key(p) && listeners[p].0@ != session ==> #[trigger] listeners_not_of(
                listeners,
                session,
            ).contains_key(p) && listeners_not_of(listeners, session)[p] == listeners[p],
        forall|k: (Seq<char>, u64)| #[trigger]
            pending_not_of(pending, session).contains_key(k) ==> k.0 != session,
        forall|k: (Seq<char>, u64)|
            pending.contains_key(k) && k.0 != session ==> #[trigger] pending_not_of(
                pending,
                session,
            ).contains_key(k) && pending_not_of(pending, session)[k] == pending[k],
{
}

/// A stream that a connection opened for a session is found again when the
/// session's worker attaches to it, and attaching takes it off the list of
/// waiting streams.
pub proof fn law_open_then_attach<W>(
    pending: Map<(Seq<char>, u64), W>,
    session: Seq<char>,
    stream: u64,
    waiter: W,
)
    requires
        !pending.contains_key((session, stream)),
    ensures
        ({
            let after = pending.insert((session, stream), waiter);
            &&& after.contains_key((session, stream))
            &&& after[(session, stream)] == waiter
            &&& after.remove((session, stream)) == pending
        }),
{
    assert(pending.insert((session, stream), waiter).remove((session, stream)) =~= pending);
}

/// Stream numbers are never handed out twice: each one is above every
/// number that is still waiting, and the next is higher still.
pub proof fn law_streams_are_fresh<E, T, W>(state: ProxyState<E, T, W>)
    requires
        state.wf(),
    ensures
        forall|k: (Seq<char>, u64)| #[trigger]
            state.pending().contains_key(k) ==> k.1 < state.last_stream() + 1,
{
}

/// The order of a `listen` request: a port is forwarded only for a session
/// that passed the check, only after its bind succeeded, and only when no
/// listener holds it yet; a failed check is answered `unknown session` or
/// `invalid token` whatever the bind would have given.
pub proof fn law_listen_order<E, T>(
    sessions: Map<Seq<char>, (String, E)>,
    listeners: Map<u16, (String, T)>,
    session: Seq<char>,
    token: Seq<char>,
    port: u16,
    bind: Result<(), Seq<char>>,
)
    ensures
        listen_result(sessions, listeners, session, token, port, bind) is Ok ==> session_check(
            sessions,
            session,
            token,
        ) is Ok && bind is Ok && !listeners.contains_key(port),
        session_check(sessions, session, token) is Err ==> (listen_result(
            sessions,
            listeners,
            session,
            token,
            port,
            bind,
        ) matches Err(m) && (m == "unknown session"@ || m == "invalid token"@)),
{
}

proof fn lemma_stream_numbers(lasts: Seq<u64>, ids: Seq<u64>, n: int)
    requires
        lasts.len() == ids.len() + 1,
        lasts[0] == 0,
        forall|i: int|
            0 <= i < ids.len() ==> #[trigger] ids[i] == lasts[i] + 1 && lasts[i + 1] == ids[i],
        0 <= n <= ids.len(),
    ensures
        lasts[n] == n,
    decreases n,
{
    if n > 0 {
        lemma_stream_numbers(lasts, ids, n - 1);
        assert(ids[n - 1] == lasts[n - 1] + 1);
    }
}

/// `k` calls of `open_stream` on a fresh registry hand out the numbers
/// `1, 2, ..., k`, in order. `lasts[i]` is the registry's last stream number
/// before call `i` and `ids[i]` what that call handed out, as `open_stream`
/// states them.
pub proof fn law_stream_numbers(lasts: Seq<u64>, ids: Seq<u64>)
    requires
        lasts.len() == ids.len() + 1,
        lasts[0] == 0,
        forall|i: int|
            0 <= i < ids.len() ==> #[trigger] ids[i] == lasts[i] + 1 && lasts[i + 1] == ids[i],
    ensures
        forall|i: int| 0 <= i < ids.len() ==> #[trigger] ids[i] == i + 1,
{
    assert forall|i: int| 0 <= i < ids.len() implies #[trigger] ids[i] == i + 1 by {
        lemma_stream_numbers(lasts, ids, i);
    }
}

} // verus!
