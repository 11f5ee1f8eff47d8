//! The wire protocol: the commands a remote session may send, the reply,
//! and the rules that decide which commands are accepted.
use vstd::prelude::*;
use vstd::utf8::encode_utf8;

use crate::text::{
    char_is_ascii_alphanumeric, char_is_control, char_is_whitespace, chars_of, decimal,
    is_ascii_alphanumeric, is_control, is_whitespace, law_parse_decimal, owned, parse_u16,
    parse_u16_text, take_chars, truncate_chars, utf8_len,
};

verus! {

/// Why a command or a port was refused.
#[derive(Debug, Clone, Copy, PartialEq, Eq)]
pub enum ProtocolError {
    /// A command that breaks one of the validation rules.
    Invalid,
    /// A port that is not a number between 0 and 65535.
    InvalidPort,
}

impl ProtocolError {
    pub open spec fn spec_message(self) -> Seq<char> {
        match self {
            ProtocolError::Invalid => "invalid"@,
            ProtocolError::InvalidPort => "invalid port"@,
        }
    }

    /// The text reported for this error.
    pub fn message(&self) -> (m: String)
        ensures
            m@ == self.spec_message(),
    {
        match self {
            ProtocolError::Invalid => owned("invalid"),
            ProtocolError::InvalidPort => owned("invalid port"),
        }
    }
}

/// Open a URL in the local browser.
#[derive(Debug, Clone, PartialEq, Eq)]
pub struct Open {
    pub url: String,
}

/// Forward a TCP port of the local machine to a remote host.
#[derive(Debug, Clone, PartialEq, Eq)]
pub struct Forward {
    pub port: Port,
    pub host: String,
}

/// Open a path in VS Code, locally or over SSH on `host`.
#[derive(Debug, Clone, PartialEq, Eq)]
pub struct Vscode {
    pub path: String,
    pub host: String,
}

/// Show a desktop notification.
#[derive(Debug, Clone, PartialEq, Eq)]
pub struct Notify {
    pub title: String,
    pub body: String,
}

/// A TCP port number.
#[derive(Debug, Clone, Copy, PartialEq, Eq)]
pub struct Port(pub u16);

/// A request sent over the socket.
#[derive(Debug, Clone, PartialEq, Eq)]
pub enum Command {
    Open(Open),
    Forward(Forward),
    Vscode(Vscode),
    Notify(Notify),
}

/// The reply to a request.
#[derive(Debug, Clone, PartialEq, Eq)]
pub struct Response {
    pub ok: bool,
    pub err: Option<String>,
}

/// Error texts in a reply are cut to this many characters.
pub const ERROR_CHARS: usize = 120;

/// Ports below this one are refused.
pub const MIN_PORT: u16 = 1024;

/// Longest host name, in bytes.
pub const MAX_HOST_BYTES: usize = 255;

/// Longest path, in bytes.
pub const MAX_PATH_BYTES: usize = 4096;

/// Longest notification title, in bytes.
pub const MAX_TITLE_BYTES: usize = 200;

/// Longest notification body, in bytes.
pub const MAX_BODY_BYTES: usize = 2000;

// ---------------------------------------------------------------------------
// The rules
// ---------------------------------------------------------------------------

/// Characters allowed in a host name after the first one.
pub open spec fn is_host_char(c: char) -> bool {
    is_ascii_alphanumeric(c) || c == '.' || c == '_' || c == '@' || c == '-'
}

/// A host is empty, or starts with an ASCII letter or digit, is at most 255
/// bytes long and holds only ASCII letters, digits, `.`, `_`, `@` and `-`.
pub open spec fn valid_host(h: Seq<char>) -> bool {
    h.len() == 0 || {
        &&& is_ascii_alphanumeric(h[0])
        &&& utf8_len(h) <= MAX_HOST_BYTES
        &&& forall|i: int| 1 <= i < h.len() ==> #[trigger] is_host_char(h[i])
    }
}

/// A path is absolute, at most 4096 bytes long and free of control
/// characters.
pub open spec fn valid_path(p: Seq<char>) -> bool {
    &&& p.len() > 0
    &&& p[0] == '/'
    &&& utf8_len(p) <= MAX_PATH_BYTES
    &&& forall|i: int| #![trigger p[i]] 0 <= i < p.len() ==> !is_control(p[i])
}

pub open spec fn https_scheme() -> Seq<char> {
    seq!['h', 't', 't', 'p', 's', ':', '/', '/']
}

pub open spec fn http_scheme() -> Seq<char> {
    seq!['h', 't', 't', 'p', ':', '/', '/']
}

/// What follows `https://` or, failing that, `http://` at the start of `u`.
pub open spec fn after_scheme(u: Seq<char>) -> Option<Seq<char>> {
    if u.len() >= 8 && u.take(8) == https_scheme() {
        Some(u.skip(8))
    } else if u.len() >= 7 && u.take(7) == http_scheme() {
        Some(u.skip(7))
    } else {
        None
    }
}

/// Characters that end the host part of a URL.
pub open spec fn is_host_delimiter(c: char) -> bool {
    c == '/' || c == '?' || c == '#'
}

/// The host part of what follows the scheme: everything before the first
/// `/`, `?` or `#`.
pub open spec fn url_host(rest: Seq<char>) -> Seq<char>
    decreases rest.len(),
{
    if rest.len() == 0 || is_host_delimiter(rest[0]) {
        Seq::empty()
    } else {
        seq![rest[0]] + url_host(rest.drop_first())
    }
}

/// A URL is `http://` or `https://` followed by a non-empty host, with no
/// control or white-space character anywhere.
pub open spec fn valid_url(u: Seq<char>) -> bool {
    match after_scheme(u) {
        Some(rest) => {
            &&& url_host(rest).len() > 0
            &&& forall|i: int|
                #![trigger u[i]]
                0 <= i < u.len() ==> !is_control(u[i]) && !is_whitespace(u[i])
        },
        None => false,
    }
}

/// A notification has a title of at most 200 bytes and a non-empty body of
/// at most 2000 bytes.
pub open spec fn valid_notify(title: Seq<char>, body: Seq<char>) -> bool {
    &&& utf8_len(title) <= MAX_TITLE_BYTES
    &&& body.len() > 0
    &&& utf8_len(body) <= MAX_BODY_BYTES
}

/// What a decoded request comes to: a request that did not decode is
/// refused, a decoded command is accepted when it is valid.
pub open spec fn accept(parsed: Option<Command>) -> Result<Command, ProtocolError> {
    match parsed {
        Some(c) => if valid_command(c) {
            Ok(c)
        } else {
            Err(ProtocolError::Invalid)
        },
        None => Err(ProtocolError::Invalid),
    }
}

/// Whether the daemon accepts `c`.
pub open spec fn valid_command(c: Command) -> bool {
    match c {
        Command::Open(o) => valid_url(o.url@),
        Command::Forward(f) => valid_host(f.host@),
        Command::Vscode(v) => valid_path(v.path@) && valid_host(v.host@),
        Command::Notify(n) => valid_notify(n.title@, n.body@),
    }
}

/// The outcome of a check: `Ok` when `ok` holds, `Invalid` otherwise.
pub open spec fn check(ok: bool) -> Result<(), ProtocolError> {
    if ok {
        Ok(())
    } else {
        Err(ProtocolError::Invalid)
    }
}

// ---------------------------------------------------------------------------
// Checks
// ---------------------------------------------------------------------------

/// Checks a host name (the empty host is allowed).
pub fn validate_host(host: &str) -> (r: Result<(), ProtocolError>)
    ensures
        r == check(valid_host(host@)),
{
    if host.is_empty() {
        return Ok(());
    }
    let chars = chars_of(host);
    let first = chars[0];
    if !char_is_ascii_alphanumeric(first) || host.as_bytes().len() > MAX_HOST_BYTES {
        return Err(ProtocolError::Invalid);
    }
    let mut i: usize = 1;
    while i < chars.len()
        invariant
            1 <= i <= chars@.len(),
            chars@ == host@,
            forall|j: int| 1 <= j < i ==> #[trigger] is_host_char(chars@[j]),
        decreases chars@.len() - i,
    {
        let c = chars[i];
        if !(char_is_ascii_alphanumeric(c) || c == '.' || c == '_' || c == '@' || c == '-') {
            assert(!is_host_char(host@[i as int]));
            return Err(ProtocolError::Invalid);
        }
        i = i + 1;
    }
    Ok(())
}

/// Checks the path of a `vscode` command.
pub fn validate_path(path: &str) -> (r: Result<(), ProtocolError>)
    ensures
        r == check(valid_path(path@)),
{
    let chars = chars_of(path);
    if chars.len() == 0 || chars[0] != '/' || path.as_bytes().len() > MAX_PATH_BYTES {
        return Err(ProtocolError::Invalid);
    }
    let mut i: usize = 0;
    while i < chars.len()
        invariant
            i <= chars@.len(),
            chars@ == path@,
            forall|j: int| #![trigger chars@[j]] 0 <= j < i ==> !is_control(chars@[j]),
        decreases chars@.len() - i,
    {
        if char_is_control(chars[i]) {
            assert(is_control(path@[i as int]));
            return Err(ProtocolError::Invalid);
        }
        i = i + 1;
    }
    Ok(())
}

/// Whether `chars` starts with the characters of `prefix`.
fn starts_with(chars: &Vec<char>, prefix: &[char]) -> (b: bool)
    ensures
        b == (prefix@.len() <= chars@.len() && chars@.take(prefix@.len() as int) == prefix@),
{
    if prefix.len() > chars.len() {
        return false;
    }
    let mut i: usize = 0;
    while i < prefix.len()
        invariant
            i <= prefix@.len() <= chars@.len(),
            forall|j: int| 0 <= j < i ==> chars@[j] == prefix@[j],
        decreases prefix@.len() - i,
    {
        if chars[i] != prefix[i] {
            assert(chars@.take(prefix@.len() as int)[i as int] != prefix@[i as int]);
            return false;
        }
        i = i + 1;
    }
    assert(chars@.take(prefix@.len() as int) =~= prefix@);
    true
}

proof fn lemma_url_host_empty(rest: Seq<char>)
    ensures
        (url_host(rest).len() == 0) == (rest.len() == 0 || is_host_delimiter(rest[0])),
{
}

/// Checks the URL of an `open` command.
pub fn validate_url(input: &str) -> (r: Result<(), ProtocolError>)
    ensures
        r == check(valid_url(input@)),
{
    let chars = chars_of(input);
    let https: [char; 8] = ['h', 't', 't', 'p', 's', ':', '/', '/'];
    let http: [char; 7] = ['h', 't', 't', 'p', ':', '/', '/'];
    assert(https@ == https_scheme());
    assert(http@ == http_scheme());
    let start: usize = if starts_with(&chars, &https) {
        8
    } else if starts_with(&chars, &http) {
        7
    } else {
        return Err(ProtocolError::Invalid);
    };
    proof {
        lemma_url_host_empty(input@.skip(start as int));
    }
    if start == chars.len() || chars[start] == '/' || chars[start] == '?' || chars[start] == '#' {
        return Err(ProtocolError::Invalid);
    }
    let mut i: usize = 0;
    while i < chars.len()
        invariant
            i <= chars@.len(),
            chars@ == input@,
            forall|j: int|
                #![trigger chars@[j]]
                0 <= j < i ==> !is_control(chars@[j]) && !is_whitespace(chars@[j]),
        decreases chars@.len() - i,
    {
        let c = chars[i];
        if char_is_control(c) || char_is_whitespace(c) {
            assert(is_control(input@[i as int]) || is_whitespace(input@[i as int]));
            return Err(ProtocolError::Invalid);
        }
        i = i + 1;
    }
    Ok(())
}

/// Checks that a port is not one of the privileged ones.
pub fn validate_port(port: u16) -> (r: Result<(), ProtocolError>)
    ensures
        r == check(port >= MIN_PORT),
{
    if port < MIN_PORT {
        return Err(ProtocolError::Invalid);
    }
    Ok(())
}

// ---------------------------------------------------------------------------
// Ports as they arrive on the wire
// ---------------------------------------------------------------------------

/// A port taken from a 16-bit value: refused below 1024.
pub open spec fn checked_port(p: u16) -> Result<Port, ProtocolError> {
    if p < MIN_PORT {
        Err(ProtocolError::Invalid)
    } else {
        Ok(Port(p))
    }
}

/// A port taken from a JSON number.
pub open spec fn port_from_number(v: int) -> Result<Port, ProtocolError> {
    if 0 <= v <= 0xffff {
        checked_port(v as u16)
    } else {
        Err(ProtocolError::InvalidPort)
    }
}

/// A port taken from a JSON string.
pub open spec fn port_from_text(s: Seq<char>) -> Result<Port, ProtocolError> {
    match parse_u16(s) {
        Some(p) => checked_port(p),
        None => Err(ProtocolError::InvalidPort),
    }
}

/// A port as a request carries it: a JSON number (unsigned or signed) or a
/// JSON string.
pub enum PortField {
    Unsigned(u64),
    Signed(i64),
    Text(String),
}

/// The port a field names.
pub open spec fn port_from_field(f: PortField) -> Result<Port, ProtocolError> {
    match f {
        PortField::Unsigned(v) => port_from_number(v as int),
        PortField::Signed(v) => port_from_number(v as int),
        PortField::Text(s) => port_from_text(s@),
    }
}

impl PortField {
    /// Reads the port that this field names.
    pub fn decode(&self) -> (r: Result<Port, ProtocolError>)
        ensures
            r == port_from_field(*self),
    {
        match self {
            PortField::Unsigned(v) => Port::from_u64(*v),
            PortField::Signed(v) => Port::from_i64(*v),
            PortField::Text(s) => Port::from_text(s.as_str()),
        }
    }
}

impl Port {
    fn checked(p: u16) -> (r: Result<Port, ProtocolError>)
        ensures
            r == checked_port(p),
    {
        match validate_port(p) {
            Ok(()) => Ok(Port(p)),
            Err(e) => Err(e),
        }
    }

    /// The port that an unsigned JSON number names.
    pub fn from_u64(value: u64) -> (r: Result<Port, ProtocolError>)
        ensures
            r == port_from_number(value as int),
    {
        if value > 0xffff {
            return Err(ProtocolError::InvalidPort);
        }
        Port::checked(value as u16)
    }

    /// The port that a signed JSON number names.
    pub fn from_i64(value: i64) -> (r: Result<Port, ProtocolError>)
        ensures
            r == port_from_number(value as int),
    {
        if value < 0 || value > 0xffff {
            return Err(ProtocolError::InvalidPort);
        }
        Port::checked(value as u16)
    }

    /// The port that a JSON string such as `"9090"` names.
    pub fn from_text(value: &str) -> (r: Result<Port, ProtocolError>)
        ensures
            r == port_from_text(value@),
    {
        match parse_u16_text(value) {
            Some(p) => Port::checked(p),
            None => Err(ProtocolError::InvalidPort),
        }
    }
}

// ---------------------------------------------------------------------------
// Commands and replies
// ---------------------------------------------------------------------------

/// The title of a notification that names none.
pub fn default_title() -> (s: String)
    ensures
        s@ == "Notification"@,
{
    owned("Notification")
}

impl Command {
    /// Checks the command against the rules of its kind.
    pub fn validate(&self) -> (r: Result<(), ProtocolError>)
        ensures
            r == check(valid_command(*self)),
    {
        match self {
            Command::Open(o) => validate_url(o.url.as_str()),
            Command::Forward(f) => validate_host(f.host.as_str()),
            Command::Vscode(v) => {
                match validate_path(v.path.as_str()) {
                    Ok(()) => validate_host(v.host.as_str()),
                    Err(e) => Err(e),
                }
            },
            Command::Notify(n) => {
                if n.title.as_str().as_bytes().len() > MAX_TITLE_BYTES {
                    return Err(ProtocolError::Invalid);
                }
                if n.body.as_str().is_empty() || n.body.as_str().as_bytes().len()
                    > MAX_BODY_BYTES {
                    return Err(ProtocolError::Invalid);
                }
                Ok(())
            },
        }
    }

    /// Accepts a decoded request: `None` stands for a payload that did not
    /// decode as a command; a decoded command is accepted when it is valid.
    pub fn from_parsed(parsed: Option<Command>) -> (r: Result<Command, ProtocolError>)
        ensures
            r == accept(parsed),
    {
        match parsed {
            Some(c) => match c.validate() {
                Ok(()) => Ok(c),
                Err(_) => Err(ProtocolError::Invalid),
            },
            None => Err(ProtocolError::Invalid),
        }
    }
}

impl Response {
    /// The reply to a request that was carried out.
    pub fn ok() -> (r: Response)
        ensures
            r.ok,
            r.err is None,
    {
        Response { ok: true, err: None }
    }

    /// The reply to a request that failed, with the first 120 characters of
    /// `err`.
    pub fn error(err: &str) -> (r: Response)
        ensures
            !r.ok,
            r.err is Some,
            r.err->0@ == truncate_chars(err@, ERROR_CHARS as nat),
    {
        Response { ok: false, err: Some(take_chars(err, ERROR_CHARS)) }
    }
}

// ---------------------------------------------------------------------------
// Laws
// ---------------------------------------------------------------------------

/// A port sent as a string of digits is read as the same port sent as a
/// number: `"9090"` and `9090` give the same result, for every 16-bit value.
pub proof fn law_port_text_matches_number(n: u16)
    ensures
        port_from_text(decimal(n as nat)) == port_from_number(n as int),
{
    law_parse_decimal(n);
}

/// Every port that is accepted is at least 1024, whatever form it came in.
pub proof fn law_accepted_ports_are_unprivileged(v: int, s: Seq<char>)
    ensures
        port_from_number(v) matches Ok(p) ==> p.0 >= MIN_PORT && p.0 as int == v,
        port_from_text(s) matches Ok(p) ==> p.0 >= MIN_PORT,
{
}

/// An accepted host never starts with `-`, so `ssh` cannot take it for an
/// option.
pub proof fn law_accepted_host_is_not_an_option(h: Seq<char>)
    requires
        valid_host(h),
        h.len() > 0,
    ensures
        h[0] != '-',
{
}

/// An accepted URL starts with `https://` or `http://`: other schemes such
/// as `file:` or `javascript:` are refused.
pub proof fn law_accepted_url_is_web(u: Seq<char>)
    requires
        valid_url(u),
    ensures
        (u.len() >= 8 && u.take(8) == https_scheme()) || (u.len() >= 7 && u.take(7)
            == http_scheme()),
{
}

/// The command that a `forward` request with these fields decodes to: none
/// when the port field names no acceptable port (decoding fails then).
pub open spec fn forward_from_fields(port: PortField, host: String) -> Option<Command> {
    match port_from_field(port) {
        Ok(p) => Some(Command::Forward(Forward { port: p, host })),
        Err(_) => None,
    }
}

/// What decoding gives back for the encoding of `c`: text fields come back
/// as they were written, and the port, written as a number, is read back as
/// a number.
pub open spec fn redecode(c: Command) -> Option<Command> {
    match c {
        Command::Forward(f) => forward_from_fields(PortField::Unsigned(f.port.0 as u64), f.host),
        _ => Some(c),
    }
}

/// A `forward` that comes out of decoding and is accepted has a port of at
/// least 1024 and is valid, whatever form its port came in; every refusal is
/// `invalid`, so no detail of the decoder is echoed.
pub proof fn law_decoded_forward_is_safe(port: PortField, host: String)
    ensures
        accept(forward_from_fields(port, host)) matches Ok(c) ==> (c matches Command::Forward(f)
            && f.port.0 >= MIN_PORT && valid_command(c)),
        accept(forward_from_fields(port, host)) matches Err(e) ==> e == ProtocolError::Invalid
            && e.spec_message() == "invalid"@,
{
}

/// Encoding a command and decoding it again gives the same command back
/// exactly when it is valid and, for a `forward`, its port is at least 1024;
/// otherwise the request is refused as `invalid`.
pub proof fn law_encode_decode(c: Command)
    ensures
        accept(redecode(c)) is Ok <==> valid_command(c) && (c matches Command::Forward(f)
            ==> f.port.0 >= MIN_PORT),
        accept(redecode(c)) matches Ok(d) ==> d == c,
        accept(redecode(c)) matches Err(e) ==> e.spec_message() == "invalid"@,
{
}

/// Every URL made of `http://` or `https://`, a non-empty host part (the
/// character after the scheme is not `/`, `?` or `#`) and no control or
/// white-space character is accepted, whatever else it holds (a `:port`,
/// a path, a query, a fragment).
pub proof fn law_web_urls_are_accepted(u: Seq<char>, scheme_len: int)
    requires
        (scheme_len == 8 && u.len() > 8 && u[0] == 'h' && u[1] == 't' && u[2] == 't' && u[3]
            == 'p' && u[4] == 's' && u[5] == ':' && u[6] == '/' && u[7] == '/') || (scheme_len
            == 7 && u.len() > 7 && u[0] == 'h' && u[1] == 't' && u[2] == 't' && u[3] == 'p'
            && u[4] == ':' && u[5] == '/' && u[6] == '/'),
        u[scheme_len] != '/' && u[scheme_len] != '?' && u[scheme_len] != '#',
        forall|i: int| 0 <= i < u.len() ==> !#[trigger] is_control(u[i]),
        forall|i: int| 0 <= i < u.len() ==> !#[trigger] is_whitespace(u[i]),
    ensures
        valid_url(u),
{
    if scheme_len == 8 {
        assert(u.take(8) =~= https_scheme());
        assert(u.skip(8)[0] == u[8]);
    } else {
        assert(u.take(8) != https_scheme()) by {
            if u.len() >= 8 {
                assert(u.take(8)[4] == u[4]);
            }
        }
        assert(u.take(7) =~= http_scheme());
        assert(u.skip(7)[0] == u[7]);
    }
    let rest = after_scheme(u)->0;
    assert(url_host(rest).len() > 0);
}

/// Every non-empty host of at most 255 bytes whose first character is an
/// ASCII letter or digit and whose other characters are ASCII letters,
/// digits, `.`, `_`, `@` or `-` is accepted (IP addresses among them), and
/// so is the empty host; no other host is.
pub proof fn law_host_rule(h: Seq<char>)
    ensures
        valid_host(h) <==> (h.len() == 0 || {
            &&& (('0' <= h[0] && h[0] <= '9') || ('a' <= h[0] && h[0] <= 'z') || ('A' <= h[0]
                && h[0] <= 'Z'))
            &&& encode_utf8(h).len() <= 255
            &&& forall|i: int|
                1 <= i < h.len() ==> {
                    let c = #[trigger] h[i];
                    ('0' <= c && c <= '9') || ('a' <= c && c <= 'z') || ('A' <= c && c <= 'Z')
                        || c == '.' || c == '_' || c == '@' || c == '-'
                }
        }),
{
    if h.len() > 0 {
        if forall|i: int| 1 <= i < h.len() ==> #[trigger] is_host_char(h[i]) {
            assert forall|i: int| 1 <= i < h.len() implies {
                let c = #[trigger] h[i];
                ('0' <= c && c <= '9') || ('a' <= c && c <= 'z') || ('A' <= c && c <= 'Z') || c
                    == '.' || c == '_' || c == '@' || c == '-'
            } by {
                assert(is_host_char(h[i]));
            }
        }
        if forall|i: int|
            1 <= i < h.len() ==> {
                let c = #[trigger] h[i];
                ('0' <= c && c <= '9') || ('a' <= c && c <= 'z') || ('A' <= c && c <= 'Z') || c
                    == '.' || c == '_' || c == '@' || c == '-'
            } {
            assert forall|i: int| 1 <= i < h.len() implies #[trigger] is_host_char(h[i]) by {
                let c = h[i];
                assert(('0' <= c && c <= '9') || ('a' <= c && c <= 'z') || ('A' <= c && c <= 'Z')
                    || c == '.' || c == '_' || c == '@' || c == '-');
            }
        }
    }
}

/// A path is accepted exactly when it starts with `/`, is at most 4096
/// bytes in UTF-8 and holds no control character (U+0000..U+001F,
/// U+007F..U+009F); any other character, `.` among them, is allowed.
pub proof fn law_path_rule(p: Seq<char>)
    ensures
        valid_path(p) <==> (p.len() > 0 && p[0] == '/' && encode_utf8(p).len() <= 4096 && forall|
            i: int,
        |
            0 <= i < p.len() ==> !((#[trigger] p[i] as u32) <= 0x1f || (0x7f <= (p[i] as u32)
                && (p[i] as u32) <= 0x9f))),
{
}

/// A notification is accepted exactly when its title is at most 200 bytes
/// and its body is non-empty and at most 2000 bytes, whatever characters
/// they hold (new lines and tabs among them).
pub proof fn law_notify_rule(title: String, body: String)
    ensures
        valid_command(Command::Notify(Notify { title, body })) <==> (encode_utf8(title@).len()
            <= 200 && body@.len() > 0 && encode_utf8(body@).len() <= 2000),
{
}

/// Ports in JSON numbers: 1024..=65535 name that port, 0..=1023 are refused
/// as `invalid`, everything else as `invalid port`.
pub proof fn law_port_number_rule(v: int)
    ensures
        1024 <= v <= 65535 ==> port_from_number(v) == Ok::<Port, ProtocolError>(Port(v as u16)),
        0 <= v < 1024 ==> port_from_number(v) == Err::<Port, ProtocolError>(ProtocolError::Invalid),
        (v < 0 || v > 65535) ==> port_from_number(v) == Err::<Port, ProtocolError>(
            ProtocolError::InvalidPort,
        ),
{
}

/// The error text of a reply is the start of the error it reports: all of
/// it when it has at most 120 characters, its first 120 otherwise.
pub proof fn law_error_text(e: Seq<char>)
    ensures
        truncate_chars(e, ERROR_CHARS as nat).len() == (if e.len() <= 120 {
            e.len()
        } else {
            120
        }),
        forall|i: int|
            0 <= i < truncate_chars(e, ERROR_CHARS as nat).len() ==> #[trigger] truncate_chars(
                e,
                ERROR_CHARS as nat,
            )[i] == e[i],
{
}

} // verus!
