//! One client connection as a state machine.
//!
//! The driver owns the sockets. It tells the machine what happened, and the
//! machine answers with its next state and the one thing to do next: read a
//! line, resolve a host, connect, relay, or close.

use vstd::prelude::*;
use vstd::string::StringExecFns;
use vstd::utf8::encode_utf8;
use crate::dns::{IpAddress, LookupError};
use crate::http::{parse_http_request, request_of, HttpRequest, RequestError, RequestView};

verus! {

/// Why a connection failed.
#[derive(Clone, Copy, Debug, PartialEq, Eq)]
pub enum ProxyError {
    /// The request line was rejected.
    Parse(RequestError),
    /// The DNS query brought no address.
    NotFound,
    /// The DNS query failed.
    Transport,
    /// The upstream connection could not be opened.
    Connect,
    /// A read or a write on one of the sockets failed.
    Io,
}

/// Where a connection stands.
#[derive(Debug)]
pub enum Connection {
    /// The client socket was accepted; nothing was read yet.
    Accepted,
    /// The request line was read; header lines are read until an empty one.
    ParsingRequest { line: String, headers: String },
    /// The request was parsed; the address of its host is awaited. `head`
    /// is all that was read from the client, as it was read.
    Resolving { request: HttpRequest, head: String },
    /// The host was resolved; the upstream connection is awaited.
    Connecting { request: HttpRequest, head: String, address: IpAddress },
    /// Both directions are being forwarded.
    Relaying,
    /// The first direction to end has ended; its outcome is the
    /// connection's.
    Closed { outcome: Result<(), ProxyError> },
    /// The connection failed before it was relayed.
    Failed { error: ProxyError },
}

/// What happened to a connection.
#[derive(Debug)]
pub enum Event {
    /// A line was read from the client, its line ending included; an empty
    /// line means that the client closed.
    Line(String),
    /// The resolution of the host ended.
    Resolved(Result<IpAddress, LookupError>),
    /// The upstream connection was opened.
    Connected,
    /// The first of the two directions ended, with success or without.
    Finished(bool),
    /// What was to be done could not be done.
    IoFailed,
}

/// What the driver is to do next.
#[derive(Debug)]
pub enum Action {
    /// Read one line from the client.
    ReadLine,
    /// Find the address of this host.
    Resolve(String),
    /// Open a connection to this address and port.
    Connect(IpAddress, u16),
    /// Write `to_client` to the client and `to_upstream` to the upstream,
    /// then forward both directions; with `fragment`, the direction from
    /// the client owes the fragmentation pass. The direction to the client
    /// never does.
    Relay { to_client: String, to_upstream: String, fragment: bool },
    /// Drop the connection.
    Close,
}

/// A state as a plain value.
pub enum ConnectionView {
    Accepted,
    ParsingRequest { line: Seq<char>, headers: Seq<char> },
    Resolving { request: RequestView, head: Seq<char> },
    Connecting { request: RequestView, head: Seq<char>, address: IpAddress },
    Relaying,
    Closed { outcome: Result<(), ProxyError> },
    Failed { error: ProxyError },
}

/// An event as a plain value.
pub enum EventView {
    Line(Seq<char>),
    Resolved(Result<IpAddress, LookupError>),
    Connected,
    Finished(bool),
    IoFailed,
}

/// An action as a plain value.
pub enum ActionView {
    ReadLine,
    Resolve(Seq<char>),
    Connect(IpAddress, u16),
    Relay { to_client: Seq<char>, to_upstream: Seq<char>, fragment: bool },
    Close,
}

impl View for Connection {
    type V = ConnectionView;

    open spec fn view(&self) -> ConnectionView {
        match *self {
            Connection::Accepted => ConnectionView::Accepted,
            Connection::ParsingRequest { line, headers } => ConnectionView::ParsingRequest {
                line: line@,
                headers: headers@,
            },
            Connection::Resolving { request, head } => ConnectionView::Resolving {
                request: request@,
                head: head@,
            },
            Connection::Connecting { request, head, address } => ConnectionView::Connecting {
                request: request@,
                head: head@,
                address,
            },
            Connection::Relaying => ConnectionView::Relaying,
            Connection::Closed { outcome } => ConnectionView::Closed { outcome },
            Connection::Failed { error } => ConnectionView::Failed { error },
        }
    }
}

impl View for Event {
    type V = EventView;

    open spec fn view(&self) -> EventView {
        match *self {
            Event::Line(line) => EventView::Line(line@),
            Event::Resolved(result) => EventView::Resolved(result),
            Event::Connected => EventView::Connected,
            Event::Finished(ok) => EventView::Finished(ok),
            Event::IoFailed => EventView::IoFailed,
        }
    }
}

impl View for Action {
    type V = ActionView;

    open spec fn view(&self) -> ActionView {
        match *self {
            Action::ReadLine => ActionView::ReadLine,
            Action::Resolve(host) => ActionView::Resolve(host@),
            Action::Connect(address, port) => ActionView::Connect(address, port),
            Action::Relay { to_client, to_upstream, fragment } => ActionView::Relay {
                to_client: to_client@,
                to_upstream: to_upstream@,
                fragment,
            },
            Action::Close => ActionView::Close,
        }
    }
}

impl ConnectionView {
    /// Whether the connection has ended.
    pub open spec fn ended(self) -> bool {
        self is Closed || self is Failed
    }
}

/// Whether a line ends the header block: it holds no more than a line
/// ending, that is at most two bytes.
pub open spec fn ends_head(line: Seq<char>) -> bool {
    encode_utf8(line).len() <= 2
}

/// The reply that tells a client that its tunnel stands.
pub open spec fn tunnel_reply(version: Seq<char>) -> Seq<char> {
    version + " 200 OK\r\n\r\n"@
}

/// How a connected request is relayed. A tunnel is announced to the client
/// and its first record from the client is fragmented; a plain request is
/// replayed upstream as it was read and nothing is fragmented.
pub open spec fn relay_of(request: RequestView, head: Seq<char>) -> ActionView {
    if request.is_https {
        ActionView::Relay {
            to_client: tunnel_reply(request.version),
            to_upstream: Seq::empty(),
            fragment: true,
        }
    } else {
        ActionView::Relay { to_client: Seq::empty(), to_upstream: head, fragment: false }
    }
}

/// The failure of a state in which something went wrong: a connect error
/// while connecting, an I/O error anywhere else.
pub open spec fn failure_of(state: ConnectionView) -> ProxyError {
    if state is Connecting {
        ProxyError::Connect
    } else {
        ProxyError::Io
    }
}

/// The failure that a failed lookup comes to.
pub open spec fn lookup_failure(e: LookupError) -> ProxyError {
    match e {
        LookupError::NotFound => ProxyError::NotFound,
        LookupError::Transport => ProxyError::Transport,
    }
}

/// The transition of a connection: the state and the action that follow
/// when `event` happens in `state`. An event that the state does not await
/// counts as a failure of what was to be done.
pub open spec fn step_of(state: ConnectionView, event: EventView) -> (ConnectionView, ActionView) {
    let failed = (ConnectionView::Failed { error: failure_of(state) }, ActionView::Close);
    match state {
        ConnectionView::Accepted => match event {
            EventView::Line(line) => (
                ConnectionView::ParsingRequest { line, headers: Seq::empty() },
                ActionView::ReadLine,
            ),
            _ => failed,
        },
        ConnectionView::ParsingRequest { line, headers } => match event {
            EventView::Line(next) => if !ends_head(next) {
                (
                    ConnectionView::ParsingRequest { line, headers: headers + next },
                    ActionView::ReadLine,
                )
            } else {
                match request_of(line) {
                    Err(e) => (
                        ConnectionView::Failed { error: ProxyError::Parse(e) },
                        ActionView::Close,
                    ),
                    Ok(request) => (
                        ConnectionView::Resolving { request, head: line + (headers + next) },
                        ActionView::Resolve(request.host),
                    ),
                }
            },
            _ => failed,
        },
        ConnectionView::Resolving { request, head } => match event {
            EventView::Resolved(Ok(address)) => (
                ConnectionView::Connecting { request, head, address },
                ActionView::Connect(address, request.port),
            ),
            EventView::Resolved(Err(e)) => (
                ConnectionView::Failed { error: lookup_failure(e) },
                ActionView::Close,
            ),
            _ => failed,
        },
        ConnectionView::Connecting { request, head, address } => match event {
            EventView::Connected => (ConnectionView::Relaying, relay_of(request, head)),
            _ => failed,
        },
        ConnectionView::Relaying => match event {
            EventView::Finished(ok) => (
                ConnectionView::Closed {
                    outcome: if ok {
                        Ok(())
                    } else {
                        Err(ProxyError::Io)
                    },
                },
                ActionView::Close,
            ),
            _ => failed,
        },
        ConnectionView::Closed { .. } => (state, ActionView::Close),
        ConnectionView::Failed { .. } => (state, ActionView::Close),
    }
}

/// The state after a run of lines read from the client.
pub open spec fn after_lines(state: ConnectionView, lines: Seq<Seq<char>>) -> ConnectionView
    decreases lines.len(),
{
    if lines.len() == 0 {
        state
    } else {
        after_lines(step_of(state, EventView::Line(lines.first())).0, lines.drop_first())
    }
}

/// Every state that has not ended fails when what was to be done fails, and
/// the connection is then dropped.
pub proof fn any_step_can_fail(state: ConnectionView)
    requires
        !state.ended(),
    ensures
        step_of(state, EventView::IoFailed).0 == (ConnectionView::Failed {
            error: failure_of(state),
        }),
        step_of(state, EventView::IoFailed).1 == ActionView::Close,
{
}

/// A connection that has ended stays as it is, whatever happens.
pub proof fn ended_connections_stay_ended(state: ConnectionView, event: EventView)
    requires
        state.ended(),
    ensures
        step_of(state, event) == (state, ActionView::Close),
{
}

/// Nothing is written to either side before the upstream connection
/// stands: the one action that carries bytes follows a successful connect
/// and nothing else. A connection that fails earlier is dropped without a
/// word to the client.
pub proof fn nothing_is_written_before_connecting(state: ConnectionView, event: EventView)
    ensures
        step_of(state, event).1 is Relay ==> state is Connecting && event is Connected,
        step_of(state, event).0 is Failed ==> step_of(state, event).1 == ActionView::Close,
{
}

/// A failed lookup fails the connection with the lookup's own reason.
pub proof fn failed_lookups_fail_the_connection(
    request: RequestView,
    head: Seq<char>,
    e: LookupError,
)
    ensures
        step_of(ConnectionView::Resolving { request, head }, EventView::Resolved(Err(e))) == (
            ConnectionView::Failed { error: lookup_failure(e) },
            ActionView::Close,
        ),
{
}

/// A tunnel is announced to the client with the request's own version, and
/// the client's first record is fragmented. A plain request is replayed
/// upstream and nothing is fragmented.
pub proof fn relaying_follows_the_request(request: RequestView, head: Seq<char>)
    ensures
        request.is_https ==> relay_of(request, head) == (ActionView::Relay {
            to_client: request.version + " 200 OK\r\n\r\n"@,
            to_upstream: Seq::empty(),
            fragment: true,
        }),
        !request.is_https ==> relay_of(request, head) == (ActionView::Relay {
            to_client: Seq::empty(),
            to_upstream: head,
            fragment: false,
        }),
{
}

proof fn lemma_headers_accumulate(
    line: Seq<char>,
    seen: Seq<char>,
    headers: Seq<Seq<char>>,
)
    requires
        forall|i: int| 0 <= i < headers.len() ==> !ends_head(#[trigger] headers[i]),
    ensures
        after_lines(ConnectionView::ParsingRequest { line, headers: seen }, headers) == (
            ConnectionView::ParsingRequest { line, headers: seen + headers.flatten() }),
    decreases headers.len(),
{
    if headers.len() == 0 {
        assert(seen + headers.flatten() =~= seen);
    } else {
        let tail = headers.drop_first();
        assert forall|i: int| 0 <= i < tail.len() implies !ends_head(#[trigger] tail[i]) by {
            assert(tail[i] == headers[i + 1]);
        }
        assert(!ends_head(headers[0]));
        lemma_headers_accumulate(line, seen + headers.first(), tail);
        assert(seen + headers.first() + tail.flatten() =~= seen + headers.flatten());
    }
}

/// What is read from the client is kept as it was read. After the request
/// line, any header lines and the empty line that ends them, a connection
/// with an acceptable request line awaits the address of the request's
/// host, and its head is the lines that were read, joined in order.
pub proof fn head_is_kept_verbatim(line: Seq<char>, headers: Seq<Seq<char>>, last: Seq<char>)
    requires
        forall|i: int| 0 <= i < headers.len() ==> !ends_head(#[trigger] headers[i]),
        ends_head(last),
        request_of(line) is Ok,
    ensures
        after_lines(ConnectionView::Accepted, seq![line] + headers + seq![last]) == (
            ConnectionView::Resolving {
                request: request_of(line)->Ok_0,
                head: line + headers.flatten() + last,
            }),
{
    let lines = seq![line] + headers + seq![last];
    let s1 = ConnectionView::ParsingRequest { line, headers: Seq::empty() };
    assert(lines.first() == line);
    assert(lines.drop_first() =~= headers + seq![last]);
    lemma_after_lines_split(s1, headers, seq![last]);
    lemma_headers_accumulate(line, Seq::empty(), headers);
    let s2 = ConnectionView::ParsingRequest { line, headers: Seq::empty() + headers.flatten() };
    assert(seq![last].first() == last);
    assert(seq![last].drop_first() =~= Seq::<Seq<char>>::empty());
    assert(after_lines(s2, seq![last]) == step_of(s2, EventView::Line(last)).0) by {
        reveal_with_fuel(after_lines, 2);
    }
    assert(line + (Seq::<char>::empty() + headers.flatten() + last) =~= line + headers.flatten()
        + last);
}

proof fn lemma_after_lines_split(state: ConnectionView, a: Seq<Seq<char>>, b: Seq<Seq<char>>)
    ensures
        after_lines(state, a + b) == after_lines(after_lines(state, a), b),
    decreases a.len(),
{
    if a.len() == 0 {
        assert(a + b =~= b);
    } else {
        assert((a + b).first() == a.first());
        assert((a + b).drop_first() =~= a.drop_first() + b);
        lemma_after_lines_split(step_of(state, EventView::Line(a.first())).0, a.drop_first(), b);
    }
}

/// A connection that was just accepted, and its first action.
pub fn accept() -> (r: (Connection, Action))
    ensures
        r.0@ == ConnectionView::Accepted,
        r.1@ == ActionView::ReadLine,
{
    (Connection::Accepted, Action::ReadLine)
}

fn failed(error: ProxyError) -> (r: (Connection, Action))
    ensures
        r.0@ == (ConnectionView::Failed { error }),
        r.1@ == ActionView::Close,
{
    (Connection::Failed { error }, Action::Close)
}

fn relay(request: HttpRequest, head: String) -> (a: Action)
    ensures
        a@ == relay_of(request@, head@),
{
    if request.is_https {
        Action::Relay {
            to_client: request.version.concat(" 200 OK\r\n\r\n"),
            to_upstream: String::new(),
            fragment: true,
        }
    } else {
        Action::Relay { to_client: String::new(), to_upstream: head, fragment: false }
    }
}

/// Advances a connection by one event.
pub fn proxy(state: Connection, event: Event) -> (r: (Connection, Action))
    ensures
        (r.0@, r.1@) == step_of(state@, event@),
{
    match state {
        Connection::Accepted => match event {
            Event::Line(line) => (
                Connection::ParsingRequest { line, headers: String::new() },
                Action::ReadLine,
            ),
            _ => failed(ProxyError::Io),
        },
        Connection::ParsingRequest { line, headers } => match event {
            Event::Line(next) => {
                let ends = next.as_str().as_bytes().len() <= 2;
                let headers = headers.concat(next.as_str());
                if !ends {
                    (Connection::ParsingRequest { line, headers }, Action::ReadLine)
                } else {
                    match parse_http_request(line.as_str()) {
                        Err(e) => failed(ProxyError::Parse(e)),
                        Ok(request) => {
                            let host = request.host.clone();
                            let head = line.concat(headers.as_str());
                            (Connection::Resolving { request, head }, Action::Resolve(host))
                        },
                    }
                }
            },
            _ => failed(ProxyError::Io),
        },
        Connection::Resolving { request, head } => match event {
            Event::Resolved(Ok(address)) => {
                let port = request.port;
                (Connection::Connecting { request, head, address }, Action::Connect(address, port))
            },
            Event::Resolved(Err(LookupError::NotFound)) => failed(ProxyError::NotFound),
            Event::Resolved(Err(LookupError::Transport)) => failed(ProxyError::Transport),
            _ => failed(ProxyError::Io),
        },
        Connection::Connecting { request, head, address } => match event {
            Event::Connected => (Connection::Relaying, relay(request, head)),
            _ => failed(ProxyError::Connect),
        },
        Connection::Relaying => match event {
            Event::Finished(ok) => {
                let outcome = if ok {
                    Ok(())
                } else {
                    Err(ProxyError::Io)
                };
                (Connection::Closed { outcome }, Action::Close)
            },
            _ => failed(ProxyError::Io),
        },
        Connection::Closed { outcome } => (Connection::Closed { outcome }, Action::Close),
        Connection::Failed { error } => (Connection::Failed { error }, Action::Close),
    }
}

} // verus!
