//! Making a Gopher request.
//!
//! A request is a sequence of things that only the system can do, such as to look
//! up an address or to write to a socket. `Request` knows what is to be done next
//! and, from how that went, what comes then; its caller does the things.
use vstd::prelude::*;

use crate::failure::Failure;

verus! {

/// Some Gopher servers can be kind of slow, we may want to up this or
/// make it configurable eventually.
pub const TCP_TIMEOUT_IN_SECS: u64 = 8;

/// A stream on which a request has been sent.
#[derive(Clone, Copy, Debug, PartialEq, Eq, Structural)]
pub struct Stream {
    /// Whether the stream is a TLS stream.
    pub tls: bool,
}

impl Stream {
    /// Whether the stream is a TLS stream.
    pub fn is_tls(&self) -> (b: bool)
        ensures
            b == self.tls,
    {
        self.tls
    }
}

/// A connection that is made directly.
#[derive(Clone, Copy, Debug, PartialEq, Eq, Structural)]
pub enum Route {
    Tls,
    Plain,
}

/// A connection on which something can be sent.
#[derive(Clone, Copy, Debug, PartialEq, Eq, Structural)]
pub enum Channel {
    Tls,
    Tor,
    Plain,
}

/// How far a request is.
#[derive(Clone, Copy, Debug, PartialEq, Eq, Structural)]
pub enum Step {
    /// A TLS connector is to be made.
    NewConnector,
    /// The server's address is to be looked up.
    Lookup(Route),
    /// The server is to be connected to.
    Connect(Route),
    /// The connection's read timeout is to be set.
    SetTimeout(Route),
    /// The TLS handshake is to be made.
    Handshake,
    /// The user's choice of a Tor proxy is to be read.
    ReadProxy,
    /// The proxy's address is to be looked up.
    LookupProxy,
    /// The server is to be connected to through the proxy.
    ConnectTor,
    /// The selector is to be sent.
    SendSelector(Channel),
    /// The end of the line is to be sent.
    SendEnd(Channel),
    /// The request has been sent.
    Open(Stream),
    /// The request failed.
    Failed(Failure),
}

/// What a request asks its caller to do.
#[derive(Clone, Copy, Debug)]
pub enum Action<'a> {
    /// Make a TLS connector.
    NewConnector,
    /// Look up the addresses of a name with a port.
    Resolve(&'a str),
    /// Connect to the first address found, within so many seconds.
    Connect(u64),
    /// Set the connection's read timeout to so many seconds.
    SetReadTimeout(u64),
    /// Make the TLS handshake over the connection, for this host.
    Handshake(&'a str),
    /// Read the environment variable `TOR_PROXY`.
    ReadProxy,
    /// Connect to this address through the proxy at the first address found.
    ConnectTor(&'a str),
    /// Write a text to the connection.
    Send(&'a str),
}

/// An action, with its texts as sequences.
#[verifier::ext_equal]
pub enum ActionView {
    NewConnector,
    Resolve(Seq<char>),
    Connect(u64),
    SetReadTimeout(u64),
    Handshake(Seq<char>),
    ReadProxy,
    ConnectTor(Seq<char>),
    Send(Seq<char>),
}

impl<'a> View for Action<'a> {
    type V = ActionView;

    open spec fn view(&self) -> ActionView {
        match *self {
            Action::NewConnector => ActionView::NewConnector,
            Action::Resolve(name) => ActionView::Resolve(name@),
            Action::Connect(secs) => ActionView::Connect(secs),
            Action::SetReadTimeout(secs) => ActionView::SetReadTimeout(secs),
            Action::Handshake(host) => ActionView::Handshake(host@),
            Action::ReadProxy => ActionView::ReadProxy,
            Action::ConnectTor(address) => ActionView::ConnectTor(address@),
            Action::Send(text) => ActionView::Send(text@),
        }
    }
}

/// What the lookup of an address came to.
#[derive(Clone, Copy, Debug, PartialEq, Eq, Structural)]
pub enum Lookup {
    Found,
    Empty,
    Failed,
}

/// How the thing that a request asked for went. A `bool` says whether it was done.
#[derive(Debug)]
pub enum Event {
    Connector(bool),
    Resolved(Lookup),
    Connected(bool),
    TimeoutSet(bool),
    Handshaken(bool),
    /// The proxy that the user chose, if any.
    Proxy(Option<String>),
    Sent(bool),
}

/// An event, with its text as a sequence.
#[verifier::ext_equal]
pub enum EventView {
    Connector(bool),
    Resolved(Lookup),
    Connected(bool),
    TimeoutSet(bool),
    Handshaken(bool),
    Proxy(Option<Seq<char>>),
    Sent(bool),
}

impl View for Event {
    type V = EventView;

    open spec fn view(&self) -> EventView {
        match *self {
            Event::Connector(done) => EventView::Connector(done),
            Event::Resolved(lookup) => EventView::Resolved(lookup),
            Event::Connected(done) => EventView::Connected(done),
            Event::TimeoutSet(done) => EventView::TimeoutSet(done),
            Event::Handshaken(done) => EventView::Handshaken(done),
            Event::Proxy(Some(proxy)) => EventView::Proxy(Some(proxy@)),
            Event::Proxy(None) => EventView::Proxy(None),
            Event::Sent(done) => EventView::Sent(done),
        }
    }
}

/// A request to a Gopher server.
#[derive(Debug)]
pub struct Request {
    host: String,
    address: String,
    line: String,
    proxy: String,
    tor: bool,
    step: Step,
}

/// A request, with its texts as sequences.
#[verifier::ext_equal]
pub struct RequestView {
    /// The server's name.
    pub host: Seq<char>,
    /// The server's name and port.
    pub address: Seq<char>,
    /// The selector as it is sent.
    pub line: Seq<char>,
    /// The proxy's name and port, once it is known.
    pub proxy: Seq<char>,
    /// Whether the server is to be reached over Tor where TLS is not used.
    pub tor: bool,
    /// How far the request is.
    pub step: Step,
}

impl View for Request {
    type V = RequestView;

    closed spec fn view(&self) -> RequestView {
        RequestView {
            host: self.host@,
            address: self.address@,
            line: self.line@,
            proxy: self.proxy@,
            tor: self.tor,
            step: self.step,
        }
    }
}

/// A selector as it is sent: search queries follow a tab.
pub open spec fn selector_line(selector: Seq<char>) -> Seq<char> {
    selector.map_values(
        |c: char|
            if c == '?' {
                '\t'
            } else {
                c
            },
    )
}

/// What comes first where TLS is not used or did not work.
pub open spec fn step_without_tls(tor: bool) -> Step {
    if tor {
        Step::ReadProxy
    } else {
        Step::Lookup(Route::Plain)
    }
}

/// A request before anything is done.
pub open spec fn new_request(
    host: Seq<char>,
    port: Seq<char>,
    selector: Seq<char>,
    tls: bool,
    tor: bool,
) -> RequestView {
    RequestView {
        host,
        address: host + seq![':'] + port,
        line: selector_line(selector),
        proxy: Seq::empty(),
        tor,
        step: if tls {
            Step::NewConnector
        } else {
            step_without_tls(tor)
        },
    }
}

/// What a request asks for, unless it is over.
pub open spec fn pending(r: RequestView) -> Option<ActionView> {
    match r.step {
        Step::NewConnector => Some(ActionView::NewConnector),
        Step::Lookup(_) => Some(ActionView::Resolve(r.address)),
        Step::Connect(_) => Some(ActionView::Connect(TCP_TIMEOUT_IN_SECS)),
        Step::SetTimeout(_) => Some(ActionView::SetReadTimeout(TCP_TIMEOUT_IN_SECS)),
        Step::Handshake => Some(ActionView::Handshake(r.host)),
        Step::ReadProxy => Some(ActionView::ReadProxy),
        Step::LookupProxy => Some(ActionView::Resolve(r.proxy)),
        Step::ConnectTor => Some(ActionView::ConnectTor(r.address)),
        Step::SendSelector(_) => Some(ActionView::Send(r.line)),
        Step::SendEnd(_) => Some(ActionView::Send("\r\n"@)),
        Step::Open(_) => None,
        Step::Failed(_) => None,
    }
}

/// `next` where a thing was done, and a failure that passes its error on where
/// it was not.
pub open spec fn done_or_failed(done: bool, next: Step) -> Step {
    if done {
        next
    } else {
        Step::Failed(Failure::Passed)
    }
}

/// The step that follows `r.step` once `event` has come. Whatever fails of the TLS
/// attempt before its channel is established, the request goes on without TLS. An
/// event that is no answer to what was asked for changes nothing.
pub open spec fn step_after(r: RequestView, event: EventView) -> Step {
    match (r.step, event) {
        (Step::NewConnector, EventView::Connector(done)) => if done {
            Step::Lookup(Route::Tls)
        } else {
            step_without_tls(r.tor)
        },
        (Step::Lookup(Route::Tls), EventView::Resolved(lookup)) => if lookup == Lookup::Found {
            Step::Connect(Route::Tls)
        } else {
            step_without_tls(r.tor)
        },
        (Step::Lookup(Route::Plain), EventView::Resolved(lookup)) => match lookup {
            Lookup::Found => Step::Connect(Route::Plain),
            Lookup::Empty => Step::Failed(Failure::NoAddress),
            Lookup::Failed => Step::Failed(Failure::Passed),
        },
        (Step::Connect(Route::Tls), EventView::Connected(done)) => if done {
            Step::SetTimeout(Route::Tls)
        } else {
            step_without_tls(r.tor)
        },
        (Step::Connect(Route::Plain), EventView::Connected(done)) => done_or_failed(
            done,
            Step::SetTimeout(Route::Plain),
        ),
        (Step::SetTimeout(Route::Tls), EventView::TimeoutSet(done)) => if done {
            Step::Handshake
        } else {
            step_without_tls(r.tor)
        },
        (Step::SetTimeout(Route::Plain), EventView::TimeoutSet(done)) => done_or_failed(
            done,
            Step::SendSelector(Channel::Plain),
        ),
        (Step::Handshake, EventView::Handshaken(done)) => if done {
            Step::SendSelector(Channel::Tls)
        } else {
            step_without_tls(r.tor)
        },
        (Step::ReadProxy, EventView::Proxy(_)) => Step::LookupProxy,
        (Step::LookupProxy, EventView::Resolved(lookup)) => match lookup {
            Lookup::Found => Step::ConnectTor,
            Lookup::Empty => Step::LookupProxy,
            Lookup::Failed => Step::Failed(Failure::Passed),
        },
        (Step::ConnectTor, EventView::Connected(done)) => if done {
            Step::SendSelector(Channel::Tor)
        } else {
            Step::Failed(Failure::Tor)
        },
        (Step::SendSelector(channel), EventView::Sent(done)) => done_or_failed(
            done,
            Step::SendEnd(channel),
        ),
        (Step::SendEnd(channel), EventView::Sent(done)) => done_or_failed(
            done,
            Step::Open(Stream { tls: channel == Channel::Tls }),
        ),
        _ => r.step,
    }
}

/// The proxy of a request once `event` has come: the one that the user chose, or
/// the one of a local Tor.
pub open spec fn proxy_after(r: RequestView, event: EventView) -> Seq<char> {
    match (r.step, event) {
        (Step::ReadProxy, EventView::Proxy(Some(proxy))) => proxy,
        (Step::ReadProxy, EventView::Proxy(None)) => "127.0.0.1:9050"@,
        _ => r.proxy,
    }
}

/// A request once `event` has come.
pub open spec fn request_after(r: RequestView, event: EventView) -> RequestView {
    RequestView { proxy: proxy_after(r, event), step: step_after(r, event), ..r }
}

/// Whether a request can go on after `event`. It cannot where its proxy has no
/// address.
pub open spec fn can_follow(r: RequestView, event: EventView) -> bool {
    !(r.step == Step::LookupProxy && event == EventView::Resolved(Lookup::Empty))
}

/// `selector` with a tab in the place of every question mark.
fn line_for(selector: &str) -> (line: String)
    ensures
        line@ == selector_line(selector@),
{
    let mut line = String::new();
    let mut rest = selector.chars();
    let ghost mut k: int = 0;
    assert(selector@.skip(0) =~= selector@);
    loop
        invariant
            0 <= k <= selector@.len(),
            vstd::std_specs::iter::IteratorSpec::remaining(&rest) == selector@.skip(k),
            line@ == selector_line(selector@).take(k),
        ensures
            line@ == selector_line(selector@),
        decreases selector@.len() - k,
    {
        match rest.next() {
            Some(c) => {
                assert(c == selector@[k]);
                let sent = if c == '?' {
                    '\t'
                } else {
                    c
                };
                line.push(sent);
                proof {
                    assert(selector_line(selector@).take(k + 1) =~= selector_line(selector@).take(
                        k,
                    ).push(sent));
                    assert(selector@.skip(k).drop_first() =~= selector@.skip(k + 1));
                    k = k + 1;
                }
            },
            None => {
                assert(selector_line(selector@).take(k) =~= selector_line(selector@));
                break;
            },
        }
    }
    line
}

/// Make a Gopher request and return a stream ready to be read.
/// Will attempt a TLS connection first, then retry a regular
/// connection if it fails.
pub fn request(host: &str, port: &str, selector: &str, tls: bool, tor: bool) -> (r: Request)
    ensures
        r@ == new_request(host@, port@, selector@, tls, tor),
{
    let mut address = host.to_string();
    address.push(':');
    address.append(port);
    proof {
        assert(host@.push(':') =~= host@ + seq![':']);
    }
    let step = if tls {
        Step::NewConnector
    } else if tor {
        Step::ReadProxy
    } else {
        Step::Lookup(Route::Plain)
    };
    Request {
        host: host.to_string(),
        address,
        line: line_for(selector),
        proxy: String::new(),
        tor,
        step,
    }
}

impl Request {
    /// How far the request is.
    pub fn step(&self) -> (step: Step)
        ensures
            step == self@.step,
    {
        self.step
    }

    /// What is to be done next, unless the request is over.
    pub fn action<'a>(&'a self) -> (action: Option<Action<'a>>)
        ensures
            action is Some <==> pending(self@) is Some,
            action matches Some(a) ==> pending(self@) == Some(a@),
    {
        match self.step {
            Step::NewConnector => Some(Action::NewConnector),
            Step::Lookup(_) => Some(Action::Resolve(self.address.as_str())),
            Step::Connect(_) => Some(Action::Connect(TCP_TIMEOUT_IN_SECS)),
            Step::SetTimeout(_) => Some(Action::SetReadTimeout(TCP_TIMEOUT_IN_SECS)),
            Step::Handshake => Some(Action::Handshake(self.host.as_str())),
            Step::ReadProxy => Some(Action::ReadProxy),
            Step::LookupProxy => Some(Action::Resolve(self.proxy.as_str())),
            Step::ConnectTor => Some(Action::ConnectTor(self.address.as_str())),
            Step::SendSelector(_) => Some(Action::Send(self.line.as_str())),
            Step::SendEnd(_) => Some(Action::Send("\r\n")),
            Step::Open(_) => None,
            Step::Failed(_) => None,
        }
    }

    /// Goes on from how the thing that was asked for went.
    pub fn advance(self, event: Event) -> (r: Request)
        requires
            can_follow(self@, event@),
        ensures
            r@ == request_after(self@, event@),
    {
        let mut r = self;
        let passed = Step::Failed(Failure::Passed);
        let fallback = if r.tor {
            Step::ReadProxy
        } else {
            Step::Lookup(Route::Plain)
        };
        let next = match (r.step, event) {
            (Step::NewConnector, Event::Connector(done)) => if done {
                Step::Lookup(Route::Tls)
            } else {
                fallback
            },
            (Step::Lookup(route), Event::Resolved(lookup)) => match (route, lookup) {
                (_, Lookup::Found) => Step::Connect(route),
                (Route::Tls, _) => fallback,
                (Route::Plain, Lookup::Empty) => Step::Failed(Failure::NoAddress),
                (Route::Plain, Lookup::Failed) => passed,
            },
            (Step::Connect(route), Event::Connected(done)) => match (route, done) {
                (_, true) => Step::SetTimeout(route),
                (Route::Tls, false) => fallback,
                (Route::Plain, false) => passed,
            },
            (Step::SetTimeout(route), Event::TimeoutSet(done)) => match (route, done) {
                (Route::Tls, true) => Step::Handshake,
                (Route::Tls, false) => fallback,
                (Route::Plain, true) => Step::SendSelector(Channel::Plain),
                (Route::Plain, false) => passed,
            },
            (Step::Handshake, Event::Handshaken(done)) => if done {
                Step::SendSelector(Channel::Tls)
            } else {
                fallback
            },
            (Step::ReadProxy, Event::Proxy(proxy)) => {
                r.proxy = match proxy {
                    Some(proxy) => proxy,
                    None => "127.0.0.1:9050".to_string(),
                };
                Step::LookupProxy
            },
            (Step::LookupProxy, Event::Resolved(Lookup::Found)) => Step::ConnectTor,
            (Step::LookupProxy, Event::Resolved(Lookup::Failed)) => passed,
            (Step::ConnectTor, Event::Connected(done)) => if done {
                Step::SendSelector(Channel::Tor)
            } else {
                Step::Failed(Failure::Tor)
            },
            (Step::SendSelector(channel), Event::Sent(done)) => if done {
                Step::SendEnd(channel)
            } else {
                passed
            },
            (Step::SendEnd(channel), Event::Sent(done)) => if done {
                Step::Open(Stream { tls: channel == Channel::Tls })
            } else {
                passed
            },
            (step, _) => step,
        };
        r.step = next;
        r
    }
}

} // verus!
