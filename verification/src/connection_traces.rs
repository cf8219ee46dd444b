//! What a request asks for, answer by answer.
use vstd::prelude::*;

use crate::connection::{
    can_follow, new_request, pending, request_after, selector_line, Action, ActionView, Channel,
    Event, EventView, Lookup, RequestView, Step, Stream,
};
use crate::connection_laws::{answered, fails_tls, request_run};
use crate::failure::Failure;

verus! {

/// What a request asked for before each of `events` came.
pub open spec fn transcript(r: RequestView, events: Seq<EventView>) -> Seq<Option<ActionView>>
    decreases events.len(),
{
    if events.len() == 0 {
        Seq::empty()
    } else {
        transcript(r, events.drop_last()).push(pending(request_run(r, events.drop_last())))
    }
}

/// Whether an event is an answer to an action, well or badly as that went.
pub open spec fn is_answer(action: ActionView, event: EventView) -> bool {
    match action {
        ActionView::NewConnector => event is Connector,
        ActionView::Resolve(_) => event is Resolved,
        ActionView::Connect(_) => event is Connected,
        ActionView::SetReadTimeout(_) => event is TimeoutSet,
        ActionView::Handshake(_) => event is Handshaken,
        ActionView::ReadProxy => event is Proxy,
        ActionView::ConnectTor(_) => event is Connected,
        ActionView::Send(_) => event is Sent,
    }
}

/// Whether an event says that things went well.
pub open spec fn went_well(event: EventView) -> bool {
    match event {
        EventView::Connector(done) => done,
        EventView::Resolved(lookup) => lookup == Lookup::Found,
        EventView::Connected(done) => done,
        EventView::TimeoutSet(done) => done,
        EventView::Handshaken(done) => done,
        EventView::Proxy(_) => true,
        EventView::Sent(done) => done,
    }
}

/// A run over one event more is a step from where the run stood.
pub proof fn lemma_run_push(r: RequestView, events: Seq<EventView>, event: EventView)
    ensures
        request_run(r, events.push(event)) == request_after(request_run(r, events), event),
        transcript(r, events.push(event)) == transcript(r, events).push(
            pending(request_run(r, events)),
        ),
{
    assert(events.push(event).drop_last() =~= events);
}

/// The end of a request: the selector and the end of the line are sent.
proof fn lemma_sending(r: RequestView, before: Seq<EventView>)
    requires
        request_run(r, before).step is SendSelector,
    ensures
        ({
            let now = request_run(r, before);
            let events = before.push(EventView::Sent(true)).push(EventView::Sent(true));
            &&& request_run(r, events).step is Open
            &&& request_run(r, events).step->Open_0.tls == (now.step->SendSelector_0
                == Channel::Tls)
            &&& transcript(r, events) == transcript(r, before).push(
                Some(ActionView::Send(now.line)),
            ).push(Some(ActionView::Send("\r\n"@)))
        }),
{
    let done = EventView::Sent(true);
    lemma_run_push(r, before, done);
    lemma_run_push(r, before.push(done), done);
}

/// A request without TLS and Tor to which all goes well looks up the server by its
/// name and port, connects to it within eight seconds, sets the read timeout to as
/// many, sends the selector and the end of the line, and is then open.
pub proof fn law_plain_request_asks(host: Seq<char>, port: Seq<char>, selector: Seq<char>)
    ensures
        ({
            let r = new_request(host, port, selector, false, false);
            let events = seq![
                EventView::Resolved(Lookup::Found),
                EventView::Connected(true),
                EventView::TimeoutSet(true),
                EventView::Sent(true),
                EventView::Sent(true),
            ];
            &&& transcript(r, events) == seq![
                Some(ActionView::Resolve(host + seq![':'] + port)),
                Some(ActionView::Connect(8)),
                Some(ActionView::SetReadTimeout(8)),
                Some(ActionView::Send(selector_line(selector))),
                Some(ActionView::Send("\r\n"@)),
            ]
            &&& request_run(r, events).step == Step::Open(Stream { tls: false })
            &&& pending(request_run(r, events)) is None
        }),
{
    let r = new_request(host, port, selector, false, false);
    let e0 = Seq::<EventView>::empty();
    let e1 = e0.push(EventView::Resolved(Lookup::Found));
    let e2 = e1.push(EventView::Connected(true));
    let e3 = e2.push(EventView::TimeoutSet(true));
    lemma_run_push(r, e0, EventView::Resolved(Lookup::Found));
    lemma_run_push(r, e1, EventView::Connected(true));
    lemma_run_push(r, e2, EventView::TimeoutSet(true));
    lemma_sending(r, e3);
    assert(e3.push(EventView::Sent(true)).push(EventView::Sent(true)) =~= seq![
        EventView::Resolved(Lookup::Found),
        EventView::Connected(true),
        EventView::TimeoutSet(true),
        EventView::Sent(true),
        EventView::Sent(true),
    ]);
}

/// A request with TLS to which all goes well makes a connector, looks up the server
/// by its name and port, connects to it, sets the read timeout, makes the handshake
/// for the server's name, sends the selector and the end of the line, and then has
/// an open TLS stream, whether Tor was asked for or not.
pub proof fn law_tls_request_asks(
    host: Seq<char>,
    port: Seq<char>,
    selector: Seq<char>,
    tor: bool,
)
    ensures
        ({
            let r = new_request(host, port, selector, true, tor);
            let events = seq![
                EventView::Connector(true),
                EventView::Resolved(Lookup::Found),
                EventView::Connected(true),
                EventView::TimeoutSet(true),
                EventView::Handshaken(true),
                EventView::Sent(true),
                EventView::Sent(true),
            ];
            &&& transcript(r, events) == seq![
                Some(ActionView::NewConnector),
                Some(ActionView::Resolve(host + seq![':'] + port)),
                Some(ActionView::Connect(8)),
                Some(ActionView::SetReadTimeout(8)),
                Some(ActionView::Handshake(host)),
                Some(ActionView::Send(selector_line(selector))),
                Some(ActionView::Send("\r\n"@)),
            ]
            &&& request_run(r, events).step == Step::Open(Stream { tls: true })
            &&& pending(request_run(r, events)) is None
        }),
{
    let r = new_request(host, port, selector, true, tor);
    let e0 = Seq::<EventView>::empty();
    let e1 = e0.push(EventView::Connector(true));
    let e2 = e1.push(EventView::Resolved(Lookup::Found));
    let e3 = e2.push(EventView::Connected(true));
    let e4 = e3.push(EventView::TimeoutSet(true));
    let e5 = e4.push(EventView::Handshaken(true));
    lemma_run_push(r, e0, EventView::Connector(true));
    lemma_run_push(r, e1, EventView::Resolved(Lookup::Found));
    lemma_run_push(r, e2, EventView::Connected(true));
    lemma_run_push(r, e3, EventView::TimeoutSet(true));
    lemma_run_push(r, e4, EventView::Handshaken(true));
    lemma_sending(r, e5);
    assert(e5.push(EventView::Sent(true)).push(EventView::Sent(true)) =~= seq![
        EventView::Connector(true),
        EventView::Resolved(Lookup::Found),
        EventView::Connected(true),
        EventView::TimeoutSet(true),
        EventView::Handshaken(true),
        EventView::Sent(true),
        EventView::Sent(true),
    ]);
}

/// A request with Tor and without TLS to which all goes well reads the user's choice
/// of a proxy, looks that proxy up, or the one of a local Tor where there is no
/// choice, connects through it to the server's name and port, sends the selector and
/// the end of the line, and is then open.
pub proof fn law_tor_request_asks(
    host: Seq<char>,
    port: Seq<char>,
    selector: Seq<char>,
    choice: Option<Seq<char>>,
)
    ensures
        ({
            let r = new_request(host, port, selector, false, true);
            let events = seq![
                EventView::Proxy(choice),
                EventView::Resolved(Lookup::Found),
                EventView::Connected(true),
                EventView::Sent(true),
                EventView::Sent(true),
            ];
            &&& transcript(r, events) == seq![
                Some(ActionView::ReadProxy),
                Some(
                    ActionView::Resolve(
                        match choice {
                            Some(proxy) => proxy,
                            None => "127.0.0.1:9050"@,
                        },
                    ),
                ),
                Some(ActionView::ConnectTor(host + seq![':'] + port)),
                Some(ActionView::Send(selector_line(selector))),
                Some(ActionView::Send("\r\n"@)),
            ]
            &&& request_run(r, events).step == Step::Open(Stream { tls: false })
            &&& pending(request_run(r, events)) is None
        }),
{
    let r = new_request(host, port, selector, false, true);
    let e0 = Seq::<EventView>::empty();
    let e1 = e0.push(EventView::Proxy(choice));
    let e2 = e1.push(EventView::Resolved(Lookup::Found));
    let e3 = e2.push(EventView::Connected(true));
    lemma_run_push(r, e0, EventView::Proxy(choice));
    lemma_run_push(r, e1, EventView::Resolved(Lookup::Found));
    lemma_run_push(r, e2, EventView::Connected(true));
    lemma_sending(r, e3);
    assert(e3.push(EventView::Sent(true)).push(EventView::Sent(true)) =~= seq![
        EventView::Proxy(choice),
        EventView::Resolved(Lookup::Found),
        EventView::Connected(true),
        EventView::Sent(true),
        EventView::Sent(true),
    ]);
}

/// However a request runs, the server that it looks up, shakes hands with and reaches
/// through Tor is the one that it was made for, with the port that it was made for;
/// it waits as long as it is to; it sends its selector and the end of the line; and
/// the proxy that it looks up is the one that the user chose, or that of a local Tor
/// where the user chose none.
pub proof fn law_request_keeps_to_its_server(
    host: Seq<char>,
    port: Seq<char>,
    selector: Seq<char>,
    tls: bool,
    tor: bool,
    events: Seq<EventView>,
)
    ensures
        ({
            let r = new_request(host, port, selector, tls, tor);
            let now = request_run(r, events);
            let address = host + seq![':'] + port;
            &&& now.step is Lookup ==> pending(now) == Some(ActionView::Resolve(address))
            &&& now.step == Step::Handshake ==> pending(now) == Some(ActionView::Handshake(host))
            &&& now.step == Step::ConnectTor ==> pending(now) == Some(
                ActionView::ConnectTor(address),
            )
            &&& match pending(now) {
                Some(ActionView::Resolve(name)) => {
                    ||| name == address
                    ||| answered(r, events, Step::ReadProxy, EventView::Proxy(Some(name)))
                    ||| name == "127.0.0.1:9050"@ && answered(
                        r,
                        events,
                        Step::ReadProxy,
                        EventView::Proxy(None),
                    )
                },
                Some(ActionView::Connect(secs)) => secs == 8,
                Some(ActionView::SetReadTimeout(secs)) => secs == 8,
                Some(ActionView::Handshake(name)) => name == host,
                Some(ActionView::ConnectTor(name)) => name == address,
                Some(ActionView::Send(text)) => text == selector_line(selector) || text == "\r\n"@,
                _ => true,
            }
        }),
{
    lemma_texts(new_request(host, port, selector, tls, tor), events);
}

/// The texts of a request stay, and its proxy is the one that was chosen.
proof fn lemma_texts(r: RequestView, events: Seq<EventView>)
    requires
        r.step != Step::LookupProxy,
    ensures
        ({
            let now = request_run(r, events);
            &&& now.host == r.host
            &&& now.address == r.address
            &&& now.line == r.line
            &&& now.step == Step::LookupProxy ==> {
                ||| answered(r, events, Step::ReadProxy, EventView::Proxy(Some(now.proxy)))
                ||| now.proxy == "127.0.0.1:9050"@ && answered(
                    r,
                    events,
                    Step::ReadProxy,
                    EventView::Proxy(None),
                )
            }
        }),
    decreases events.len(),
{
    if events.len() > 0 {
        lemma_texts(r, events.drop_last());
        let before = request_run(r, events.drop_last());
        if let (Step::ReadProxy, EventView::Proxy(choice)) = (before.step, events.last()) {
            assert(answered(r, events, Step::ReadProxy, EventView::Proxy(choice)));
        }
    }
}

/// An event that is no answer to what a request asks for leaves it as it is.
pub proof fn law_stray_events_change_nothing(r: RequestView, event: EventView)
    requires
        pending(r) matches Some(action) ==> !is_answer(action, event),
    ensures
        request_after(r, event) == r,
{
}

/// An answer that says that things went well takes a request on, and never lets it
/// fail.
pub proof fn law_good_answers_take_a_request_on(r: RequestView, event: EventView)
    requires
        pending(r) matches Some(action) && is_answer(action, event),
        went_well(event),
    ensures
        can_follow(r, event),
        request_after(r, event).step != r.step,
        !(request_after(r, event).step is Failed),
{
}

/// Once TLS is out of the question or established, an answer that says that things
/// went badly ends a request, with a failure of its own where the server has no
/// address or Tor does not connect. That the proxy has no address is no answer that
/// a request can take.
pub proof fn law_bad_answers_end_a_request(r: RequestView, event: EventView)
    requires
        pending(r) matches Some(action) && is_answer(action, event),
        !went_well(event),
        !fails_tls(r.step, event),
        r.step != Step::LookupProxy || event != EventView::Resolved(Lookup::Empty),
    ensures
        can_follow(r, event),
        request_after(r, event).step == Step::Failed(
            if pending(r)->0 is ConnectTor {
                Failure::Tor
            } else if event == EventView::Resolved(Lookup::Empty) {
                Failure::NoAddress
            } else {
                Failure::Passed
            },
        ),
{
}

/// Every event can be taken by every request, but for one: that the proxy which it
/// looks up has no address.
pub proof fn law_what_a_request_can_take(r: RequestView, event: EventView)
    ensures
        can_follow(r, event) <==> r.step != Step::LookupProxy || event != EventView::Resolved(
            Lookup::Empty,
        ),
{
}

/// What an action says is what the caller is handed: kind by kind, with the same
/// texts and times.
pub proof fn law_actions_say_what_they_are(text: &str, secs: u64)
    ensures
        Action::NewConnector@ == ActionView::NewConnector,
        Action::Resolve(text)@ == ActionView::Resolve(text@),
        Action::Connect(secs)@ == ActionView::Connect(secs),
        Action::SetReadTimeout(secs)@ == ActionView::SetReadTimeout(secs),
        Action::Handshake(text)@ == ActionView::Handshake(text@),
        Action::ReadProxy@ == ActionView::ReadProxy,
        Action::ConnectTor(text)@ == ActionView::ConnectTor(text@),
        Action::Send(text)@ == ActionView::Send(text@),
{
}

/// What an event says is what the caller reports: kind by kind, with the same result.
pub proof fn law_events_say_what_they_are(done: bool, lookup: Lookup, proxy: String)
    ensures
        Event::Connector(done)@ == EventView::Connector(done),
        Event::Resolved(lookup)@ == EventView::Resolved(lookup),
        Event::Connected(done)@ == EventView::Connected(done),
        Event::TimeoutSet(done)@ == EventView::TimeoutSet(done),
        Event::Handshaken(done)@ == EventView::Handshaken(done),
        Event::Proxy(Some(proxy))@ == EventView::Proxy(Some(proxy@)),
        Event::Proxy(None)@ == EventView::Proxy(None),
        Event::Sent(done)@ == EventView::Sent(done),
{
}

} // verus!
