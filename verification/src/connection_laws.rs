//! What holds of every request, however the things it asks for go.
use vstd::prelude::*;

use crate::connection::{
    new_request, pending, request_after, selector_line, step_without_tls, ActionView, Channel,
    EventView, Lookup, RequestView, Route, Step, Stream,
};

verus! {

/// A request once all of `events` have come.
pub open spec fn request_run(r: RequestView, events: Seq<EventView>) -> RequestView
    decreases events.len(),
{
    if events.len() == 0 {
        r
    } else {
        request_after(request_run(r, events.drop_last()), events.last())
    }
}

/// The texts that a request has sent once all of `events` have come.
pub open spec fn sent(r: RequestView, events: Seq<EventView>) -> Seq<Seq<char>>
    decreases events.len(),
{
    if events.len() == 0 {
        Seq::empty()
    } else {
        let before = sent(r, events.drop_last());
        match (pending(request_run(r, events.drop_last())), events.last()) {
            (Some(ActionView::Send(text)), EventView::Sent(true)) => before.push(text),
            _ => before,
        }
    }
}

/// Whether a step is over, one way or the other.
pub open spec fn is_over(step: Step) -> bool {
    step is Open || step is Failed
}

/// Whether a step belongs to the TLS attempt, from its beginning.
pub open spec fn is_tls_attempt(step: Step) -> bool {
    ||| step == Step::NewConnector
    ||| step == Step::Lookup(Route::Tls)
    ||| step == Step::Connect(Route::Tls)
    ||| step == Step::SetTimeout(Route::Tls)
    ||| step == Step::Handshake
    ||| is_tls_channel(step)
}

/// Whether a step uses an established TLS channel.
pub open spec fn is_tls_channel(step: Step) -> bool {
    ||| step == Step::SendSelector(Channel::Tls)
    ||| step == Step::SendEnd(Channel::Tls)
    ||| step == Step::Open(Stream { tls: true })
}

/// Whether a step belongs to the Tor attempt.
pub open spec fn is_tor_attempt(step: Step) -> bool {
    ||| step == Step::ReadProxy
    ||| step == Step::LookupProxy
    ||| step == Step::ConnectTor
    ||| step == Step::SendSelector(Channel::Tor)
    ||| step == Step::SendEnd(Channel::Tor)
}

/// Whether a step belongs to the direct attempt without TLS.
pub open spec fn is_plain_attempt(step: Step) -> bool {
    ||| step == Step::Lookup(Route::Plain)
    ||| step == Step::Connect(Route::Plain)
    ||| step == Step::SetTimeout(Route::Plain)
    ||| step == Step::SendSelector(Channel::Plain)
    ||| step == Step::SendEnd(Channel::Plain)
}

/// Whether `event` came as the answer to what was asked for at `step`, once all of
/// `events` have come.
pub open spec fn answered(
    r: RequestView,
    events: Seq<EventView>,
    step: Step,
    event: EventView,
) -> bool
    decreases events.len(),
{
    events.len() > 0 && {
        ||| answered(r, events.drop_last(), step, event)
        ||| request_run(r, events.drop_last()).step == step && events.last() == event
    }
}

/// Whether `event`, as the answer at `step`, says that TLS does not work: no
/// connector can be made, no address is found, the server cannot be connected to,
/// the read timeout cannot be set or the handshake fails.
pub open spec fn fails_tls(step: Step, event: EventView) -> bool {
    match (step, event) {
        (Step::NewConnector, EventView::Connector(done)) => !done,
        (Step::Lookup(Route::Tls), EventView::Resolved(lookup)) => lookup != Lookup::Found,
        (Step::Connect(Route::Tls), EventView::Connected(done)) => !done,
        (Step::SetTimeout(Route::Tls), EventView::TimeoutSet(done)) => !done,
        (Step::Handshake, EventView::Handshaken(done)) => !done,
        _ => false,
    }
}

/// Whether TLS was found not to work once all of `events` have come.
pub open spec fn tls_failed(r: RequestView, events: Seq<EventView>) -> bool
    decreases events.len(),
{
    events.len() > 0 && {
        ||| tls_failed(r, events.drop_last())
        ||| fails_tls(request_run(r, events.drop_last()).step, events.last())
    }
}

/// How many answers a request can still take.
pub open spec fn answers_left(step: Step) -> nat {
    match step {
        Step::NewConnector => 10,
        Step::Lookup(Route::Tls) => 9,
        Step::Connect(Route::Tls) => 8,
        Step::SetTimeout(Route::Tls) => 7,
        Step::Handshake => 6,
        Step::ReadProxy => 5,
        Step::LookupProxy => 4,
        Step::ConnectTor => 3,
        Step::Lookup(Route::Plain) => 5,
        Step::Connect(Route::Plain) => 4,
        Step::SetTimeout(Route::Plain) => 3,
        Step::SendSelector(_) => 2,
        Step::SendEnd(_) => 1,
        Step::Open(_) => 0,
        Step::Failed(_) => 0,
    }
}

/// What is sent, in every state that a new request can come to.
proof fn lemma_sent(r: RequestView, events: Seq<EventView>)
    requires
        !(r.step is SendSelector),
        !(r.step is SendEnd),
        !is_over(r.step),
    ensures
        ({
            let now = request_run(r, events);
            let texts = sent(r, events);
            &&& now.host == r.host
            &&& now.address == r.address
            &&& now.line == r.line
            &&& now.tor == r.tor
            &&& match now.step {
                Step::SendEnd(_) => texts =~= seq![r.line],
                Step::Open(_) => texts =~= seq![r.line, "\r\n"@],
                Step::Failed(_) => texts =~= Seq::empty() || texts =~= seq![r.line],
                _ => texts =~= Seq::empty(),
            }
        }),
    decreases events.len(),
{
    if events.len() > 0 {
        lemma_sent(r, events.drop_last());
    }
}

/// The selector with its queries behind tabs and the end of the line are what a
/// request that is open has sent, and nothing else, on whatever attempt. One that
/// failed has sent the selector at most.
pub proof fn law_open_request_has_sent_its_line(
    host: Seq<char>,
    port: Seq<char>,
    selector: Seq<char>,
    tls: bool,
    tor: bool,
    events: Seq<EventView>,
)
    ensures
        ({
            let r = new_request(host, port, selector, tls, tor);
            let texts = sent(r, events);
            &&& request_run(r, events).step is Open ==> texts == seq![
                selector_line(selector),
                "\r\n"@,
            ]
            &&& request_run(r, events).step is Failed ==> texts == Seq::<Seq<char>>::empty()
                || texts == seq![selector_line(selector)]
        }),
{
    lemma_sent(new_request(host, port, selector, tls, tor), events);
}

/// A sent selector is as long as the selector, has no question mark, and differs
/// from it only in that tabs stand for question marks; one without question marks
/// is sent as it is.
pub proof fn law_selector_line(selector: Seq<char>)
    ensures
        selector_line(selector).len() == selector.len(),
        !selector_line(selector).contains('?'),
        forall|i: int|
            0 <= i < selector.len() ==> #[trigger] selector_line(selector)[i] == (if selector[i]
                == '?' {
                '\t'
            } else {
                selector[i]
            }),
        !selector.contains('?') ==> selector_line(selector) == selector,
{
    if !selector.contains('?') {
        assert(selector_line(selector) =~= selector);
    }
}

/// Which attempt a request is on, by how those before it went.
proof fn lemma_attempts(r: RequestView, tls: bool, events: Seq<EventView>)
    requires
        r.step == (if tls {
            Step::NewConnector
        } else {
            step_without_tls(r.tor)
        }),
    ensures
        ({
            let step = request_run(r, events).step;
            let shaken = answered(r, events, Step::Handshake, EventView::Handshaken(true));
            let proxied = answered(r, events, Step::ConnectTor, EventView::Connected(true));
            let without_tls = is_tor_attempt(step) || is_plain_attempt(step) || step == Step::Open(
                Stream { tls: false },
            );
            &&& request_run(r, events).tor == r.tor
            &&& is_tls_attempt(step) ==> tls && request_run(r, events) == RequestView { step, ..r }
            &&& is_tls_channel(step) ==> shaken
            &&& shaken ==> is_tls_channel(step) || step is Failed
            &&& is_tor_attempt(step) ==> r.tor
            &&& is_plain_attempt(step) ==> !r.tor
            &&& is_plain_attempt(step) || is_tls_attempt(step) ==> !proxied
            &&& step == Step::Open(Stream { tls: false }) ==> (proxied <==> r.tor)
            &&& (step == Step::SendSelector(Channel::Tor) || step == Step::SendEnd(Channel::Tor))
                ==> proxied
            &&& without_tls ==> (tls <==> tls_failed(r, events))
            &&& tls_failed(r, events) ==> tls && !shaken && (without_tls || step is Failed)
            &&& step is Failed && tls ==> shaken || tls_failed(r, events)
        }),
    decreases events.len(),
{
    if events.len() > 0 {
        lemma_attempts(r, tls, events.drop_last());
    }
}

/// TLS is tried first where it was asked for, and never otherwise. A request that
/// is open has a TLS stream exactly where the handshake was answered as made, and
/// one without TLS exactly where TLS was not asked for or was found not to work.
/// One that asked for TLS fails only on an established TLS channel, or once it
/// goes on without TLS.
pub proof fn law_tls_is_tried_first(
    host: Seq<char>,
    port: Seq<char>,
    selector: Seq<char>,
    tls: bool,
    tor: bool,
    events: Seq<EventView>,
)
    ensures
        ({
            let r = new_request(host, port, selector, tls, tor);
            let step = request_run(r, events).step;
            let shaken = answered(r, events, Step::Handshake, EventView::Handshaken(true));
            &&& is_tls_attempt(step) ==> tls
            &&& step matches Step::Open(stream) ==> {
                &&& stream.tls <==> shaken
                &&& !stream.tls <==> !tls || tls_failed(r, events)
            }
            &&& step is Failed && tls ==> shaken || tls_failed(r, events)
        }),
{
    lemma_attempts(new_request(host, port, selector, tls, tor), tls, events);
}

/// Tor is used only where it was asked for, a direct connection without TLS only
/// where it was not, and one with TLS only where that was asked for; so a request
/// with Tor and without TLS never connects directly. A stream without TLS goes
/// through the proxy exactly where Tor was asked for.
pub proof fn law_tor_is_used_as_asked(
    host: Seq<char>,
    port: Seq<char>,
    selector: Seq<char>,
    tls: bool,
    tor: bool,
    events: Seq<EventView>,
)
    ensures
        ({
            let r = new_request(host, port, selector, tls, tor);
            let now = request_run(r, events);
            &&& is_tor_attempt(now.step) ==> tor
            &&& is_plain_attempt(now.step) ==> !tor
            &&& is_tls_attempt(now.step) ==> tls
            &&& pending(now) is Some && pending(now)->0 is Connect ==> tls || !tor
            &&& now.step == Step::Open(Stream { tls: false }) ==> (tor <==> answered(
                r,
                events,
                Step::ConnectTor,
                EventView::Connected(true),
            ))
        }),
{
    lemma_attempts(new_request(host, port, selector, tls, tor), tls, events);
}

/// Where TLS does not work, whatever of it fails before the channel is established,
/// the request goes on as one that never asked for TLS.
pub proof fn law_failed_tls_is_a_request_without_tls(
    host: Seq<char>,
    port: Seq<char>,
    selector: Seq<char>,
    tor: bool,
    events: Seq<EventView>,
    failure: EventView,
)
    requires
        fails_tls(
            request_run(new_request(host, port, selector, true, tor), events).step,
            failure,
        ),
    ensures
        request_run(new_request(host, port, selector, true, tor), events.push(failure))
            == new_request(host, port, selector, false, tor),
{
    lemma_attempts(new_request(host, port, selector, true, tor), true, events);
    assert(events.push(failure).drop_last() =~= events);
}

/// A request that is over stays as it is.
pub proof fn law_over_is_final(r: RequestView, event: EventView)
    requires
        is_over(r.step),
    ensures
        request_after(r, event) == r,
        pending(r) is None,
{
}

/// A request that is not over asks for something, and every event either leaves
/// it as it is or brings it closer to its end; ten answers end any request.
pub proof fn law_requests_end(r: RequestView, event: EventView)
    ensures
        !is_over(r.step) ==> pending(r) is Some,
        answers_left(r.step) == 0 <==> is_over(r.step),
        answers_left(r.step) <= 10,
        request_after(r, event) == r || answers_left(request_after(r, event).step)
            < answers_left(r.step),
{
}

} // verus!
