//! What a fetch asks for, and what comes of it.
use vstd::prelude::*;

use crate::connection::{
    can_follow, new_request, pending, selector_line, Action, ActionView, Event, EventView,
    Request, RequestView, Step, Stream,
};
use crate::connection_laws::{is_over, law_open_request_has_sent_its_line, request_run, sent};
use crate::connection_traces::lemma_run_push;
use crate::failure::Failure;
use crate::fetch::{
    body_read, fetch_after, fetch_can_follow, fetch_pending, fetch_run, request_events, Fetch,
    FetchAction, FetchActionView, FetchEvent, FetchEventView, FetchView,
};
use crate::response::{cleaned, lossy_text};

verus! {

/// The texts that a fetch has asked to send, and that were sent, once all of `events`
/// have come.
pub open spec fn fetch_sent(f: FetchView, events: Seq<FetchEventView>) -> Seq<Seq<char>>
    decreases events.len(),
{
    if events.len() == 0 {
        Seq::empty()
    } else {
        let before = fetch_sent(f, events.drop_last());
        match (fetch_pending(fetch_run(f, events.drop_last())), events.last()) {
            (
                Some(FetchActionView::Request(ActionView::Send(text))),
                FetchEventView::Request(EventView::Sent(true)),
            ) => before.push(text),
            _ => before,
        }
    }
}

/// The events of a request, as events of a fetch.
pub open spec fn as_fetch_events(events: Seq<EventView>) -> Seq<FetchEventView> {
    events.map_values(|e: EventView| FetchEventView::Request(e))
}

/// A run over one event more is a step from where the run stood.
proof fn lemma_fetch_push(f: FetchView, events: Seq<FetchEventView>, event: FetchEventView)
    ensures
        fetch_run(f, events.push(event)) == fetch_after(fetch_run(f, events), event),
{
    assert(events.push(event).drop_last() =~= events);
}

/// Where a fetch stands, by where its request stands.
proof fn lemma_fetch_state(r: RequestView, events: Seq<FetchEventView>)
    requires
        !is_over(r.step),
    ensures
        ({
            let f = FetchView::Requesting(r);
            let now = request_run(r, request_events(events));
            &&& fetch_sent(f, events) == sent(r, request_events(events))
            &&& match now.step {
                Step::Open(stream) => match fetch_run(f, events) {
                    FetchView::Reading(s) => s == stream && (forall|body: Option<Seq<u8>>|
                        !#[trigger] body_read(f, events, body)),
                    FetchView::Finished(tls, text) => tls == stream.tls && exists|body: Seq<u8>|
                        #[trigger]
                        body_read(f, events, Some(body)) && text == cleaned(lossy_text(body)),
                    FetchView::Failed(failure) => failure == Failure::Passed && body_read(
                        f,
                        events,
                        None,
                    ),
                    FetchView::Requesting(_) => false,
                },
                Step::Failed(failure) => fetch_run(f, events) == FetchView::Failed(failure) && (
                forall|body: Option<Seq<u8>>| !#[trigger] body_read(f, events, body)),
                _ => fetch_run(f, events) == FetchView::Requesting(now) && (forall|
                    body: Option<Seq<u8>>,
                | !#[trigger] body_read(f, events, body)),
            }
        }),
    decreases events.len(),
{
    let f = FetchView::Requesting(r);
    if events.len() > 0 {
        let before = events.drop_last();
        lemma_fetch_state(r, before);
        if let FetchView::Finished(_, text) = fetch_run(f, before) {
            let body = choose|body: Seq<u8>| #[trigger]
                body_read(f, before, Some(body)) && text == cleaned(lossy_text(body));
            assert(body_read(f, events, Some(body)));
        }
        match events.last() {
            FetchEventView::Request(event) => {
                lemma_run_push(r, request_events(before), event);
                assert(request_events(events) == request_events(before).push(event));
                assert(request_events(events).drop_last() =~= request_events(before));
                assert(request_events(events).last() == event);
                assert forall|b: Option<Seq<u8>>| #[trigger]
                    body_read(f, events, b) == body_read(f, before, b) by {}
            },
            FetchEventView::Body(body) => {
                if fetch_run(f, before) is Reading {
                    assert(body_read(f, events, body));
                } else {
                    assert forall|b: Option<Seq<u8>>| #[trigger]
                        body_read(f, events, b) == body_read(f, before, b) by {}
                }
            },
        }
    }
}

/// A fetch starts as its request does, asks for what its request asks for until that
/// is open, and then for the stream to be read to its end. It asks for nothing once
/// it is over.
pub proof fn law_fetch_asks_what_its_request_asks(
    host: Seq<char>,
    port: Seq<char>,
    selector: Seq<char>,
    tls: bool,
    tor: bool,
    events: Seq<FetchEventView>,
)
    ensures
        ({
            let r = new_request(host, port, selector, tls, tor);
            let now = request_run(r, request_events(events));
            let f = fetch_run(FetchView::Requesting(r), events);
            match pending(now) {
                Some(action) => fetch_pending(f) == Some(FetchActionView::Request(action)),
                None => match f {
                    FetchView::Reading(_) => fetch_pending(f) == Some(FetchActionView::ReadToEnd),
                    FetchView::Requesting(_) => false,
                    _ => fetch_pending(f) is None,
                },
            }
        }),
{
    lemma_fetch_state(new_request(host, port, selector, tls, tor), events);
}

/// A fetch that is reading or has finished has asked to send the selector and the end
/// of the line, in this order and nothing else, and they were sent.
pub proof fn law_fetch_has_sent_its_line(
    host: Seq<char>,
    port: Seq<char>,
    selector: Seq<char>,
    tls: bool,
    tor: bool,
    events: Seq<FetchEventView>,
)
    ensures
        ({
            let f = FetchView::Requesting(new_request(host, port, selector, tls, tor));
            fetch_run(f, events) is Reading || fetch_run(f, events) is Finished ==> fetch_sent(
                f,
                events,
            ) == seq![selector_line(selector), "\r\n"@]
        }),
{
    lemma_fetch_state(new_request(host, port, selector, tls, tor), events);
    law_open_request_has_sent_its_line(host, port, selector, tls, tor, request_events(events));
}

/// The state of a fetch is settled by its request and by what was read: it goes on
/// while the request does, fails with it and for its reason, and reads where it is
/// open, until the body or its failure comes.
pub proof fn law_fetch_is_settled_by_its_request(
    host: Seq<char>,
    port: Seq<char>,
    selector: Seq<char>,
    tls: bool,
    tor: bool,
    events: Seq<FetchEventView>,
)
    ensures
        ({
            let r = new_request(host, port, selector, tls, tor);
            let f = FetchView::Requesting(r);
            let now = request_run(r, request_events(events));
            let answered = exists|body: Option<Seq<u8>>| #[trigger] body_read(f, events, body);
            match now.step {
                Step::Open(stream) => {
                    &&& !answered <==> fetch_run(f, events) == FetchView::Reading(stream)
                    &&& fetch_run(f, events) matches FetchView::Finished(used, _) ==> used
                        == stream.tls
                    &&& fetch_run(f, events) matches FetchView::Failed(failure) ==> failure
                        == Failure::Passed && body_read(f, events, None)
                },
                Step::Failed(failure) => fetch_run(f, events) == FetchView::Failed(failure),
                _ => fetch_run(f, events) == FetchView::Requesting(now),
            }
        }),
{
    let r = new_request(host, port, selector, tls, tor);
    let f = FetchView::Requesting(r);
    lemma_fetch_state(r, events);
    if let FetchView::Finished(_, text) = fetch_run(f, events) {
        let body = choose|body: Seq<u8>| #[trigger]
            body_read(f, events, Some(body)) && text == cleaned(lossy_text(body));
        assert(body_read(f, events, Some(body)));
    }
}

/// The events of a request take a fetch as far as the request.
proof fn lemma_request_events_back(events: Seq<EventView>)
    ensures
        request_events(as_fetch_events(events)) == events,
    decreases events.len(),
{
    let all = as_fetch_events(events);
    if events.len() > 0 {
        assert(all.drop_last() =~= as_fetch_events(events.drop_last()));
        assert(all.last() == FetchEventView::Request(events.last()));
        lemma_request_events_back(events.drop_last());
        assert(events.drop_last().push(events.last()) =~= events);
    } else {
        assert(request_events(all) =~= events);
    }
}

/// None of the events of a request is a body.
proof fn lemma_no_body(f: FetchView, events: Seq<EventView>, body: Option<Seq<u8>>)
    ensures
        !body_read(f, as_fetch_events(events), body),
    decreases events.len(),
{
    if events.len() > 0 {
        let all = as_fetch_events(events);
        assert(all.drop_last() =~= as_fetch_events(events.drop_last()));
        assert(all.last() == FetchEventView::Request(events.last()));
        lemma_no_body(f, events.drop_last(), body);
    }
}

/// Fetching is requesting and reading: whatever events open the request, the body
/// that then comes ends the fetch. It gives whether the stream was a TLS stream, and
/// the printable part of the text of the body; where the body cannot be read, that
/// failure is passed on.
pub proof fn law_body_ends_the_fetch(
    host: Seq<char>,
    port: Seq<char>,
    selector: Seq<char>,
    tls: bool,
    tor: bool,
    opening: Seq<EventView>,
    body: Seq<u8>,
)
    requires
        request_run(new_request(host, port, selector, tls, tor), opening).step is Open,
    ensures
        ({
            let r = new_request(host, port, selector, tls, tor);
            let f = FetchView::Requesting(r);
            let events = as_fetch_events(opening);
            let stream = request_run(r, opening).step->Open_0;
            &&& fetch_run(f, events.push(FetchEventView::Body(Some(body))))
                == FetchView::Finished(stream.tls, cleaned(lossy_text(body)))
            &&& fetch_run(f, events.push(FetchEventView::Body(None))) == FetchView::Failed(
                Failure::Passed,
            )
        }),
{
    let r = new_request(host, port, selector, tls, tor);
    let f = FetchView::Requesting(r);
    let events = as_fetch_events(opening);
    lemma_request_events_back(opening);
    lemma_fetch_state(r, events);
    assert forall|b: Option<Seq<u8>>| !#[trigger] body_read(f, events, b) by {
        lemma_no_body(f, opening, b);
    }
    lemma_fetch_push(f, events, FetchEventView::Body(Some(body)));
    lemma_fetch_push(f, events, FetchEventView::Body(None));
}

/// A fetch that is over stays as it is, and an event that is no answer to what a
/// fetch asks for leaves it as it is.
pub proof fn law_stray_events_leave_a_fetch(f: FetchView, event: FetchEventView)
    ensures
        fetch_pending(f) is None && !(f is Requesting) ==> fetch_after(f, event) == f,
        f is Reading && event is Request ==> fetch_after(f, event) == f,
        f is Requesting && event is Body ==> fetch_after(f, event) == f,
        event is Body ==> fetch_can_follow(f, event),
        !(f is Requesting) ==> fetch_can_follow(f, event),
        (f, event) matches (FetchView::Requesting(r), FetchEventView::Request(e)) ==> (
        fetch_can_follow(f, event) <==> can_follow(r, e)),
{
}

/// What a fetch, its actions and its events say is what they hold.
pub proof fn law_fetches_say_what_they_are(
    r: Request,
    stream: Stream,
    tls: bool,
    text: String,
    failure: Failure,
    action: Action,
    event: Event,
    body: Vec<u8>,
)
    ensures
        Fetch::Requesting(r)@ == FetchView::Requesting(r@),
        Fetch::Reading(stream)@ == FetchView::Reading(stream),
        Fetch::Finished(tls, text)@ == FetchView::Finished(tls, text@),
        Fetch::Failed(failure)@ == FetchView::Failed(failure),
        FetchAction::Request(action)@ == FetchActionView::Request(action@),
        FetchAction::ReadToEnd@ == FetchActionView::ReadToEnd,
        FetchEvent::Request(event)@ == FetchEventView::Request(event@),
        FetchEvent::Body(Some(body))@ == FetchEventView::Body(Some(body@)),
        FetchEvent::Body(None)@ == FetchEventView::Body(None),
{
}

} // verus!
