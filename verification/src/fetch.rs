//! Fetching a Gopher item as a text.
use vstd::prelude::*;
use vstd::utf8::*;

use crate::connection::{
    can_follow, new_request, pending, request, request_after, Action, ActionView, Event, EventView,
    Request, RequestView, Step, Stream,
};
use crate::connection_laws::{is_over, law_tls_is_tried_first, request_run};
use crate::failure::Failure;
use crate::response::{
    cleaned, is_printable, law_cleaned_is_the_printable_part, lossy_text, response_text,
};
use crate::url::{parse_url, parseable, parsed};

verus! {

/// A Gopher item that is being fetched.
#[derive(Debug)]
pub enum Fetch {
    /// The item is being asked for.
    Requesting(Request),
    /// The response is to be read.
    Reading(Stream),
    /// The item has been fetched: did tls work, and the Gopher response.
    Finished(bool, String),
    /// The item cannot be fetched.
    Failed(Failure),
}

/// A fetch, with its texts as sequences.
#[verifier::ext_equal]
pub enum FetchView {
    Requesting(RequestView),
    Reading(Stream),
    Finished(bool, Seq<char>),
    Failed(Failure),
}

impl View for Fetch {
    type V = FetchView;

    open spec fn view(&self) -> FetchView {
        match *self {
            Fetch::Requesting(r) => FetchView::Requesting(r@),
            Fetch::Reading(stream) => FetchView::Reading(stream),
            Fetch::Finished(tls, text) => FetchView::Finished(tls, text@),
            Fetch::Failed(failure) => FetchView::Failed(failure),
        }
    }
}

/// What a fetch asks its caller to do.
#[derive(Clone, Copy, Debug)]
pub enum FetchAction<'a> {
    /// What the request asks for.
    Request(Action<'a>),
    /// Read the stream to its end.
    ReadToEnd,
}

/// An action of a fetch, with its texts as sequences.
#[verifier::ext_equal]
pub enum FetchActionView {
    Request(ActionView),
    ReadToEnd,
}

impl<'a> View for FetchAction<'a> {
    type V = FetchActionView;

    open spec fn view(&self) -> FetchActionView {
        match *self {
            FetchAction::Request(action) => FetchActionView::Request(action@),
            FetchAction::ReadToEnd => FetchActionView::ReadToEnd,
        }
    }
}

/// How the thing that a fetch asked for went.
#[derive(Debug)]
pub enum FetchEvent {
    /// How the thing that the request asked for went.
    Request(Event),
    /// What the stream held, or `None` where it cannot be read.
    Body(Option<Vec<u8>>),
}

/// An event of a fetch, with its contents as sequences.
#[verifier::ext_equal]
pub enum FetchEventView {
    Request(EventView),
    Body(Option<Seq<u8>>),
}

impl View for FetchEvent {
    type V = FetchEventView;

    open spec fn view(&self) -> FetchEventView {
        match *self {
            FetchEvent::Request(event) => FetchEventView::Request(event@),
            FetchEvent::Body(Some(body)) => FetchEventView::Body(Some(body@)),
            FetchEvent::Body(None) => FetchEventView::Body(None),
        }
    }
}

/// A fetch of which the request is `r`.
pub open spec fn fetch_with(r: RequestView) -> FetchView {
    match r.step {
        Step::Open(stream) => FetchView::Reading(stream),
        Step::Failed(failure) => FetchView::Failed(failure),
        _ => FetchView::Requesting(r),
    }
}

/// What a fetch asks for, unless it is over.
pub open spec fn fetch_pending(f: FetchView) -> Option<FetchActionView> {
    match f {
        FetchView::Requesting(r) => match pending(r) {
            Some(action) => Some(FetchActionView::Request(action)),
            None => None,
        },
        FetchView::Reading(_) => Some(FetchActionView::ReadToEnd),
        FetchView::Finished(_, _) => None,
        FetchView::Failed(_) => None,
    }
}

/// A fetch once `event` has come. An event that is no answer to what was asked
/// for changes nothing.
pub open spec fn fetch_after(f: FetchView, event: FetchEventView) -> FetchView {
    match (f, event) {
        (FetchView::Requesting(r), FetchEventView::Request(event)) => fetch_with(
            request_after(r, event),
        ),
        (FetchView::Reading(stream), FetchEventView::Body(Some(body))) => FetchView::Finished(
            stream.tls,
            cleaned(lossy_text(body)),
        ),
        (FetchView::Reading(_), FetchEventView::Body(None)) => FetchView::Failed(Failure::Passed),
        _ => f,
    }
}

/// Whether a fetch can go on after `event`.
pub open spec fn fetch_can_follow(f: FetchView, event: FetchEventView) -> bool {
    match (f, event) {
        (FetchView::Requesting(r), FetchEventView::Request(event)) => can_follow(r, event),
        _ => true,
    }
}

/// Fetches a gopher URL by its component parts.
pub fn fetch(host: &str, port: &str, selector: &str, tls: bool, tor: bool) -> (f: Fetch)
    ensures
        f@ == FetchView::Requesting(new_request(host@, port@, selector@, tls, tor)),
{
    Fetch::Requesting(request(host, port, selector, tls, tor))
}

/// Fetches a gopher URL.
pub fn fetch_url(url: &str, tls: bool, tor: bool) -> (f: Fetch)
    requires
        parseable(url@),
    ensures
        f@ == FetchView::Requesting(
            new_request(parsed(url@).host, parsed(url@).port, parsed(url@).sel, tls, tor),
        ),
{
    let u = parse_url(url);
    fetch(u.host, u.port, u.sel, tls, tor)
}

impl Fetch {
    /// What is to be done next, unless the fetch is over.
    pub fn action<'a>(&'a self) -> (action: Option<FetchAction<'a>>)
        ensures
            action is Some <==> fetch_pending(self@) is Some,
            action matches Some(a) ==> fetch_pending(self@) == Some(a@),
    {
        match self {
            Fetch::Requesting(r) => match r.action() {
                Some(action) => Some(FetchAction::Request(action)),
                None => None,
            },
            Fetch::Reading(_) => Some(FetchAction::ReadToEnd),
            Fetch::Finished(_, _) => None,
            Fetch::Failed(_) => None,
        }
    }

    /// Goes on from how the thing that was asked for went.
    pub fn advance(self, event: FetchEvent) -> (f: Fetch)
        requires
            fetch_can_follow(self@, event@),
        ensures
            f@ == fetch_after(self@, event@),
            (self@, event@) matches (
                FetchView::Reading(stream),
                FetchEventView::Body(Some(body)),
            ) ==> valid_utf8(body) ==> f@ == FetchView::Finished(
                stream.tls,
                cleaned(decode_utf8(body)),
            ),
    {
        match (self, event) {
            (Fetch::Requesting(r), FetchEvent::Request(event)) => {
                let r = r.advance(event);
                match r.step() {
                    Step::Open(stream) => Fetch::Reading(stream),
                    Step::Failed(failure) => Fetch::Failed(failure),
                    _ => Fetch::Requesting(r),
                }
            },
            (Fetch::Reading(stream), FetchEvent::Body(Some(body))) => Fetch::Finished(
                stream.is_tls(),
                response_text(body.as_slice()),
            ),
            (Fetch::Reading(_), FetchEvent::Body(None)) => Fetch::Failed(Failure::Passed),
            (f, _) => f,
        }
    }
}

/// A fetch once all of `events` have come.
pub open spec fn fetch_run(f: FetchView, events: Seq<FetchEventView>) -> FetchView
    decreases events.len(),
{
    if events.len() == 0 {
        f
    } else {
        fetch_after(fetch_run(f, events.drop_last()), events.last())
    }
}

/// Those of `events` that are events of the request.
pub open spec fn request_events(events: Seq<FetchEventView>) -> Seq<EventView>
    decreases events.len(),
{
    if events.len() == 0 {
        Seq::empty()
    } else {
        match events.last() {
            FetchEventView::Request(event) => request_events(events.drop_last()).push(event),
            FetchEventView::Body(_) => request_events(events.drop_last()),
        }
    }
}

/// Whether `body` came as the answer to the reading of the stream, once all of
/// `events` have come.
pub open spec fn body_read(
    f: FetchView,
    events: Seq<FetchEventView>,
    body: Option<Seq<u8>>,
) -> bool
    decreases events.len(),
{
    events.len() > 0 && {
        ||| body_read(f, events.drop_last(), body)
        ||| fetch_run(f, events.drop_last()) is Reading && events.last() == FetchEventView::Body(
            body,
        )
    }
}

/// A fetch follows its request to the end, and then the body.
proof fn lemma_fetch_follows_request(r: RequestView, events: Seq<FetchEventView>)
    requires
        !is_over(r.step),
    ensures
        ({
            let step = request_run(r, request_events(events)).step;
            match fetch_run(FetchView::Requesting(r), events) {
                FetchView::Requesting(now) => now == request_run(r, request_events(events))
                    && !is_over(step),
                FetchView::Reading(stream) => step == Step::Open(stream),
                FetchView::Finished(tls, text) => {
                    &&& step == Step::Open(Stream { tls })
                    &&& exists|body: Seq<u8>| #[trigger]
                        body_read(FetchView::Requesting(r), events, Some(body)) && text == cleaned(
                            lossy_text(body),
                        )
                },
                FetchView::Failed(failure) => {
                    ||| step == Step::Failed(failure)
                    ||| step is Open && failure == Failure::Passed && body_read(
                        FetchView::Requesting(r),
                        events,
                        None,
                    )
                },
            }
        }),
    decreases events.len(),
{
    if events.len() > 0 {
        let before = events.drop_last();
        lemma_fetch_follows_request(r, before);
        let f = FetchView::Requesting(r);
        if let FetchView::Finished(_, text) = fetch_run(f, before) {
            let body = choose|body: Seq<u8>| #[trigger]
                body_read(f, before, Some(body)) && text == cleaned(lossy_text(body));
            assert(body_read(f, events, Some(body)));
        } else if let FetchEventView::Body(Some(body)) = events.last() {
            if fetch_run(f, before) is Reading {
                assert(body_read(f, events, Some(body)));
            }
        }
        match events.last() {
            FetchEventView::Request(event) => {
                assert(request_events(events).drop_last() =~= request_events(before));
            },
            FetchEventView::Body(_) => {},
        }
    }
}

/// A fetch that is finished made a request that came to be open, says of TLS what
/// that request's stream says, and gives the printable part of what was read.
pub proof fn law_fetch_gives_the_response(
    host: Seq<char>,
    port: Seq<char>,
    selector: Seq<char>,
    tls: bool,
    tor: bool,
    events: Seq<FetchEventView>,
)
    ensures
        ({
            let r = new_request(host, port, selector, tls, tor);
            fetch_run(FetchView::Requesting(r), events) matches FetchView::Finished(used, text)
                ==> {
                &&& request_run(r, request_events(events)).step == Step::Open(Stream { tls: used })
                &&& used ==> tls
                &&& exists|body: Seq<u8>| #[trigger]
                    body_read(FetchView::Requesting(r), events, Some(body)) && text == cleaned(
                        lossy_text(body),
                    )
                &&& forall|c: char| #[trigger] text.contains(c) ==> is_printable(c)
            }
        }),
{
    let r = new_request(host, port, selector, tls, tor);
    lemma_fetch_follows_request(r, events);
    law_tls_is_tried_first(host, port, selector, tls, tor, request_events(events));
    if let FetchView::Finished(used, text) = fetch_run(FetchView::Requesting(r), events) {
        let body = choose|body: Seq<u8>| #[trigger]
            body_read(FetchView::Requesting(r), events, Some(body)) && text == cleaned(
                lossy_text(body),
            );
        assert forall|c: char| #[trigger] text.contains(c) implies is_printable(c) by {
            law_cleaned_is_the_printable_part(lossy_text(body), c);
        }
    }
}

/// A fetch fails only where its request failed, for that request's reason, or
/// where the response cannot be read.
pub proof fn law_fetch_fails_with_its_request(
    host: Seq<char>,
    port: Seq<char>,
    selector: Seq<char>,
    tls: bool,
    tor: bool,
    events: Seq<FetchEventView>,
)
    ensures
        ({
            let r = new_request(host, port, selector, tls, tor);
            let step = request_run(r, request_events(events)).step;
            fetch_run(FetchView::Requesting(r), events) matches FetchView::Failed(failure) ==> {
                ||| step == Step::Failed(failure)
                ||| step is Open && failure == Failure::Passed && body_read(
                    FetchView::Requesting(r),
                    events,
                    None,
                )
            }
        }),
{
    lemma_fetch_follows_request(new_request(host, port, selector, tls, tor), events);
}

} // verus!
