//! What calls of the library give back, and how one call relates to another.
//!
//! `call_ensures(f, args, out)` says that `out` may come of a call of `f` with `args`.
use vstd::prelude::*;
use vstd::utf8::*;

use crate::connection::{
    pending, request, request_after, selector_line, Action, Event, EventView, Request, RequestView,
    Route, Step, Stream,
};
use crate::connection_laws::request_run;
use crate::connection_traces::lemma_run_push;
use crate::download::{
    download_after, download_pending, download_url, filename_for, outcome, Download,
    DownloadAction, DownloadEvent, DownloadEventView, DownloadView, StageView,
};
use crate::download_laws::download_run;
use crate::download_traces::law_parts_name_the_file;
use crate::failure::Failure;
use crate::fetch::{
    fetch, fetch_after, fetch_pending, fetch_run, fetch_url, Fetch, FetchAction, FetchEvent,
    FetchEventView, FetchView,
};
use crate::item_type::{type_of, Type};
use crate::response::{law_cleaned_is_the_printable_part, response_text};
use crate::url::{checked_parse_url, parse_url, parseable, type_for, type_for_url, Url};
use crate::url_laws::is_name;
use crate::url_shapes::{
    law_host_port_and_path, law_telnet_urls_are_telnet, law_url_selectors_are_html, parts,
    protocol, well_cut,
};

verus! {

/// Whatever one way of parsing a URL gives, so does the other, and it gives something
/// for every URL that can be parsed and for no other.
pub proof fn law_parsing_calls_agree<'a>(url: &'a str, checked: Option<Url<'a>>, u: Url<'a>)
    requires
        call_ensures(checked_parse_url, (url,), checked),
        call_ensures(parse_url, (url,), u),
    ensures
        checked is Some <==> parseable(url@),
        checked matches Some(c) ==> c@ == u@,
{
}

/// To parse a URL that is written from a host, a port and a path is to get them back.
pub proof fn law_parsing_gives_the_parts_back<'a>(
    telnet: bool,
    host: Seq<char>,
    port: Seq<char>,
    path: Seq<char>,
    url: &'a str,
    checked: Option<Url<'a>>,
)
    requires
        is_name(host),
        is_name(port),
        port.len() > 0,
        well_cut(telnet, host + seq![':'] + port, path),
        url@ == protocol(telnet) + (host + seq![':'] + port + path),
        call_ensures(checked_parse_url, (url,), checked),
    ensures
        checked matches Some(u) && u@ == parts(telnet, host, port, path),
{
    law_host_port_and_path(telnet, host, port, path);
}

/// A URL is made of what it was given.
pub proof fn law_new_url_holds_its_parts<'a>(
    typ: Type,
    host: &'a str,
    port: &'a str,
    sel: &'a str,
    u: Url<'a>,
)
    requires
        call_ensures(Url::new, (typ, host, port, sel), u),
    ensures
        u == (Url { typ, host, port, sel }),
{
}

/// The type of a URL is known by what it starts with, if that is `telnet://`, `URL:`
/// or `/URL:`.
pub proof fn law_type_call_knows_the_start(url: &str, t: Type, rest: Seq<char>)
    requires
        call_ensures(type_for_url, (url,), t),
    ensures
        t == type_for(url@),
        url@ == "telnet://"@ + rest ==> t == Type::Telnet,
        url@ == "URL:"@ + rest ==> t == Type::HTML,
        url@ == "/URL:"@ + rest ==> t == Type::HTML,
{
    law_telnet_urls_are_telnet(rest);
    law_url_selectors_are_html(rest);
}

/// The type of a code is that of no other code.
pub proof fn law_type_calls_tell_codes_apart(c: char, d: char, s: Option<Type>, t: Option<Type>)
    requires
        call_ensures(Type::from, (c,), s),
        call_ensures(Type::from, (d,), t),
    ensures
        s == type_of(c),
        s is Some && s == t ==> c == d,
{
}

/// A request is to the server and for the selector that it was made with, and TLS comes
/// first where it is asked for, then Tor where it is, and else a plain connection.
pub proof fn law_request_is_made_as_asked(
    host: &str,
    port: &str,
    selector: &str,
    tls: bool,
    tor: bool,
    r: Request,
    step: Step,
)
    requires
        call_ensures(request, (host, port, selector, tls, tor), r),
        call_ensures(Request::step, (&r,), step),
    ensures
        r@.host == host@,
        r@.address == host@ + seq![':'] + port@,
        r@.line == selector_line(selector@),
        r@.tor == tor,
        r@.step == step,
        tls ==> step == Step::NewConnector,
        !tls && tor ==> step == Step::ReadProxy,
        !tls && !tor ==> step == Step::Lookup(Route::Plain),
{
}

/// Step by step, a request does what its run says, and asks for what its run asks for.
pub proof fn law_request_calls_follow_the_run<'a>(
    first: RequestView,
    events: Seq<EventView>,
    r: Request,
    action: Option<Action<'a>>,
    event: Event,
    next: Request,
)
    requires
        r@ == request_run(first, events),
        call_ensures(Request::action, (&r,), action),
        call_ensures(Request::advance, (r, event), next),
    ensures
        next@ == request_after(r@, event@),
        next@ == request_run(first, events.push(event@)),
        action is None <==> r@.step is Open || r@.step is Failed,
        action matches Some(a) ==> pending(r@) == Some(a@),
{
    lemma_run_push(first, events, event@);
}

/// A stream says whether it is a TLS stream.
pub proof fn law_stream_says_whether_it_is_tls(stream: Stream, b: bool)
    requires
        call_ensures(Stream::is_tls, (&stream,), b),
    ensures
        b <==> stream == (Stream { tls: true }),
{
}

/// To fetch an item by its parts is to make the request for them.
pub proof fn law_fetch_makes_the_request(
    host: &str,
    port: &str,
    selector: &str,
    tls: bool,
    tor: bool,
    f: Fetch,
    r: Request,
)
    requires
        call_ensures(fetch, (host, port, selector, tls, tor), f),
        call_ensures(request, (host, port, selector, tls, tor), r),
    ensures
        f@ == FetchView::Requesting(r@),
{
}

/// To fetch a URL is to fetch the parts that it is parsed into.
pub proof fn law_fetch_url_fetches_its_parts<'a>(
    url: &'a str,
    u: Url<'a>,
    tls: bool,
    tor: bool,
    f: Fetch,
    g: Fetch,
)
    requires
        call_ensures(parse_url, (url,), u),
        call_ensures(fetch_url, (url, tls, tor), f),
        call_ensures(fetch, (u.host, u.port, u.sel, tls, tor), g),
    ensures
        f@ == g@,
{
}

/// A URL that is written from a host, a port and a path is fetched from that host and
/// that port, by the path or, behind a type code, by what follows it.
pub proof fn law_fetch_url_asks_the_server_of_its_url(
    telnet: bool,
    host: Seq<char>,
    port: Seq<char>,
    path: Seq<char>,
    url: &str,
    tls: bool,
    tor: bool,
    f: Fetch,
)
    requires
        is_name(host),
        is_name(port),
        port.len() > 0,
        well_cut(telnet, host + seq![':'] + port, path),
        url@ == protocol(telnet) + (host + seq![':'] + port + path),
        call_ensures(fetch_url, (url, tls, tor), f),
    ensures
        f@ matches FetchView::Requesting(r) && {
            &&& r.host == host
            &&& r.address == host + seq![':'] + port
            &&& r.line == selector_line(
                if !telnet && path.len() >= 2 && type_of(path[1]) is Some {
                    path.skip(2)
                } else {
                    path
                },
            )
        },
{
    law_host_port_and_path(telnet, host, port, path);
}

/// Step by step, a fetch does what its run says, and asks for what its run asks for.
pub proof fn law_fetch_calls_follow_the_run<'a>(
    first: FetchView,
    events: Seq<FetchEventView>,
    f: Fetch,
    action: Option<FetchAction<'a>>,
    event: FetchEvent,
    next: Fetch,
)
    requires
        f@ == fetch_run(first, events),
        call_ensures(Fetch::action, (&f,), action),
        call_ensures(Fetch::advance, (f, event), next),
    ensures
        next@ == fetch_after(f@, event@),
        next@ == fetch_run(first, events.push(event@)),
        action is Some <==> fetch_pending(f@) is Some,
        action matches Some(a) ==> fetch_pending(f@) == Some(a@),
{
    assert(events.push(event@).drop_last() =~= events);
}

/// The text of a response in UTF-8 holds those characters of it that are neither DEL
/// nor a C1 control character, and no others.
pub proof fn law_response_text_is_the_printable_part(body: &[u8], text: String, c: char)
    requires
        call_ensures(response_text, (body,), text),
        valid_utf8(body@),
    ensures
        text@.contains(c) <==> decode_utf8(body@).contains(c) && !('\u{7f}' <= c <= '\u{9f}'),
{
    law_cleaned_is_the_printable_part(decode_utf8(body@), c);
}

/// A selector is downloaded to a file of its last part's name.
pub proof fn law_filename_call_names_the_last_part(
    directory: Seq<char>,
    part: Seq<char>,
    sel: &str,
    name: Option<&str>,
)
    requires
        part.len() > 0,
        !part.contains('/'),
        ({
            ||| sel@ == part
            ||| sel@ == part + seq!['/']
            ||| sel@ == directory + seq!['/'] + part
            ||| sel@ == directory + seq!['/'] + part + seq!['/']
        }),
        call_ensures(filename_for, (sel,), name),
    ensures
        name matches Some(n) && n@ == part,
{
    law_parts_name_the_file(directory, part);
}

/// To download a URL is to make the request that fetching it makes, for a file that its
/// selector names; where that names none, nothing is asked for.
pub proof fn law_download_url_makes_the_request_of_a_fetch<'a>(
    url: &'a str,
    u: Url<'a>,
    name: Option<&str>,
    tls: bool,
    tor: bool,
    d: Result<Download, Failure>,
    f: Fetch,
)
    requires
        call_ensures(parse_url, (url,), u),
        call_ensures(filename_for, (u.sel,), name),
        call_ensures(download_url, (url, tls, tor), d),
        call_ensures(fetch_url, (url, tls, tor), f),
    ensures
        u.sel@.len() == 0 <==> name is None,
        name is None ==> d == Err::<Download, Failure>(Failure::Filename),
        name matches Some(n) ==> {
            &&& d is Ok
            &&& d->Ok_0@.filename == n@
            &&& d->Ok_0@.bytes == 0
            &&& d->Ok_0@.stage is Requesting
            &&& f@ == FetchView::Requesting(d->Ok_0@.stage->Requesting_0)
        },
{
}

/// Step by step, a download does what its run says, asks for what its run asks for, and
/// says what came of it.
pub proof fn law_download_calls_follow_the_run<'a>(
    first: DownloadView,
    events: Seq<DownloadEventView>,
    d: Download,
    action: Option<DownloadAction<'a>>,
    result: Option<Result<(&'a str, usize), Failure>>,
    event: DownloadEvent,
    next: Download,
)
    requires
        d@ == download_run(first, events),
        call_ensures(Download::action, (&d,), action),
        call_ensures(Download::outcome, (&d,), result),
        call_ensures(Download::advance, (d, event), next),
    ensures
        next@ == download_after(d@, event@),
        next@ == download_run(first, events.push(event@)),
        action is Some <==> download_pending(d@) is Some,
        action matches Some(a) ==> download_pending(d@) == Some(a@),
        result is None <==> outcome(d@) is None,
        result matches Some(Ok((name, bytes))) ==> d@.stage == StageView::Finished && name@
            == d@.filename && bytes == d@.bytes,
        result matches Some(Err(failure)) ==> d@.stage == StageView::Failed(failure),
{
    assert(events.push(event@).drop_last() =~= events);
}

/// A failure is reported in the words of its cause, in those words behind what failed, or
/// in words of its own.
pub proof fn law_failures_are_reported(
    cause: &str,
    passed: String,
    no_address: String,
    tor: String,
    filename: String,
    cancelled: String,
)
    requires
        call_ensures(Failure::message, (Failure::Passed, cause), passed),
        call_ensures(Failure::message, (Failure::NoAddress, cause), no_address),
        call_ensures(Failure::message, (Failure::Tor, cause), tor),
        call_ensures(Failure::message, (Failure::Filename, cause), filename),
        call_ensures(Failure::message, (Failure::Cancelled, cause), cancelled),
    ensures
        passed@ == cause@,
        no_address@ == "Can't create socket"@,
        tor@ == "Tor error: "@ + cause@,
        filename@ == "Bad download filename: "@ + cause@,
        cancelled@ == "Download cancelled"@,
{
}

} // verus!
