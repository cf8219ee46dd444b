//! What a download asks for, answer by answer, and what comes of it.
use vstd::prelude::*;

use crate::connection::{
    can_follow, new_request, pending, request_after, selector_line, Action, ActionView, Event,
    EventView, Request, RequestView, Step,
};
use crate::connection_laws::{is_over, law_open_request_has_sent_its_line, request_run, sent};
use crate::connection_traces::lemma_run_push;
use crate::download::{
    download_after, download_can_follow, download_pending, filename_of, new_download, outcome,
    without_final_slash, DownloadAction, DownloadActionView, DownloadEvent, DownloadEventView,
    DownloadView, Key, Stage, StageView,
};
use crate::download_laws::{
    download_answered, download_run, law_name_comes_back, request_part, run_can_follow, stored,
};
use crate::failure::Failure;

verus! {

/// The texts that a download has asked to send, and that were sent, once all of
/// `events` have come.
pub open spec fn download_sent(d: DownloadView, events: Seq<DownloadEventView>) -> Seq<Seq<char>>
    decreases events.len(),
{
    if events.len() == 0 {
        Seq::empty()
    } else {
        let before = download_sent(d, events.drop_last());
        match (download_pending(download_run(d, events.drop_last())), events.last()) {
            (
                Some(DownloadActionView::Request(ActionView::Send(text))),
                DownloadEventView::Request(EventView::Sent(true)),
            ) => before.push(text),
            _ => before,
        }
    }
}

/// The events of a request, as events of a download.
pub open spec fn as_download_events(events: Seq<EventView>) -> Seq<DownloadEventView> {
    events.map_values(|e: EventView| DownloadEventView::Request(e))
}

/// All of `chunks`, one behind the other.
pub open spec fn joined(chunks: Seq<Seq<u8>>) -> Seq<u8>
    decreases chunks.len(),
{
    if chunks.len() == 0 {
        Seq::empty()
    } else {
        joined(chunks.drop_last()) + chunks.last()
    }
}

/// What happens while `chunks` are downloaded: each is read, written to the file, and
/// followed by the key that the user presses, if any.
pub open spec fn transfer(
    chunks: Seq<Seq<u8>>,
    keys: Seq<Option<Key>>,
) -> Seq<DownloadEventView>
    decreases chunks.len(),
{
    if chunks.len() == 0 {
        Seq::empty()
    } else {
        transfer(chunks.drop_last(), keys.drop_last()).push(
            DownloadEventView::Read(Some(chunks.last())),
        ).push(DownloadEventView::Written(true)).push(DownloadEventView::Pressed(keys.last()))
    }
}

/// A run over one event more is a step from where the run stood.
proof fn lemma_download_push(
    d: DownloadView,
    events: Seq<DownloadEventView>,
    event: DownloadEventView,
)
    ensures
        download_run(d, events.push(event)) == download_after(download_run(d, events), event),
        run_can_follow(d, events.push(event)) <==> run_can_follow(d, events)
            && download_can_follow(download_run(d, events), event),
{
    assert(events.push(event).drop_last() =~= events);
}

/// Reading, writing and asking leave the events before them as they were.
proof fn lemma_stored_push(
    d: DownloadView,
    events: Seq<DownloadEventView>,
    event: DownloadEventView,
)
    ensures
        stored(d, events.push(event)) == (match (
            download_pending(download_run(d, events)),
            event,
        ) {
            (
                Some(DownloadActionView::Write(chunk)),
                DownloadEventView::Written(true),
            ) => stored(d, events) + chunk,
            _ => stored(d, events),
        }),
{
    assert(events.push(event).drop_last() =~= events);
}

/// Where a download stands, by where its request stands.
proof fn lemma_download_state(
    filename: Seq<char>,
    r: RequestView,
    events: Seq<DownloadEventView>,
)
    requires
        !is_over(r.step),
    ensures
        ({
            let d = new_download(filename, r);
            let now = request_run(r, request_part(events));
            let run = download_run(d, events);
            &&& run.filename == filename
            &&& download_sent(d, events) == sent(r, request_part(events))
            &&& match now.step {
                Step::Open(_) => !(run.stage is Requesting),
                Step::Failed(failure) => run.stage == StageView::Failed(failure),
                _ => run.stage == StageView::Requesting(now),
            }
        }),
    decreases events.len(),
{
    if events.len() > 0 {
        let before = events.drop_last();
        lemma_download_state(filename, r, before);
        match events.last() {
            DownloadEventView::Request(event) => {
                lemma_run_push(r, request_part(before), event);
                assert(request_part(events) == request_part(before).push(event));
                assert(request_part(events).drop_last() =~= request_part(before));
                assert(request_part(events).last() == event);
            },
            _ => {},
        }
    }
}

/// A download asks for what its request asks for until that is open, and for nothing
/// of the kind from then on.
pub proof fn law_download_asks_what_its_request_asks(
    filename: Seq<char>,
    host: Seq<char>,
    port: Seq<char>,
    selector: Seq<char>,
    tls: bool,
    tor: bool,
    events: Seq<DownloadEventView>,
)
    ensures
        ({
            let r = new_request(host, port, selector, tls, tor);
            let now = request_run(r, request_part(events));
            let asked = download_pending(download_run(new_download(filename, r), events));
            match pending(now) {
                Some(action) => asked == Some(DownloadActionView::Request(action)),
                None => asked matches Some(action) ==> !(action is Request),
            }
        }),
{
    lemma_download_state(filename, new_request(host, port, selector, tls, tor), events);
}

/// A download that has come to its file, or has finished, has asked to send the
/// selector and the end of the line, in this order and nothing else, and they were
/// sent.
pub proof fn law_download_has_sent_its_line(
    filename: Seq<char>,
    host: Seq<char>,
    port: Seq<char>,
    selector: Seq<char>,
    tls: bool,
    tor: bool,
    events: Seq<DownloadEventView>,
)
    ensures
        ({
            let d = new_download(filename, new_request(host, port, selector, tls, tor));
            let stage = download_run(d, events).stage;
            !(stage is Requesting) && !(stage is Failed) ==> download_sent(d, events) == seq![
                selector_line(selector),
                "\r\n"@,
            ]
        }),
{
    lemma_download_state(filename, new_request(host, port, selector, tls, tor), events);
    law_open_request_has_sent_its_line(host, port, selector, tls, tor, request_part(events));
}

/// The events of a request take a download as far as the request.
proof fn lemma_request_part_back(events: Seq<EventView>)
    ensures
        request_part(as_download_events(events)) == events,
    decreases events.len(),
{
    let all = as_download_events(events);
    if events.len() > 0 {
        assert(all.drop_last() =~= as_download_events(events.drop_last()));
        assert(all.last() == DownloadEventView::Request(events.last()));
        lemma_request_part_back(events.drop_last());
        assert(events.drop_last().push(events.last()) =~= events);
    } else {
        assert(request_part(all) =~= events);
    }
}

/// The events that open a request bring a download to the creation of its file, with
/// nothing counted and nothing written.
proof fn lemma_opened(filename: Seq<char>, r: RequestView, opening: Seq<EventView>)
    requires
        !is_over(r.step),
    ensures
        ({
            let d = new_download(filename, r);
            let run = download_run(d, as_download_events(opening));
            &&& run.bytes == 0
            &&& run.filename == filename
            &&& stored(d, as_download_events(opening)) == Seq::<u8>::empty()
            &&& match request_run(r, opening).step {
                Step::Open(_) => run.stage == StageView::Creating,
                Step::Failed(failure) => run.stage == StageView::Failed(failure),
                _ => run.stage == StageView::Requesting(request_run(r, opening)),
            }
        }),
    decreases opening.len(),
{
    let all = as_download_events(opening);
    if opening.len() > 0 {
        assert(all.drop_last() =~= as_download_events(opening.drop_last()));
        assert(all.last() == DownloadEventView::Request(opening.last()));
        lemma_opened(filename, r, opening.drop_last());
    }
}

/// A chunk is read, written and asked about.
proof fn lemma_one_chunk(
    d: DownloadView,
    before: Seq<DownloadEventView>,
    chunk: Seq<u8>,
    key: Option<Key>,
)
    requires
        download_run(d, before).stage == StageView::Reading,
        chunk.len() > 0,
        key != Some(Key::Ctrl('c')),
        download_run(d, before).bytes + chunk.len() <= usize::MAX,
    ensures
        ({
            let run = download_run(d, before);
            let events = before.push(DownloadEventView::Read(Some(chunk))).push(
                DownloadEventView::Written(true),
            ).push(DownloadEventView::Pressed(key));
            &&& download_run(d, events).stage == StageView::Reading
            &&& download_run(d, events).filename == run.filename
            &&& download_run(d, events).bytes == run.bytes + chunk.len()
            &&& stored(d, events) == stored(d, before) + chunk
        }),
{
    let e1 = before.push(DownloadEventView::Read(Some(chunk)));
    let e2 = e1.push(DownloadEventView::Written(true));
    lemma_download_push(d, before, DownloadEventView::Read(Some(chunk)));
    lemma_download_push(d, e1, DownloadEventView::Written(true));
    lemma_download_push(d, e2, DownloadEventView::Pressed(key));
    lemma_stored_push(d, before, DownloadEventView::Read(Some(chunk)));
    lemma_stored_push(d, e1, DownloadEventView::Written(true));
    lemma_stored_push(d, e2, DownloadEventView::Pressed(key));
}

/// Any number of chunks are read, written and asked about.
proof fn lemma_transfer(
    d: DownloadView,
    before: Seq<DownloadEventView>,
    chunks: Seq<Seq<u8>>,
    keys: Seq<Option<Key>>,
)
    requires
        download_run(d, before).stage == StageView::Reading,
        download_run(d, before).bytes == 0,
        stored(d, before) == Seq::<u8>::empty(),
        keys.len() == chunks.len(),
        forall|i: int| 0 <= i < chunks.len() ==> #[trigger] chunks[i].len() > 0,
        forall|i: int| 0 <= i < keys.len() ==> #[trigger] keys[i] != Some(Key::Ctrl('c')),
        joined(chunks).len() <= usize::MAX,
    ensures
        ({
            let run = download_run(d, before + transfer(chunks, keys));
            &&& run.stage == StageView::Reading
            &&& run.filename == download_run(d, before).filename
            &&& run.bytes == joined(chunks).len()
            &&& stored(d, before + transfer(chunks, keys)) == joined(chunks)
        }),
    decreases chunks.len(),
{
    if chunks.len() == 0 {
        assert(before + transfer(chunks, keys) =~= before);
        assert(joined(chunks) =~= Seq::<u8>::empty());
    } else {
        let front = chunks.drop_last();
        let pressed = keys.drop_last();
        assert forall|i: int| 0 <= i < front.len() implies #[trigger] front[i].len() > 0 by {
            assert(front[i] == chunks[i]);
        }
        assert forall|i: int| 0 <= i < pressed.len() implies #[trigger] pressed[i] != Some(
            Key::Ctrl('c'),
        ) by {
            assert(pressed[i] == keys[i]);
        }
        lemma_transfer(d, before, front, pressed);
        let sofar = before + transfer(front, pressed);
        let chunk = chunks.last();
        assert(chunks[chunks.len() - 1].len() > 0);
        assert(keys[keys.len() - 1] != Some(Key::Ctrl('c')));
        lemma_one_chunk(d, sofar, chunk, keys.last());
        assert(before + transfer(chunks, keys) =~= sofar.push(
            DownloadEventView::Read(Some(chunk)),
        ).push(DownloadEventView::Written(true)).push(DownloadEventView::Pressed(keys.last())));
    }
}

/// Downloading is requesting, creating the file, and transferring the stream to its
/// end: whatever events open the request, and however many chunks of whatever size
/// the stream comes in, all of them are read and written, whatever keys but Ctrl-c
/// are pressed meanwhile. The stream ends with an empty chunk, or where it cannot be
/// read. The file then holds the whole stream, and the outcome is its name and size.
pub proof fn law_whole_stream_is_downloaded(
    filename: Seq<char>,
    host: Seq<char>,
    port: Seq<char>,
    selector: Seq<char>,
    tls: bool,
    tor: bool,
    opening: Seq<EventView>,
    chunks: Seq<Seq<u8>>,
    keys: Seq<Option<Key>>,
    end: Option<Seq<u8>>,
)
    requires
        request_run(new_request(host, port, selector, tls, tor), opening).step is Open,
        keys.len() == chunks.len(),
        forall|i: int| 0 <= i < chunks.len() ==> #[trigger] chunks[i].len() > 0,
        forall|i: int| 0 <= i < keys.len() ==> #[trigger] keys[i] != Some(Key::Ctrl('c')),
        joined(chunks).len() <= usize::MAX,
        end matches Some(chunk) ==> chunk.len() == 0,
    ensures
        ({
            let d = new_download(filename, new_request(host, port, selector, tls, tor));
            let created = as_download_events(opening).push(DownloadEventView::Created(true));
            let events = created + transfer(chunks, keys);
            let all = events.push(DownloadEventView::Read(end));
            &&& download_pending(download_run(d, as_download_events(opening))) == Some(
                DownloadActionView::Create(filename),
            )
            &&& outcome(download_run(d, events)) is None
            &&& download_pending(download_run(d, events)) == Some(
                DownloadActionView::Read(1024),
            )
            &&& outcome(download_run(d, all)) == Some(
                Ok::<(Seq<char>, usize), Failure>((filename, joined(chunks).len() as usize)),
            )
            &&& download_pending(download_run(d, all)) is None
            &&& stored(d, all) == joined(chunks)
        }),
{
    let r = new_request(host, port, selector, tls, tor);
    let d = new_download(filename, r);
    let opened = as_download_events(opening);
    let created = opened.push(DownloadEventView::Created(true));
    lemma_opened(filename, r, opening);
    lemma_download_push(d, opened, DownloadEventView::Created(true));
    lemma_stored_push(d, opened, DownloadEventView::Created(true));
    lemma_transfer(d, created, chunks, keys);
    let events = created + transfer(chunks, keys);
    lemma_download_push(d, events, DownloadEventView::Read(end));
    lemma_stored_push(d, events, DownloadEventView::Read(end));
}

/// Whether a chunk is the end of a stream.
pub open spec fn is_end(chunk: Option<Seq<u8>>) -> bool {
    chunk matches Some(bytes) ==> bytes.len() == 0
}

/// A download has finished exactly where the stream came to its end: a chunk that was
/// asked for was empty, or could not be read.
pub proof fn law_finished_at_the_end_of_the_stream(
    filename: Seq<char>,
    r: RequestView,
    events: Seq<DownloadEventView>,
)
    ensures
        ({
            let d = new_download(filename, r);
            download_run(d, events).stage == StageView::Finished <==> exists|
                chunk: Option<Seq<u8>>,
            | #[trigger]
                download_answered(
                    d,
                    events,
                    StageView::Reading,
                    DownloadEventView::Read(chunk),
                ) && is_end(chunk)
        }),
    decreases events.len(),
{
    let d = new_download(filename, r);
    if events.len() > 0 {
        let before = events.drop_last();
        law_finished_at_the_end_of_the_stream(filename, r, before);
        if download_run(d, before).stage == StageView::Finished {
            let chunk = choose|chunk: Option<Seq<u8>>| #[trigger]
                download_answered(
                    d,
                    before,
                    StageView::Reading,
                    DownloadEventView::Read(chunk),
                ) && is_end(chunk);
            assert(download_answered(
                d,
                events,
                StageView::Reading,
                DownloadEventView::Read(chunk),
            ));
        }
        if let (StageView::Reading, DownloadEventView::Read(chunk)) = (
            download_run(d, before).stage,
            events.last(),
        ) {
            assert(download_answered(
                d,
                events,
                StageView::Reading,
                DownloadEventView::Read(chunk),
            ));
        }
        if exists|chunk: Option<Seq<u8>>| #[trigger]
            download_answered(d, events, StageView::Reading, DownloadEventView::Read(chunk))
                && is_end(chunk) {
            let chunk = choose|chunk: Option<Seq<u8>>| #[trigger]
                download_answered(
                    d,
                    events,
                    StageView::Reading,
                    DownloadEventView::Read(chunk),
                ) && is_end(chunk);
            assert(download_answered(
                d,
                before,
                StageView::Reading,
                DownloadEventView::Read(chunk),
            ) || events.last() == DownloadEventView::Read(chunk));
        }
    }
}

/// Answer by answer, what a download asks for next, or what comes of it. The file is
/// created, and then read for; a chunk is written as it was read; then the user may
/// cancel, and else more is read for, however much has been counted; a file that is
/// not wanted is looked for and removed. What fails is passed on.
pub proof fn law_answers_to_a_download(d: DownloadView, event: DownloadEventView)
    requires
        download_can_follow(d, event),
    ensures
        ({
            let next = download_after(d, event);
            let asked = download_pending(next);
            let passed = outcome(next) == Some(
                Err::<(Seq<char>, usize), Failure>(Failure::Passed),
            );
            let cancelled = outcome(next) == Some(
                Err::<(Seq<char>, usize), Failure>(Failure::Cancelled),
            );
            match (download_pending(d), event) {
                (
                    Some(DownloadActionView::Create(_)),
                    DownloadEventView::Created(done),
                ) => next.bytes == d.bytes && if done {
                    asked == Some(DownloadActionView::Read(1024))
                } else {
                    passed
                },
                (
                    Some(DownloadActionView::Read(_)),
                    DownloadEventView::Read(chunk),
                ) => if is_end(chunk) {
                    outcome(next) == Some(
                        Ok::<(Seq<char>, usize), Failure>((d.filename, d.bytes)),
                    )
                } else {
                    &&& asked == Some(DownloadActionView::Write(chunk->0))
                    &&& next.bytes == d.bytes + chunk->0.len()
                },
                (
                    Some(DownloadActionView::Write(_)),
                    DownloadEventView::Written(done),
                ) => next.bytes == d.bytes && if done {
                    asked == Some(DownloadActionView::PollKey)
                } else {
                    passed
                },
                (
                    Some(DownloadActionView::PollKey),
                    DownloadEventView::Pressed(key),
                ) => next.bytes == d.bytes && if key == Some(Key::Ctrl('c')) {
                    asked == Some(DownloadActionView::Check(d.filename))
                } else {
                    asked == Some(DownloadActionView::Read(1024))
                },
                (Some(DownloadActionView::Check(_)), DownloadEventView::Exists(seen)) => if seen {
                    asked == Some(DownloadActionView::Remove(d.filename))
                } else {
                    cancelled
                },
                (
                    Some(DownloadActionView::Remove(_)),
                    DownloadEventView::Removed(done),
                ) => if done {
                    cancelled
                } else {
                    passed
                },
                (
                    Some(DownloadActionView::Request(_)),
                    DownloadEventView::Request(e),
                ) => next.bytes == d.bytes && d.stage is Requesting && ({
                    let now = request_after(d.stage->Requesting_0, e);
                    match now.step {
                        Step::Open(_) => asked == Some(DownloadActionView::Create(d.filename)),
                        Step::Failed(failure) => outcome(next) == Some(
                            Err::<(Seq<char>, usize), Failure>(failure),
                        ),
                        _ => asked == Some(DownloadActionView::Request(pending(now)->0)),
                    }
                }),
                (None, _) => next == d || d.stage is Requesting,
                _ => next == d,
            }
        }),
{
}

/// Where a download asks for nothing it has an outcome, and the other way round.
pub proof fn law_download_asks_or_is_over(
    filename: Seq<char>,
    host: Seq<char>,
    port: Seq<char>,
    selector: Seq<char>,
    tls: bool,
    tor: bool,
    events: Seq<DownloadEventView>,
)
    ensures
        ({
            let d = new_download(filename, new_request(host, port, selector, tls, tor));
            let run = download_run(d, events);
            download_pending(run) is None <==> outcome(run) is Some
        }),
{
    lemma_download_state(filename, new_request(host, port, selector, tls, tor), events);
}

/// Every event can be taken by every download, but for an answer that its request
/// cannot take, and a chunk with which its count would no longer fit.
pub proof fn law_what_a_download_can_take(d: DownloadView, event: DownloadEventView)
    ensures
        download_can_follow(d, event) <==> match (d.stage, event) {
            (StageView::Requesting(r), DownloadEventView::Request(e)) => can_follow(r, e),
            (StageView::Reading, DownloadEventView::Read(Some(chunk))) => d.bytes + chunk.len()
                <= usize::MAX,
            _ => true,
        },
{
}

/// Every selector but the empty one names a file, and the parts of a selector between
/// slashes say which: the last part, or, where the selector ends in a slash, the part
/// in front of that slash, though it be empty.
pub proof fn law_parts_name_the_file(directory: Seq<char>, name: Seq<char>)
    requires
        !name.contains('/'),
    ensures
        filename_of(directory + seq!['/'] + name + seq!['/']) == Some(name),
        filename_of(name + seq!['/']) == Some(name),
        name.len() > 0 ==> filename_of(directory + seq!['/'] + name) == Some(name),
        name.len() > 0 ==> filename_of(name) == Some(name),
        filename_of(Seq::<char>::empty()) is None,
{
    if name.len() > 0 {
        law_name_comes_back(directory, name);
        assert((name + seq!['/']).drop_last() =~= name);
        assert(name.contains(name.last()));
        assert(without_final_slash(name) == name);
    } else {
        let a = directory + seq!['/'] + name + seq!['/'];
        assert(a.drop_last() =~= directory + seq!['/']);
        assert((name + seq!['/']).drop_last() =~= Seq::<char>::empty());
        assert(name =~= Seq::<char>::empty());
    }
}

/// What a stage of a download, its actions and its events say is what they hold.
pub proof fn law_downloads_say_what_they_are(
    r: Request,
    chunk: Vec<u8>,
    bytes: &[u8],
    failure: Failure,
    action: Action,
    event: Event,
    name: &str,
    size: usize,
    done: bool,
    key: Option<Key>,
)
    ensures
        Stage::Requesting(r)@ == StageView::Requesting(r@),
        Stage::Creating@ == StageView::Creating,
        Stage::Reading@ == StageView::Reading,
        Stage::Writing(chunk)@ == StageView::Writing(chunk@),
        Stage::Polling@ == StageView::Polling,
        Stage::Checking@ == StageView::Checking,
        Stage::Removing@ == StageView::Removing,
        Stage::Finished@ == StageView::Finished,
        Stage::Failed(failure)@ == StageView::Failed(failure),
        DownloadAction::Request(action)@ == DownloadActionView::Request(action@),
        DownloadAction::Create(name)@ == DownloadActionView::Create(name@),
        DownloadAction::Read(size)@ == DownloadActionView::Read(size),
        DownloadAction::Write(bytes)@ == DownloadActionView::Write(bytes@),
        DownloadAction::PollKey@ == DownloadActionView::PollKey,
        DownloadAction::Check(name)@ == DownloadActionView::Check(name@),
        DownloadAction::Remove(name)@ == DownloadActionView::Remove(name@),
        DownloadEvent::Request(event)@ == DownloadEventView::Request(event@),
        DownloadEvent::Created(done)@ == DownloadEventView::Created(done),
        DownloadEvent::Read(Some(chunk))@ == DownloadEventView::Read(Some(chunk@)),
        DownloadEvent::Read(None)@ == DownloadEventView::Read(None),
        DownloadEvent::Written(done)@ == DownloadEventView::Written(done),
        DownloadEvent::Pressed(key)@ == DownloadEventView::Pressed(key),
        DownloadEvent::Exists(done)@ == DownloadEventView::Exists(done),
        DownloadEvent::Removed(done)@ == DownloadEventView::Removed(done),
{
}

} // verus!
