//! What holds of every download, however the things it asks for go.
use vstd::prelude::*;

use crate::connection::{new_request, EventView, RequestView, Step};
use crate::connection_laws::{is_over, request_run};
use crate::download::{
    after_last, download_after, download_can_follow, download_pending, filename_of, new_download,
    outcome, without_final_slash, DownloadActionView, DownloadEventView, DownloadView, Key,
    StageView,
};
use crate::failure::Failure;

verus! {

/// A download once all of `events` have come.
pub open spec fn download_run(d: DownloadView, events: Seq<DownloadEventView>) -> DownloadView
    decreases events.len(),
{
    if events.len() == 0 {
        d
    } else {
        download_after(download_run(d, events.drop_last()), events.last())
    }
}

/// Whether a download can go on after each of `events`.
pub open spec fn run_can_follow(d: DownloadView, events: Seq<DownloadEventView>) -> bool
    decreases events.len(),
{
    events.len() > 0 ==> {
        &&& run_can_follow(d, events.drop_last())
        &&& download_can_follow(download_run(d, events.drop_last()), events.last())
    }
}

/// What a download has read from the stream once all of `events` have come: its
/// chunks, one behind the other.
pub open spec fn received(d: DownloadView, events: Seq<DownloadEventView>) -> Seq<u8>
    decreases events.len(),
{
    if events.len() == 0 {
        Seq::empty()
    } else {
        let before = received(d, events.drop_last());
        match (download_run(d, events.drop_last()).stage, events.last()) {
            (StageView::Reading, DownloadEventView::Read(Some(chunk))) => before + chunk,
            _ => before,
        }
    }
}

/// What a download has written to its file once all of `events` have come: the
/// chunks that were written in full, one behind the other.
pub open spec fn stored(d: DownloadView, events: Seq<DownloadEventView>) -> Seq<u8>
    decreases events.len(),
{
    if events.len() == 0 {
        Seq::empty()
    } else {
        let before = stored(d, events.drop_last());
        match (download_pending(download_run(d, events.drop_last())), events.last()) {
            (
                Some(DownloadActionView::Write(chunk)),
                DownloadEventView::Written(true),
            ) => before + chunk,
            _ => before,
        }
    }
}

/// Whether `event` came as the answer to what was asked for at `stage`, once all of
/// `events` have come.
pub open spec fn download_answered(
    d: DownloadView,
    events: Seq<DownloadEventView>,
    stage: StageView,
    event: DownloadEventView,
) -> bool
    decreases events.len(),
{
    events.len() > 0 && {
        ||| download_answered(d, events.drop_last(), stage, event)
        ||| download_run(d, events.drop_last()).stage == stage && events.last() == event
    }
}

/// Whether the user has pressed Ctrl-c when a download looked for a key.
pub open spec fn user_cancelled(d: DownloadView, events: Seq<DownloadEventView>) -> bool {
    download_answered(
        d,
        events,
        StageView::Polling,
        DownloadEventView::Pressed(Some(Key::Ctrl('c'))),
    )
}

/// Whether a download whose file was to be disposed of has none: there was none, or
/// it was removed.
pub open spec fn file_is_gone(d: DownloadView, events: Seq<DownloadEventView>) -> bool {
    ||| download_answered(d, events, StageView::Checking, DownloadEventView::Exists(false))
    ||| download_answered(d, events, StageView::Removing, DownloadEventView::Removed(true))
}

/// An event of which the key is left out, unless it is Ctrl-c.
pub open spec fn without_other_keys(event: DownloadEventView) -> DownloadEventView {
    match event {
        DownloadEventView::Pressed(key) => if key == Some(Key::Ctrl('c')) {
            event
        } else {
            DownloadEventView::Pressed(None)
        },
        _ => event,
    }
}

/// Those of `events` that are events of the request.
pub open spec fn request_part(events: Seq<DownloadEventView>) -> Seq<EventView>
    decreases events.len(),
{
    if events.len() == 0 {
        Seq::empty()
    } else {
        match events.last() {
            DownloadEventView::Request(event) => request_part(events.drop_last()).push(event),
            _ => request_part(events.drop_last()),
        }
    }
}

/// Whether the user has cancelled, and the file is being disposed of.
pub open spec fn is_cancelling(stage: StageView) -> bool {
    stage == StageView::Checking || stage == StageView::Removing
}

/// What follows the last `c` of a text holds no `c`, and ends the text.
proof fn lemma_after_last(s: Seq<char>, c: char)
    ensures
        !after_last(s, c).contains(c),
        after_last(s, c).len() <= s.len(),
        s.skip(s.len() - after_last(s, c).len()) == after_last(s, c),
        after_last(s, c).len() < s.len() ==> s[s.len() - after_last(s, c).len() - 1] == c,
    decreases s.len(),
{
    if s.len() > 0 && s.last() != c {
        let front = s.drop_last();
        lemma_after_last(front, c);
        let tail = after_last(front, c);
        assert forall|i: int| 0 <= i < tail.len() + 1 implies tail.push(s.last())[i] != c by {
            if i < tail.len() {
                assert(tail.contains(tail[i]));
            }
        }
        assert(s.skip(s.len() - tail.len() - 1) =~= front.skip(front.len() - tail.len()).push(
            s.last(),
        ));
    } else {
        assert(s.skip(s.len() as int) =~= Seq::<char>::empty());
    }
}

/// A download is saved under a name without slashes, so in the directory itself,
/// and the name is the last part of the selector, which may end in one slash.
pub proof fn law_filename_is_the_last_part(sel: Seq<char>)
    requires
        sel.len() > 0,
    ensures
        ({
            let name = filename_of(sel)->0;
            let body = without_final_slash(sel);
            &&& filename_of(sel) is Some
            &&& !name.contains('/')
            &&& name.len() <= body.len()
            &&& body.skip(body.len() - name.len()) == name
            &&& name.len() < body.len() ==> body[body.len() - name.len() - 1] == '/'
        }),
{
    lemma_after_last(without_final_slash(sel), '/');
}

/// Behind any directory, a name without slashes is the name of the file, with or
/// without a slash at the end.
pub proof fn law_name_comes_back(directory: Seq<char>, name: Seq<char>)
    requires
        name.len() > 0,
        !name.contains('/'),
    ensures
        filename_of(directory + seq!['/'] + name) == Some(name),
        filename_of(directory + seq!['/'] + name + seq!['/']) == Some(name),
        filename_of(name) == Some(name),
{
    let sel = directory + seq!['/'] + name;
    let slashed = sel + seq!['/'];
    assert(name.contains(name.last()));
    assert(sel.last() == name.last());
    assert(slashed.drop_last() =~= sel);
    lemma_after_last(sel, '/');
    let found = after_last(sel, '/');
    if found.len() < name.len() {
        assert(name.contains(name[name.len() - found.len() - 1]));
    }
    if found.len() > name.len() {
        assert(found[found.len() - name.len() - 1] == '/');
    }
    assert(found =~= name);
    lemma_after_last(name, '/');
    if after_last(name, '/').len() < name.len() {
        assert(name.contains(name[name.len() - after_last(name, '/').len() - 1]));
    }
    assert(name.skip(0) =~= name);
}

/// What a download has written, and what it counts, by what it has read.
proof fn lemma_contents(filename: Seq<char>, r: RequestView, events: Seq<DownloadEventView>)
    requires
        run_can_follow(new_download(filename, r), events),
    ensures
        ({
            let d = new_download(filename, r);
            let now = download_run(d, events);
            &&& now.bytes == received(d, events).len()
            &&& match now.stage {
                StageView::Writing(chunk) => received(d, events) == stored(d, events) + chunk,
                StageView::Failed(_) => stored(d, events).is_prefix_of(received(d, events)),
                _ => received(d, events) == stored(d, events),
            }
        }),
    decreases events.len(),
{
    if events.len() > 0 {
        let d = new_download(filename, r);
        let before = events.drop_last();
        lemma_contents(filename, r, before);
        if let StageView::Writing(chunk) = download_run(d, before).stage {
            let whole = stored(d, before) + chunk;
            assert(whole.subrange(0, stored(d, before).len() as int) =~= stored(d, before));
        }
        if let (StageView::Reading, DownloadEventView::Read(Some(chunk))) = (
            download_run(d, before).stage,
            events.last(),
        ) {
            if chunk.len() == 0 {
                assert(received(d, before) + chunk =~= received(d, before));
            }
        }
        assert(stored(d, events).subrange(0, stored(d, events).len() as int) =~= stored(
            d,
            events,
        ));
    }
}

/// The file of a finished download holds what was read: the chunks one behind the
/// other. The size that it reports is that of the file, the sum of the sizes of the
/// chunks.
pub proof fn law_file_is_what_was_read(
    filename: Seq<char>,
    r: RequestView,
    events: Seq<DownloadEventView>,
)
    requires
        run_can_follow(new_download(filename, r), events),
    ensures
        ({
            let d = new_download(filename, r);
            let now = download_run(d, events);
            &&& now.bytes == received(d, events).len()
            &&& now.stage == StageView::Finished ==> {
                &&& stored(d, events) == received(d, events)
                &&& now.bytes == stored(d, events).len()
            }
        }),
{
    lemma_contents(filename, r, events);
}

/// At every time, what has been written to the file is the beginning of what was
/// read.
pub proof fn law_file_begins_what_was_read(
    filename: Seq<char>,
    r: RequestView,
    events: Seq<DownloadEventView>,
)
    requires
        run_can_follow(new_download(filename, r), events),
    ensures
        ({
            let d = new_download(filename, r);
            stored(d, events).is_prefix_of(received(d, events))
        }),
{
    let d = new_download(filename, r);
    lemma_contents(filename, r, events);
    let length = stored(d, events).len() as int;
    assert(stored(d, events).subrange(0, length) =~= stored(d, events));
    if let StageView::Writing(chunk) = download_run(d, events).stage {
        assert((stored(d, events) + chunk).subrange(0, length) =~= stored(d, events));
    }
}

/// A download deals with one file: whatever it creates, looks for, removes or
/// reports has the name that it started with.
pub proof fn law_one_file(d: DownloadView, events: Seq<DownloadEventView>)
    ensures
        ({
            let now = download_run(d, events);
            &&& now.filename == d.filename
            &&& download_pending(now) matches Some(DownloadActionView::Create(name)) ==> name
                == d.filename
            &&& download_pending(now) matches Some(DownloadActionView::Check(name)) ==> name
                == d.filename
            &&& download_pending(now) matches Some(DownloadActionView::Remove(name)) ==> name
                == d.filename
            &&& outcome(now) matches Some(Ok((name, _))) ==> name == d.filename
        }),
    decreases events.len(),
{
    if events.len() > 0 {
        law_one_file(d, events.drop_last());
    }
}

/// Keys other than Ctrl-c change nothing: a download runs as if none of them had
/// been pressed.
pub proof fn law_other_keys_change_nothing(d: DownloadView, events: Seq<DownloadEventView>)
    ensures
        download_run(d, events.map_values(|e: DownloadEventView| without_other_keys(e)))
            == download_run(d, events),
    decreases events.len(),
{
    if events.len() > 0 {
        let quiet = |e: DownloadEventView| without_other_keys(e);
        law_other_keys_change_nothing(d, events.drop_last());
        assert(events.map_values(quiet).drop_last() =~= events.drop_last().map_values(quiet));
        assert(events.map_values(quiet).last() == without_other_keys(events.last()));
    }
}

/// Why a download can be in the stage that it is in.
proof fn lemma_stages(filename: Seq<char>, r: RequestView, events: Seq<DownloadEventView>)
    requires
        !is_over(r.step),
    ensures
        ({
            let d = new_download(filename, r);
            let stage = download_run(d, events).stage;
            let asked = request_run(r, request_part(events));
            &&& match stage {
                StageView::Requesting(now) => now == asked && !is_over(asked.step),
                StageView::Failed(failure) => asked.step is Open || asked.step == Step::Failed(
                    failure,
                ),
                _ => asked.step is Open,
            }
            &&& asked.step != Step::Failed(Failure::Cancelled)
            &&& is_cancelling(stage) ==> user_cancelled(d, events) && !file_is_gone(d, events)
            &&& user_cancelled(d, events) ==> is_cancelling(stage) || stage is Failed
            &&& stage == StageView::Failed(Failure::Cancelled) ==> file_is_gone(d, events)
            &&& file_is_gone(d, events) ==> {
                &&& user_cancelled(d, events)
                &&& stage == StageView::Failed(Failure::Cancelled)
            }
        }),
    decreases events.len(),
{
    if events.len() > 0 {
        lemma_stages(filename, r, events.drop_last());
        match events.last() {
            DownloadEventView::Request(event) => {
                assert(request_part(events).drop_last() =~= request_part(events.drop_last()));
            },
            _ => {},
        }
    }
}

/// A download creates and fills its file only once its request is open, and fails
/// with its request, for that request's reason.
pub proof fn law_download_follows_its_request(
    filename: Seq<char>,
    host: Seq<char>,
    port: Seq<char>,
    selector: Seq<char>,
    tls: bool,
    tor: bool,
    events: Seq<DownloadEventView>,
)
    ensures
        ({
            let r = new_request(host, port, selector, tls, tor);
            let step = request_run(r, request_part(events)).step;
            match download_run(new_download(filename, r), events).stage {
                StageView::Requesting(_) => !is_over(step),
                StageView::Failed(failure) => step is Open || step == Step::Failed(failure),
                _ => step is Open,
            }
        }),
{
    lemma_stages(filename, new_request(host, port, selector, tls, tor), events);
}

/// A download is cancelled exactly where the user pressed Ctrl-c when asked and its
/// file is gone, because there was none or it was removed; it never finishes once
/// the user has pressed Ctrl-c.
pub proof fn law_cancelled_by_the_user(
    filename: Seq<char>,
    host: Seq<char>,
    port: Seq<char>,
    selector: Seq<char>,
    tls: bool,
    tor: bool,
    events: Seq<DownloadEventView>,
)
    ensures
        ({
            let d = new_download(filename, new_request(host, port, selector, tls, tor));
            let stage = download_run(d, events).stage;
            &&& stage == StageView::Failed(Failure::Cancelled) <==> user_cancelled(d, events)
                && file_is_gone(d, events)
            &&& user_cancelled(d, events) ==> is_cancelling(stage) || stage is Failed
        }),
{
    lemma_stages(filename, new_request(host, port, selector, tls, tor), events);
}

/// A download that the user has cancelled does not finish, nor read any more.
pub proof fn law_cancelling_is_final(d: DownloadView, events: Seq<DownloadEventView>)
    requires
        is_cancelling(d.stage),
    ensures
        is_cancelling(download_run(d, events).stage) || download_run(d, events).stage
            == StageView::Failed(Failure::Cancelled) || download_run(d, events).stage
            == StageView::Failed(Failure::Passed),
    decreases events.len(),
{
    if events.len() > 0 {
        law_cancelling_is_final(d, events.drop_last());
    }
}

} // verus!
