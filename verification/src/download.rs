//! Downloading a Gopher item to a file.
use vstd::prelude::*;

use crate::connection::{
    can_follow, new_request, pending, request, request_after, Action, ActionView, Event, EventView,
    Request, RequestView, Step,
};
use crate::failure::Failure;
use crate::text::{lemma_span, split_once};
use crate::url::{parse_url, parseable, parsed};

verus! {

/// How many bytes of a response are read at a time.
pub const CHUNK_SIZE: usize = 1024;

/// What follows the last `c` of `s`, or all of `s` where it has no `c`.
pub open spec fn after_last(s: Seq<char>, c: char) -> Seq<char>
    decreases s.len(),
{
    if s.len() == 0 || s.last() == c {
        Seq::empty()
    } else {
        after_last(s.drop_last(), c).push(s.last())
    }
}

/// A selector without the slash that it ends in, if it does.
pub open spec fn without_final_slash(sel: Seq<char>) -> Seq<char> {
    if sel.len() > 0 && sel.last() == '/' {
        sel.drop_last()
    } else {
        sel
    }
}

/// The name of the file that a selector is downloaded to: its last part between
/// slashes. An empty selector names none.
pub open spec fn filename_of(sel: Seq<char>) -> Option<Seq<char>> {
    if sel.len() == 0 {
        None
    } else {
        Some(after_last(without_final_slash(sel), '/'))
    }
}

/// A text without `c` is what follows its last `c`.
proof fn lemma_after_last_absent(s: Seq<char>, c: char)
    requires
        !s.contains(c),
    ensures
        after_last(s, c) == s,
    decreases s.len(),
{
    if s.len() > 0 {
        assert(s.contains(s.last()));
        assert forall|i: int| 0 <= i < s.len() - 1 implies s.drop_last()[i] != c by {
            assert(s.contains(s[i]));
        }
        lemma_after_last_absent(s.drop_last(), c);
        assert(s.drop_last().push(s.last()) =~= s);
    }
}

/// What stands in front of a `c` makes no difference to what follows the last one.
proof fn lemma_after_last_suffix(a: Seq<char>, b: Seq<char>, c: char)
    ensures
        after_last(a + seq![c] + b, c) == after_last(b, c),
    decreases b.len(),
{
    let s = a + seq![c] + b;
    if b.len() == 0 {
        assert(s.last() == c);
    } else if b.last() != c {
        assert(s.drop_last() =~= a + seq![c] + b.drop_last());
        lemma_after_last_suffix(a, b.drop_last(), c);
    }
}

/// The name of the file that a selector is downloaded to.
pub fn filename_for(sel: &str) -> (name: Option<&str>)
    ensures
        name is Some <==> filename_of(sel@) is Some,
        name matches Some(n) ==> filename_of(sel@) == Some(n@),
{
    if sel.is_empty() {
        return None;
    }
    let mut rest = sel;
    loop
        invariant
            rest@.len() > 0,
            sel@.len() > 0,
            filename_of(rest@) == filename_of(sel@),
        decreases rest@.len(),
    {
        proof {
            lemma_span(rest@, '/');
        }
        match split_once(rest, '/') {
            None => {
                assert(rest@.contains(rest@.last()));
                proof {
                    lemma_after_last_absent(rest@, '/');
                }
                return Some(rest);
            },
            Some((part, behind)) => {
                assert(rest@ =~= part@ + seq!['/'] + behind@);
                if behind.is_empty() {
                    proof {
                        assert(rest@.drop_last() =~= part@);
                        assert(!part@.contains('/'));
                        lemma_after_last_absent(part@, '/');
                    }
                    return Some(part);
                }
                proof {
                    assert(without_final_slash(rest@) =~= part@ + seq!['/'] + without_final_slash(
                        behind@,
                    ));
                    lemma_after_last_suffix(part@, without_final_slash(behind@), '/');
                }
                rest = behind;
            },
        }
    }
}

/// A key that the user pressed.
#[derive(Clone, Copy, Debug, PartialEq, Eq, Structural)]
pub enum Key {
    /// A character with Ctrl.
    Ctrl(char),
    /// Any other key.
    Other,
}

/// How far a download is.
#[derive(Debug)]
pub enum Stage {
    /// The item is being asked for.
    Requesting(Request),
    /// The file is to be created.
    Creating,
    /// The next chunk of the response is to be read.
    Reading,
    /// This chunk is to be written to the file.
    Writing(Vec<u8>),
    /// It is to be seen whether the user cancels.
    Polling,
    /// The user cancelled; it is to be seen whether the file exists.
    Checking,
    /// The user cancelled; the file is to be removed.
    Removing,
    /// The item has been downloaded.
    Finished,
    /// The item cannot be downloaded, or was not to be.
    Failed(Failure),
}

/// A stage, with its texts as sequences.
#[verifier::ext_equal]
pub enum StageView {
    Requesting(RequestView),
    Creating,
    Reading,
    Writing(Seq<u8>),
    Polling,
    Checking,
    Removing,
    Finished,
    Failed(Failure),
}

impl View for Stage {
    type V = StageView;

    open spec fn view(&self) -> StageView {
        match *self {
            Stage::Requesting(r) => StageView::Requesting(r@),
            Stage::Creating => StageView::Creating,
            Stage::Reading => StageView::Reading,
            Stage::Writing(chunk) => StageView::Writing(chunk@),
            Stage::Polling => StageView::Polling,
            Stage::Checking => StageView::Checking,
            Stage::Removing => StageView::Removing,
            Stage::Finished => StageView::Finished,
            Stage::Failed(failure) => StageView::Failed(failure),
        }
    }
}

/// A Gopher item that is being downloaded.
#[derive(Debug)]
pub struct Download {
    filename: String,
    bytes: usize,
    stage: Stage,
}

/// A download, with its texts as sequences.
#[verifier::ext_equal]
pub struct DownloadView {
    /// The name of the file that the item is saved to.
    pub filename: Seq<char>,
    /// How many bytes have been read.
    pub bytes: usize,
    /// How far the download is.
    pub stage: StageView,
}

impl View for Download {
    type V = DownloadView;

    closed spec fn view(&self) -> DownloadView {
        DownloadView { filename: self.filename@, bytes: self.bytes, stage: self.stage@ }
    }
}

/// What a download asks its caller to do.
#[derive(Clone, Copy, Debug)]
pub enum DownloadAction<'a> {
    /// What the request asks for.
    Request(Action<'a>),
    /// Create the file of this name, or empty it where it exists.
    Create(&'a str),
    /// Read a chunk of at most so many bytes from the stream.
    Read(usize),
    /// Write this chunk to the file.
    Write(&'a [u8]),
    /// Look for a key that the user pressed.
    PollKey,
    /// See whether the file of this name exists.
    Check(&'a str),
    /// Remove the file of this name.
    Remove(&'a str),
}

/// An action of a download, with its texts as sequences.
#[verifier::ext_equal]
pub enum DownloadActionView {
    Request(ActionView),
    Create(Seq<char>),
    Read(usize),
    Write(Seq<u8>),
    PollKey,
    Check(Seq<char>),
    Remove(Seq<char>),
}

impl<'a> View for DownloadAction<'a> {
    type V = DownloadActionView;

    open spec fn view(&self) -> DownloadActionView {
        match *self {
            DownloadAction::Request(action) => DownloadActionView::Request(action@),
            DownloadAction::Create(name) => DownloadActionView::Create(name@),
            DownloadAction::Read(n) => DownloadActionView::Read(n),
            DownloadAction::Write(chunk) => DownloadActionView::Write(chunk@),
            DownloadAction::PollKey => DownloadActionView::PollKey,
            DownloadAction::Check(name) => DownloadActionView::Check(name@),
            DownloadAction::Remove(name) => DownloadActionView::Remove(name@),
        }
    }
}

/// How the thing that a download asked for went. A `bool` says whether it was done,
/// or, for `Exists`, what was seen.
#[derive(Debug)]
pub enum DownloadEvent {
    /// How the thing that the request asked for went.
    Request(Event),
    Created(bool),
    /// The chunk, or `None` where the stream cannot be read.
    Read(Option<Vec<u8>>),
    Written(bool),
    /// The key that the user pressed, if any.
    Pressed(Option<Key>),
    Exists(bool),
    Removed(bool),
}

/// An event of a download, with its texts as sequences.
#[verifier::ext_equal]
pub enum DownloadEventView {
    Request(EventView),
    Created(bool),
    Read(Option<Seq<u8>>),
    Written(bool),
    Pressed(Option<Key>),
    Exists(bool),
    Removed(bool),
}

impl View for DownloadEvent {
    type V = DownloadEventView;

    open spec fn view(&self) -> DownloadEventView {
        match *self {
            DownloadEvent::Request(event) => DownloadEventView::Request(event@),
            DownloadEvent::Created(done) => DownloadEventView::Created(done),
            DownloadEvent::Read(Some(chunk)) => DownloadEventView::Read(Some(chunk@)),
            DownloadEvent::Read(None) => DownloadEventView::Read(None),
            DownloadEvent::Written(done) => DownloadEventView::Written(done),
            DownloadEvent::Pressed(key) => DownloadEventView::Pressed(key),
            DownloadEvent::Exists(seen) => DownloadEventView::Exists(seen),
            DownloadEvent::Removed(done) => DownloadEventView::Removed(done),
        }
    }
}

/// A download before anything is done.
pub open spec fn new_download(filename: Seq<char>, r: RequestView) -> DownloadView {
    DownloadView { filename, bytes: 0, stage: StageView::Requesting(r) }
}

/// The stage of a download of which the request is `r`.
pub open spec fn stage_with(r: RequestView) -> StageView {
    match r.step {
        Step::Open(_) => StageView::Creating,
        Step::Failed(failure) => StageView::Failed(failure),
        _ => StageView::Requesting(r),
    }
}

/// What a download asks for, unless it is over.
pub open spec fn download_pending(d: DownloadView) -> Option<DownloadActionView> {
    match d.stage {
        StageView::Requesting(r) => match pending(r) {
            Some(action) => Some(DownloadActionView::Request(action)),
            None => None,
        },
        StageView::Creating => Some(DownloadActionView::Create(d.filename)),
        StageView::Reading => Some(DownloadActionView::Read(CHUNK_SIZE)),
        StageView::Writing(chunk) => Some(DownloadActionView::Write(chunk)),
        StageView::Polling => Some(DownloadActionView::PollKey),
        StageView::Checking => Some(DownloadActionView::Check(d.filename)),
        StageView::Removing => Some(DownloadActionView::Remove(d.filename)),
        StageView::Finished => None,
        StageView::Failed(_) => None,
    }
}

/// The file name and the size in bytes of a finished download, or why a download
/// failed; `None` where it is not over.
pub open spec fn outcome(d: DownloadView) -> Option<Result<(Seq<char>, usize), Failure>> {
    match d.stage {
        StageView::Finished => Some(Ok((d.filename, d.bytes))),
        StageView::Failed(failure) => Some(Err(failure)),
        _ => None,
    }
}

/// `next` where a thing was done, and a failure that passes its error on where
/// it was not.
pub open spec fn stage_or_failed(done: bool, next: StageView) -> StageView {
    if done {
        next
    } else {
        StageView::Failed(Failure::Passed)
    }
}

/// The stage that follows `stage` once `event` has come. The stream is at its end
/// where a chunk is empty or cannot be read. Ctrl-c cancels. An event that is no
/// answer to what was asked for changes nothing.
pub open spec fn stage_after(stage: StageView, event: DownloadEventView) -> StageView {
    match (stage, event) {
        (StageView::Requesting(r), DownloadEventView::Request(event)) => stage_with(
            request_after(r, event),
        ),
        (StageView::Creating, DownloadEventView::Created(done)) => stage_or_failed(
            done,
            StageView::Reading,
        ),
        (StageView::Reading, DownloadEventView::Read(Some(chunk))) => if chunk.len() == 0 {
            StageView::Finished
        } else {
            StageView::Writing(chunk)
        },
        (StageView::Reading, DownloadEventView::Read(None)) => StageView::Finished,
        (StageView::Writing(_), DownloadEventView::Written(done)) => stage_or_failed(
            done,
            StageView::Polling,
        ),
        (StageView::Polling, DownloadEventView::Pressed(key)) => if key == Some(Key::Ctrl('c')) {
            StageView::Checking
        } else {
            StageView::Reading
        },
        (StageView::Checking, DownloadEventView::Exists(seen)) => if seen {
            StageView::Removing
        } else {
            StageView::Failed(Failure::Cancelled)
        },
        (StageView::Removing, DownloadEventView::Removed(done)) => stage_or_failed(
            done,
            StageView::Failed(Failure::Cancelled),
        ),
        _ => stage,
    }
}

/// The bytes that a download counts once `event` has come.
pub open spec fn bytes_after(d: DownloadView, event: DownloadEventView) -> int {
    match (d.stage, event) {
        (StageView::Reading, DownloadEventView::Read(Some(chunk))) => d.bytes + chunk.len(),
        _ => d.bytes as int,
    }
}

/// A download once `event` has come.
pub open spec fn download_after(d: DownloadView, event: DownloadEventView) -> DownloadView {
    DownloadView {
        filename: d.filename,
        bytes: bytes_after(d, event) as usize,
        stage: stage_after(d.stage, event),
    }
}

/// Whether a download can go on after `event`: its request can, and the bytes of a
/// chunk that was read can still be counted.
pub open spec fn download_can_follow(d: DownloadView, event: DownloadEventView) -> bool {
    match (d.stage, event) {
        (StageView::Requesting(r), DownloadEventView::Request(event)) => can_follow(r, event),
        (StageView::Reading, DownloadEventView::Read(Some(_))) => bytes_after(d, event)
            <= usize::MAX,
        _ => true,
    }
}

/// Downloads a binary to disk. Allows canceling with Ctrl-c.
/// Fails at once where the URL's selector names no file.
pub fn download_url(url: &str, tls: bool, tor: bool) -> (r: Result<Download, Failure>)
    requires
        parseable(url@),
    ensures
        match filename_of(parsed(url@).sel) {
            Some(filename) => r matches Ok(d) && d@ == new_download(
                filename,
                new_request(parsed(url@).host, parsed(url@).port, parsed(url@).sel, tls, tor),
            ),
            None => r == Err::<Download, Failure>(Failure::Filename),
        },
{
    let u = parse_url(url);
    match filename_for(u.sel) {
        None => Err(Failure::Filename),
        Some(name) => Ok(
            Download {
                filename: name.to_string(),
                bytes: 0,
                stage: Stage::Requesting(request(u.host, u.port, u.sel, tls, tor)),
            },
        ),
    }
}

impl Download {
    /// The file name and the size in bytes once the download is finished, or why it
    /// failed; `None` where it is not over.
    pub fn outcome<'a>(&'a self) -> (o: Option<Result<(&'a str, usize), Failure>>)
        ensures
            match o {
                None => outcome(self@) is None,
                Some(Ok((name, bytes))) => outcome(self@) == Some(
                    Ok::<(Seq<char>, usize), Failure>((name@, bytes)),
                ),
                Some(Err(failure)) => outcome(self@) == Some(
                    Err::<(Seq<char>, usize), Failure>(failure),
                ),
            },
    {
        match &self.stage {
            Stage::Finished => Some(Ok((self.filename.as_str(), self.bytes))),
            Stage::Failed(failure) => Some(Err(*failure)),
            _ => None,
        }
    }

    /// What is to be done next, unless the download is over.
    pub fn action<'a>(&'a self) -> (action: Option<DownloadAction<'a>>)
        ensures
            action is Some <==> download_pending(self@) is Some,
            action matches Some(a) ==> download_pending(self@) == Some(a@),
    {
        match &self.stage {
            Stage::Requesting(r) => match r.action() {
                Some(action) => Some(DownloadAction::Request(action)),
                None => None,
            },
            Stage::Creating => Some(DownloadAction::Create(self.filename.as_str())),
            Stage::Reading => Some(DownloadAction::Read(CHUNK_SIZE)),
            Stage::Writing(chunk) => Some(DownloadAction::Write(chunk.as_slice())),
            Stage::Polling => Some(DownloadAction::PollKey),
            Stage::Checking => Some(DownloadAction::Check(self.filename.as_str())),
            Stage::Removing => Some(DownloadAction::Remove(self.filename.as_str())),
            Stage::Finished => None,
            Stage::Failed(_) => None,
        }
    }

    /// Goes on from how the thing that was asked for went.
    pub fn advance(self, event: DownloadEvent) -> (d: Download)
        requires
            download_can_follow(self@, event@),
        ensures
            d@ == download_after(self@, event@),
    {
        let Download { filename, bytes, stage } = self;
        let mut bytes: usize = bytes;
        let failed = Stage::Failed(Failure::Passed);
        let next = match (stage, event) {
            (Stage::Requesting(r), DownloadEvent::Request(event)) => {
                let r = r.advance(event);
                match r.step() {
                    Step::Open(_) => Stage::Creating,
                    Step::Failed(failure) => Stage::Failed(failure),
                    _ => Stage::Requesting(r),
                }
            },
            (Stage::Creating, DownloadEvent::Created(done)) => if done {
                Stage::Reading
            } else {
                failed
            },
            (Stage::Reading, DownloadEvent::Read(Some(chunk))) => if chunk.len() == 0 {
                Stage::Finished
            } else {
                bytes = bytes + chunk.len();
                Stage::Writing(chunk)
            },
            (Stage::Reading, DownloadEvent::Read(None)) => Stage::Finished,
            (Stage::Writing(_), DownloadEvent::Written(done)) => if done {
                Stage::Polling
            } else {
                failed
            },
            (Stage::Polling, DownloadEvent::Pressed(key)) => match key {
                Some(Key::Ctrl('c')) => Stage::Checking,
                _ => Stage::Reading,
            },
            (Stage::Checking, DownloadEvent::Exists(seen)) => if seen {
                Stage::Removing
            } else {
                Stage::Failed(Failure::Cancelled)
            },
            (Stage::Removing, DownloadEvent::Removed(done)) => if done {
                Stage::Failed(Failure::Cancelled)
            } else {
                failed
            },
            (stage, _) => stage,
        };
        Download { filename, bytes, stage: next }
    }
}

} // verus!
