//! The download of one file, as a state machine. Each step takes what the last
//! action came to and gives the next action to perform.
use vstd::prelude::*;

use crate::dict::{entries, Entry};
use crate::handle::{new_handle, DownloadHandle};
use crate::headers::{announced_size, header_fields, total_size, PARTIAL_CONTENT};
use crate::items::{items_in, kept_pairs, text_items, Item};
use crate::text::{decimal, push_decimal};

verus! {

/// The speed is measured once this many nanoseconds have passed since the last time.
pub const MEASURE_NANOS: u128 = 100_000_000;

/// What is known of a running transfer.
#[derive(Clone, Copy, Debug, PartialEq, Eq, Structural)]
pub struct Transfer {
    /// Bytes in the partial file.
    pub downloaded: u64,
    /// Bytes that the whole file has, if the server said so.
    pub total: Option<u64>,
    /// `downloaded` when the speed was last measured.
    pub measured: u64,
    /// When the speed was last measured, in nanoseconds.
    pub measured_at: u128,
}

/// What a download waits for.
#[derive(Clone, Copy, Debug, PartialEq, Eq, Structural)]
pub enum Phase {
    /// The size of the partial file.
    Probing,
    /// The response to the request for the bytes from `start` on.
    Requesting { start: u64 },
    /// The partial file, opened for writing what the server sends: the file from `start`
    /// on.
    Opening { start: u64, total: Option<u64> },
    /// The next chunk.
    Reading { transfer: Transfer },
    /// The chunk of `len` bytes, written to the partial file.
    Writing { transfer: Transfer, len: usize },
    /// The speed of the transfer up to `now`.
    Measuring { transfer: Transfer, now: u128 },
    /// The removal of the partial file.
    Removing,
    /// The partial file under its final name.
    Renaming,
    /// Nothing: the download has ended.
    Done,
}

/// What an action came to.
pub enum Event {
    /// The size of the partial file, or `None` where its metadata cannot be read.
    PartSize(Option<u64>),
    /// The server answered.
    Response { status: u16, headers: ureq::http::HeaderMap },
    /// The partial file is open.
    Opened,
    /// So many bytes were read into the buffer; none at the end of the stream.
    Read { len: usize },
    /// The chunk is written. `now` is the time since the response came, in nanoseconds.
    Written { now: u128 },
    /// The speed in bytes per second.
    Speed { bytes_per_second: u64 },
    /// The attempt to remove the partial file is over.
    Removed,
    /// The partial file has its final name.
    Renamed,
    /// The action failed.
    Failed,
}

/// What to do next.
#[derive(Debug, PartialEq, Eq)]
pub enum Action {
    /// Ask for the size of the file at `path`.
    ProbePart { path: String },
    /// Send a GET request.
    Send { url: String, headers: Vec<(String, String)> },
    /// Open the file at `path` for writing at its end.
    Append { path: String },
    /// Open the file at `path` for writing, created or emptied.
    Create { path: String },
    /// Read up to `limit` bytes of the body into the buffer.
    Read { limit: usize },
    /// Write the first `len` bytes of the buffer to the file.
    Write { len: usize },
    /// Work out the speed at which `bytes` came in `nanos`.
    Measure { bytes: u64, nanos: u128 },
    /// Remove the file at `path`; it does not matter whether that works.
    Remove { path: String },
    /// Rename the file `from` to `to`.
    Rename { from: String, to: String },
    /// Nothing: the download has ended.
    Finish,
}

/// An action with its texts as sequences of characters.
pub enum ActionView {
    ProbePart { path: Seq<char> },
    Send { url: Seq<char>, headers: Seq<Entry> },
    Append { path: Seq<char> },
    Create { path: Seq<char> },
    Read { limit: usize },
    Write { len: usize },
    Measure { bytes: u64, nanos: u128 },
    Remove { path: Seq<char> },
    Rename { from: Seq<char>, to: Seq<char> },
    Finish,
}

impl View for Action {
    type V = ActionView;

    open spec fn view(&self) -> ActionView {
        match *self {
            Action::ProbePart { path } => ActionView::ProbePart { path: path@ },
            Action::Send { url, headers } => ActionView::Send { url: url@, headers: entries(headers@) },
            Action::Append { path } => ActionView::Append { path: path@ },
            Action::Create { path } => ActionView::Create { path: path@ },
            Action::Read { limit } => ActionView::Read { limit },
            Action::Write { len } => ActionView::Write { len },
            Action::Measure { bytes, nanos } => ActionView::Measure { bytes, nanos },
            Action::Remove { path } => ActionView::Remove { path: path@ },
            Action::Rename { from, to } => ActionView::Rename { from: from@, to: to@ },
            Action::Finish => ActionView::Finish,
        }
    }
}

/// The state of a download, with its texts as sequences of characters.
pub ghost struct DownloadState {
    pub url: Seq<char>,
    pub path: Seq<char>,
    pub resume: bool,
    pub headers: Seq<Entry>,
    pub buffer_size: usize,
    pub phase: Phase,
}

/// What a step comes to: the state and the handle after it, and the next action.
pub ghost struct Outcome {
    pub state: DownloadState,
    pub handle: DownloadHandle,
    pub action: ActionView,
}

/// Where a file is kept until it is complete.
pub open spec fn part_path_of(path: Seq<char>) -> Seq<char> {
    path + ".part"@
}

/// The byte that a download starts from: the end of the partial file, if it is to be
/// resumed and there is one.
pub open spec fn start_of(resume: bool, part_size: Option<u64>) -> u64 {
    match part_size {
        Some(size) => if resume {
            size
        } else {
            0
        },
        None => 0,
    }
}

/// The value of the header that asks for everything from `start` on.
pub open spec fn range_from(start: u64) -> Seq<char> {
    "bytes="@ + decimal(start as nat) + "-"@
}

/// The headers of the request for the bytes from `start` on.
pub open spec fn request_headers_of(start: u64, custom: Seq<Entry>) -> Seq<Entry> {
    if start > 0 {
        seq![("Range"@, range_from(start))] + custom
    } else {
        custom
    }
}

/// The seconds that the rest takes at that speed; 0 where the size or the speed is
/// not known, and where more has come than was announced.
pub open spec fn eta_of(total: Option<u64>, downloaded: u64, speed: u64) -> u64 {
    match total {
        Some(total) => if speed > 0 && downloaded <= total {
            ((total - downloaded) as u64 / speed) as u64
        } else {
            0
        },
        None => 0,
    }
}

/// The time from `earlier` to `later`, or nothing where `later` comes first.
pub open spec fn elapsed_of(earlier: u128, later: u128) -> u128 {
    if later >= earlier {
        (later - earlier) as u128
    } else {
        0
    }
}

/// The byte that the body of a response starts from: the one that was asked for if the
/// server sends a part of the file, the first if it sends the whole file.
pub open spec fn body_start(status: u16, start: u64) -> u64 {
    if status == PARTIAL_CONTENT {
        start
    } else {
        0
    }
}

/// The end of a download. It is successful if the file stands under its final name.
pub open spec fn ended(state: DownloadState, handle: DownloadHandle, successful: bool) -> Outcome {
    Outcome {
        state: DownloadState { phase: Phase::Done, ..state },
        handle: DownloadHandle { is_finished: true, is_successful: successful, ..handle },
        action: ActionView::Finish,
    }
}

/// The request for the bytes from `start` on.
pub open spec fn requested(state: DownloadState, handle: DownloadHandle, start: u64) -> Outcome {
    Outcome {
        state: DownloadState { phase: Phase::Requesting { start }, ..state },
        handle,
        action: ActionView::Send { url: state.url, headers: request_headers_of(start, state.headers) },
    }
}

/// The removal of the partial file.
pub open spec fn removed(state: DownloadState, handle: DownloadHandle) -> Outcome {
    Outcome {
        state: DownloadState { phase: Phase::Removing, ..state },
        handle,
        action: ActionView::Remove { path: part_path_of(state.path) },
    }
}

/// What follows a failure: the download ends, and loses its partial file first if it was
/// aborted and not cancelled.
pub open spec fn failed(state: DownloadState, handle: DownloadHandle) -> Outcome {
    if handle.is_aborted && !handle.is_cancelled {
        removed(state, handle)
    } else {
        ended(state, handle, false)
    }
}

/// What comes before each chunk is read: a download that was cancelled ends, one that
/// was aborted loses its partial file, any other reads on.
pub open spec fn between_chunks(
    state: DownloadState,
    handle: DownloadHandle,
    transfer: Transfer,
) -> Outcome {
    if handle.is_cancelled {
        ended(state, handle, false)
    } else if handle.is_aborted {
        removed(state, handle)
    } else {
        Outcome {
            state: DownloadState { phase: Phase::Reading { transfer }, ..state },
            handle,
            action: ActionView::Read { limit: state.buffer_size },
        }
    }
}

/// What follows a response: the total is kept where the server gave it, and the
/// partial file is opened, at its end if the server sends what is missing from it.
pub open spec fn responded(
    state: DownloadState,
    handle: DownloadHandle,
    start: u64,
    status: u16,
    total: Option<u64>,
) -> Outcome {
    let from = body_start(status, start);
    Outcome {
        state: DownloadState { phase: Phase::Opening { start: from, total }, ..state },
        handle: match total {
            Some(total) => DownloadHandle { total, ..handle },
            None => handle,
        },
        action: if from > 0 {
            ActionView::Append { path: part_path_of(state.path) }
        } else {
            ActionView::Create { path: part_path_of(state.path) }
        },
    }
}

/// What follows a chunk that was written: it is counted, and the speed is measured if
/// it is time to.
pub open spec fn counted(
    state: DownloadState,
    handle: DownloadHandle,
    transfer: Transfer,
    len: usize,
    now: u128,
) -> Outcome {
    let downloaded = (transfer.downloaded + len) as u64;
    let after = Transfer { downloaded, ..transfer };
    let told = DownloadHandle { downloaded, ..handle };
    let nanos = elapsed_of(transfer.measured_at, now);
    if nanos >= MEASURE_NANOS {
        Outcome {
            state: DownloadState { phase: Phase::Measuring { transfer: after, now }, ..state },
            handle: told,
            action: ActionView::Measure { bytes: (downloaded - transfer.measured) as u64, nanos },
        }
    } else {
        between_chunks(state, told, after)
    }
}

/// What follows a measurement: the handle shows speed and remaining time.
pub open spec fn measured(
    state: DownloadState,
    handle: DownloadHandle,
    transfer: Transfer,
    now: u128,
    speed: u64,
) -> Outcome {
    between_chunks(
        state,
        DownloadHandle { speed, eta: eta_of(transfer.total, transfer.downloaded, speed), ..handle },
        Transfer { measured: transfer.downloaded, measured_at: now, ..transfer },
    )
}

/// Whether a download in that state can take that event: the event answers the last
/// action, and the count that follows from it fits.
pub open spec fn takes(state: DownloadState, event: Event) -> bool {
    match (state.phase, event) {
        (Phase::Probing, Event::PartSize(_)) => true,
        (Phase::Requesting { .. }, Event::Response { .. }) => true,
        (Phase::Opening { .. }, Event::Opened) => true,
        (Phase::Reading { .. }, Event::Read { len }) => len <= state.buffer_size,
        (Phase::Writing { transfer, len }, Event::Written { .. }) => transfer.downloaded + len
            <= u64::MAX,
        (Phase::Measuring { .. }, Event::Speed { .. }) => true,
        (Phase::Removing, Event::Removed) => true,
        (Phase::Renaming, Event::Renamed) => true,
        (Phase::Requesting { .. }, Event::Failed) => true,
        (Phase::Opening { .. }, Event::Failed) => true,
        (Phase::Reading { .. }, Event::Failed) => true,
        (Phase::Writing { .. }, Event::Failed) => true,
        (Phase::Renaming, Event::Failed) => true,
        _ => false,
    }
}

/// The step that an event leads to, from a state that takes it.
pub open spec fn next(state: DownloadState, handle: DownloadHandle, event: Event) -> Outcome {
    match (state.phase, event) {
        (Phase::Probing, Event::PartSize(size)) => requested(
            state,
            handle,
            start_of(state.resume, size),
        ),
        (Phase::Requesting { start }, Event::Response { status, headers }) => responded(
            state,
            handle,
            start,
            status,
            announced_size(status, header_fields(headers)),
        ),
        (Phase::Opening { start, total }, Event::Opened) => between_chunks(
            state,
            handle,
            Transfer { downloaded: start, total, measured: start, measured_at: 0 },
        ),
        (Phase::Reading { transfer }, Event::Read { len }) => if len == 0 {
            Outcome {
                state: DownloadState { phase: Phase::Renaming, ..state },
                handle,
                action: ActionView::Rename { from: part_path_of(state.path), to: state.path },
            }
        } else {
            Outcome {
                state: DownloadState { phase: Phase::Writing { transfer, len }, ..state },
                handle,
                action: ActionView::Write { len },
            }
        },
        (Phase::Writing { transfer, len }, Event::Written { now }) => counted(
            state,
            handle,
            transfer,
            len,
            now,
        ),
        (Phase::Measuring { transfer, now }, Event::Speed { bytes_per_second }) => measured(
            state,
            handle,
            transfer,
            now,
            bytes_per_second,
        ),
        (_, Event::Failed) => failed(state, handle),
        (Phase::Removing, _) => ended(state, handle, false),
        _ => ended(state, handle, true),
    }
}

/// The step that a download begins with: it asks for the size of the partial file if
/// it is to resume, and for the file from its first byte if not.
pub open spec fn begun(
    url: Seq<char>,
    path: Seq<char>,
    resume: bool,
    headers: Seq<Entry>,
    buffer_size: usize,
) -> (DownloadState, ActionView) {
    let state = DownloadState { url, path, resume, headers, buffer_size, phase: Phase::Probing };
    if resume {
        (state, ActionView::ProbePart { path: part_path_of(path) })
    } else {
        (
            DownloadState { phase: Phase::Requesting { start: 0 }, ..state },
            ActionView::Send { url, headers },
        )
    }
}

/// Whether the counts of a state agree with each other: what was measured was
/// downloaded, and a chunk that is being written came from the buffer.
pub open spec fn valid(state: DownloadState) -> bool {
    match state.phase {
        Phase::Reading { transfer } => transfer.measured <= transfer.downloaded,
        Phase::Writing { transfer, len } => transfer.measured <= transfer.downloaded && 0 < len
            <= state.buffer_size,
        Phase::Measuring { transfer, .. } => transfer.measured <= transfer.downloaded,
        _ => true,
    }
}

/// Where a file is kept until it is complete.
pub fn part_path(path: &str) -> (part: String)
    ensures
        part@ == part_path_of(path@),
{
    let mut part: String = path.to_owned();
    part.append(".part");
    part
}

/// The byte that a download starts from, given the size of the partial file.
pub fn start_byte(resume: bool, part_size: Option<u64>) -> (start: u64)
    ensures
        start == start_of(resume, part_size),
{
    match part_size {
        Some(size) => if resume {
            size
        } else {
            0
        },
        None => 0,
    }
}

/// The headers of the request for the bytes from `start` on: `Range` first, unless it
/// asks for the whole file, then the custom ones.
pub fn request_headers(start: u64, custom: &Vec<(String, String)>) -> (headers: Vec<(String, String)>)
    ensures
        entries(headers@) == request_headers_of(start, entries(custom@)),
{
    let mut headers: Vec<(String, String)> = Vec::new();
    if start > 0 {
        let mut range: String = "bytes=".to_owned();
        push_decimal(&mut range, start);
        range.append("-");
        headers.push(("Range".to_owned(), range));
    }
    let ghost first = entries(headers@);
    let mut i: usize = 0;
    assert(entries(headers@) =~= first + entries(custom@).take(0));
    while i < custom.len()
        invariant
            i <= custom@.len(),
            entries(headers@) == first + entries(custom@).take(i as int),
        decreases custom@.len() - i,
    {
        let ghost before = entries(headers@);
        headers.push((custom[i].0.clone(), custom[i].1.clone()));
        assert(entries(headers@) =~= before.push(entries(custom@)[i as int]));
        i = i + 1;
        assert(entries(headers@) =~= first + entries(custom@).take(i as int));
    }
    assert(entries(custom@).take(i as int) =~= entries(custom@));
    assert(entries(headers@) =~= request_headers_of(start, entries(custom@)));
    headers
}

/// The seconds that the rest takes at that speed.
pub fn eta_seconds(total: Option<u64>, downloaded: u64, speed: u64) -> (eta: u64)
    ensures
        eta == eta_of(total, downloaded, speed),
{
    match total {
        Some(total) => if speed > 0 && downloaded <= total {
            (total - downloaded) / speed
        } else {
            0
        },
        None => 0,
    }
}

/// The download of `url` to `path`.
pub struct Download {
    url: String,
    path: String,
    resume: bool,
    headers: Vec<(String, String)>,
    buffer_size: usize,
    phase: Phase,
}

impl View for Download {
    type V = DownloadState;

    closed spec fn view(&self) -> DownloadState {
        DownloadState {
            url: self.url@,
            path: self.path@,
            resume: self.resume,
            headers: entries(self.headers@),
            buffer_size: self.buffer_size,
            phase: self.phase,
        }
    }
}

impl Download {
    /// Begins a download, and gives the first action to perform.
    pub fn start(
        url: &str,
        path: &str,
        resume: bool,
        headers: Vec<(String, String)>,
        buffer_size: usize,
    ) -> (begin: (Download, Action))
        ensures
            valid(begin.0@),
            (begin.0@, begin.1@) == begun(url@, path@, resume, entries(headers@), buffer_size),
    {
        let mut download: Download = Download {
            url: url.to_owned(),
            path: path.to_owned(),
            resume,
            headers,
            buffer_size,
            phase: Phase::Probing,
        };
        let action: Action = if resume {
            Action::ProbePart { path: part_path(path) }
        } else {
            download.request(0)
        };
        (download, action)
    }

    /// What the download waits for.
    pub fn phase(&self) -> (phase: Phase)
        ensures
            phase == self@.phase,
    {
        self.phase
    }

    /// Whether the download can take that event now.
    pub fn can_take(&self, event: &Event) -> (can: bool)
        ensures
            can == takes(self@, *event),
    {
        match (self.phase, event) {
            (Phase::Probing, Event::PartSize(_)) => true,
            (Phase::Requesting { .. }, Event::Response { .. }) => true,
            (Phase::Opening { .. }, Event::Opened) => true,
            (Phase::Reading { .. }, Event::Read { len }) => *len <= self.buffer_size,
            (Phase::Writing { transfer, len }, Event::Written { .. }) => transfer.downloaded
                <= u64::MAX - len as u64,
            (Phase::Measuring { .. }, Event::Speed { .. }) => true,
            (Phase::Removing, Event::Removed) => true,
            (Phase::Renaming, Event::Renamed) => true,
            (Phase::Requesting { .. }, Event::Failed) => true,
            (Phase::Opening { .. }, Event::Failed) => true,
            (Phase::Reading { .. }, Event::Failed) => true,
            (Phase::Writing { .. }, Event::Failed) => true,
            (Phase::Renaming, Event::Failed) => true,
            _ => false,
        }
    }

    /// Takes what the last action came to, keeps the handle up to date, and gives the
    /// next action.
    pub fn step(&mut self, handle: &mut DownloadHandle, event: Event) -> (action: Action)
        requires
            valid(old(self)@),
            takes(old(self)@, event),
        ensures
            valid(final(self)@),
            next(old(self)@, *old(handle), event) == (Outcome {
                state: final(self)@,
                handle: *final(handle),
                action: action@,
            }),
    {
        match (self.phase, event) {
            (Phase::Probing, Event::PartSize(size)) => self.request(start_byte(self.resume, size)),
            (Phase::Requesting { start }, Event::Response { status, headers }) => {
                let total: Option<u64> = total_size(status, &headers);
                if let Some(total) = total {
                    handle.total = total;
                }
                let from: u64 = if status == PARTIAL_CONTENT {
                    start
                } else {
                    0
                };
                self.phase = Phase::Opening { start: from, total };
                let path: String = part_path(self.path.as_str());
                if from > 0 {
                    Action::Append { path }
                } else {
                    Action::Create { path }
                }
            },
            (Phase::Opening { start, total }, Event::Opened) => {
                self.read_on(
                    handle,
                    Transfer { downloaded: start, total, measured: start, measured_at: 0 },
                )
            },
            (Phase::Reading { transfer }, Event::Read { len }) => {
                if len == 0 {
                    self.phase = Phase::Renaming;
                    Action::Rename { from: part_path(self.path.as_str()), to: self.path.clone() }
                } else {
                    self.phase = Phase::Writing { transfer, len };
                    Action::Write { len }
                }
            },
            (Phase::Writing { transfer, len }, Event::Written { now }) => {
                let downloaded: u64 = transfer.downloaded + len as u64;
                let after: Transfer = Transfer {
                    downloaded,
                    total: transfer.total,
                    measured: transfer.measured,
                    measured_at: transfer.measured_at,
                };
                handle.downloaded = downloaded;
                let nanos: u128 = if now >= transfer.measured_at {
                    now - transfer.measured_at
                } else {
                    0
                };
                if nanos >= MEASURE_NANOS {
                    self.phase = Phase::Measuring { transfer: after, now };
                    Action::Measure { bytes: downloaded - transfer.measured, nanos }
                } else {
                    self.read_on(handle, after)
                }
            },
            (Phase::Measuring { transfer, now }, Event::Speed { bytes_per_second }) => {
                handle.speed = bytes_per_second;
                handle.eta = eta_seconds(transfer.total, transfer.downloaded, bytes_per_second);
                self.read_on(
                    handle,
                    Transfer {
                        downloaded: transfer.downloaded,
                        total: transfer.total,
                        measured: transfer.downloaded,
                        measured_at: now,
                    },
                )
            },
            (_, Event::Failed) => {
                if handle.is_aborted && !handle.is_cancelled {
                    self.remove()
                } else {
                    self.end(handle, false)
                }
            },
            (Phase::Removing, _) => self.end(handle, false),
            _ => self.end(handle, true),
        }
    }

    /// Asks for the bytes from `start` on.
    fn request(&mut self, start: u64) -> (action: Action)
        ensures
            final(self)@ == (DownloadState { phase: Phase::Requesting { start }, ..old(self)@ }),
            action@ == (ActionView::Send {
                url: old(self)@.url,
                headers: request_headers_of(start, old(self)@.headers),
            }),
    {
        self.phase = Phase::Requesting { start };
        Action::Send { url: self.url.clone(), headers: request_headers(start, &self.headers) }
    }

    /// Stops if that was asked for, and reads the next chunk if not.
    fn read_on(&mut self, handle: &mut DownloadHandle, transfer: Transfer) -> (action: Action)
        ensures
            between_chunks(old(self)@, *old(handle), transfer) == (Outcome {
                state: final(self)@,
                handle: *final(handle),
                action: action@,
            }),
    {
        if handle.is_cancelled {
            self.end(handle, false)
        } else if handle.is_aborted {
            self.remove()
        } else {
            self.phase = Phase::Reading { transfer };
            Action::Read { limit: self.buffer_size }
        }
    }

    /// Removes the partial file.
    fn remove(&mut self) -> (action: Action)
        ensures
            final(self)@ == (DownloadState { phase: Phase::Removing, ..old(self)@ }),
            action@ == (ActionView::Remove { path: part_path_of(old(self)@.path) }),
    {
        self.phase = Phase::Removing;
        Action::Remove { path: part_path(self.path.as_str()) }
    }

    /// Ends the download.
    fn end(&mut self, handle: &mut DownloadHandle, successful: bool) -> (action: Action)
        ensures
            ended(old(self)@, *old(handle), successful) == (Outcome {
                state: final(self)@,
                handle: *final(handle),
                action: action@,
            }),
    {
        handle.is_successful = successful;
        handle.is_finished = true;
        self.phase = Phase::Done;
        Action::Finish
    }
}

/// Sets up the download of `url` to `path`: its handle, the download, and the first
/// action to perform. Headers whose name or value is not a text are left out.
pub fn download_file(
    url: &str,
    path: &str,
    resume: bool,
    headers: Option<&Vec<Item>>,
    buffer_size: usize,
) -> (begin: (DownloadHandle, Download, Action))
    ensures
        begin.0 == new_handle(),
        valid(begin.1@),
        (begin.1@, begin.2@) == begun(
            url@,
            path@,
            resume,
            text_items(items_in(headers)),
            buffer_size,
        ),
{
    let custom: Vec<(String, String)> = match headers {
        Some(items) => kept_pairs(items),
        None => Vec::new(),
    };
    assert(entries(custom@) =~= text_items(items_in(headers)));
    let (download, action): (Download, Action) = Download::start(
        url,
        path,
        resume,
        custom,
        buffer_size,
    );
    (DownloadHandle::new(), download, action)
}

} // verus!
