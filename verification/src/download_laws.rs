//! What holds of a download as a whole: how its steps, its handle and the files on
//! disk go together, whatever the server, the disk and the caller do.
use vstd::prelude::*;

use crate::dict::{entries, law_entries_are_the_pairs, Entry};
use crate::download::{
    begun, download_file, eta_of, eta_seconds, next, part_path, part_path_of, range_from,
    request_headers, request_headers_of, start_byte, takes, valid, Action, ActionView, Download,
    DownloadState, Event, Outcome, Phase, Transfer,
};
use crate::handle::{new_handle, DownloadHandle};
use crate::headers::{announced_size, header_fields, PARTIAL_CONTENT};
use crate::items::{items_in, kept_pairs, text_items, Item};
use crate::text::{decimal, law_decimal_is_injective};

verus! {

/// The two files that a download deals with: the partial one and the one under the
/// final name.
pub ghost struct Disk {
    pub part: Option<Seq<u8>>,
    pub target: Option<Seq<u8>>,
}

/// One answer to the last action: the event, the bytes that go with it, and what the
/// caller asked for through the handle in the meantime.
pub ghost struct Answer {
    pub event: Event,
    pub bytes: Seq<u8>,
    pub cancel: bool,
    pub abort: bool,
}

/// How a download ended.
pub ghost enum End {
    /// Not at all yet.
    Running,
    /// The file is complete and has its final name.
    Complete,
    /// It was cancelled.
    Cancelled,
    /// It was aborted.
    Aborted,
    /// It failed before the partial file was open.
    Unopened,
    /// It failed while no chunk was being written.
    Interrupted,
    /// It failed while a chunk was being written, when so many of the bytes that were
    /// received had come to stand in the partial file.
    Torn { count: nat },
}

/// A download in progress, with the disk that it works on.
pub ghost struct Run {
    pub state: DownloadState,
    pub handle: DownloadHandle,
    pub action: ActionView,
    pub disk: Disk,
    /// The byte that the request starts from; once the server has answered, the byte that
    /// its answer starts from.
    pub start: u64,
    /// The size of the whole file, if the server announced it.
    pub announced: Option<u64>,
    /// The bytes of the body that have been read.
    pub received: Seq<u8>,
    pub end: End,
}

/// The handle after what the caller asked for.
pub open spec fn asked(handle: DownloadHandle, answer: Answer) -> DownloadHandle {
    DownloadHandle {
        is_cancelled: handle.is_cancelled || answer.cancel,
        is_aborted: handle.is_aborted || answer.abort,
        ..handle
    }
}

/// Whether an action deals with no other files than the one at `path` and its partial file,
/// each in its place.
pub open spec fn deals_with(action: ActionView, path: Seq<char>) -> bool {
    match action {
        ActionView::ProbePart { path: at } => at == part_path_of(path),
        ActionView::Append { path: at } => at == part_path_of(path),
        ActionView::Create { path: at } => at == part_path_of(path),
        ActionView::Remove { path: at } => at == part_path_of(path),
        ActionView::Rename { from, to } => from == part_path_of(path) && to == path,
        _ => true,
    }
}

/// The disk after an action was performed that deals with these two files. A write that
/// fails may leave some of its bytes; a removal is one that works.
pub open spec fn performed(disk: Disk, action: ActionView, answer: Answer, received: Seq<u8>) -> Disk {
    match (action, answer.event) {
        (ActionView::Create { .. }, Event::Opened) => Disk { part: Some(Seq::empty()), ..disk },
        (ActionView::Write { len }, Event::Written { .. }) => Disk {
            part: Some(disk.part->0 + received.skip(received.len() - len)),
            ..disk
        },
        (ActionView::Write { .. }, Event::Failed) => Disk {
            part: Some(disk.part->0 + answer.bytes),
            ..disk
        },
        (ActionView::Remove { .. }, Event::Removed) => Disk { part: None, ..disk },
        (ActionView::Rename { .. }, Event::Renamed) => Disk { part: None, target: disk.part },
        _ => disk,
    }
}

/// Whether an answer is one that the world can give: the download takes it, the size
/// of the partial file is its size, a chunk has the length that was reported, and a write
/// that fails leaves a head of its chunk.
pub open spec fn possible(run: Run, answer: Answer) -> bool {
    &&& takes(run.state, answer.event)
    &&& answer.event matches Event::PartSize(Some(size)) ==> run.disk.part is Some
        && run.disk.part->0.len() == size
    &&& answer.event matches Event::Read { len } ==> answer.bytes.len() == len
    &&& run.action matches ActionView::Write { len } ==> (answer.event is Failed
        ==> answer.bytes.is_prefix_of(run.received.skip(run.received.len() - len)))
}

/// How a run ends that comes to its end with that answer.
pub open spec fn end_with(run: Run, answer: Answer) -> End {
    match (run.state.phase, answer.event) {
        (Phase::Renaming, Event::Renamed) => End::Complete,
        (Phase::Removing, _) => End::Aborted,
        (Phase::Requesting { .. }, Event::Failed) => End::Unopened,
        (Phase::Opening { .. }, Event::Failed) => End::Unopened,
        (Phase::Writing { len, .. }, Event::Failed) => End::Torn {
            count: (run.received.len() - len + answer.bytes.len()) as nat,
        },
        (_, Event::Failed) => End::Interrupted,
        _ => End::Cancelled,
    }
}

/// The run after one more answer.
pub open spec fn advanced(run: Run, answer: Answer) -> Run {
    let outcome = next(run.state, asked(run.handle, answer), answer.event);
    Run {
        state: outcome.state,
        handle: outcome.handle,
        action: outcome.action,
        disk: performed(run.disk, run.action, answer, run.received),
        start: match outcome.state.phase {
            Phase::Requesting { start } => start,
            Phase::Opening { start, .. } => start,
            _ => run.start,
        },
        announced: match outcome.state.phase {
            Phase::Opening { total, .. } => total,
            _ => run.announced,
        },
        received: match answer.event {
            Event::Read { .. } => run.received + answer.bytes,
            _ => run.received,
        },
        end: if outcome.state.phase is Done {
            end_with(run, answer)
        } else {
            run.end
        },
    }
}

/// The beginning of a download, on a given disk.
pub open spec fn beginning(
    url: Seq<char>,
    path: Seq<char>,
    resume: bool,
    headers: Seq<Entry>,
    buffer_size: usize,
    disk: Disk,
) -> Run {
    let begin = begun(url, path, resume, headers, buffer_size);
    Run {
        state: begin.0,
        handle: new_handle(),
        action: begin.1,
        disk,
        start: 0,
        announced: None,
        received: Seq::empty(),
        end: End::Running,
    }
}

/// Whether a sequence of answers is possible from a run on.
pub open spec fn all_possible(run: Run, answers: Seq<Answer>) -> bool
    decreases answers.len(),
{
    answers.len() > 0 ==> {
        &&& all_possible(run, answers.drop_last())
        &&& possible(after(run, answers.drop_last()), answers.last())
    }
}

/// The run after a sequence of answers.
pub open spec fn after(run: Run, answers: Seq<Answer>) -> Run
    decreases answers.len(),
{
    if answers.len() == 0 {
        run
    } else {
        advanced(after(run, answers.drop_last()), answers.last())
    }
}

/// What the partial file holds before the first chunk: all of it if the download
/// resumes, nothing if not.
pub open spec fn kept(disk: Disk, start: u64) -> Seq<u8> {
    if start > 0 {
        disk.part->0
    } else {
        Seq::empty()
    }
}

/// Whether the partial file holds what was kept and the first `count` bytes that were
/// received, and nothing has its final name yet.
pub open spec fn part_holds(run: Run, disk: Disk, count: int) -> bool {
    &&& 0 <= count <= run.received.len()
    &&& run.disk.part == Some(kept(disk, run.start) + run.received.take(count))
    &&& run.disk.target == disk.target
}

/// Whether the handle shows the `count` bytes that were written, with those that were kept,
/// as downloaded; before the first of them it shows nothing.
pub open spec fn shows(run: Run, count: int) -> bool {
    run.handle.downloaded == (if count == 0 {
        0
    } else {
        run.start + count
    })
}

/// Whether the counts in state and handle are those of the `count` bytes written.
pub open spec fn counts(run: Run, transfer: Transfer, count: int) -> bool {
    &&& transfer.downloaded == run.start + count
    &&& transfer.total == run.announced
    &&& shows(run, count)
}

/// What each way to end comes to, on disk and in the handle.
pub open spec fn ends_in_order(run: Run, disk: Disk) -> bool {
    let whole = kept(disk, run.start) + run.received;
    let all = run.received.len() as int;
    match run.end {
        End::Running => false,
        // The file is whole and stands under its final name.
        End::Complete => run.disk == (Disk { part: None, target: Some(whole) }) && shows(run, all),
        // What came is kept for resuming.
        End::Cancelled => run.handle.is_cancelled && run.disk == (Disk {
            part: Some(whole),
            target: disk.target,
        }) && shows(run, all),
        // What came is gone.
        End::Aborted => run.handle.is_aborted && run.disk == (Disk {
            part: None,
            target: disk.target,
        }),
        // Nothing came.
        End::Unopened => run.disk == disk && all == 0 && shows(run, 0),
        // What came is kept for resuming.
        End::Interrupted => run.disk == (Disk { part: Some(whole), target: disk.target }) && shows(
            run,
            all,
        ),
        // What came is kept for resuming, but for an end of the last chunk.
        End::Torn { count } => part_holds(run, disk, count as int),
    }
}

/// What holds between state, handle and disk at every point of a download that began
/// on `disk`.
pub open spec fn consistent(run: Run, disk: Disk) -> bool {
    let all = run.received.len() as int;
    &&& valid(run.state)
    &&& run.handle.is_finished == (run.state.phase is Done)
    &&& run.handle.is_successful == (run.end is Complete)
    &&& run.end is Running == !(run.state.phase is Done)
    &&& run.handle.total == (match run.announced {
        Some(total) => total,
        None => 0,
    })
    &&& run.start > 0 ==> run.state.resume && disk.part is Some && disk.part->0.len() == run.start
    &&& match run.state.phase {
        Phase::Probing => run.disk == disk && all == 0 && run.start == 0 && run.announced is None
            && shows(run, 0) && run.action == (ActionView::ProbePart {
            path: part_path_of(run.state.path),
        }) && run.state.resume,
        Phase::Requesting { start } => run.disk == disk && all == 0 && run.start == start
            && run.announced is None && shows(run, 0) && run.action == (ActionView::Send {
            url: run.state.url,
            headers: request_headers_of(start, run.state.headers),
        }),
        Phase::Opening { start, total } => run.disk == disk && all == 0 && run.start == start
            && run.announced == total && shows(run, 0) && run.action == (if start > 0 {
            ActionView::Append { path: part_path_of(run.state.path) }
        } else {
            ActionView::Create { path: part_path_of(run.state.path) }
        }),
        Phase::Reading { transfer } => part_holds(run, disk, all) && counts(run, transfer, all)
            && run.action == (ActionView::Read { limit: run.state.buffer_size }),
        Phase::Writing { transfer, len } => len <= all && part_holds(run, disk, all - len) && counts(
            run,
            transfer,
            all - len,
        ) && run.action == (ActionView::Write { len }),
        Phase::Measuring { transfer, .. } => part_holds(run, disk, all) && counts(run, transfer, all)
            && run.action is Measure,
        Phase::Removing => run.handle.is_aborted && run.disk.target == disk.target && (run.disk.part
            == disk.part || exists|count: int| part_holds(run, disk, count)) && run.action == (
        ActionView::Remove { path: part_path_of(run.state.path) }),
        Phase::Renaming => part_holds(run, disk, all) && shows(run, all) && run.action == (
        ActionView::Rename { from: part_path_of(run.state.path), to: run.state.path }),
        Phase::Done => ends_in_order(run, disk) && run.action is Finish,
    }
}

/// An answer to the request to open the partial file leaves a run consistent.
proof fn lemma_opened(run: Run, answer: Answer, disk: Disk)
    requires
        consistent(run, disk),
        possible(run, answer),
        run.state.phase is Opening,
    ensures
        consistent(advanced(run, answer), disk),
{
    let then = advanced(run, answer);
    if answer.event is Opened {
        assert(then.received.take(0) =~= then.received);
        assert(kept(disk, run.start) + then.received.take(0) =~= kept(disk, run.start));
        assert(kept(disk, run.start) + then.received =~= kept(disk, run.start));
        assert(part_holds(then, disk, 0));
    }
}

/// An answer to the request for a chunk leaves a run consistent.
proof fn lemma_read(run: Run, answer: Answer, disk: Disk)
    requires
        consistent(run, disk),
        possible(run, answer),
        run.state.phase is Reading,
    ensures
        consistent(advanced(run, answer), disk),
{
    let then = advanced(run, answer);
    let all = run.received.len() as int;
    assert(then.received.take(all) =~= run.received);
    assert(run.received.take(all) =~= run.received);
    assert(part_holds(then, disk, all));
    if answer.event == (Event::Read { len: 0 }) {
        assert(then.received =~= run.received);
    }
}

/// An answer to the request to write a chunk leaves a run consistent.
proof fn lemma_written(run: Run, answer: Answer, disk: Disk)
    requires
        consistent(run, disk),
        possible(run, answer),
        run.state.phase is Writing,
    ensures
        consistent(advanced(run, answer), disk),
{
    let then = advanced(run, answer);
    let all = run.received.len() as int;
    let len = run.state.phase->Writing_len;
    let head = run.received.take(all - len);
    if answer.event is Failed {
        let count = all - len + answer.bytes.len();
        assert(answer.bytes =~= run.received.subrange(all - len, count));
        assert(head + answer.bytes =~= run.received.take(count));
        assert(then.disk.part->0 =~= kept(disk, run.start) + run.received.take(count));
        assert(part_holds(then, disk, count));
    } else {
        assert(head + run.received.skip(all - len) =~= run.received.take(all));
        assert(then.disk.part->0 =~= kept(disk, run.start) + run.received.take(all));
        assert(run.received.take(all) =~= run.received);
        assert(part_holds(then, disk, all));
    }
}

/// A measurement leaves a run consistent.
proof fn lemma_measured(run: Run, answer: Answer, disk: Disk)
    requires
        consistent(run, disk),
        possible(run, answer),
        run.state.phase is Measuring,
    ensures
        consistent(advanced(run, answer), disk),
{
    let then = advanced(run, answer);
    let all = run.received.len() as int;
    assert(run.received.take(all) =~= run.received);
    assert(part_holds(then, disk, all));
}

/// An answer to the request to rename the partial file leaves a run consistent.
proof fn lemma_renamed(run: Run, answer: Answer, disk: Disk)
    requires
        consistent(run, disk),
        possible(run, answer),
        run.state.phase is Renaming,
    ensures
        consistent(advanced(run, answer), disk),
{
    let then = advanced(run, answer);
    let all = run.received.len() as int;
    assert(run.received.take(all) =~= run.received);
    if answer.event is Failed {
        assert(part_holds(then, disk, all));
    }
}

/// One more answer leaves a consistent run consistent.
proof fn lemma_advanced(run: Run, answer: Answer, disk: Disk)
    requires
        consistent(run, disk),
        possible(run, answer),
    ensures
        consistent(advanced(run, answer), disk),
{
    match run.state.phase {
        Phase::Opening { .. } => lemma_opened(run, answer, disk),
        Phase::Reading { .. } => lemma_read(run, answer, disk),
        Phase::Writing { .. } => lemma_written(run, answer, disk),
        Phase::Measuring { .. } => lemma_measured(run, answer, disk),
        Phase::Renaming => lemma_renamed(run, answer, disk),
        _ => {},
    }
}

/// At every point of every download, state, handle and disk agree. In particular the
/// partial file holds exactly what was kept of an earlier attempt and what has been
/// written since; the handle shows as downloaded the bytes in the partial file, once a
/// chunk has come, and as total what the server announced; the handle says that the
/// download is finished exactly when it is, and that it was successful exactly when the
/// whole file stands under its final name; and every way to end leaves the disk in a known
/// state. The download is throughout the one that was asked for, and deals with no other
/// files than the one at `path` and its partial file.
pub proof fn law_download_is_consistent(
    url: Seq<char>,
    path: Seq<char>,
    resume: bool,
    headers: Seq<Entry>,
    buffer_size: usize,
    disk: Disk,
    answers: Seq<Answer>,
)
    requires
        all_possible(beginning(url, path, resume, headers, buffer_size, disk), answers),
    ensures
        ({
            let run = after(beginning(url, path, resume, headers, buffer_size, disk), answers);
            &&& consistent(run, disk)
            &&& run.state == (DownloadState {
                phase: run.state.phase,
                ..begun(url, path, resume, headers, buffer_size).0
            })
            &&& deals_with(run.action, path)
        }),
    decreases answers.len(),
{
    if answers.len() > 0 {
        let last = after(
            beginning(url, path, resume, headers, buffer_size, disk),
            answers.drop_last(),
        );
        law_download_is_consistent(
            url,
            path,
            resume,
            headers,
            buffer_size,
            disk,
            answers.drop_last(),
        );
        lemma_advanced(last, answers.last(), disk);
        law_a_step_keeps_the_settings(
            last.state,
            asked(last.handle, answers.last()),
            answers.last().event,
        );
    }
}

/// A download whose partial file gets its final name has put the whole file there: what
/// was kept of an earlier attempt is the head of the file, what the server sent is the
/// rest, and the final file is both. The final name is the `path` that was asked for. The
/// partial file is gone and the handle reports success; where bytes came, it shows the size
/// of the file as downloaded, and it shows that size as total where the server announced it.
pub proof fn law_completed_file_is_whole(
    url: Seq<char>,
    path: Seq<char>,
    resume: bool,
    headers: Seq<Entry>,
    buffer_size: usize,
    disk: Disk,
    answers: Seq<Answer>,
    remote: Seq<u8>,
)
    requires
        all_possible(beginning(url, path, resume, headers, buffer_size, disk), answers),
        answers.len() > 0 && answers.last().event is Renamed,
        ({
            let run = after(beginning(url, path, resume, headers, buffer_size, disk), answers);
            &&& run.start <= remote.len()
            &&& kept(disk, run.start) == remote.take(run.start as int)
            &&& run.received == remote.skip(run.start as int)
        }),
    ensures
        ({
            let first = beginning(url, path, resume, headers, buffer_size, disk);
            let run = after(first, answers);
            &&& after(first, answers.drop_last()).action == (ActionView::Rename {
                from: part_path_of(path),
                to: path,
            })
            &&& run.disk == (Disk { part: None, target: Some(remote) })
            &&& run.handle.is_finished && run.handle.is_successful
            &&& run.received.len() > 0 ==> run.handle.downloaded == remote.len()
            &&& run.announced matches Some(size) ==> (size == remote.len() ==> run.handle.total
                == remote.len())
        }),
{
    let first = beginning(url, path, resume, headers, buffer_size, disk);
    let run = after(first, answers);
    let last = after(first, answers.drop_last());
    law_download_is_consistent(url, path, resume, headers, buffer_size, disk, answers.drop_last());
    law_download_is_consistent(url, path, resume, headers, buffer_size, disk, answers);
    assert(last.state.phase is Renaming);
    assert(run.end is Complete);
    assert(remote.take(run.start as int) + remote.skip(run.start as int) =~= remote);
}

/// Whether a partial file, if there is one, holds a head of the file.
pub open spec fn is_head(part: Option<Seq<u8>>, remote: Seq<u8>) -> bool {
    part matches Some(bytes) ==> bytes.is_prefix_of(remote)
}

/// Whether what the server has sent so far is the file, from the byte that its answer
/// starts from.
pub open spec fn is_served_from(run: Run, remote: Seq<u8>) -> bool {
    &&& run.start + run.received.len() <= remote.len()
    &&& run.received == remote.subrange(run.start as int, run.start + run.received.len())
}

/// What was kept and the first `count` bytes received make a head of the file.
proof fn lemma_head(run: Run, disk: Disk, count: int, remote: Seq<u8>)
    requires
        is_head(disk.part, remote),
        is_served_from(run, remote),
        run.start > 0 ==> disk.part is Some && disk.part->0.len() == run.start,
        0 <= count <= run.received.len(),
    ensures
        kept(disk, run.start) + run.received.take(count) == remote.take(run.start + count),
        (kept(disk, run.start) + run.received.take(count)).is_prefix_of(remote),
{
    let part = kept(disk, run.start) + run.received.take(count);
    if run.start > 0 {
        assert(disk.part->0 =~= remote.take(run.start as int));
    }
    assert(kept(disk, run.start) =~= remote.take(run.start as int));
    assert(part =~= remote.take(run.start + count));
    assert(remote.subrange(0, part.len() as int) =~= part);
}

/// At every point of every download, whether it runs on, was stopped, failed or broke off,
/// the partial file holds a head of the file, provided that it did so in the beginning and
/// that the server sends the file from the byte that its answer starts from.
pub proof fn law_partial_file_is_a_head(
    url: Seq<char>,
    path: Seq<char>,
    resume: bool,
    headers: Seq<Entry>,
    buffer_size: usize,
    disk: Disk,
    answers: Seq<Answer>,
    remote: Seq<u8>,
)
    requires
        all_possible(beginning(url, path, resume, headers, buffer_size, disk), answers),
        is_head(disk.part, remote),
        is_served_from(
            after(beginning(url, path, resume, headers, buffer_size, disk), answers),
            remote,
        ),
    ensures
        is_head(
            after(beginning(url, path, resume, headers, buffer_size, disk), answers).disk.part,
            remote,
        ),
{
    let run = after(beginning(url, path, resume, headers, buffer_size, disk), answers);
    let all = run.received.len() as int;
    law_download_is_consistent(url, path, resume, headers, buffer_size, disk, answers);
    assert(run.received.take(all) =~= run.received);
    lemma_head(run, disk, all, remote);
    match run.state.phase {
        Phase::Writing { transfer, len } => {
            lemma_head(run, disk, all - len, remote);
        },
        Phase::Removing => {
            if run.disk.part != disk.part {
                let count = choose|count: int| part_holds(run, disk, count);
                lemma_head(run, disk, count, remote);
            }
        },
        Phase::Done => {
            if let End::Torn { count } = run.end {
                lemma_head(run, disk, count as int, remote);
            }
        },
        _ => {},
    }
}

/// A download that was cancelled, or that failed while no chunk was being written, keeps
/// all that has come: its partial file is as long as what was kept and what was received,
/// and the file under the final name is as it was.
pub proof fn law_unfinished_download_keeps_what_came(
    url: Seq<char>,
    path: Seq<char>,
    resume: bool,
    headers: Seq<Entry>,
    buffer_size: usize,
    disk: Disk,
    answers: Seq<Answer>,
    remote: Seq<u8>,
)
    requires
        all_possible(beginning(url, path, resume, headers, buffer_size, disk), answers),
        is_head(disk.part, remote),
        ({
            let run = after(beginning(url, path, resume, headers, buffer_size, disk), answers);
            &&& run.end is Cancelled || run.end is Interrupted
            &&& is_served_from(run, remote)
        }),
    ensures
        ({
            let run = after(beginning(url, path, resume, headers, buffer_size, disk), answers);
            &&& run.disk == (Disk {
                part: Some(remote.take(run.start + run.received.len())),
                target: disk.target,
            })
            &&& run.handle.is_finished && !run.handle.is_successful
        }),
{
    let run = after(beginning(url, path, resume, headers, buffer_size, disk), answers);
    law_download_is_consistent(url, path, resume, headers, buffer_size, disk, answers);
    assert(run.received.take(run.received.len() as int) =~= run.received);
    lemma_head(run, disk, run.received.len() as int, remote);
}

/// A download that was cancelled, that failed or that broke off at any point can be
/// resumed: if another attempt on the disk that it left comes to its end, then the final
/// file is the whole file. The second attempt may have other headers and another buffer
/// size. Each time the server has to send the file from the byte that its answer starts
/// from, be that the byte that was asked for or the first.
pub proof fn law_unfinished_download_can_be_resumed(
    url: Seq<char>,
    path: Seq<char>,
    resume: bool,
    headers: Seq<Entry>,
    buffer_size: usize,
    disk: Disk,
    answers: Seq<Answer>,
    resume_again: bool,
    headers_again: Seq<Entry>,
    buffer_size_again: usize,
    answers_again: Seq<Answer>,
    remote: Seq<u8>,
)
    requires
        all_possible(beginning(url, path, resume, headers, buffer_size, disk), answers),
        is_head(disk.part, remote),
        ({
            let run = after(beginning(url, path, resume, headers, buffer_size, disk), answers);
            let first = beginning(
                url,
                path,
                resume_again,
                headers_again,
                buffer_size_again,
                run.disk,
            );
            let again = after(first, answers_again);
            &&& is_served_from(run, remote)
            &&& all_possible(first, answers_again)
            &&& answers_again.len() > 0 && answers_again.last().event is Renamed
            &&& is_served_from(again, remote)
            &&& again.start + again.received.len() == remote.len()
        }),
    ensures
        ({
            let run = after(beginning(url, path, resume, headers, buffer_size, disk), answers);
            let again = after(
                beginning(url, path, resume_again, headers_again, buffer_size_again, run.disk),
                answers_again,
            );
            &&& again.disk == (Disk { part: None, target: Some(remote) })
            &&& again.handle.is_finished && again.handle.is_successful
        }),
{
    let run = after(beginning(url, path, resume, headers, buffer_size, disk), answers);
    let again = after(
        beginning(url, path, resume_again, headers_again, buffer_size_again, run.disk),
        answers_again,
    );
    law_partial_file_is_a_head(
        url,
        path,
        resume,
        headers,
        buffer_size,
        disk,
        answers,
        remote,
    );
    law_download_is_consistent(
        url,
        path,
        resume_again,
        headers_again,
        buffer_size_again,
        run.disk,
        answers_again,
    );
    lemma_head(again, run.disk, 0, remote);
    assert(kept(run.disk, again.start) + again.received.take(0) =~= kept(run.disk, again.start));
    assert(again.received =~= remote.skip(again.start as int));
    law_completed_file_is_whole(
        url,
        path,
        resume_again,
        headers_again,
        buffer_size_again,
        run.disk,
        answers_again,
        remote,
    );
}

/// Only what a partial response (206) brings goes behind the partial file. Any other
/// response brings the file from its first byte, and the partial file is emptied for it.
pub proof fn law_only_a_partial_response_is_appended(
    state: DownloadState,
    handle: DownloadHandle,
    status: u16,
    headers: ureq::http::HeaderMap,
)
    requires
        state.phase is Requesting,
    ensures
        ({
            let action = next(state, handle, Event::Response { status, headers }).action;
            let path = part_path_of(state.path);
            &&& action == (ActionView::Append { path }) || action == (ActionView::Create { path })
            &&& action is Append <==> status == PARTIAL_CONTENT && state.phase->Requesting_start > 0
        }),
{
}

/// A download that resumes asks for the bytes behind the partial file: where it is not
/// empty, the request leads with a `Range` that starts at its length; where it is
/// empty or missing, the request has the custom headers alone.
pub proof fn law_resumed_request_continues_the_partial_file(
    state: DownloadState,
    handle: DownloadHandle,
    size: Option<u64>,
)
    requires
        state.phase is Probing,
        state.resume,
    ensures
        next(state, handle, Event::PartSize(size)).action == (ActionView::Send {
            url: state.url,
            headers: match size {
                Some(size) => if size > 0 {
                    seq![("Range"@, "bytes="@ + decimal(size as nat) + "-"@)] + state.headers
                } else {
                    state.headers
                },
                None => state.headers,
            },
        }),
{
}

/// Two requests with the same `Range` start at the same byte.
pub proof fn law_range_names_its_start(a: u64, b: u64)
    requires
        range_from(a) == range_from(b),
    ensures
        a == b,
{
    let x = "bytes="@;
    let z = "-"@;
    assert(range_from(a).len() == x.len() + decimal(a as nat).len() + z.len());
    assert(decimal(a as nat) =~= range_from(a).subrange(
        x.len() as int,
        (x.len() + decimal(a as nat).len()) as int,
    ));
    assert(decimal(b as nat) =~= range_from(b).subrange(
        x.len() as int,
        (x.len() + decimal(b as nat).len()) as int,
    ));
    law_decimal_is_injective(a as nat, b as nat);
}

/// Only an abort deletes the partial file, never that of a download that was cancelled.
pub proof fn law_only_an_abort_deletes(state: DownloadState, handle: DownloadHandle, event: Event)
    requires
        takes(state, event),
        next(state, handle, event).action is Remove,
    ensures
        handle.is_aborted,
        !handle.is_cancelled,
        next(state, handle, event).action == (ActionView::Remove { path: part_path_of(state.path) }),
{
}

/// Nothing but the end of the stream gives the partial file its final name.
pub proof fn law_only_the_end_completes(state: DownloadState, handle: DownloadHandle, event: Event)
    requires
        takes(state, event),
        next(state, handle, event).action is Rename,
    ensures
        event == (Event::Read { len: 0 }),
        next(state, handle, event).action == (ActionView::Rename {
            from: part_path_of(state.path),
            to: state.path,
        }),
{
}

/// Once a stop was asked for, no further chunk is read: whenever the next chunk would
/// be due, a cancelled download ends without success and one that was only aborted deletes
/// its partial file.
pub proof fn law_a_stop_is_heeded(state: DownloadState, handle: DownloadHandle, event: Event)
    requires
        takes(state, event),
        handle.is_cancelled || handle.is_aborted,
        event is Opened || event is Speed || (event is Written && !(next(
            state,
            handle,
            event,
        ).action is Measure)),
    ensures
        handle.is_cancelled ==> next(state, handle, event).action is Finish && !next(
            state,
            handle,
            event,
        ).handle.is_successful,
        !handle.is_cancelled ==> next(state, handle, event).action == (ActionView::Remove {
            path: part_path_of(state.path),
        }),
{
}

/// An abort deletes the partial file of a download that fails, too, unless it was also
/// cancelled; the download then ends without success.
pub proof fn law_an_abort_deletes_after_a_failure(state: DownloadState, handle: DownloadHandle)
    requires
        takes(state, Event::Failed),
        handle.is_aborted,
        !handle.is_cancelled,
    ensures
        ({
            let outcome = next(state, handle, Event::Failed);
            let last = next(outcome.state, outcome.handle, Event::Removed);
            &&& outcome.action == (ActionView::Remove { path: part_path_of(state.path) })
            &&& last.action is Finish
            &&& last.handle.is_finished && !last.handle.is_successful
        }),
{
}

/// No step changes what was asked of the download, nor withdraws a request to stop.
pub proof fn law_a_step_keeps_the_settings(
    state: DownloadState,
    handle: DownloadHandle,
    event: Event,
)
    requires
        takes(state, event),
    ensures
        ({
            let outcome = next(state, handle, event);
            &&& outcome.state == (DownloadState { phase: outcome.state.phase, ..state })
            &&& outcome.handle.is_cancelled == handle.is_cancelled
            &&& outcome.handle.is_aborted == handle.is_aborted
        }),
{
}

/// A download that has ended takes nothing more.
pub proof fn law_the_end_is_final(state: DownloadState, event: Event)
    requires
        state.phase is Done,
    ensures
        !takes(state, event),
{
}

/// Whether a handle can be read as `later` after it was read as `earlier`: what is shown as
/// downloaded does not go back, a total that is known stays, a request to stop is not
/// withdrawn, and once the download has ended nothing else changes any more.
pub open spec fn moved_on(earlier: DownloadHandle, later: DownloadHandle) -> bool {
    &&& earlier.downloaded <= later.downloaded
    &&& earlier.total != 0 ==> later.total == earlier.total
    &&& earlier.is_cancelled ==> later.is_cancelled
    &&& earlier.is_aborted ==> later.is_aborted
    &&& earlier.is_finished ==> later == (DownloadHandle {
        is_cancelled: later.is_cancelled,
        is_aborted: later.is_aborted,
        ..earlier
    })
}

/// Whatever two points of a download the handle is read at, it has moved on from the first
/// to the second; so it has if the caller asks for a stop before the second reading, even
/// after the end.
pub proof fn law_progress_grows(
    url: Seq<char>,
    path: Seq<char>,
    resume: bool,
    headers: Seq<Entry>,
    buffer_size: usize,
    disk: Disk,
    answers: Seq<Answer>,
    more: Seq<Answer>,
)
    requires
        all_possible(beginning(url, path, resume, headers, buffer_size, disk), answers + more),
    ensures
        ({
            let first = beginning(url, path, resume, headers, buffer_size, disk);
            let earlier = after(first, answers).handle;
            let later = after(first, answers + more).handle;
            &&& moved_on(earlier, later)
            &&& forall|answer: Answer| moved_on(earlier, #[trigger] asked(later, answer))
        }),
    decreases more.len(),
{
    if more.len() == 0 {
        assert(answers + more =~= answers);
    } else {
        let all = answers + more;
        assert(all.drop_last() =~= answers + more.drop_last());
        law_progress_grows(
            url,
            path,
            resume,
            headers,
            buffer_size,
            disk,
            answers,
            more.drop_last(),
        );
        law_download_is_consistent(url, path, resume, headers, buffer_size, disk, all.drop_last());
    }
}

/// The remaining time is the whole number of seconds that the rest takes at the
/// measured speed.
pub proof fn law_remaining_time(total: u64, downloaded: u64, speed: u64)
    requires
        downloaded <= total,
        speed > 0,
    ensures
        eta_of(Some(total), downloaded, speed) * speed <= total - downloaded,
        total - downloaded < (eta_of(Some(total), downloaded, speed) + 1) * speed,
{
    let rest = total - downloaded;
    let eta = eta_of(Some(total), downloaded, speed) as int;
    vstd::arithmetic::div_mod::lemma_fundamental_div_mod(rest, speed as int);
    assert(eta == rest / speed as int);
    assert(eta * speed == speed * eta) by (nonlinear_arith);
    assert((eta + 1) * speed == speed * eta + speed) by (nonlinear_arith);
}

/// The partial file has the name of the final one, with `.part` behind it.
pub proof fn law_partial_file_has_its_name(path: &str, part: String)
    requires
        call_ensures(part_path, (path,), part),
    ensures
        part@ == path@ + seq!['.', 'p', 'a', 'r', 't'],
{
    reveal_strlit(".part");
    assert(".part"@ =~= seq!['.', 'p', 'a', 'r', 't']);
}

/// A download starts at the end of its partial file if it is to be resumed and the size of
/// that file is known, and at the first byte otherwise.
pub proof fn law_start_is_the_end_of_the_partial_file(resume: bool, size: Option<u64>, start: u64)
    requires
        call_ensures(start_byte, (resume, size), start),
    ensures
        resume && size is Some ==> start == size->0,
        !resume || size is None ==> start == 0,
{
}

/// The headers of a request are all custom ones, in their order. Only a request that does
/// not start at the first byte has another one, which leads: `Range`, which asks for the
/// bytes from `start` on.
pub proof fn law_custom_headers_are_all_sent(
    start: u64,
    custom: &Vec<(String, String)>,
    headers: Vec<(String, String)>,
)
    requires
        call_ensures(request_headers, (start, custom), headers),
    ensures
        ({
            let lead: int = if start > 0 {
                1
            } else {
                0
            };
            &&& headers@.len() == custom@.len() + lead
            &&& forall|i: int|
                0 <= i < custom@.len() ==> headers@[i + lead].0@ == (#[trigger] custom@[i]).0@
                    && headers@[i + lead].1@ == custom@[i].1@
            &&& start > 0 ==> headers@[0].0@ == "Range"@ && headers@[0].1@ == "bytes="@ + decimal(
                start as nat,
            ) + "-"@
        }),
{
    let lead: int = if start > 0 {
        1
    } else {
        0
    };
    law_entries_are_the_pairs(custom@);
    law_entries_are_the_pairs(headers@);
    let sent = entries(headers@);
    assert forall|i: int| 0 <= i < custom@.len() implies headers@[i + lead].0@ == (
    #[trigger] custom@[i]).0@ && headers@[i + lead].1@ == custom@[i].1@ by {
        assert(sent[i + lead] == entries(custom@)[i]);
    }
    if start > 0 {
        assert(sent[0] == (headers@[0].0@, headers@[0].1@));
    }
}

/// What `eta_seconds` gives is the whole number of seconds that the rest takes at that speed,
/// and 0 where the size is not known, nothing moves or more has come than was announced.
pub proof fn law_eta_is_the_time_for_the_rest(
    total: Option<u64>,
    downloaded: u64,
    speed: u64,
    eta: u64,
)
    requires
        call_ensures(eta_seconds, (total, downloaded, speed), eta),
    ensures
        is_time_for_the_rest(eta, total, downloaded, speed),
{
    lemma_eta(total, downloaded, speed);
}

/// Whether `eta` is the whole number of seconds that the rest takes at that speed, and 0 where
/// that cannot be told.
pub open spec fn is_time_for_the_rest(eta: u64, total: Option<u64>, downloaded: u64, speed: u64) -> bool {
    match total {
        Some(total) => if speed > 0 && downloaded <= total {
            eta * speed <= total - downloaded < (eta + 1) * speed
        } else {
            eta == 0
        },
        None => eta == 0,
    }
}

/// The time that is shown as remaining is the time for the rest.
proof fn lemma_eta(total: Option<u64>, downloaded: u64, speed: u64)
    ensures
        is_time_for_the_rest(eta_of(total, downloaded, speed), total, downloaded, speed),
{
    if let Some(size) = total {
        if speed > 0 && downloaded <= size {
            law_remaining_time(size, downloaded, speed);
        }
    }
}

/// A download begins with what it was given, and with nothing else: url, path, headers, buffer
/// size and whether to resume. One that resumes asks for the size of its partial file first;
/// any other asks at once for the whole file.
pub proof fn law_download_begins_as_asked(
    url: Seq<char>,
    path: Seq<char>,
    resume: bool,
    headers: Seq<Entry>,
    buffer_size: usize,
)
    ensures
        ({
            let (state, action) = begun(url, path, resume, headers, buffer_size);
            &&& state.url == url
            &&& state.path == path
            &&& state.resume == resume
            &&& state.headers == headers
            &&& state.buffer_size == buffer_size
            &&& resume ==> state.phase is Probing && action == (ActionView::ProbePart {
                path: path + ".part"@,
            })
            &&& !resume ==> state.phase == (Phase::Requesting { start: 0 }) && action == (
            ActionView::Send { url, headers })
        }),
{
}

/// The same of what `Download::start` gives.
pub proof fn law_start_begins_as_asked(
    url: &str,
    path: &str,
    resume: bool,
    headers: Vec<(String, String)>,
    buffer_size: usize,
    begin: (Download, Action),
)
    requires
        call_ensures(Download::start, (url, path, resume, headers, buffer_size), begin),
    ensures
        begin.0@.url == url@,
        begin.0@.path == path@,
        begin.0@.resume == resume,
        begin.0@.headers == entries(headers@),
        begin.0@.buffer_size == buffer_size,
        resume ==> begin.1@ == (ActionView::ProbePart { path: path@ + ".part"@ }),
        !resume ==> begin.1@ == (ActionView::Send { url: url@, headers: entries(headers@) }),
{
}

/// What `download_file` sets up: a handle on which nothing was asked for and nothing has
/// happened, and a download with what was given. Its headers are the given ones that are
/// texts.
pub proof fn law_download_file_sets_up_what_was_asked(
    url: &str,
    path: &str,
    resume: bool,
    headers: Option<&Vec<Item>>,
    buffer_size: usize,
    begin: (DownloadHandle, Download, Action),
    custom: Vec<(String, String)>,
)
    requires
        call_ensures(download_file, (url, path, resume, headers, buffer_size), begin),
        match headers {
            Some(items) => call_ensures(kept_pairs, (items,), custom),
            None => custom@.len() == 0,
        },
    ensures
        !begin.0.is_cancelled && !begin.0.is_aborted,
        begin.0.downloaded == 0 && begin.0.total == 0 && begin.0.speed == 0 && begin.0.eta == 0,
        !begin.0.is_finished && !begin.0.is_successful,
        begin.1@.url == url@,
        begin.1@.path == path@,
        begin.1@.resume == resume,
        begin.1@.headers == entries(custom@),
        begin.1@.buffer_size == buffer_size,
        resume ==> begin.2@ == (ActionView::ProbePart { path: path@ + ".part"@ }),
        !resume ==> begin.2@ == (ActionView::Send { url: url@, headers: entries(custom@) }),
{
    assert(text_items(items_in(headers)) =~= entries(custom@));
}

/// Every request of a download goes to the given url, and its headers end with all the
/// given ones, in their order; in front of them stands at most a `Range`, which names the end
/// of the partial file that the download found.
pub proof fn law_every_request_is_the_one_asked_for(
    url: Seq<char>,
    path: Seq<char>,
    resume: bool,
    headers: Seq<Entry>,
    buffer_size: usize,
    disk: Disk,
    answers: Seq<Answer>,
)
    requires
        all_possible(beginning(url, path, resume, headers, buffer_size, disk), answers),
    ensures
        after(beginning(url, path, resume, headers, buffer_size, disk), answers).action matches (
        ActionView::Send { url: to, headers: sent }) ==> {
            &&& to == url
            &&& sent == headers || (resume && disk.part is Some && disk.part->0.len() > 0 && sent
                == seq![("Range"@, "bytes="@ + decimal(disk.part->0.len()) + "-"@)] + headers)
        },
{
    law_download_is_consistent(url, path, resume, headers, buffer_size, disk, answers);
}

/// Each event is taken when what it answers was asked for, and at no other time; only a
/// chunk that is longer than the buffer, or that makes the count too large, is not taken. A
/// failure is taken whenever an action that can fail is under way.
pub proof fn law_answers_are_taken(state: DownloadState, event: Event)
    ensures
        event is PartSize ==> (takes(state, event) <==> state.phase is Probing),
        event is Response ==> (takes(state, event) <==> state.phase is Requesting),
        event is Opened ==> (takes(state, event) <==> state.phase is Opening),
        event matches Event::Read { len } ==> (takes(state, event) <==> state.phase is Reading && len
            <= state.buffer_size),
        event is Written ==> (takes(state, event) <==> (state.phase matches Phase::Writing {
            transfer,
            len,
        } && transfer.downloaded + len <= u64::MAX)),
        event is Speed ==> (takes(state, event) <==> state.phase is Measuring),
        event is Removed ==> (takes(state, event) <==> state.phase is Removing),
        event is Renamed ==> (takes(state, event) <==> state.phase is Renaming),
        event is Failed ==> (takes(state, event) <==> (state.phase is Requesting || state.phase is Opening
            || state.phase is Reading || state.phase is Writing || state.phase is Renaming)),
{
}

/// Whether a step ends the download with the handle as it was told, but for the two flags.
pub open spec fn ends(outcome: Outcome, told: DownloadHandle, successful: bool) -> bool {
    &&& outcome.action is Finish
    &&& outcome.state.phase is Done
    &&& outcome.handle.is_finished
    &&& outcome.handle.is_successful == successful
    &&& keeps_progress(outcome.handle, told)
}

/// Whether two handles show the same counts and stop requests.
pub open spec fn keeps_progress(handle: DownloadHandle, told: DownloadHandle) -> bool {
    &&& handle.downloaded == told.downloaded
    &&& handle.total == told.total
    &&& handle.speed == told.speed
    &&& handle.eta == told.eta
    &&& handle.is_cancelled == told.is_cancelled
    &&& handle.is_aborted == told.is_aborted
}

/// Whether a step comes to what is due before each chunk. A cancelled download ends without
/// success, one that was only aborted deletes its partial file, and any other asks for a
/// chunk as large as the buffer; none of that changes what the handle shows.
pub open spec fn goes_on(
    outcome: Outcome,
    state: DownloadState,
    told: DownloadHandle,
    transfer: Transfer,
) -> bool {
    &&& told.is_cancelled ==> ends(outcome, told, false)
    &&& !told.is_cancelled && told.is_aborted ==> outcome.action == (ActionView::Remove {
        path: state.path + ".part"@,
    }) && outcome.state.phase is Removing && outcome.handle == told
    &&& !told.is_cancelled && !told.is_aborted ==> outcome.action == (ActionView::Read {
        limit: state.buffer_size,
    }) && outcome.state.phase == (Phase::Reading { transfer }) && outcome.handle == told
}

/// The size of the partial file settles where the request starts, and with that its headers;
/// the handle stays as it is.
pub proof fn law_probe_settles_the_start(
    state: DownloadState,
    handle: DownloadHandle,
    size: Option<u64>,
)
    requires
        state.phase is Probing,
        state.resume,
    ensures
        ({
            let outcome = next(state, handle, Event::PartSize(size));
            let start: u64 = if size is Some {
                size->0
            } else {
                0
            };
            &&& outcome.state.phase == (Phase::Requesting { start })
            &&& outcome.handle == handle
            &&& outcome.action == (ActionView::Send {
                url: state.url,
                headers: if start == 0 {
                    state.headers
                } else {
                    seq![("Range"@, "bytes="@ + decimal(start as nat) + "-"@)] + state.headers
                },
            })
        }),
{
}

/// A response sets the total that the handle shows if it announces one, and leaves the rest
/// of the handle as it is. A partial response (206) continues where the request started; any
/// other brings the file from its first byte.
pub proof fn law_response_settles_total_and_start(
    state: DownloadState,
    handle: DownloadHandle,
    status: u16,
    headers: ureq::http::HeaderMap,
)
    requires
        state.phase is Requesting,
    ensures
        ({
            let outcome = next(state, handle, Event::Response { status, headers });
            let total = announced_size(status, header_fields(headers));
            let start: u64 = if status == 206 {
                state.phase->Requesting_start
            } else {
                0
            };
            &&& outcome.state.phase == (Phase::Opening { start, total })
            &&& outcome.handle == (DownloadHandle {
                total: if total is Some {
                    total->0
                } else {
                    handle.total
                },
                ..handle
            })
            &&& start > 0 ==> outcome.action == (ActionView::Append { path: state.path + ".part"@ })
            &&& start == 0 ==> outcome.action == (ActionView::Create { path: state.path + ".part"@ })
        }),
{
}

/// With the partial file open, the count starts from the bytes in it, the speed is measured
/// from there on, and the download goes on; the handle shows nothing new.
pub proof fn law_opening_starts_the_count(state: DownloadState, handle: DownloadHandle)
    requires
        state.phase is Opening,
    ensures
        ({
            let start = state.phase->Opening_start;
            goes_on(
                next(state, handle, Event::Opened),
                state,
                handle,
                Transfer {
                    downloaded: start,
                    total: state.phase->Opening_total,
                    measured: start,
                    measured_at: 0,
                },
            )
        }),
{
}

/// A chunk that was read is written, all of it; the end of the stream gives the partial file
/// its final name. Nothing is counted yet.
pub proof fn law_chunk_is_written_whole(state: DownloadState, handle: DownloadHandle, len: usize)
    requires
        state.phase is Reading,
    ensures
        ({
            let outcome = next(state, handle, Event::Read { len });
            let transfer = state.phase->Reading_transfer;
            &&& outcome.handle == handle
            &&& len > 0 ==> outcome.action == (ActionView::Write { len }) && outcome.state.phase == (
            Phase::Writing { transfer, len })
            &&& len == 0 ==> outcome.action == (ActionView::Rename {
                from: state.path + ".part"@,
                to: state.path,
            }) && outcome.state.phase is Renaming
        }),
{
}

/// A chunk that was written counts with its whole length, and the handle shows the count. If a
/// tenth of a second or more has passed since the last measurement, the speed is measured,
/// over the bytes and the time since then; if not, the download goes on. Nothing else in the
/// handle changes.
pub proof fn law_written_chunk_counts(state: DownloadState, handle: DownloadHandle, now: u128)
    requires
        state.phase is Writing,
        takes(state, Event::Written { now }),
    ensures
        ({
            let outcome = next(state, handle, Event::Written { now });
            let before = state.phase->Writing_transfer;
            let count = before.downloaded + state.phase->Writing_len;
            let told = DownloadHandle { downloaded: count as u64, ..handle };
            let transfer = Transfer { downloaded: count as u64, ..before };
            &&& outcome.handle.downloaded == count
            &&& now - before.measured_at >= 100_000_000 ==> {
                &&& outcome.handle == told
                &&& outcome.state.phase == (Phase::Measuring { transfer, now })
                &&& outcome.action matches (ActionView::Measure { bytes, nanos })
                &&& count >= before.measured ==> bytes == count - before.measured
                &&& nanos == now - before.measured_at
            }
            &&& now - before.measured_at < 100_000_000 ==> goes_on(outcome, state, told, transfer)
        }),
{
}

/// After a measurement the handle shows the measured speed, whether or not the size of the
/// file is known, and the time that the rest takes at that speed. The next measurement counts
/// from here, and the download goes on. Nothing else in the handle changes.
pub proof fn law_measured_speed_is_shown(state: DownloadState, handle: DownloadHandle, speed: u64)
    requires
        state.phase is Measuring,
    ensures
        ({
            let outcome = next(state, handle, Event::Speed { bytes_per_second: speed });
            let before = state.phase->Measuring_transfer;
            &&& outcome.handle.speed == speed
            &&& is_time_for_the_rest(outcome.handle.eta, before.total, before.downloaded, speed)
            &&& goes_on(
                outcome,
                state,
                DownloadHandle { speed, eta: outcome.handle.eta, ..handle },
                Transfer {
                    downloaded: before.downloaded,
                    total: before.total,
                    measured: before.downloaded,
                    measured_at: state.phase->Measuring_now,
                },
            )
        }),
{
    let before = state.phase->Measuring_transfer;
    lemma_eta(before.total, before.downloaded, speed);
}

/// A failure ends the download without success and leaves what the handle shows; one that was
/// aborted and not cancelled deletes its partial file first.
pub proof fn law_failure_ends_without_success(state: DownloadState, handle: DownloadHandle)
    requires
        takes(state, Event::Failed),
    ensures
        ({
            let outcome = next(state, handle, Event::Failed);
            &&& handle.is_cancelled || !handle.is_aborted ==> ends(outcome, handle, false)
            &&& !handle.is_cancelled && handle.is_aborted ==> outcome.action == (
            ActionView::Remove { path: state.path + ".part"@ }) && outcome.state.phase is Removing
                && outcome.handle == handle
        }),
{
}

/// A download ends with success once the partial file has its final name, and without when the
/// partial file was removed; what the handle shows stays.
pub proof fn law_renaming_is_success(state: DownloadState, handle: DownloadHandle)
    ensures
        state.phase is Renaming ==> ends(next(state, handle, Event::Renamed), handle, true),
        state.phase is Removing ==> ends(next(state, handle, Event::Removed), handle, false),
{
}

/// An action is seen with its own texts and numbers, and with all of them.
pub proof fn law_action_is_seen_as_it_is(action: Action)
    ensures
        match action {
            Action::ProbePart { path } => action@ == (ActionView::ProbePart { path: path@ }),
            Action::Send { url, headers } => {
                &&& action@ matches (ActionView::Send { url: to, headers: sent })
                &&& to == url@
                &&& sent.len() == headers@.len()
                &&& forall|i: int|
                    0 <= i < headers@.len() ==> #[trigger] sent[i] == (
                        headers@[i].0@,
                        headers@[i].1@,
                    )
            },
            Action::Append { path } => action@ == (ActionView::Append { path: path@ }),
            Action::Create { path } => action@ == (ActionView::Create { path: path@ }),
            Action::Read { limit } => action@ == (ActionView::Read { limit }),
            Action::Write { len } => action@ == (ActionView::Write { len }),
            Action::Measure { bytes, nanos } => action@ == (ActionView::Measure { bytes, nanos }),
            Action::Remove { path } => action@ == (ActionView::Remove { path: path@ }),
            Action::Rename { from, to } => action@ == (ActionView::Rename { from: from@, to: to@ }),
            Action::Finish => action@ is Finish,
        },
{
    if let Action::Send { url, headers } = action {
        law_entries_are_the_pairs(headers@);
    }
}

} // verus!
