use requers::download::{
    download_file, eta_seconds, part_path, request_headers, start_byte, Action, Download, Event, Phase,
};
use requers::handle::{DownloadHandle, Progress};
use requers::items::Item;
use ureq::http::{HeaderMap, HeaderName, HeaderValue};

fn headers(name: &'static str, value: &'static str) -> HeaderMap {
    let mut map = HeaderMap::new();
    map.insert(HeaderName::from_static(name), HeaderValue::from_static(value));
    map
}

fn pair(key: &str, value: &str) -> (String, String) {
    (key.to_string(), value.to_string())
}

fn part() -> String {
    "file.zip.part".to_string()
}

/// The two files, as the actions leave them.
struct Disk {
    part: Option<Vec<u8>>,
    target: Option<Vec<u8>>,
}

/// A server that holds a file, and hands it out in chunks of at most `chunk` bytes.
struct Server {
    file: Vec<u8>,
    chunk: usize,
    at: usize,
    asked_for: Vec<Vec<(String, String)>>,
    /// Whether it sends what a `Range` asks for, and not the whole file.
    knows_ranges: bool,
    /// The number of chunks after which a read fails.
    breaks_after: usize,
}

impl Server {
    fn new(file: &[u8], chunk: usize) -> Server {
        Server { file: file.to_vec(), chunk, at: 0, asked_for: vec![], knows_ranges: true, breaks_after: usize::MAX }
    }
}

/// Runs a download; after `stop_after` chunks, does `stop` to the handle.
fn run(server: &mut Server, disk: &mut Disk, resume: bool, stop_after: usize, stop: fn(&mut DownloadHandle)) -> DownloadHandle {
    let (mut handle, mut download, mut action) = download_file("https://example.com/file.zip", "file.zip", resume, None, 16);
    let mut buffer = vec![0u8; 16];
    let mut chunks = 0;
    let mut now = 0;
    if chunks == stop_after {
        stop(&mut handle);
    }
    loop {
        let event = match action {
            Action::Finish => return handle,
            Action::ProbePart { path } => {
                assert_eq!(path, part());
                Event::PartSize(disk.part.as_ref().map(|part| part.len() as u64))
            }
            Action::Send { url, headers } => {
                assert_eq!(url, "https://example.com/file.zip");
                server.asked_for.push(headers.clone());
                let mut map = HeaderMap::new();
                let range = headers.first().filter(|_| server.knows_ranges);
                if let Some((name, value)) = range {
                    assert_eq!(name, "Range");
                    server.at = value["bytes=".len()..value.len() - 1].parse().unwrap();
                    let range = format!("bytes {}-{}/{}", server.at, server.file.len() - 1, server.file.len());
                    map.insert("content-range", HeaderValue::from_str(&range).unwrap());
                    Event::Response { status: 206, headers: map }
                } else {
                    server.at = 0;
                    map.insert("content-length", HeaderValue::from(server.file.len()));
                    Event::Response { status: 200, headers: map }
                }
            }
            Action::Append { path } => {
                assert_eq!(path, part());
                Event::Opened
            }
            Action::Create { path } => {
                assert_eq!(path, part());
                disk.part = Some(vec![]);
                Event::Opened
            }
            Action::Read { .. } if chunks == server.breaks_after => Event::Failed,
            Action::Read { limit } => {
                let len = limit.min(server.chunk).min(server.file.len() - server.at);
                buffer[..len].copy_from_slice(&server.file[server.at..server.at + len]);
                server.at += len;
                Event::Read { len }
            }
            Action::Write { len } => {
                disk.part.as_mut().unwrap().extend_from_slice(&buffer[..len]);
                chunks += 1;
                now += 60_000_000;
                if chunks == stop_after {
                    stop(&mut handle);
                }
                Event::Written { now }
            }
            Action::Measure { bytes, nanos } => {
                Event::Speed { bytes_per_second: (bytes as u128 * 1_000_000_000 / nanos) as u64 }
            }
            Action::Remove { path } => {
                assert_eq!(path, part());
                disk.part = None;
                Event::Removed
            }
            Action::Rename { from, to } => {
                assert_eq!((from, to), (part(), "file.zip".to_string()));
                disk.target = disk.part.take();
                Event::Renamed
            }
        };
        assert!(download.can_take(&event));
        let (cancelled, aborted, downloaded) = (handle.is_cancelled, handle.is_aborted, handle.downloaded);
        action = download.step(&mut handle, event);
        assert_eq!((handle.is_cancelled, handle.is_aborted), (cancelled, aborted));
        assert!(handle.downloaded >= downloaded);
        assert_eq!(handle.is_finished, action == Action::Finish);
    }
}

fn file() -> Vec<u8> {
    (0..100).collect()
}

fn nothing(_: &mut DownloadHandle) {}

#[test]
fn whole_download() {
    let mut server = Server::new(&file(), 10);
    let mut disk = Disk { part: None, target: None };
    let handle = run(&mut server, &mut disk, true, usize::MAX, nothing);
    assert_eq!(disk.target, Some(file()));
    assert_eq!(disk.part, None);
    assert!(handle.is_finished() && handle.is_successful());
    assert_eq!(handle.downloaded, 100);
    assert_eq!(handle.total, 100);
    assert_eq!(server.asked_for, vec![vec![]]);
}

#[test]
fn cancelled_download_can_be_resumed() {
    let mut server = Server::new(&file(), 10);
    let mut disk = Disk { part: None, target: None };
    let handle = run(&mut server, &mut disk, true, 3, DownloadHandle::cancel);
    assert!(handle.is_finished() && !handle.is_successful());
    assert_eq!(handle.downloaded, 30);
    assert_eq!(disk.part, Some(file()[..30].to_vec()));
    assert_eq!(disk.target, None);

    let handle = run(&mut server, &mut disk, true, usize::MAX, nothing);
    assert_eq!(server.asked_for[1], vec![pair("Range", "bytes=30-")]);
    assert_eq!(disk.target, Some(file()));
    assert_eq!(handle.downloaded, 100);
    assert_eq!(handle.total, 100);
}

#[test]
fn partial_file_is_dropped_without_resume() {
    let mut server = Server::new(&file(), 10);
    let mut disk = Disk { part: Some(vec![9; 40]), target: None };
    run(&mut server, &mut disk, false, usize::MAX, nothing);
    assert_eq!(server.asked_for, vec![vec![]]);
    assert_eq!(disk.target, Some(file()));
}

#[test]
fn empty_partial_file_is_as_good_as_none() {
    let mut server = Server::new(&file(), 10);
    let mut disk = Disk { part: Some(vec![]), target: None };
    run(&mut server, &mut disk, true, usize::MAX, nothing);
    assert_eq!(server.asked_for, vec![vec![]]);
    assert_eq!(disk.target, Some(file()));
}

#[test]
fn aborted_download_loses_its_partial_file() {
    let mut server = Server::new(&file(), 10);
    let mut disk = Disk { part: None, target: None };
    let handle = run(&mut server, &mut disk, true, 3, DownloadHandle::abort);
    assert_eq!(disk.part, None);
    assert_eq!(disk.target, None);
    assert!(handle.is_finished() && !handle.is_successful());
    assert_eq!(handle.downloaded, 30);
}

#[test]
fn server_that_ignores_the_range_sends_the_whole_file() {
    let mut server = Server::new(b"hello world", 4);
    server.knows_ranges = false;
    let mut disk = Disk { part: Some(b"hello ".to_vec()), target: None };
    let handle = run(&mut server, &mut disk, true, usize::MAX, nothing);
    assert_eq!(server.asked_for, vec![vec![pair("Range", "bytes=6-")]]);
    assert_eq!(disk.target, Some(b"hello world".to_vec()));
    assert_eq!(disk.part, None);
    assert!(handle.is_finished() && handle.is_successful());
    assert_eq!((handle.downloaded, handle.total), (11, 11));
}

#[test]
fn failed_download_can_be_resumed() {
    let mut server = Server::new(&file(), 10);
    server.breaks_after = 4;
    let mut disk = Disk { part: None, target: None };
    let handle = run(&mut server, &mut disk, true, usize::MAX, nothing);
    assert!(handle.is_finished() && !handle.is_successful());
    assert_eq!(disk.part, Some(file()[..40].to_vec()));
    assert_eq!(disk.target, None);

    server.breaks_after = usize::MAX;
    let handle = run(&mut server, &mut disk, true, usize::MAX, nothing);
    assert_eq!(server.asked_for[1], vec![pair("Range", "bytes=40-")]);
    assert_eq!(disk.target, Some(file()));
    assert!(handle.is_successful());
}

#[test]
fn abort_deletes_the_partial_file_of_a_failed_download() {
    for (status, steps) in [(200, 0), (200, 1), (206, 1), (200, 2)] {
        let (mut handle, mut download, _) = responded(status, HeaderMap::new(), Some(5));
        for event in [Event::Opened, Event::Read { len: 3 }].into_iter().take(steps) {
            download.step(&mut handle, event);
        }
        handle.abort();
        assert_eq!(download.step(&mut handle, Event::Failed), Action::Remove { path: part() });
        assert_eq!(download.phase(), Phase::Removing);
        assert!(!handle.is_finished());
        assert_eq!(download.step(&mut handle, Event::Removed), Action::Finish);
        assert!(handle.is_finished() && !handle.is_successful());
    }
}

#[test]
fn cancelled_download_that_fails_keeps_its_partial_file() {
    let (mut handle, mut download, _) = responded(200, HeaderMap::new(), None);
    download.step(&mut handle, Event::Opened);
    handle.abort();
    handle.cancel();
    assert_eq!(download.step(&mut handle, Event::Failed), Action::Finish);
    assert!(handle.is_finished() && !handle.is_successful());
}

#[test]
fn cancel_wins_over_abort() {
    let mut server = Server::new(&file(), 10);
    let mut disk = Disk { part: None, target: None };
    run(&mut server, &mut disk, true, 2, |handle| {
        handle.abort();
        handle.cancel();
    });
    assert_eq!(disk.part, Some(file()[..20].to_vec()));
}

#[test]
fn stop_before_the_first_chunk() {
    let mut server = Server::new(&file(), 10);
    let mut disk = Disk { part: None, target: None };
    let handle = run(&mut server, &mut disk, true, 0, DownloadHandle::cancel);
    assert_eq!(disk.part, Some(vec![]));
    assert_eq!(handle.downloaded, 0);
    assert_eq!(server.at, 0);
}

#[test]
fn empty_file() {
    let mut server = Server::new(b"", 10);
    let mut disk = Disk { part: None, target: None };
    let handle = run(&mut server, &mut disk, true, usize::MAX, nothing);
    assert_eq!(disk.target, Some(vec![]));
    assert!(handle.is_successful());
    assert_eq!(handle.downloaded, 0);
}

/// A download of which the response has come, with its handle.
fn responded(status: u16, map: HeaderMap, part_size: Option<u64>) -> (DownloadHandle, Download, Action) {
    let (mut handle, mut download, _) = download_file("u", "file.zip", true, None, 8);
    download.step(&mut handle, Event::PartSize(part_size));
    let action = download.step(&mut handle, Event::Response { status, headers: map });
    (handle, download, action)
}

#[test]
fn total_is_kept_where_it_is_known() {
    let (handle, _, action) = responded(206, headers("content-range", "bytes 5-9/10"), Some(5));
    assert_eq!(handle.total, 10);
    assert_eq!(handle.downloaded, 0);
    assert_eq!(action, Action::Append { path: part() });
    let (handle, _, action) = responded(200, HeaderMap::new(), None);
    assert_eq!(handle.total, 0);
    assert_eq!(action, Action::Create { path: part() });
    let (handle, _, action) = responded(200, headers("content-length", "10"), Some(5));
    assert_eq!(handle.total, 10);
    assert_eq!(action, Action::Create { path: part() });
}

#[test]
fn failures_end_without_success() {
    let (mut handle, mut download, _) = download_file("u", "file.zip", false, None, 8);
    assert_eq!(download.step(&mut handle, Event::Failed), Action::Finish);
    assert!(handle.is_finished() && !handle.is_successful());
    assert_eq!(download.phase(), Phase::Done);

    for steps in 0..4 {
        let (mut handle, mut download, _) = responded(200, HeaderMap::new(), None);
        for event in [Event::Opened, Event::Read { len: 3 }, Event::Written { now: 0 }].into_iter().take(steps) {
            download.step(&mut handle, event);
        }
        assert_eq!(download.step(&mut handle, Event::Failed), Action::Finish);
        assert!(handle.is_finished() && !handle.is_successful());
    }
}

#[test]
fn failed_rename_is_no_success() {
    let (mut handle, mut download, _) = responded(200, HeaderMap::new(), None);
    download.step(&mut handle, Event::Opened);
    let action = download.step(&mut handle, Event::Read { len: 0 });
    assert_eq!(action, Action::Rename { from: part(), to: "file.zip".to_string() });
    assert_eq!(download.step(&mut handle, Event::Failed), Action::Finish);
    assert!(!handle.is_successful());
}

#[test]
fn speed_is_measured_every_tenth_of_a_second() {
    let (mut handle, mut download, _) = responded(206, headers("content-range", "bytes 5-104/105"), Some(5));
    download.step(&mut handle, Event::Opened);
    download.step(&mut handle, Event::Read { len: 8 });
    let action = download.step(&mut handle, Event::Written { now: 99_999_999 });
    assert_eq!(action, Action::Read { limit: 8 });
    assert_eq!((handle.downloaded, handle.speed, handle.eta), (13, 0, 0));

    download.step(&mut handle, Event::Read { len: 2 });
    let action = download.step(&mut handle, Event::Written { now: 100_000_000 });
    assert_eq!(action, Action::Measure { bytes: 10, nanos: 100_000_000 });
    assert_eq!(handle.downloaded, 15);
    let action = download.step(&mut handle, Event::Speed { bytes_per_second: 40 });
    assert_eq!(action, Action::Read { limit: 8 });
    assert_eq!((handle.speed, handle.eta), (40, 2));

    download.step(&mut handle, Event::Read { len: 1 });
    let action = download.step(&mut handle, Event::Written { now: 250_000_000 });
    assert_eq!(action, Action::Measure { bytes: 1, nanos: 150_000_000 });
    download.step(&mut handle, Event::Speed { bytes_per_second: 0 });
    assert_eq!((handle.speed, handle.eta), (0, 0));
}

#[test]
fn time_that_goes_back_counts_as_none() {
    let (mut handle, mut download, _) = responded(200, HeaderMap::new(), None);
    download.step(&mut handle, Event::Opened);
    download.step(&mut handle, Event::Read { len: 1 });
    download.step(&mut handle, Event::Written { now: 200_000_000 });
    download.step(&mut handle, Event::Speed { bytes_per_second: 5 });
    assert_eq!(handle.eta, 0);
    download.step(&mut handle, Event::Read { len: 1 });
    assert_eq!(download.step(&mut handle, Event::Written { now: 0 }), Action::Read { limit: 8 });
}

#[test]
fn events_out_of_order_are_not_taken() {
    let (mut handle, mut download, action) = download_file("u", "file.zip", true, None, 8);
    assert_eq!(action, Action::ProbePart { path: part() });
    assert!(!download.can_take(&Event::Opened));
    assert!(!download.can_take(&Event::Failed));
    assert!(download.can_take(&Event::PartSize(None)));
    download.step(&mut handle, Event::PartSize(None));
    download.step(&mut handle, Event::Failed);
    assert!(!download.can_take(&Event::Failed));
    assert!(!download.can_take(&Event::Renamed));
}

#[test]
fn counts_that_do_not_fit_are_not_taken() {
    let (mut handle, mut download, _) = responded(206, headers("content-range", "bytes 5-9/10"), Some(u64::MAX - 1));
    download.step(&mut handle, Event::Opened);
    assert!(!download.can_take(&Event::Read { len: 9 }));
    download.step(&mut handle, Event::Read { len: 2 });
    assert!(!download.can_take(&Event::Written { now: 0 }));
    assert!(download.can_take(&Event::Failed));
}

#[test]
fn more_than_announced_leaves_no_time() {
    let (mut handle, mut download, _) = responded(200, headers("content-length", "5"), None);
    download.step(&mut handle, Event::Opened);
    download.step(&mut handle, Event::Read { len: 8 });
    download.step(&mut handle, Event::Written { now: 100_000_000 });
    let event = Event::Speed { bytes_per_second: 1 };
    assert!(download.can_take(&event));
    assert_eq!(download.step(&mut handle, event), Action::Read { limit: 8 });
    assert_eq!((handle.downloaded, handle.total, handle.speed, handle.eta), (8, 5, 1, 0));
}

#[test]
fn later_readings_move_on() {
    let (mut handle, mut download, _) = download_file("u", "file.zip", true, None, 8);
    let mut readings = vec![handle.get_progress()];
    let events = [
        Event::PartSize(Some(5)),
        Event::Response { status: 206, headers: headers("content-range", "bytes 5-9/10") },
        Event::Opened,
        Event::Read { len: 3 },
        Event::Written { now: 100_000_000 },
        Event::Speed { bytes_per_second: 2 },
        Event::Read { len: 2 },
        Event::Written { now: 110_000_000 },
        Event::Read { len: 0 },
        Event::Renamed,
    ];
    for event in events {
        download.step(&mut handle, event);
        readings.push(handle.get_progress());
    }
    for (i, earlier) in readings.iter().enumerate() {
        for later in &readings[i..] {
            assert!(earlier.downloaded <= later.downloaded);
            assert!(earlier.total == 0 || later.total == earlier.total);
            assert!(!earlier.finished || later == earlier);
        }
    }
    let end = Progress { downloaded: 10, total: 10, speed: 2, eta: 1, finished: true, successful: true };
    assert_eq!(readings.last(), Some(&end));
    handle.cancel();
    handle.abort();
    assert_eq!(handle.get_progress(), end);
}

#[test]
fn custom_headers_follow_the_range() {
    let custom = vec![pair("X-A", "1"), pair("X-B", "2")];
    assert_eq!(request_headers(7, &custom), vec![pair("Range", "bytes=7-"), pair("X-A", "1"), pair("X-B", "2")]);
    assert_eq!(request_headers(0, &custom), custom);
    assert_ne!(request_headers(1, &custom), request_headers(11, &custom));
}

#[test]
fn headers_that_are_no_texts_are_left_out() {
    let items: Vec<Item> = vec![
        (Some("X-A".to_string()), Some("1".to_string())),
        (Some("X-B".to_string()), None),
        (None, Some("2".to_string())),
    ];
    let (handle, _, action) = download_file("u", "p", false, Some(&items), 8);
    assert_eq!(action, Action::Send { url: "u".to_string(), headers: vec![pair("X-A", "1")] });
    assert_eq!(handle, DownloadHandle::new());
}

#[test]
fn partial_file_stands_beside_the_final_one() {
    assert_eq!(part_path("dir/file.zip"), "dir/file.zip.part");
    assert_eq!(part_path(""), ".part");
}

#[test]
fn start_is_the_end_of_the_partial_file() {
    assert_eq!(start_byte(true, Some(12)), 12);
    assert_eq!(start_byte(true, None), 0);
    assert_eq!(start_byte(false, Some(12)), 0);
}

#[test]
fn remaining_time_is_rounded_down() {
    assert_eq!(eta_seconds(Some(1000), 100, 400), 2);
    assert_eq!(eta_seconds(Some(1000), 1000, 400), 0);
    assert_eq!(eta_seconds(Some(1000), 0, 0), 0);
    assert_eq!(eta_seconds(None, 100, 400), 0);
    assert_eq!(eta_seconds(Some(1), 100, 0), 0);
    assert_eq!(eta_seconds(Some(1), 100, 7), 0);
}

#[test]
fn handle_shows_progress() {
    let mut handle = DownloadHandle::new();
    assert!(!handle.is_finished() && !handle.is_successful());
    handle.downloaded = 1;
    handle.total = 2;
    handle.speed = 3;
    handle.eta = 4;
    handle.is_finished = true;
    assert_eq!(
        handle.get_progress(),
        Progress { downloaded: 1, total: 2, speed: 3, eta: 4, finished: true, successful: false }
    );
}

#[test]
fn stop_requests_are_told_apart() {
    let mut handle = DownloadHandle::new();
    handle.cancel();
    assert!(handle.is_cancelled && !handle.is_aborted);
    let mut handle = DownloadHandle::new();
    handle.abort();
    assert!(!handle.is_cancelled && handle.is_aborted);
}
