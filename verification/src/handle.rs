//! The handle of one download: the requests to stop it, and how far it has come.
use vstd::prelude::*;

verus! {

/// What a caller and the download share.
///
/// There are two ways to stop a download: `cancel` keeps the partial file, so that
/// it can be resumed later; `abort` deletes it.
#[derive(Debug, PartialEq, Eq, Structural)]
pub struct DownloadHandle {
    /// Stop, and keep the partial file.
    pub is_cancelled: bool,
    /// Stop, and delete the partial file.
    pub is_aborted: bool,
    /// Bytes downloaded so far.
    pub downloaded: u64,
    /// Total bytes to download (0 if unknown).
    pub total: u64,
    /// Current download speed in bytes per second.
    pub speed: u64,
    /// Estimated time remaining in seconds.
    pub eta: u64,
    /// Whether the download has ended.
    pub is_finished: bool,
    /// Whether the download was successful.
    pub is_successful: bool,
}

/// A reading of the progress of a download.
#[derive(Debug, PartialEq, Eq, Structural)]
pub struct Progress {
    pub downloaded: u64,
    pub total: u64,
    pub speed: u64,
    pub eta: u64,
    pub finished: bool,
    pub successful: bool,
}

/// The handle of a download that has just begun.
pub open spec fn new_handle() -> DownloadHandle {
    DownloadHandle {
        is_cancelled: false,
        is_aborted: false,
        downloaded: 0,
        total: 0,
        speed: 0,
        eta: 0,
        is_finished: false,
        is_successful: false,
    }
}

impl DownloadHandle {
    /// A handle on which nothing was asked for and nothing has happened yet.
    pub fn new() -> (handle: DownloadHandle)
        ensures
            handle == new_handle(),
            !handle.is_cancelled && !handle.is_aborted,
            handle.downloaded == 0 && handle.total == 0 && handle.speed == 0 && handle.eta == 0,
            !handle.is_finished && !handle.is_successful,
    {
        DownloadHandle {
            is_cancelled: false,
            is_aborted: false,
            downloaded: 0,
            total: 0,
            speed: 0,
            eta: 0,
            is_finished: false,
            is_successful: false,
        }
    }

    /// Asks the download to stop and to keep its partial file.
    pub fn cancel(&mut self)
        ensures
            *final(self) == (DownloadHandle { is_cancelled: true, ..*old(self) }),
    {
        self.is_cancelled = true;
    }

    /// Asks the download to stop and to delete its partial file.
    pub fn abort(&mut self)
        ensures
            *final(self) == (DownloadHandle { is_aborted: true, ..*old(self) }),
    {
        self.is_aborted = true;
    }

    /// How far the download has come.
    pub fn get_progress(&self) -> (progress: Progress)
        ensures
            progress == (Progress {
                downloaded: self.downloaded,
                total: self.total,
                speed: self.speed,
                eta: self.eta,
                finished: self.is_finished,
                successful: self.is_successful,
            }),
    {
        Progress {
            downloaded: self.downloaded,
            total: self.total,
            speed: self.speed,
            eta: self.eta,
            finished: self.is_finished,
            successful: self.is_successful,
        }
    }

    /// Whether the download has ended.
    pub fn is_finished(&self) -> (finished: bool)
        ensures
            finished == self.is_finished,
    {
        self.is_finished
    }

    /// Whether the download was successful.
    pub fn is_successful(&self) -> (successful: bool)
        ensures
            successful == self.is_successful,
    {
        self.is_successful
    }
}

} // verus!
