//! Progress events emitted by the engine and the shared byte counter.
//!
//! Pipelines do not emit per-byte events; the `Started` event hands the
//! consumer a shared atomic counter which workers bump as bytes move, and a
//! UI samples it at its own cadence.

use std::sync::Arc;
use std::sync::atomic::AtomicU64;
use std::sync::atomic::Ordering;
use vstd::prelude::*;

verus! {

/// Shared atomic byte counter. Updates use relaxed ordering; readers see a
/// monotonically non-decreasing approximation of the bytes transferred.
#[derive(Debug, Clone)]
pub struct ProgressCounter {
    inner: Arc<AtomicU64>,
}

impl ProgressCounter {
    /// A fresh counter starting at zero.
    pub fn new() -> ProgressCounter {
        ProgressCounter { inner: Arc::new(AtomicU64::new(0)) }
    }

    /// Add `n` transferred bytes. Never blocks; the counter is not a gate.
    pub fn add(&self, n: u64) {
        self.inner.fetch_add(n, Ordering::Relaxed);
    }

    /// Sample the counter.
    pub fn get(&self) -> u64 {
        self.inner.load(Ordering::Relaxed)
    }
}

/// A reader adapter that counts the bytes moving through it into the shared
/// progress counter, so a UI can sample throughput without per-byte events.
/// The counting read itself happens where the I/O happens; the pairing of a
/// source with its counter is made here.
#[derive(Debug)]
pub struct ProgressWrapper<R> {
    pub inner: R,
    pub progress: ProgressCounter,
}

impl<R> ProgressWrapper<R> {
    /// Wrap a byte source with the transfer's shared counter.
    pub fn new(inner: R, progress: ProgressCounter) -> (r: ProgressWrapper<R>)
        ensures
            r.inner == inner,
            r.progress == progress,
    {
        ProgressWrapper { inner, progress }
    }
}

/// One upload progress event.
#[derive(Debug, Clone)]
pub struct UploadEvent {
    pub status: UploadStatus,
}

/// Upload state machine:
/// `Started -> Hashing -> HashComplete -> Completed | Failed`.
/// `Started` is first; `Completed` or `Failed` is last and emitted exactly
/// once.
#[derive(Debug, Clone)]
pub enum UploadStatus {
    Started { total_size: u64, total_chunks: u32, progress: ProgressCounter },
    Hashing,
    HashComplete { sha256: String },
    Completed { file_id: String },
    Failed { error: String },
}

/// One download progress event.
#[derive(Debug, Clone)]
pub struct DownloadEvent {
    pub status: DownloadStatus,
}

/// Download state machine:
/// `Started -> Merging -> Verifying -> Completed | Failed`.
#[derive(Debug, Clone)]
pub enum DownloadStatus {
    Started { total_size: u64, total_chunks: u32, progress: ProgressCounter },
    Merging,
    Verifying,
    Completed { path: String },
    Failed { error: String },
}

/// `Completed` and `Failed` are the only terminal upload states.
pub open spec fn upload_terminal(s: &UploadStatus) -> bool {
    s is Completed || s is Failed
}

/// `Completed` and `Failed` are the only terminal download states.
pub open spec fn download_terminal(s: &DownloadStatus) -> bool {
    s is Completed || s is Failed
}

/// Exactly one terminal event stands in `events`, and it is the last.
pub open spec fn upload_events_linear(events: Seq<UploadEvent>) -> bool {
    forall|i: int|
        0 <= i < events.len() && upload_terminal(&(#[trigger] events[i]).status) ==> i
            == events.len() - 1
}

/// Exactly one terminal event stands in `events`, and it is the last.
pub open spec fn download_events_linear(events: Seq<DownloadEvent>) -> bool {
    forall|i: int|
        0 <= i < events.len() && download_terminal(&(#[trigger] events[i]).status) ==> i
            == events.len() - 1
}

} // verus!
