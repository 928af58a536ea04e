//! Progress of a job: bytes and files done out of the totals, and the
//! pacing of progress reports.
use vstd::prelude::*;
use crate::types::JobId;

verus! {

/// Counts the work of a job. Times are milliseconds since the tracker was
/// made.
pub struct ProgressTracker {
    job_id: JobId,
    bytes_total: u64,
    files_total: u64,
    bytes_processed: u64,
    files_processed: u64,
    last_update_ms: u64,
}

/// Milliseconds from `from` to `to`, zero where `to` lies before `from`.
pub open spec fn elapsed_ms(from: u64, to: u64) -> int {
    if to >= from {
        to - from
    } else {
        0
    }
}

impl ProgressTracker {
    /// The job tracked.
    pub closed spec fn job(&self) -> JobId {
        self.job_id
    }

    /// Bytes to do.
    pub closed spec fn total_bytes(&self) -> u64 {
        self.bytes_total
    }

    /// Files to do.
    pub closed spec fn total_files(&self) -> u64 {
        self.files_total
    }

    /// Bytes done.
    pub closed spec fn done_bytes(&self) -> u64 {
        self.bytes_processed
    }

    /// Files done.
    pub closed spec fn done_files(&self) -> u64 {
        self.files_processed
    }

    /// Time of the last report.
    pub closed spec fn last_report(&self) -> u64 {
        self.last_update_ms
    }

    /// A tracker for `job_id` with nothing done yet.
    pub fn new(job_id: JobId, bytes_total: u64, files_total: u64) -> (r: Self)
        ensures
            r.job() == job_id,
            r.total_bytes() == bytes_total,
            r.total_files() == files_total,
            r.done_bytes() == 0,
            r.done_files() == 0,
            r.last_report() == 0,
    {
        ProgressTracker {
            job_id,
            bytes_total,
            files_total,
            bytes_processed: 0,
            files_processed: 0,
            last_update_ms: 0,
        }
    }

    /// Counts `bytes` more bytes done (the count wraps at 2^64).
    pub fn add_bytes(&mut self, bytes: u64)
        ensures
            final(self).done_bytes() == (old(self).done_bytes() + bytes) % 0x1_0000_0000_0000_0000,
            final(self).done_files() == old(self).done_files(),
            final(self).total_bytes() == old(self).total_bytes(),
            final(self).total_files() == old(self).total_files(),
            final(self).last_report() == old(self).last_report(),
            final(self).job() == old(self).job(),
    {
        self.bytes_processed = self.bytes_processed.wrapping_add(bytes);
    }

    /// Counts one more file done (the count wraps at 2^64).
    pub fn add_file(&mut self)
        ensures
            final(self).done_files() == (old(self).done_files() + 1) % 0x1_0000_0000_0000_0000,
            final(self).done_bytes() == old(self).done_bytes(),
            final(self).total_bytes() == old(self).total_bytes(),
            final(self).total_files() == old(self).total_files(),
            final(self).last_report() == old(self).last_report(),
            final(self).job() == old(self).job(),
    {
        self.files_processed = self.files_processed.wrapping_add(1);
    }

    /// Whether a report is due at time `now_ms`: at least `interval_ms`
    /// since the last one, the time elapsed counted as zero where `now_ms`
    /// lies before it. When it is, `now_ms` becomes the time of the last
    /// report.
    pub fn should_update(&mut self, now_ms: u64, interval_ms: u64) -> (r: bool)
        ensures
            r == (elapsed_ms(old(self).last_report(), now_ms) >= interval_ms),
            final(self).last_report() == if r {
                now_ms
            } else {
                old(self).last_report()
            },
            final(self).done_bytes() == old(self).done_bytes(),
            final(self).done_files() == old(self).done_files(),
            final(self).total_bytes() == old(self).total_bytes(),
            final(self).total_files() == old(self).total_files(),
            final(self).job() == old(self).job(),
    {
        if now_ms.saturating_sub(self.last_update_ms) >= interval_ms {
            self.last_update_ms = now_ms;
            true
        } else {
            false
        }
    }

    /// The job tracked.
    pub fn job_id(&self) -> (r: &JobId)
        ensures
            *r == self.job(),
    {
        &self.job_id
    }

    /// Bytes done.
    pub fn bytes_processed(&self) -> (r: u64)
        ensures
            r == self.done_bytes(),
    {
        self.bytes_processed
    }

    /// Files done.
    pub fn files_processed(&self) -> (r: u64)
        ensures
            r == self.done_files(),
    {
        self.files_processed
    }

    /// Bytes to do.
    pub fn bytes_total(&self) -> (r: u64)
        ensures
            r == self.total_bytes(),
    {
        self.bytes_total
    }

    /// Files to do.
    pub fn files_total(&self) -> (r: u64)
        ensures
            r == self.total_files(),
    {
        self.files_total
    }
}

} // verus!
