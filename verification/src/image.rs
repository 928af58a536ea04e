//! Disc imaging: the machine's resources, which sources are drives, and the
//! decisions of the loop that streams a drive's sectors to an image file.
use vstd::prelude::*;
use crate::crash_reporting::cpu_count;
use crate::text::{has_prefix, starts_with_str};

verus! {

/// Threads and workers for parallel I/O.
pub struct HardwareResources {
    pub num_cpus: usize,
    pub io_threads: usize,
    pub chunk_workers: usize,
    pub max_concurrent_reads: usize,
}

impl HardwareResources {
    /// The resources for a machine with `num_cpus` logical processors: twice
    /// as many I/O threads, one checksum worker per processor, and one read
    /// at a time (a drive has one read head).
    pub fn from_cpu_count(num_cpus: usize) -> (r: Self)
        requires
            num_cpus * 2 <= usize::MAX,
        ensures
            r.num_cpus == num_cpus,
            r.io_threads == num_cpus * 2,
            r.chunk_workers == num_cpus,
            r.max_concurrent_reads == 1,
    {
        HardwareResources {
            num_cpus,
            io_threads: num_cpus * 2,
            chunk_workers: num_cpus,
            max_concurrent_reads: 1,
        }
    }

    /// The resources of this machine.
    pub fn discover() -> (r: Self)
        ensures
            r.num_cpus >= 1,
            r.num_cpus * 2 <= usize::MAX ==> r.io_threads == r.num_cpus * 2,
            r.num_cpus * 2 > usize::MAX ==> r.io_threads == usize::MAX,
            r.chunk_workers == r.num_cpus,
            r.max_concurrent_reads == 1,
    {
        let n = cpu_count();
        let io_threads = if n <= usize::MAX / 2 {
            n * 2
        } else {
            usize::MAX
        };
        HardwareResources {
            num_cpus: n,
            io_threads,
            chunk_workers: n,
            max_concurrent_reads: 1,
        }
    }
}

/// Whether a source path names an optical drive rather than an image file.
pub open spec fn drive_path(p: Seq<char>) -> bool {
    has_prefix(p, "/dev/sr"@) || has_prefix(p, "/dev/cdrom"@) || has_prefix(p, "/dev/disk"@)
}

/// Whether a source path names an optical drive (a device node) rather than
/// an image file.
pub fn is_drive_path(path: &str) -> (r: bool)
    ensures
        r == drive_path(path@),
{
    starts_with_str(path, "/dev/sr") || starts_with_str(path, "/dev/cdrom") || starts_with_str(
        path,
        "/dev/disk",
    )
}

/// Sectors read at a time.
pub const BATCH_SECTORS: u32 = 200;

/// Bytes in a raw sector.
pub const RAW_SECTOR_SIZE: u64 = 2352;

/// Failed reads in a row after which streaming stops.
pub const MAX_CONSECUTIVE_ERRORS: u32 = 50;

/// Sectors assumed where the disc's size is unknown.
pub const UNKNOWN_SIZE_SECTORS: u64 = 100_000;

/// Bytes past which streaming stops.
pub const STREAM_LIMIT_BYTES: u64 = 50_000_000_000;

/// What a batch read gave.
pub enum BatchOutcome {
    /// Some bytes.
    Data(u64),
    /// Nothing: the end of the disc.
    Empty,
    /// An error.
    Failed,
}

/// What to do next.
pub enum StreamStep {
    /// Read `count` sectors from `sector` on.
    Read { sector: u64, count: u32 },
    /// Stop: the image is complete.
    Done,
    /// Stop: the job was cancelled.
    Cancelled,
}

/// The state of a drive being streamed to an image file.
pub struct DriveStream {
    pub current_sector: u64,
    pub consecutive_errors: u32,
    pub total_sectors: u64,
    pub stopped: bool,
}

/// The sectors of a disc of `total_size` bytes (rounded up), or the
/// assumed count where the size is unknown.
pub open spec fn sectors_for(total_size: u64) -> int {
    if total_size > 0 {
        (total_size + RAW_SECTOR_SIZE - 1) / (RAW_SECTOR_SIZE as int)
    } else {
        UNKNOWN_SIZE_SECTORS as int
    }
}

impl DriveStream {
    /// How far the stream may get (the sector count of the disc, plus a
    /// batch), and that a running stream has fewer errors in a row than
    /// the limit.
    pub open spec fn wf(&self) -> bool {
        &&& self.current_sector <= self.total_sectors + BATCH_SECTORS
        &&& self.total_sectors <= u64::MAX / RAW_SECTOR_SIZE + 1
        &&& (self.stopped || self.consecutive_errors < MAX_CONSECUTIVE_ERRORS)
    }

    /// The stream of a disc of `total_size` bytes, at its first sector.
    pub fn new(total_size: u64) -> (r: Self)
        requires
            total_size + RAW_SECTOR_SIZE - 1 <= u64::MAX,
        ensures
            r.wf(),
            r.current_sector == 0,
            r.consecutive_errors == 0,
            r.total_sectors == sectors_for(total_size),
            !r.stopped,
    {
        let total_sectors = if total_size > 0 {
            (total_size + (RAW_SECTOR_SIZE - 1)) / RAW_SECTOR_SIZE
        } else {
            UNKNOWN_SIZE_SECTORS
        };
        DriveStream { current_sector: 0, consecutive_errors: 0, total_sectors, stopped: false }
    }

    /// The next step: done once stopped or past the last sector, cancelled
    /// where the job was, else a batch read at the current sector.
    pub fn next_step(&self, cancelled: bool) -> (r: StreamStep)
        ensures
            (self.stopped || self.current_sector >= self.total_sectors) ==> r is Done,
            !(self.stopped || self.current_sector >= self.total_sectors) && cancelled ==> r
                is Cancelled,
            !(self.stopped || self.current_sector >= self.total_sectors) && !cancelled ==> r
                == (StreamStep::Read { sector: self.current_sector, count: BATCH_SECTORS }),
    {
        if self.stopped || self.current_sector >= self.total_sectors {
            StreamStep::Done
        } else if cancelled {
            StreamStep::Cancelled
        } else {
            StreamStep::Read { sector: self.current_sector, count: BATCH_SECTORS }
        }
    }

    /// Takes in what a batch read gave: data moves on a batch and clears
    /// the error count; nothing stops; an error counts, stops at the limit
    /// of errors in a row, and else skips the batch. Streaming also stops
    /// once past the byte limit.
    pub fn on_batch(&mut self, outcome: BatchOutcome)
        requires
            old(self).wf(),
            !old(self).stopped,
            old(self).current_sector < old(self).total_sectors,
        ensures
            final(self).wf(),
            final(self).total_sectors == old(self).total_sectors,
            match outcome {
                BatchOutcome::Data(n) => n > 0 ==> {
                    &&& final(self).consecutive_errors == 0
                    &&& final(self).current_sector == old(self).current_sector + BATCH_SECTORS
                    &&& final(self).stopped == (final(self).current_sector * RAW_SECTOR_SIZE
                        > STREAM_LIMIT_BYTES)
                },
                BatchOutcome::Failed => if old(self).consecutive_errors + 1 >= MAX_CONSECUTIVE_ERRORS {
                    &&& final(self).stopped
                    &&& final(self).current_sector == old(self).current_sector
                    &&& final(self).consecutive_errors == old(self).consecutive_errors + 1
                } else {
                    &&& final(self).consecutive_errors == old(self).consecutive_errors + 1
                    &&& final(self).current_sector == old(self).current_sector + BATCH_SECTORS
                    &&& final(self).stopped == (final(self).current_sector * RAW_SECTOR_SIZE
                        > STREAM_LIMIT_BYTES)
                },
                _ => true,
            },
            (outcome is Empty || (outcome matches BatchOutcome::Data(n) && n == 0)) ==> {
                &&& final(self).stopped
                &&& final(self).current_sector == old(self).current_sector
                &&& final(self).consecutive_errors == old(self).consecutive_errors
            },
    {
        match outcome {
            BatchOutcome::Data(n) => {
                if n == 0 {
                    self.stopped = true;
                    return ;
                }
                self.consecutive_errors = 0;
                self.current_sector = self.current_sector + BATCH_SECTORS as u64;
            },
            BatchOutcome::Empty => {
                self.stopped = true;
                return ;
            },
            BatchOutcome::Failed => {
                self.consecutive_errors = self.consecutive_errors + 1;
                if self.consecutive_errors >= MAX_CONSECUTIVE_ERRORS {
                    self.stopped = true;
                    return ;
                }
                self.current_sector = self.current_sector + BATCH_SECTORS as u64;
            },
        }
        // past the byte limit: current_sector * 2352 > 50_000_000_000
        let past = self.current_sector > STREAM_LIMIT_BYTES / RAW_SECTOR_SIZE;
        proof {
            let c = self.current_sector as int;
            assert(past == (c * 2352 > 50_000_000_000)) by (nonlinear_arith)
                requires
                    past == (c > 21258503),
            ;
        }
        self.stopped = past;
    }
}

} // verus!
