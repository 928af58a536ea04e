//! Drive control (START STOP UNIT, SET STREAMING) and paranoid ripping,
//! which reads every sector several times and keeps the majority value of
//! each byte.
use vstd::prelude::*;
use crate::error::DiskRipperError;
use crate::text::{dec_digits, dec_padded, owned, push_dec, push_str, string_of};

verus! {

/// START STOP UNIT: start the disc.
pub const SSU_START: u8 = 0x01;

/// START STOP UNIT: stop the disc.
pub const SSU_STOP: u8 = 0x00;

/// START STOP UNIT: eject the disc.
pub const SSU_EJECT: u8 = 0x02;

/// START STOP UNIT: load the disc.
pub const SSU_LOAD: u8 = 0x03;

/// Drive control operations.
pub struct DriveController;

/// What came of sending a command block to a drive, on a platform that
/// sends drive commands.
#[derive(Debug, Clone, PartialEq, Eq)]
pub enum CommandSent {
    /// The drive could not be opened, for the reason given.
    OpenFailed(String),
    /// The drive did not take the command.
    Failed,
    /// The drive took the command.
    Done,
}

/// Whether `r` is the result of a drive command: refused with
/// `unsupported` where nothing was sent, the opening error where the drive
/// could not be opened, an I/O error `failed` where the drive did not take
/// the command, else success.
pub open spec fn command_result(
    sent: Option<CommandSent>,
    r: Result<(), DiskRipperError>,
    unsupported: Seq<char>,
    failed: Seq<char>,
) -> bool {
    match sent {
        None => r matches Err(DiskRipperError::UnsupportedDisc(m)) && m@ == unsupported,
        Some(CommandSent::OpenFailed(e)) => r matches Err(DiskRipperError::Io(m)) && m@ == e@,
        Some(CommandSent::Failed) => r matches Err(DiskRipperError::Io(m)) && m@ == failed,
        Some(CommandSent::Done) => r is Ok,
    }
}

/// The six-byte START STOP UNIT command block with action `command`.
pub open spec fn start_stop_block(command: u8) -> Seq<u8> {
    seq![0x1Bu8, 0, 0, 0, command, 0]
}

/// The twelve-byte SET STREAMING command block for `speed_x` times the CD
/// speed of 150 KB/s, the speed's two low bytes at the end.
pub open spec fn set_streaming_block(speed_x: u32) -> Seq<u8> {
    let kbs = (speed_x * 150) as u32;
    seq![0xB6u8, 0, 0, 0, 0, 0, 0, 0, 0, 0, ((kbs / 256) % 256) as u8, (kbs % 256) as u8]
}

impl DriveController {
    /// The START STOP UNIT command block for `command`.
    pub fn start_stop_cdb(command: u8) -> (r: Vec<u8>)
        ensures
            r@ == start_stop_block(command),
    {
        let mut cdb: Vec<u8> = Vec::new();
        cdb.push(0x1B);
        cdb.push(0x00);
        cdb.push(0x00);
        cdb.push(0x00);
        cdb.push(command);
        cdb.push(0x00);
        proof {
            assert(cdb@ =~= start_stop_block(command));
        }
        cdb
    }

    /// The SET STREAMING command block for `speed_x`.
    pub fn set_streaming_cdb(speed_x: u32) -> (r: Vec<u8>)
        requires
            speed_x * 150 <= u32::MAX,
        ensures
            r@ == set_streaming_block(speed_x),
    {
        let speed_kbs = speed_x * 150;
        let mut cdb: Vec<u8> = Vec::new();
        cdb.push(0xB6);
        let mut i: usize = 0;
        while i < 9
            invariant
                i <= 9,
                cdb@ == seq![0xB6u8] + Seq::new(i as nat, |k: int| 0u8),
            decreases 9 - i,
        {
            cdb.push(0x00);
            proof {
                assert(cdb@ =~= seq![0xB6u8] + Seq::new((i + 1) as nat, |k: int| 0u8));
            }
            i = i + 1;
        }
        cdb.push(((speed_kbs / 256) % 256) as u8);
        cdb.push((speed_kbs % 256) as u8);
        proof {
            assert(cdb@ =~= set_streaming_block(speed_x));
        }
        cdb
    }

    /// What sending START STOP UNIT came to: refused where the platform
    /// sends no drive commands, the reason where the drive could not be
    /// opened, an I/O error where the drive did not take the command.
    fn start_stop_unit(sent: Option<CommandSent>) -> (r: Result<(), DiskRipperError>)
        ensures
            command_result(sent, r, "Drive control only supported on Windows"@, "START STOP UNIT failed"@),
    {
        match sent {
            None => Err(DiskRipperError::UnsupportedDisc(owned("Drive control only supported on Windows"))),
            Some(CommandSent::OpenFailed(e)) => Err(DiskRipperError::Io(e)),
            Some(CommandSent::Failed) => Err(DiskRipperError::Io(owned("START STOP UNIT failed"))),
            Some(CommandSent::Done) => Ok(()),
        }
    }

    /// Ejects the disc: what sending START STOP UNIT with [`SSU_EJECT`]
    /// came to.
    pub fn eject(sent: Option<CommandSent>) -> (r: Result<(), DiskRipperError>)
        ensures
            command_result(sent, r, "Drive control only supported on Windows"@, "START STOP UNIT failed"@),
    {
        Self::start_stop_unit(sent)
    }

    /// Loads the disc: what sending START STOP UNIT with [`SSU_LOAD`] came
    /// to.
    pub fn load(sent: Option<CommandSent>) -> (r: Result<(), DiskRipperError>)
        ensures
            command_result(sent, r, "Drive control only supported on Windows"@, "START STOP UNIT failed"@),
    {
        Self::start_stop_unit(sent)
    }

    /// Spins the disc up: what sending START STOP UNIT with [`SSU_START`]
    /// came to.
    pub fn start(sent: Option<CommandSent>) -> (r: Result<(), DiskRipperError>)
        ensures
            command_result(sent, r, "Drive control only supported on Windows"@, "START STOP UNIT failed"@),
    {
        Self::start_stop_unit(sent)
    }

    /// Spins the disc down: what sending START STOP UNIT with [`SSU_STOP`]
    /// came to.
    pub fn stop(sent: Option<CommandSent>) -> (r: Result<(), DiskRipperError>)
        ensures
            command_result(sent, r, "Drive control only supported on Windows"@, "START STOP UNIT failed"@),
    {
        Self::start_stop_unit(sent)
    }

    /// Sets the read speed: what sending the SET STREAMING block of
    /// [`DriveController::set_streaming_cdb`] came to.
    pub fn set_read_speed(sent: Option<CommandSent>) -> (r: Result<(), DiskRipperError>)
        ensures
            command_result(sent, r, "Read speed control only supported on Windows"@, "SET STREAMING failed"@),
    {
        match sent {
            None => Err(DiskRipperError::UnsupportedDisc(owned("Read speed control only supported on Windows"))),
            Some(CommandSent::OpenFailed(e)) => Err(DiskRipperError::Io(e)),
            Some(CommandSent::Failed) => Err(DiskRipperError::Io(owned("SET STREAMING failed"))),
            Some(CommandSent::Done) => Ok(()),
        }
    }
}

/// How paranoid ripping reads and checks sectors.
#[derive(Debug, Clone)]
pub struct ParanoidConfig {
    /// Number of times each sector is read.
    pub read_count: u32,
    /// Whether several reads are combined by majority vote.
    pub majority_vote: bool,
    /// Whether ripping stops after too many mismatches.
    pub abort_on_mismatch: bool,
    /// Mismatches allowed before stopping.
    pub max_mismatches: u32,
}

impl Default for ParanoidConfig {
    fn default() -> (r: Self)
        ensures
            r.read_count == 3,
            r.majority_vote,
            !r.abort_on_mismatch,
            r.max_mismatches == 10,
    {
        ParanoidConfig { read_count: 3, majority_vote: true, abort_on_mismatch: false, max_mismatches: 10 }
    }
}

/// The byte sequences of several reads.
pub open spec fn read_views(reads: Seq<Vec<u8>>) -> Seq<Seq<u8>> {
    reads.map_values(|r: Vec<u8>| r@)
}

/// How many of the first `n` reads hold `v` at position `p`.
pub open spec fn votes(reads: Seq<Seq<u8>>, p: int, v: u8, n: int) -> nat
    decreases n,
{
    if n <= 0 {
        0
    } else {
        votes(reads, p, v, n - 1) + if p < reads[n - 1].len() && reads[n - 1][p] == v {
            1nat
        } else {
            0nat
        }
    }
}

/// Whether `r` is a majority vote of `reads`: as long as the first read,
/// each byte a value that occurs there in some read and that no other value
/// occurs more often. Between values that tie, any may be chosen.
pub open spec fn is_majority(reads: Seq<Seq<u8>>, r: Seq<u8>) -> bool {
    &&& r.len() == reads[0].len()
    &&& forall|p: int|
        0 <= p < r.len() ==> votes(reads, p, #[trigger] r[p], reads.len() as int) >= 1
    &&& forall|p: int, v: u8|
        #![trigger r[p], votes(reads, p, v, reads.len() as int)]
        0 <= p < r.len() ==> votes(reads, p, r[p], reads.len() as int) >= votes(
            reads,
            p,
            v,
            reads.len() as int,
        )
}

/// A value with a vote occurs at that position in some read.
proof fn lemma_vote_witness(reads: Seq<Seq<u8>>, p: int, v: u8, n: int)
    requires
        votes(reads, p, v, n) >= 1,
    ensures
        exists|k: int| 0 <= k < n && p < reads[k].len() && reads[k][p] == v,
    decreases n,
{
    if n > 0 && votes(reads, p, v, n - 1) >= 1 {
        lemma_vote_witness(reads, p, v, n - 1);
    }
}

/// `n` zero bytes.
pub open spec fn zeros(n: nat) -> Seq<u8> {
    Seq::new(n, |i: int| 0u8)
}

/// Paranoid ripping: several reads of each sector.
pub struct ParanoidRipper;

impl ParanoidRipper {
    /// Combines reads byte by byte: each position of the first read gets a
    /// value that occurs most often there.
    pub fn majority_vote(reads: &[Vec<u8>]) -> (r: Result<Vec<u8>, DiskRipperError>)
        requires
            reads@.len() <= u32::MAX,
        ensures
            reads@.len() == 0 ==> (r matches Err(DiskRipperError::ReadError(m)) && m@
                == "No reads to vote on"@),
            reads@.len() > 0 ==> (r matches Ok(v) && is_majority(read_views(reads@), v@)),
    {
        if reads.len() == 0 {
            return Err(DiskRipperError::ReadError(owned("No reads to vote on")));
        }
        let ghost rv = read_views(reads@);
        let len = reads[0].len();
        let mut result: Vec<u8> = Vec::new();
        let mut p: usize = 0;
        while p < len
            invariant
                p <= len,
                len == rv[0].len(),
                rv == read_views(reads@),
                reads@.len() > 0,
                reads@.len() <= u32::MAX,
                result@.len() == p,
                forall|q: int| 0 <= q < p ==> votes(rv, q, #[trigger] result@[q], rv.len() as int) >= 1,
                forall|q: int, v: u8|
                    #![trigger result@[q], votes(rv, q, v, rv.len() as int)]
                    0 <= q < p ==> votes(rv, q, result@[q], rv.len() as int) >= votes(
                        rv,
                        q,
                        v,
                        rv.len() as int,
                    ),
            decreases len - p,
        {
            let mut counts: Vec<u32> = Vec::new();
            while counts.len() < 256
                invariant
                    counts@.len() <= 256,
                    forall|v: int| 0 <= v < counts@.len() ==> counts@[v] == 0,
                decreases 256 - counts@.len(),
            {
                counts.push(0);
            }
            let mut k: usize = 0;
            while k < reads.len()
                invariant
                    k <= reads@.len(),
                    reads@.len() <= u32::MAX,
                    rv == read_views(reads@),
                    counts@.len() == 256,
                    forall|v: u8| #[trigger] counts@[v as int] == votes(rv, p as int, v, k as int),
                    forall|v: u8| #[trigger] votes(rv, p as int, v, k as int) <= k,
                decreases reads.len() - k,
            {
                let read = &reads[k];
                proof {
                    assert(rv[k as int] == read@);
                }
                if p < read.len() {
                    let b = read[p] as usize;
                    proof {
                        assert(counts@[b as int] == votes(rv, p as int, b as u8, k as int));
                    }
                    let c = counts[b];
                    counts.set(b, c + 1);
                    proof {
                        assert forall|v: u8| #[trigger] counts@[v as int] == votes(
                            rv,
                            p as int,
                            v,
                            k + 1,
                        ) by {
                            if v as usize == b {
                            } else {
                            }
                        }
                    }
                }
                proof {
                    assert forall|w: u8| #[trigger] votes(rv, p as int, w, k + 1) <= k + 1 by {
                        assert(votes(rv, p as int, w, k as int) <= k);
                    }
                }
                k = k + 1;
            }
            let mut best: u8 = 0;
            let mut max_count: u32 = counts[0];
            let mut v: usize = 1;
            while v < 256
                invariant
                    1 <= v <= 256,
                    counts@.len() == 256,
                    forall|w: u8| #[trigger] counts@[w as int] == votes(rv, p as int, w, rv.len() as int),
                    max_count == counts@[best as int],
                    forall|w: int| 0 <= w < v ==> counts@[w] <= max_count,
                decreases 256 - v,
            {
                if counts[v] > max_count {
                    max_count = counts[v];
                    best = v as u8;
                }
                v = v + 1;
            }
            proof {
                assert(p < rv[0].len());
                assert(votes(rv, p as int, rv[0][p as int], 0) == 0);
                assert(votes(rv, p as int, rv[0][p as int], 1) == 1);
                lemma_votes_monotone(rv, p as int, rv[0][p as int], 1, rv.len() as int);
                assert(counts@[rv[0][p as int] as int] >= 1);
                assert forall|w: u8| votes(rv, p as int, best, rv.len() as int) >= votes(
                    rv,
                    p as int,
                    w,
                    rv.len() as int,
                ) by {
                    assert(counts@[w as int] <= max_count);
                }
            }
            result.push(best);
            p = p + 1;
        }
        Ok(result)
    }
}

/// Votes never decrease as more reads are counted.
proof fn lemma_votes_monotone(reads: Seq<Seq<u8>>, p: int, v: u8, m: int, n: int)
    requires
        0 <= m <= n,
    ensures
        votes(reads, p, v, m) <= votes(reads, p, v, n),
    decreases n - m,
{
    if m < n {
        lemma_votes_monotone(reads, p, v, m, n - 1);
    }
}


/// The message of a sector that no read returned.
pub open spec fn all_reads_failed(sector: u64) -> Seq<char> {
    "All reads failed at sector "@ + dec_digits(sector as nat)
}

impl ParanoidRipper {
    /// Reads one sector from the drive. Reading is not implemented: every
    /// sector reads as 2352 zero bytes.
    fn read_sector(_drive_path: &str, _sector: u64) -> (r: Result<Vec<u8>, DiskRipperError>)
        ensures
            r matches Ok(v) && v@ == zeros(2352),
    {
        let mut v: Vec<u8> = Vec::new();
        while v.len() < 2352
            invariant
                v@ == zeros(v@.len()),
                v@.len() <= 2352,
            decreases 2352 - v@.len(),
        {
            v.push(0);
            proof {
                assert(v@ =~= zeros(v@.len()));
            }
        }
        Ok(v)
    }

    /// Reads a sector `read_count` times, keeping the reads that succeed,
    /// and combines them by majority vote where configured and there are
    /// several, else takes the first.
    fn read_sector_paranoid(drive_path: &str, sector: u64, config: &ParanoidConfig) -> (r: Result<
        Vec<u8>,
        DiskRipperError,
    >)
        ensures
            config.read_count == 0 ==> (r matches Err(DiskRipperError::ReadError(m)) && m@
                == all_reads_failed(sector)),
            config.read_count > 0 ==> (r matches Ok(v) && v@ == zeros(2352)),
    {
        let mut reads: Vec<Vec<u8>> = Vec::new();
        let mut i: u32 = 0;
        while i < config.read_count
            invariant
                i <= config.read_count,
                reads@.len() == i,
                forall|k: int| 0 <= k < reads@.len() ==> #[trigger] reads@[k]@ == zeros(2352),
            decreases config.read_count - i,
        {
            match Self::read_sector(drive_path, sector) {
                Ok(data) => reads.push(data),
                Err(_) => {},
            }
            i = i + 1;
        }
        if reads.len() == 0 {
            let mut m: Vec<char> = Vec::new();
            push_str(&mut m, "All reads failed at sector ");
            push_dec(&mut m, sector, 0);
            proof {
                assert(dec_padded(sector as nat, 0) == dec_digits(sector as nat));
            }
            return Err(DiskRipperError::ReadError(string_of(m.as_slice())));
        }
        if config.majority_vote && reads.len() > 1 {
            let r = Self::majority_vote(reads.as_slice());
            match r {
                Ok(v) => {
                    let ghost rv = read_views(reads@);
                    proof {
                        assert forall|p: int| 0 <= p < v@.len() implies v@[p] == 0u8 by {
                            assert(votes(rv, p, v@[p], rv.len() as int) >= 1);
                            lemma_vote_witness(rv, p, v@[p], rv.len() as int);
                            let k = choose|k: int|
                                0 <= k < rv.len() && p < rv[k].len() && rv[k][p] == v@[p];
                            assert(rv[k] == reads@[k]@);
                        }
                        assert(rv[0] == reads@[0]@);
                        assert(v@ =~= zeros(2352));
                    }
                    Ok(v)
                },
                Err(e) => Err(e),
            }
        } else {
            let first = reads.remove(0);
            Ok(first)
        }
    }

    /// Rips `num_sectors` sectors from `start_sector` in paranoid mode,
    /// the sectors' data one after another.
    pub fn rip_track_paranoid(
        drive_path: &str,
        start_sector: u64,
        num_sectors: u32,
        config: &ParanoidConfig,
    ) -> (r: Result<Vec<u8>, DiskRipperError>)
        requires
            start_sector + num_sectors <= u64::MAX,
        ensures
            num_sectors > 0 && config.read_count == 0 ==> (r matches Err(
                DiskRipperError::ReadError(m),
            ) && m@ == all_reads_failed(start_sector)),
            num_sectors == 0 || config.read_count > 0 ==> (r matches Ok(v) && v@ == zeros(
                (num_sectors * 2352) as nat,
            )),
    {
        let mut result: Vec<u8> = Vec::new();
        let mismatches: u32 = 0;
        let mut i: u32 = 0;
        while i < num_sectors
            invariant
                i <= num_sectors,
                start_sector + num_sectors <= u64::MAX,
                i > 0 ==> config.read_count > 0,
                result@ == zeros((i * 2352) as nat),
            decreases num_sectors - i,
        {
            let sector = start_sector + i as u64;
            let mut data = Self::read_sector_paranoid(drive_path, sector, config)?;
            let ghost before = result@;
            result.append(&mut data);
            proof {
                assert(result@ =~= zeros(((i + 1) * 2352) as nat));
            }
            i = i + 1;
        }
        if config.abort_on_mismatch && mismatches > config.max_mismatches {
            let mut m: Vec<char> = Vec::new();
            push_str(&mut m, "Too many mismatches: ");
            push_dec(&mut m, mismatches as u64, 0);
            push_str(&mut m, " > ");
            push_dec(&mut m, config.max_mismatches as u64, 0);
            return Err(DiskRipperError::ReadError(string_of(m.as_slice())));
        }
        Ok(result)
    }
}

} // verus!
