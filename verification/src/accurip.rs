//! AccurateRip verification: the checksum of a track's audio, the disc
//! identifier, and the comparison with the database's entries.
use vstd::prelude::*;
use crate::error::DiskRipperError;
use crate::text::{hex_digits, owned, push_hex, string_of};

verus! {

/// The CRC-32 (IEEE) of a byte sequence.
pub uninterp spec fn crc32_of(bytes: Seq<u8>) -> u32;

/// `crc32fast::hash`: the contract names the CRC-32 of the bytes.
#[verifier::external_body]
pub(crate) fn crc32_hash(bytes: &[u8]) -> (r: u32)
    ensures
        r == crc32_of(bytes@),
{
    crc32fast::hash(bytes)
}

/// A checksum the database holds for a track.
#[derive(Debug, Clone, Copy)]
pub struct AccurateRipChecksum {
    pub track_number: u32,
    pub crc32: u32,
    pub confidence: u32,
}

/// The outcome of verifying a track.
#[derive(Debug, Clone)]
pub struct AccurateRipResult {
    pub track_number: u32,
    pub verified: bool,
    pub confidence: u32,
    pub total_submissions: u32,
    pub crc32: String,
}

/// What the database holds for a disc.
#[derive(Debug, Clone)]
pub struct AccurateRipEntry {
    pub disc_id: String,
    pub track_count: u32,
    pub tracks: Vec<AccurateRipChecksum>,
}

/// Verifies rips against the AccurateRip database.
pub struct AccurateRipVerifier;

/// The bytes checksummed of track `n` of `total`: the first track skips
/// its first 176400 bytes and the last its final 176400 (one second of
/// samples each); a positive drive offset skips `2 * offset` more bytes at
/// the start, a negative one puts `2 * |offset|` zero bytes before. Nothing
/// is checksummed where the skips leave nothing.
pub open spec fn checksum_input(d: Seq<u8>, n: u32, total: u32, offset: i32) -> Seq<u8> {
    let start: int = if n == 1 {
        176400
    } else {
        0
    };
    let end: int = if n == total {
        if d.len() > 176400 {
            d.len() - 176400
        } else {
            0
        }
    } else {
        d.len() as int
    };
    if start < end && start < d.len() {
        let data = d.subrange(start, end);
        let shift: int = if offset < 0 {
            -offset * 2
        } else {
            offset * 2
        };
        if offset > 0 {
            if shift < data.len() {
                data.subrange(shift, data.len() as int)
            } else {
                seq![]
            }
        } else if offset < 0 {
            Seq::new(shift as nat, |i: int| 0u8) + data
        } else {
            data
        }
    } else {
        seq![]
    }
}

/// The eight little-endian bytes of each offset, one after another.
pub open spec fn offset_bytes(t: Seq<u64>) -> Seq<u8>
    decreases t.len(),
{
    if t.len() == 0 {
        seq![]
    } else {
        offset_bytes(t.drop_last()) + le64_bytes(t.last())
    }
}

/// The eight little-endian bytes of `x`.
pub open spec fn le64_bytes(x: u64) -> Seq<u8> {
    Seq::new(8, |i: int| (((x as nat) / pow256(i)) % 256) as u8)
}

/// `256^i` for `i` from 0 to 7.
pub open spec fn pow256(i: int) -> nat
    decreases i,
{
    if i <= 0 {
        1
    } else {
        256 * pow256(i - 1)
    }
}

impl AccurateRipVerifier {
    /// The AccurateRip checksum of track `track_number` of `total_tracks`
    /// with the drive's read offset.
    pub fn calculate_checksum(track_data: &[u8], track_number: u32, total_tracks: u32, drive_offset: i32) -> (r: u32)
        requires
            drive_offset != i32::MIN,
        ensures
            r == crc32_of(checksum_input(track_data@, track_number, total_tracks, drive_offset)),
    {
        let len = track_data.len();
        let start_offset: usize = if track_number == 1 {
            176400
        } else {
            0
        };
        let end_offset: usize = if track_number == total_tracks {
            if len > 176400 {
                len - 176400
            } else {
                0
            }
        } else {
            len
        };
        let mut input: Vec<u8> = Vec::new();
        if start_offset < end_offset && start_offset < len {
            let shift: usize = if drive_offset < 0 {
                (-drive_offset) as usize * 2
            } else {
                drive_offset as usize * 2
            };
            let data_len = end_offset - start_offset;
            if drive_offset > 0 {
                if shift < data_len {
                    let mut i = start_offset + shift;
                    while i < end_offset
                        invariant
                            start_offset + shift <= i <= end_offset,
                            end_offset <= len,
                            len == track_data@.len(),
                            input@ == track_data@.subrange((start_offset + shift) as int, i as int),
                        decreases end_offset - i,
                    {
                        input.push(track_data[i]);
                        i = i + 1;
                    }
                }
            } else {
                if drive_offset < 0 {
                    let mut z: usize = 0;
                    while z < shift
                        invariant
                            z <= shift,
                            input@ == Seq::new(z as nat, |i: int| 0u8),
                        decreases shift - z,
                    {
                        input.push(0);
                        proof {
                            assert(input@ =~= Seq::new((z + 1) as nat, |i: int| 0u8));
                        }
                        z = z + 1;
                    }
                }
                let ghost head = input@;
                let mut i = start_offset;
                while i < end_offset
                    invariant
                        start_offset <= i <= end_offset,
                        end_offset <= len,
                        len == track_data@.len(),
                        input@ == head + track_data@.subrange(start_offset as int, i as int),
                    decreases end_offset - i,
                {
                    input.push(track_data[i]);
                    proof {
                        assert(input@ =~= head + track_data@.subrange(start_offset as int, i + 1));
                    }
                    i = i + 1;
                }
            }
        }
        proof {
            let d = track_data@;
            let data = d.subrange(start_offset as int, end_offset as int);
            if start_offset < end_offset && start_offset < len && drive_offset > 0 {
                let shift = drive_offset * 2;
                if shift < data.len() {
                    assert(data.subrange(shift as int, data.len() as int) =~= d.subrange(
                        start_offset + shift,
                        end_offset as int,
                    ));
                }
            }
            if start_offset < end_offset && start_offset < len && drive_offset < 0 {
                assert(input@ =~= Seq::new((-drive_offset * 2) as nat, |i: int| 0u8) + data);
            }
        }
        crc32_hash(input.as_slice())
    }

    /// The AccurateRip disc identifier: the CRC-32 of the tracks' offsets
    /// as little-endian bytes, as eight lower-case hexadecimal digits.
    pub fn calculate_disc_id(tracks: &[u64]) -> (r: String)
        ensures
            r@ == hex_digits(crc32_of(offset_bytes(tracks@)) as nat, 8, false),
    {
        let mut bytes: Vec<u8> = Vec::new();
        let mut i: usize = 0;
        while i < tracks.len()
            invariant
                i <= tracks@.len(),
                bytes@ == offset_bytes(tracks@.subrange(0, i as int)),
            decreases tracks.len() - i,
        {
            let x = tracks[i];
            let ghost before = bytes@;
            let mut k: usize = 0;
            let mut y: u64 = x;
            proof {
                assert(pow256(0) == 1);
                assert(le64_bytes(x).subrange(0, 0) =~= Seq::<u8>::empty());
                assert(before + Seq::<u8>::empty() =~= before);
            }
            while k < 8
                invariant
                    k <= 8,
                    y == (x as nat) / pow256(k as int),
                    bytes@ == before + le64_bytes(x).subrange(0, k as int),
                decreases 8 - k,
            {
                bytes.push((y % 256) as u8);
                proof {
                    lemma_pow256_step(k as int);
                    assert((x as nat) / pow256(k + 1) == ((x as nat) / pow256(k as int)) / 256) by (nonlinear_arith)
                        requires
                            pow256(k + 1) == 256 * pow256(k as int),
                            pow256(k as int) > 0,
                    ;
                    assert(bytes@ =~= before + le64_bytes(x).subrange(0, k + 1));
                }
                y = y / 256;
                k = k + 1;
            }
            proof {
                assert(le64_bytes(x).subrange(0, 8) =~= le64_bytes(x));
                assert(tracks@.subrange(0, i + 1).drop_last() =~= tracks@.subrange(0, i as int));
            }
            i = i + 1;
        }
        proof {
            assert(tracks@.subrange(0, i as int) =~= tracks@);
        }
        let crc = crc32_hash(bytes.as_slice());
        let mut out: Vec<char> = Vec::new();
        push_hex(&mut out, crc as u64, 8, false);
        proof {
            assert(out@ =~= hex_digits(crc as nat, 8, false));
        }
        string_of(out.as_slice())
    }

    /// Looks a disc up in the database. The query is not implemented: the
    /// entry found holds no track checksums.
    pub fn query_database(disc_id: &str, track_count: u32) -> (r: Result<AccurateRipEntry, DiskRipperError>)
        ensures
            r matches Ok(e) && e.disc_id@ == disc_id@ && e.track_count == track_count
                && e.tracks@.len() == 0,
    {
        Ok(AccurateRipEntry { disc_id: owned(disc_id), track_count, tracks: Vec::new() })
    }

    /// The read offset of a drive. Detection is not implemented: no offset.
    pub fn detect_drive_offset(_drive_path: &str) -> (r: i32)
        ensures
            r == 0,
    {
        0
    }

    /// The result of comparing a track's checksum with the database's
    /// entries: verified where the first entry for the track holds the same
    /// checksum; confidence from that entry.
    pub fn compare_with_entry(track_number: u32, checksum: u32, entry: &AccurateRipEntry) -> (r:
        AccurateRipResult)
        ensures
            r.track_number == track_number,
            r.crc32@ == hex_digits(checksum as nat, 8, false),
            match first_entry_for(entry.tracks@, track_number) {
                Some(t) => r.verified == (t.crc32 == checksum) && r.confidence == t.confidence
                    && r.total_submissions == t.confidence,
                None => !r.verified && r.confidence == 0 && r.total_submissions == 0,
            },
    {
        let mut out: Vec<char> = Vec::new();
        push_hex(&mut out, checksum as u64, 8, false);
        proof {
            assert(out@ =~= hex_digits(checksum as nat, 8, false));
        }
        let text = string_of(out.as_slice());
        let mut i: usize = 0;
        proof {
            assert(entry.tracks@.subrange(0, entry.tracks@.len() as int) =~= entry.tracks@);
        }
        while i < entry.tracks.len()
            invariant
                i <= entry.tracks@.len(),
                text@ == hex_digits(checksum as nat, 8, false),
                first_entry_for(entry.tracks@, track_number) == first_entry_for(
                    entry.tracks@.subrange(i as int, entry.tracks@.len() as int),
                    track_number,
                ),
            decreases entry.tracks.len() - i,
        {
            proof {
                assert(entry.tracks@.subrange(i as int, entry.tracks@.len() as int).drop_first()
                    =~= entry.tracks@.subrange(i + 1, entry.tracks@.len() as int));
            }
            let t = entry.tracks[i];
            if t.track_number == track_number {
                return AccurateRipResult {
                    track_number,
                    verified: t.crc32 == checksum,
                    confidence: t.confidence,
                    total_submissions: t.confidence,
                    crc32: text,
                };
            }
            i = i + 1;
        }
        AccurateRipResult { track_number, verified: false, confidence: 0, total_submissions: 0, crc32: text }
    }

    /// Verifies a track: its checksum compared with the database entry
    /// (which holds no checksums, so no track is verified).
    pub fn verify_track(track_data: &[u8], track_number: u32, total_tracks: u32, drive_offset: i32, disc_id: &str) -> (r: Result<AccurateRipResult, DiskRipperError>)
        requires
            drive_offset != i32::MIN,
        ensures
            r matches Ok(res) && res.track_number == track_number && !res.verified
                && res.confidence == 0 && res.crc32@ == hex_digits(
                crc32_of(checksum_input(track_data@, track_number, total_tracks, drive_offset))
                    as nat,
                8,
                false,
            ),
    {
        let checksum = Self::calculate_checksum(track_data, track_number, total_tracks, drive_offset);
        let entry = Self::query_database(disc_id, total_tracks)?;
        Ok(Self::compare_with_entry(track_number, checksum, &entry))
    }

    /// Verifies every track of a disc, numbered from 1.
    pub fn verify_disc(track_data: &[Vec<u8>], drive_offset: i32, disc_id: &str) -> (r: Result<
        Vec<AccurateRipResult>,
        DiskRipperError,
    >)
        requires
            drive_offset != i32::MIN,
            track_data@.len() < u32::MAX,
        ensures
            r matches Ok(v) && v@.len() == track_data@.len() && forall|i: int|
                0 <= i < v@.len() ==> (#[trigger] v@[i]).track_number == i + 1 && !v@[i].verified,
    {
        let total_tracks = track_data.len() as u32;
        let mut results: Vec<AccurateRipResult> = Vec::new();
        let mut i: usize = 0;
        while i < track_data.len()
            invariant
                i <= track_data@.len(),
                track_data@.len() < u32::MAX,
                drive_offset != i32::MIN,
                results@.len() == i,
                forall|k: int|
                    0 <= k < i ==> (#[trigger] results@[k]).track_number == k + 1
                        && !results@[k].verified,
            decreases track_data.len() - i,
        {
            let track_number = (i + 1) as u32;
            let result = Self::verify_track(
                track_data[i].as_slice(),
                track_number,
                total_tracks,
                drive_offset,
                disc_id,
            )?;
            results.push(result);
            i = i + 1;
        }
        Ok(results)
    }
}

/// The first database checksum for track `n`.
pub open spec fn first_entry_for(t: Seq<AccurateRipChecksum>, n: u32) -> Option<AccurateRipChecksum>
    decreases t.len(),
{
    if t.len() == 0 {
        None
    } else if t[0].track_number == n {
        Some(t[0])
    } else {
        first_entry_for(t.drop_first(), n)
    }
}

/// `256^(i+1) = 256 * 256^i`.
proof fn lemma_pow256_step(i: int)
    requires
        i >= 0,
    ensures
        pow256(i + 1) == 256 * pow256(i),
        pow256(i) > 0,
    decreases i,
{
    if i > 0 {
        lemma_pow256_step(i - 1);
    }
}

/// The CRC-32 of data.
pub fn calculate_crc32(data: &[u8]) -> (r: u32)
    ensures
        r == crc32_of(data@),
{
    crc32_hash(data)
}

} // verus!
