//! Robustness checks of the parsers on random input: each check feeds
//! random data to a small parser and counts the inputs it would fail on.
use vstd::prelude::*;
use crate::bytes::le16_at;
use crate::text::{dec_digits, owned, push_dec, push_str, string_of};

verus! {

/// The outcome of one robustness check.
#[derive(Debug, Clone)]
pub struct FuzzResult {
    pub test_name: String,
    pub iterations: usize,
    pub failures: usize,
    pub findings: Vec<String>,
}

/// `fastrand::usize(lo..hi)`: a random number from `lo` up to `hi`
/// (excluded); the range must not be empty, as the call panics on an empty
/// one.
#[verifier::external_body]
fn random_usize(lo: usize, hi: usize) -> (r: usize)
    requires
        lo < hi,
    ensures
        lo <= r < hi,
{
    fastrand::usize(lo..hi)
}

/// `fastrand::u8(..)`: a random byte.
#[verifier::external_body]
fn random_u8() -> (r: u8) {
    fastrand::u8(..)
}

/// Whether the small IFO parser fails on `d`: it starts with `DV` but ends
/// before its title count at 28.
pub open spec fn ifo_simple_fails(d: Seq<u8>) -> bool {
    d.len() >= 12 && d[0] == 0x44 && d[1] == 0x56 && d.len() < 30
}

/// Whether the walk of the small UDF parser from `off` fails: a descriptor
/// is read whose length field lies beyond the data.
pub open spec fn udf_walk_fails(d: Seq<u8>, off: int) -> bool
    decreases (if off < d.len() {
        d.len() - off
    } else {
        0
    }),
{
    if off >= 0 && off + 16 < d.len() {
        if off + 17 >= d.len() {
            true
        } else {
            let tag = le16_at(d, off);
            let l = le16_at(d, off + 16);
            if !(1 <= tag <= 8) || l == 0 {
                false
            } else {
                udf_walk_fails(d, off + l)
            }
        }
    } else {
        false
    }
}

/// Whether the small UDF parser fails on `d`.
pub open spec fn udf_simple_fails(d: Seq<u8>) -> bool {
    d.len() >= 20 && d[0] == 0 && d[1] == 0x42 && udf_walk_fails(d, 0)
}

/// Whether the small UDF parser fails on `d`.
fn udf_simple_check(d: &[u8]) -> (r: bool)
    ensures
        r == udf_simple_fails(d@),
{
    if !(d.len() >= 20 && d[0] == 0 && d[1] == 0x42) {
        return false;
    }
    let len = d.len();
    let mut off: usize = 0;
    while len > 16 && off < len - 16
        invariant
            len == d@.len(),
            d@.len() >= 20 && d@[0] == 0 && d@[1] == 0x42,
            off <= len,
            udf_walk_fails(d@, off as int) == udf_walk_fails(d@, 0),
        decreases len - off,
    {
        if off == len - 17 {
            return true;
        }
        let tag = crate::bytes::read_le_u16(d, off);
        let l = crate::bytes::read_le_u16(d, off + 16);
        if !(1 <= tag && tag <= 8) || l == 0 {
            return false;
        }
        if l as usize > len - off {
            proof {
                assert(udf_walk_fails(d@, off + l) == false);
            }
            return false;
        }
        off = off + l as usize;
    }
    false
}

/// The small ISO 9660 parser: checks the primary descriptor's signature,
/// reads its block size and count, and walks the records after it. Data
/// that ends before the block count is passed over: the parser never
/// fails.
fn parse_iso9660_simple(data: &[u8]) {
    if data.len() < 32777 {
        return;
    }
    if data[32768] != 0x01 {
        return;
    }
    if data[32769] != 0x43 || data[32770] != 0x44 {
        return;
    }
    if data.len() < 32804 {
        return;
    }
    let _sector_size = crate::bytes::read_le_u16(data, 32788);
    let _num_sectors = crate::bytes::read_le_u32(data, 32800);
    let len = data.len();
    let mut offset: usize = 32768 + 190;
    while len > 33 && offset < len - 33
        invariant
            len == data@.len(),
        decreases len - offset,
    {
        let l = data[offset] as usize;
        if l == 0 {
            break;
        }
        if l > len - offset {
            break;
        }
        offset = offset + l;
    }
}

/// The small IFO parser: checks the signature, reads the sector and title
/// counts and steps over the title records.
fn parse_ifo_simple(data: &[u8])
    requires
        !ifo_simple_fails(data@),
{
    if data.len() < 12 {
        return;
    }
    if data[0] != 0x44 || data[1] != 0x56 {
        return;
    }
    let _num_sectors = crate::bytes::read_le_u32(data, 12);
    let _num_titles = crate::bytes::read_le_u16(data, 28);
    let len = data.len();
    let mut offset: usize = 64;
    while len > 20 && offset < len - 20
        invariant
            len == data@.len(),
        decreases len - offset,
    {
        let _title_type = data[offset];
        offset = offset + 20;
    }
}

/// The small TOC parser: reads the header and the track descriptors the
/// first and last track numbers span.
fn parse_toc_simple(data: &[u8]) {
    if data.len() < 4 {
        return;
    }
    let _data_len = crate::bytes::read_le_u16(data, 0);
    let first_track = data[2];
    let last_track = data[3];
    let num_tracks: usize = if last_track >= first_track {
        (last_track - first_track) as usize + 1
    } else {
        1
    };
    let len = data.len();
    let mut offset: usize = 4;
    let mut k: usize = 0;
    while k < num_tracks
        invariant
            len == data@.len(),
            offset == 4 + 8 * k,
            num_tracks <= 256,
            k <= num_tracks,
        decreases num_tracks - k,
    {
        if offset + 8 > len {
            break;
        }
        let _track_num = data[offset];
        let _start_lba = crate::bytes::read_le_u32(data, offset + 4);
        offset = offset + 8;
        k = k + 1;
    }
}

/// The small UDF parser: walks the descriptors while their tags are
/// volume descriptor tags.
fn parse_udf_simple(data: &[u8])
    requires
        !udf_simple_fails(data@),
{
    if data.len() < 20 {
        return;
    }
    if data[0] != 0 || data[1] != 0x42 {
        return;
    }
    let len = data.len();
    let mut offset: usize = 0;
    while len > 16 && offset < len - 16
        invariant
            len == data@.len(),
            offset <= len,
            !udf_walk_fails(data@, offset as int),
        decreases len - offset,
    {
        let tag = crate::bytes::read_le_u16(data, offset);
        let length = crate::bytes::read_le_u16(data, offset + 16);
        if !(1 <= tag && tag <= 8) {
            break;
        }
        if length == 0 {
            break;
        }
        if length as usize > len - offset {
            break;
        }
        offset = offset + length as usize;
    }
}

/// The small session detector: counts sectors that start `00 FF`.
fn detect_sessions_simple(data: &[u8]) {
    if data.len() < 2048 {
        return;
    }
    let len = data.len();
    let mut sessions: usize = 0;
    let mut offset: usize = 0;
    while len > 2048 && offset < len - 2048
        invariant
            len == data@.len(),
            sessions <= offset / 2048,
            offset % 2048 == 0,
        decreases len - offset,
    {
        if data[offset] == 0x00 && data[offset + 1] == 0xFF {
            sessions = sessions + 1;
        }
        offset = offset + 2048;
    }
}

/// The finding recorded for a failing iteration.
pub open spec fn finding_text(i: nat) -> Seq<char> {
    "Iteration "@ + dec_digits(i) + ": panic"@
}

/// Whether `r` is the outcome of `n` iterations of the check `name`:
/// failures counted, and the first ten recorded.
pub open spec fn fuzz_outcome(r: FuzzResult, name: Seq<char>, n: usize) -> bool {
    &&& r.test_name@ == name
    &&& r.iterations == n
    &&& r.failures <= n
    &&& r.findings@.len() == if r.failures < 10 {
        r.failures as int
    } else {
        10
    }
}

/// Records a failing iteration `i`.
fn record_failure(failures: &mut usize, findings: &mut Vec<String>, i: usize)
    requires
        *old(failures) < usize::MAX,
        old(findings)@.len() == if *old(failures) < 10 {
            *old(failures) as int
        } else {
            10
        },
    ensures
        *final(failures) == *old(failures) + 1,
        final(findings)@.len() == if *final(failures) < 10 {
            *final(failures) as int
        } else {
            10
        },
{
    *failures = *failures + 1;
    if findings.len() < 10 {
        let mut m: Vec<char> = Vec::new();
        push_str(&mut m, "Iteration ");
        push_dec(&mut m, i as u64, 0);
        push_str(&mut m, ": panic");
        findings.push(string_of(m.as_slice()));
    }
}

/// `n` zero bytes.
fn zeros(n: usize) -> (r: Vec<u8>)
    ensures
        r@.len() == n,
{
    let mut v: Vec<u8> = Vec::new();
    while v.len() < n
        invariant
            v@.len() <= n,
        decreases n - v@.len(),
    {
        v.push(0);
    }
    v
}

/// Random bytes at positions `from` up to `to`.
fn randomize(data: &mut Vec<u8>, from: usize, to: usize)
    requires
        from <= to <= old(data)@.len(),
    ensures
        final(data)@.len() == old(data)@.len(),
        forall|k: int| 0 <= k < from ==> final(data)@[k] == old(data)@[k],
        forall|k: int| to <= k < final(data)@.len() ==> final(data)@[k] == old(data)@[k],
{
    let mut i = from;
    while i < to
        invariant
            from <= i <= to,
            to <= data@.len(),
            data@.len() == old(data)@.len(),
            forall|k: int| 0 <= k < from ==> data@[k] == old(data)@[k],
            forall|k: int| to <= k < data@.len() ==> data@[k] == old(data)@[k],
        decreases to - i,
    {
        let b = random_u8();
        data.set(i, b);
        i = i + 1;
    }
}

/// Checks the small ISO 9660 parser on random images of 32 KiB to 256 KiB
/// with a primary descriptor signature.
fn fuzz_iso9660(iterations: usize) -> (r: FuzzResult)
    ensures
        fuzz_outcome(r, "iso9660_parser"@, iterations),
        r.failures == 0,
{
    let mut findings: Vec<String> = Vec::new();
    let mut i: usize = 0;
    while i < iterations
        invariant
            i <= iterations,
            findings@.len() == 0,
        decreases iterations - i,
    {
        let size = random_usize(32768, 262144);
        let mut data = zeros(size);
        if size > 32777 {
            data.set(32768, 0x01);
            data.set(32769, 0x43);
            data.set(32770, 0x44);
            data.set(32771, 0x30);
            data.set(32772, 0x30);
            data.set(32773, 0x31);
            data.set(32774, 0x01);
        }
        randomize(&mut data, 0, 32768);
        parse_iso9660_simple(data.as_slice());
        i = i + 1;
    }
    FuzzResult { test_name: owned("iso9660_parser"), iterations, failures: 0, findings }
}

/// Checks the small IFO parser on random files of 4 KiB to 64 KiB that
/// start `DVDVIDEO`.
fn fuzz_dvd_ifo(iterations: usize) -> (r: FuzzResult)
    ensures
        fuzz_outcome(r, "dvd_ifo_parser"@, iterations),
        r.failures == 0,
{
    let mut findings: Vec<String> = Vec::new();
    let mut i: usize = 0;
    while i < iterations
        invariant
            i <= iterations,
            findings@.len() == 0,
        decreases iterations - i,
    {
        let size = random_usize(4096, 65536);
        let mut data = zeros(size);
        data.set(0, 0x44);
        data.set(1, 0x56);
        data.set(2, 0x44);
        data.set(3, 0x56);
        data.set(4, 0x49);
        data.set(5, 0x44);
        data.set(6, 0x45);
        data.set(7, 0x4F);
        randomize(&mut data, 8, size);
        parse_ifo_simple(data.as_slice());
        i = i + 1;
    }
    FuzzResult { test_name: owned("dvd_ifo_parser"), iterations, failures: 0, findings }
}

/// Checks the small TOC parser on random data of 4 to 1023 bytes.
fn fuzz_audio_cd_toc(iterations: usize) -> (r: FuzzResult)
    ensures
        fuzz_outcome(r, "audio_cd_toc"@, iterations),
        r.failures == 0,
{
    let findings: Vec<String> = Vec::new();
    let mut i: usize = 0;
    while i < iterations
        invariant
            i <= iterations,
            findings@.len() == 0,
        decreases iterations - i,
    {
        let size = random_usize(4, 1024);
        let mut data = zeros(size);
        randomize(&mut data, 0, size);
        parse_toc_simple(data.as_slice());
        i = i + 1;
    }
    FuzzResult { test_name: owned("audio_cd_toc"), iterations, failures: 0, findings }
}

/// Checks the small UDF parser on random images of 64 KiB to 512 KiB that
/// start with a `BEA01` descriptor.
fn fuzz_udf(iterations: usize) -> (r: FuzzResult)
    ensures
        fuzz_outcome(r, "udf_parser"@, iterations),
{
    let mut failures: usize = 0;
    let mut findings: Vec<String> = Vec::new();
    let mut i: usize = 0;
    while i < iterations
        invariant
            i <= iterations,
            failures <= i,
            findings@.len() == if failures < 10 {
                failures as int
            } else {
                10
            },
        decreases iterations - i,
    {
        let size = random_usize(65536, 524288);
        let mut data = zeros(size);
        data.set(0, 0x00);
        data.set(1, 0x42);
        data.set(2, 0x45);
        data.set(3, 0x41);
        data.set(4, 0x30);
        data.set(5, 0x30);
        data.set(6, 0x31);
        randomize(&mut data, 8, size);
        if udf_simple_check(data.as_slice()) {
            record_failure(&mut failures, &mut findings, i);
        } else {
            parse_udf_simple(data.as_slice());
        }
        i = i + 1;
    }
    FuzzResult { test_name: owned("udf_parser"), iterations, failures, findings }
}

/// Checks the session detector on random data of 1 KiB to 128 KiB.
fn fuzz_multisession(iterations: usize) -> (r: FuzzResult)
    ensures
        fuzz_outcome(r, "multisession"@, iterations),
        r.failures == 0,
{
    let findings: Vec<String> = Vec::new();
    let mut i: usize = 0;
    while i < iterations
        invariant
            i <= iterations,
            findings@.len() == 0,
        decreases iterations - i,
    {
        let size = random_usize(1024, 131072);
        let mut data = zeros(size);
        randomize(&mut data, 0, size);
        detect_sessions_simple(data.as_slice());
        i = i + 1;
    }
    FuzzResult { test_name: owned("multisession"), iterations, failures: 0, findings }
}

/// Runs every robustness check `iterations` times: the ISO 9660, IFO, TOC,
/// UDF and session parsers, in that order. Only the ISO 9660 and UDF
/// parsers can fail.
pub fn run_fuzz_tests(iterations: usize) -> (r: Vec<FuzzResult>)
    ensures
        r@.len() == 5,
        fuzz_outcome(r@[0], "iso9660_parser"@, iterations) && r@[0].failures == 0,
        fuzz_outcome(r@[1], "dvd_ifo_parser"@, iterations) && r@[1].failures == 0,
        fuzz_outcome(r@[2], "audio_cd_toc"@, iterations) && r@[2].failures == 0,
        fuzz_outcome(r@[3], "udf_parser"@, iterations),
        fuzz_outcome(r@[4], "multisession"@, iterations) && r@[4].failures == 0,
{
    let mut results: Vec<FuzzResult> = Vec::new();
    results.push(fuzz_iso9660(iterations));
    results.push(fuzz_dvd_ifo(iterations));
    results.push(fuzz_audio_cd_toc(iterations));
    results.push(fuzz_udf(iterations));
    results.push(fuzz_multisession(iterations));
    results
}

} // verus!
