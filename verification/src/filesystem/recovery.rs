//! SHA-256 checksums of read data, and the batches a long read is split
//! into.
use vstd::prelude::*;
use crate::drive_control::zeros;
use crate::error::DiskRipperError;
use crate::icons::push_all;
use crate::text::{chars_of, chars_eq, hex_digits, push_hex, string_of};

verus! {

/// The SHA-256 digest of a byte sequence.
pub uninterp spec fn sha256_of(bytes: Seq<u8>) -> Seq<u8>;

/// `sha2::Sha256` through `Digest::digest`: the contract names the digest
/// of the bytes and states its length of 32 bytes.
#[verifier::external_body]
fn sha256_digest(bytes: &[u8]) -> (r: Vec<u8>)
    ensures
        r@ == sha256_of(bytes@),
        r@.len() == 32,
{
    <sha2::Sha256 as sha2::Digest>::digest(bytes).to_vec()
}

/// Bytes as lower-case hexadecimal text, two digits a byte.
pub open spec fn hex_bytes(b: Seq<u8>) -> Seq<char>
    decreases b.len(),
{
    if b.len() == 0 {
        seq![]
    } else {
        hex_bytes(b.drop_last()) + hex_digits(b.last() as nat, 2, false)
    }
}

/// Bytes as lower-case hexadecimal text.
pub fn hex_string(bytes: &[u8]) -> (r: String)
    ensures
        r@ == hex_bytes(bytes@),
{
    let mut out: Vec<char> = Vec::new();
    let mut i: usize = 0;
    while i < bytes.len()
        invariant
            i <= bytes@.len(),
            out@ == hex_bytes(bytes@.subrange(0, i as int)),
        decreases bytes.len() - i,
    {
        proof {
            assert(bytes@.subrange(0, i + 1).drop_last() =~= bytes@.subrange(0, i as int));
        }
        push_hex(&mut out, bytes[i] as u64, 2, false);
        i = i + 1;
    }
    proof {
        assert(bytes@.subrange(0, i as int) =~= bytes@);
    }
    string_of(out.as_slice())
}

/// The checksum text of data: its SHA-256 digest in lower-case hex.
pub open spec fn checksum_text(data: Seq<u8>) -> Seq<char> {
    hex_bytes(sha256_of(data))
}

/// The SHA-256 checksum of data as lower-case hexadecimal text, 64
/// characters long.
pub fn calculate_checksum(data: &[u8]) -> (r: String)
    ensures
        r@ == checksum_text(data@),
        r@.len() == 64,
{
    let digest = sha256_digest(data);
    proof {
        lemma_hex_len(digest@);
    }
    hex_string(digest.as_slice())
}

/// Whether `expected` is the checksum text of `data`.
pub open spec fn checksum_matches(data: Seq<u8>, expected: Seq<char>) -> bool {
    checksum_text(data) == expected
}

/// Whether data has the checksum `expected`.
pub fn verify_checksum(data: &[u8], expected: &str) -> (r: bool)
    ensures
        r == checksum_matches(data@, expected@),
{
    let actual = calculate_checksum(data);
    let a = chars_of(actual.as_str());
    let b = chars_of(expected);
    chars_eq(a.as_slice(), b.as_slice())
}

/// Data verifies against the checksum calculated from it, and against no
/// other text.
pub proof fn law_checksum_round_trip(data: Seq<u8>, expected: Seq<char>)
    ensures
        checksum_matches(data, checksum_text(data)),
        checksum_matches(data, expected) ==> expected == checksum_text(data),
{
}

/// Hexadecimal text of 32 bytes is 64 characters long.
pub proof fn lemma_hex_len(b: Seq<u8>)
    ensures
        hex_bytes(b).len() == 2 * b.len(),
    decreases b.len(),
{
    if b.len() > 0 {
        lemma_hex_len(b.drop_last());
        lemma_hex_digits_len(b.last() as nat, 2);
    }
}

/// `width` hexadecimal digits are `width` characters.
proof fn lemma_hex_digits_len(x: nat, width: nat)
    ensures
        hex_digits(x, width, false).len() == width,
    decreases width,
{
    if width > 0 {
        lemma_hex_digits_len(x / 16, (width - 1) as nat);
    }
}

/// How reads recover from errors: the tries a batch gets, the delays
/// between tries in milliseconds, and whether a batch that cannot be read
/// is filled with zeros. The factor by which the delay grows is a
/// fraction, and stays with the code that waits.
#[derive(Debug, Clone)]
pub struct ReadConfig {
    pub max_retries: u32,
    pub initial_delay_ms: u64,
    pub max_delay_ms: u64,
    pub skip_on_failure: bool,
}

impl Default for ReadConfig {
    /// Three tries, from 100 ms up to 5 s apart, stopping at a batch that
    /// cannot be read.
    fn default() -> (r: Self)
        ensures
            r.max_retries == 3,
            r.initial_delay_ms == 100,
            r.max_delay_ms == 5000,
            !r.skip_on_failure,
    {
        ReadConfig { max_retries: 3, initial_delay_ms: 100, max_delay_ms: 5000, skip_on_failure: false }
    }
}

/// The outcome of a read with retries.
#[derive(Debug)]
pub struct ReadResult {
    pub data: Vec<u8>,
    pub retries_used: u32,
    pub had_errors: bool,
}

/// The batches of a long read of `total` sectors from `start`: at most
/// `batch` sectors each, in order.
pub open spec fn batches(start: u64, total: u64, batch: u32) -> Seq<(u64, u32)>
    decreases total,
{
    if total == 0 || batch == 0 {
        seq![]
    } else {
        let n: u32 = if total > batch as u64 {
            batch
        } else {
            total as u32
        };
        seq![(start, n)] + batches((start + n) as u64, (total - n) as u64, batch)
    }
}


/// The batches of a long read of `total` sectors from `start`, at most
/// `batch` sectors each.
pub fn plan_batches(start: u64, total: u64, batch: u32) -> (r: Vec<(u64, u32)>)
    requires
        start + total <= u64::MAX,
    ensures
        r@ == batches(start, total, batch),
{
    let mut out: Vec<(u64, u32)> = Vec::new();
    if batch == 0 {
        return out;
    }
    let mut current = start;
    let mut remaining = total;
    while remaining > 0
        invariant
            batch > 0,
            current + remaining <= u64::MAX,
            out@ + batches(current, remaining, batch) == batches(start, total, batch),
        decreases remaining,
    {
        let n: u32 = if remaining > batch as u64 {
            batch
        } else {
            remaining as u32
        };
        let ghost before = out@;
        out.push((current, n));
        proof {
            assert(batches(current, remaining, batch) == seq![(current, n)] + batches(
                (current + n) as u64,
                (remaining - n) as u64,
                batch,
            ));
            assert(out@ + batches((current + n) as u64, (remaining - n) as u64, batch) =~= before
                + batches(current, remaining, batch));
        }
        current = current + n as u64;
        remaining = remaining - n as u64;
    }
    proof {
        assert(batches(current, remaining, batch) =~= Seq::<(u64, u32)>::empty());
        assert(out@ + Seq::<(u64, u32)>::empty() =~= out@);
    }
    out
}

/// The length of the next batch of a long read: `batch` sectors, or what
/// is left where that is less.
pub open spec fn batch_len(remaining: u64, batch: u32) -> u32 {
    if remaining > batch as u64 {
        batch
    } else {
        remaining as u32
    }
}

/// Appends `count` zero bytes.
fn append_zeros(v: &mut Vec<u8>, count: u32)
    ensures
        final(v)@ == old(v)@ + zeros(count as nat),
{
    let ghost start = v@;
    let mut i: u32 = 0;
    while i < count
        invariant
            i <= count,
            v@ == start + zeros(i as nat),
        decreases count - i,
    {
        v.push(0);
        proof {
            assert(v@ =~= start + zeros((i + 1) as nat));
        }
        i = i + 1;
    }
}

/// A long read of sectors in batches, each batch read with retries
/// elsewhere: the data of each batch read is kept in order; a batch that
/// could not be read is filled with zeros where failures are skipped, and
/// ends the read with its error otherwise.
pub struct RangeRead {
    current: u64,
    remaining: u64,
    batch: u32,
    sector_size: u32,
    skip_on_failure: bool,
    data: Vec<u8>,
    total_retries: u32,
    had_errors: bool,
}

impl RangeRead {
    /// The first sector not yet read.
    pub closed spec fn pos(&self) -> u64 {
        self.current
    }

    /// The sectors not yet read.
    pub closed spec fn left(&self) -> u64 {
        self.remaining
    }

    /// The largest number of sectors a batch reads.
    pub closed spec fn batch_size(&self) -> u32 {
        self.batch
    }

    /// The size of a sector in bytes.
    pub closed spec fn sector_bytes(&self) -> u32 {
        self.sector_size
    }

    /// Whether a batch that could not be read is filled with zeros.
    pub closed spec fn skips(&self) -> bool {
        self.skip_on_failure
    }

    /// The data read so far.
    pub closed spec fn data_read(&self) -> Seq<u8> {
        self.data@
    }

    /// The retries the batches took, summed (wrapping at 32 bits).
    pub closed spec fn retries(&self) -> u32 {
        self.total_retries
    }

    /// Whether some batch needed retries.
    pub closed spec fn had_errors(&self) -> bool {
        self.had_errors
    }

    /// Whether the read can go on: batches are not empty, the sectors left
    /// do not run past the last sector number, and a batch of zeros has a
    /// size that fits 32 bits.
    pub closed spec fn wf(&self) -> bool {
        &&& self.batch > 0
        &&& self.current + self.remaining <= u64::MAX
        &&& self.skip_on_failure ==> self.batch * self.sector_size <= u32::MAX
    }

    /// A read of `total` sectors of `sector_size` bytes from `start`, in
    /// batches of at most `batch_size` sectors, skipping batches that cannot
    /// be read where `config` says so.
    pub fn new(start: u64, total: u64, sector_size: u32, batch_size: u32, config: &ReadConfig) -> (r: Self)
        requires
            batch_size > 0,
            start + total <= u64::MAX,
            config.skip_on_failure ==> batch_size * sector_size <= u32::MAX,
        ensures
            r.wf(),
            r.pos() == start,
            r.left() == total,
            r.batch_size() == batch_size,
            r.sector_bytes() == sector_size,
            r.skips() == config.skip_on_failure,
            r.data_read() == Seq::<u8>::empty(),
            r.retries() == 0,
            !r.had_errors(),
    {
        RangeRead {
            current: start,
            remaining: total,
            batch: batch_size,
            sector_size,
            skip_on_failure: config.skip_on_failure,
            data: Vec::new(),
            total_retries: 0,
            had_errors: false,
        }
    }

    /// The next batch to read, as its first sector and its length; none
    /// once every sector was read. The batches come as `plan_batches` gives
    /// them.
    pub fn next_batch(&self) -> (r: Option<(u64, u32)>)
        requires
            self.wf(),
        ensures
            self.left() == 0 ==> r is None,
            self.left() > 0 ==> r == Some((self.pos(), batch_len(self.left(), self.batch_size())))
                && r == Some(batches(self.pos(), self.left(), self.batch_size())[0]),
    {
        if self.remaining == 0 {
            None
        } else {
            let n: u32 = if self.remaining > self.batch as u64 {
                self.batch
            } else {
                self.remaining as u32
            };
            Some((self.current, n))
        }
    }

    /// Takes the outcome of reading the next batch. Data read is added; a
    /// failure adds zeros for the batch where failures are skipped, and
    /// ends the read with its error otherwise.
    pub fn on_batch(&mut self, outcome: Result<ReadResult, DiskRipperError>) -> (r: Result<(), DiskRipperError>)
        requires
            old(self).wf(),
            old(self).left() > 0,
        ensures
            final(self).wf(),
            final(self).batch_size() == old(self).batch_size(),
            final(self).sector_bytes() == old(self).sector_bytes(),
            final(self).skips() == old(self).skips(),
            ({
                let n = batch_len(old(self).left(), old(self).batch_size());
                match outcome {
                    Ok(res) => {
                        &&& r is Ok
                        &&& final(self).data_read() == old(self).data_read() + res.data@
                        &&& final(self).retries() == old(self).retries().wrapping_add(res.retries_used)
                        &&& final(self).had_errors() == (old(self).had_errors() || res.had_errors)
                        &&& final(self).pos() == old(self).pos() + n
                        &&& final(self).left() == old(self).left() - n
                    },
                    Err(e) => if old(self).skips() {
                        &&& r is Ok
                        &&& final(self).data_read() == old(self).data_read() + zeros(
                            (n * old(self).sector_bytes()) as nat,
                        )
                        &&& final(self).retries() == old(self).retries()
                        &&& final(self).had_errors() == old(self).had_errors()
                        &&& final(self).pos() == old(self).pos() + n
                        &&& final(self).left() == old(self).left() - n
                    } else {
                        &&& r == Err::<(), DiskRipperError>(e)
                        &&& final(self).data_read() == old(self).data_read()
                        &&& final(self).pos() == old(self).pos()
                        &&& final(self).left() == old(self).left()
                    },
                }
            }),
    {
        let n: u32 = if self.remaining > self.batch as u64 {
            self.batch
        } else {
            self.remaining as u32
        };
        match outcome {
            Ok(res) => {
                push_all(&mut self.data, res.data.as_slice());
                self.total_retries = self.total_retries.wrapping_add(res.retries_used);
                self.had_errors = self.had_errors || res.had_errors;
            },
            Err(e) => {
                if !self.skip_on_failure {
                    return Err(e);
                }
                proof {
                    assert(n * self.sector_size <= self.batch * self.sector_size) by (nonlinear_arith)
                        requires
                            n <= self.batch,
                    ;
                }
                let count: u32 = n * self.sector_size;
                append_zeros(&mut self.data, count);
            },
        }
        self.current = self.current + n as u64;
        self.remaining = self.remaining - n as u64;
        Ok(())
    }

    /// The data read, once every batch was taken.
    pub fn finish(self) -> (r: Vec<u8>)
        ensures
            r@ == self.data_read(),
    {
        self.data
    }
}

/// The batches a long read goes through are those that `plan_batches`
/// gives: the batch that `next_batch` names, then the batches of what
/// `on_batch` leaves.
pub proof fn law_range_read_follows_plan(pos: u64, left: u64, batch: u32)
    requires
        batch > 0,
        left > 0,
        pos + left <= u64::MAX,
    ensures
        batches(pos, left, batch) == seq![(pos, batch_len(left, batch))] + batches(
            (pos + batch_len(left, batch)) as u64,
            (left - batch_len(left, batch)) as u64,
            batch,
        ),
{
}

} // verus!
