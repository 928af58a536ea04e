//! Verification of ripped data against the source by checksum.
use vstd::prelude::*;
use super::recovery::{batches, calculate_checksum, checksum_text, plan_batches, verify_checksum};
use crate::text::{chars_eq, chars_of, dec_digits, owned, push_dec, push_str, string_of};

verus! {

/// The outcome of comparing ripped data with its source.
#[derive(Debug, Clone)]
pub struct VerificationResult {
    pub file_path: String,
    pub source_checksum: String,
    pub dest_checksum: String,
    pub valid: bool,
    pub bytes_verified: u64,
}

/// Compares the checksums of the source data and the data written to
/// `file_path`; valid where they agree.
pub fn compare_rip(file_path: String, source_data: &[u8], dest_data: &[u8], bytes_verified: u64) -> (r:
    VerificationResult)
    ensures
        r.file_path@ == file_path@,
        r.source_checksum@ == checksum_text(source_data@),
        r.dest_checksum@ == checksum_text(dest_data@),
        r.valid == (checksum_text(source_data@) == checksum_text(dest_data@)),
        r.bytes_verified == bytes_verified,
{
    let source_checksum = calculate_checksum(source_data);
    let dest_checksum = calculate_checksum(dest_data);
    let a = chars_of(source_checksum.as_str());
    let b = chars_of(dest_checksum.as_str());
    let valid = chars_eq(a.as_slice(), b.as_slice());
    VerificationResult { file_path, source_checksum, dest_checksum, valid, bytes_verified }
}

/// Whether audio data has the checksum `expected_checksum`.
pub fn verify_audio_accuracy(track_data: &[u8], expected_checksum: &str) -> (r: bool)
    ensures
        r == (checksum_text(track_data@) == expected_checksum@),
{
    verify_checksum(track_data, expected_checksum)
}

/// The sector batches an image of `total_size` bytes is verified in: 100
/// sectors of 2048 bytes at a time over its whole sectors (counted in 32
/// bits, so a count beyond that wraps).
pub fn verification_batches(total_size: u64) -> (r: Vec<(u64, u32)>)
    ensures
        r@ == batches(0, ((total_size / 2048) as u32) as u64, 100),
{
    let total_sectors = (total_size / 2048) as u32;
    plan_batches(0, total_sectors as u64, 100)
}

/// The label of a batch: `Sectors <first>-<last>`.
pub open spec fn batch_label(start: u32, count: u32) -> Seq<char> {
    "Sectors "@ + dec_digits(start as nat) + "-"@ + dec_digits((start + count - 1) as nat)
}

/// The part of the image that a batch of `count` sectors from `start`
/// covers, cut at the image's end.
pub open spec fn image_part(image: Seq<u8>, start: u32, count: u32) -> Seq<u8> {
    let off = start * 2048;
    let end = off + count * 2048;
    image.subrange(off, if end <= image.len() { end } else { image.len() as int })
}

/// The result of verifying one batch: where the source was read, whether
/// its checksum is that of the image's part; where it was not, a failure
/// that verified nothing.
pub fn verify_batch(start: u32, count: u32, source: Option<&[u8]>, image: &[u8]) -> (r:
    VerificationResult)
    requires
        count >= 1,
        start + count - 1 <= u32::MAX,
        count <= 100,
        source is Some ==> start * 2048 <= image@.len(),
    ensures
        r.file_path@ == batch_label(start, count),
        match source {
            Some(src) => {
                &&& r.source_checksum@ == checksum_text(src@)
                &&& r.dest_checksum@ == checksum_text(image_part(image@, start, count))
                &&& r.valid == (checksum_text(src@) == checksum_text(image_part(image@, start, count)))
                &&& r.bytes_verified == count * 2048
            },
            None => {
                &&& r.source_checksum@.len() == 0
                &&& r.dest_checksum@.len() == 0
                &&& !r.valid
                &&& r.bytes_verified == 0
            },
        },
{
    let mut label: Vec<char> = Vec::new();
    push_str(&mut label, "Sectors ");
    push_dec(&mut label, start as u64, 0);
    push_str(&mut label, "-");
    push_dec(&mut label, (start as u64) + (count as u64) - 1, 0);
    let file_path = string_of(label.as_slice());
    match source {
        Some(src) => {
            let off: u64 = start as u64 * 2048;
            let end: u64 = off + count as u64 * 2048;
            let stop: u64 = if end <= image.len() as u64 {
                end
            } else {
                image.len() as u64
            };
            let mut part: Vec<u8> = Vec::new();
            let mut i: u64 = off;
            while i < stop
                invariant
                    off <= i <= stop <= image@.len(),
                    part@ == image@.subrange(off as int, i as int),
                decreases stop - i,
            {
                part.push(image[i as usize]);
                proof {
                    assert(part@ =~= image@.subrange(off as int, i + 1));
                }
                i = i + 1;
            }
            proof {
                assert(part@ =~= image_part(image@, start, count));
            }
            let source_checksum = calculate_checksum(src);
            let dest_checksum = calculate_checksum(part.as_slice());
            let valid = chars_eq(chars_of(source_checksum.as_str()).as_slice(), chars_of(dest_checksum.as_str()).as_slice());
            VerificationResult {
                file_path,
                source_checksum,
                dest_checksum,
                valid,
                bytes_verified: count as u64 * 2048,
            }
        },
        None => {
            proof {
                reveal_strlit("");
            }
            VerificationResult {
            file_path,
            source_checksum: owned(""),
            dest_checksum: owned(""),
            valid: false,
            bytes_verified: 0,
        }
        },
    }
}

} // verus!
