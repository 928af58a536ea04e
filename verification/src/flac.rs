//! FLAC compression: the compression levels, the encoder's arguments, and
//! the WAV bytes handed to it.
use vstd::prelude::*;
use crate::audio::{le16_bytes, le32_bytes};
use crate::text::{
    chars_of, concat, decode_utf8_lossy, owned, push_dec, push_str, string_of, dec_digits, trim_ws,
    trim_ws_vec, utf8_lossy,
};

verus! {

/// A FLAC compression level.
#[derive(Debug, Clone, Copy, PartialEq, Eq, Structural)]
pub enum FlacCompression {
    /// Level 0.
    Fast,
    /// Level 5.
    Default,
    /// Level 8.
    Best,
}

/// The encoder level of a compression setting.
pub open spec fn level_of(c: FlacCompression) -> u8 {
    match c {
        FlacCompression::Fast => 0,
        FlacCompression::Default => 5,
        FlacCompression::Best => 8,
    }
}

/// The compression setting of an encoder level: 0 to 2 fast, 3 to 6 the
/// default, above that the best.
pub open spec fn compression_of(level: u8) -> FlacCompression {
    if level <= 2 {
        FlacCompression::Fast
    } else if level <= 6 {
        FlacCompression::Default
    } else {
        FlacCompression::Best
    }
}

impl FlacCompression {
    /// The encoder level (0, 5 or 8).
    pub fn level(&self) -> (r: u8)
        ensures
            r == level_of(*self),
    {
        match self {
            FlacCompression::Fast => 0,
            FlacCompression::Default => 5,
            FlacCompression::Best => 8,
        }
    }
}

impl From<u8> for FlacCompression {
    fn from(level: u8) -> (r: Self)
        ensures
            r == compression_of(level),
    {
        if level <= 2 {
            FlacCompression::Fast
        } else if level <= 6 {
            FlacCompression::Default
        } else {
            FlacCompression::Best
        }
    }
}

impl vstd::std_specs::convert::FromSpecImpl<u8> for FlacCompression {
    open spec fn obeys_from_spec() -> bool {
        true
    }

    open spec fn from_spec(level: u8) -> Self {
        compression_of(level)
    }
}

/// Runs the `flac` command-line encoder.
pub struct FlacEncoder;

/// The arguments of a `flac` run that compresses `wav` into `flac`.
pub open spec fn compress_args(wav: Seq<char>, flac: Seq<char>, c: FlacCompression) -> Seq<Seq<char>> {
    seq![
        "--compression-level-"@ + dec_digits(level_of(c) as nat),
        "--force"@,
        "--quiet"@,
        "-o"@,
        flac,
        wav,
    ]
}

impl FlacEncoder {
    /// The arguments of a `flac` run that compresses the WAV file `wav_path`
    /// into `flac_path` at the given level, overwriting it, quietly.
    pub fn compress_args(wav_path: &str, flac_path: &str, compression: FlacCompression) -> (r: Vec<
        String,
    >)
        ensures
            r@.map_values(|s: String| s@) == compress_args(wav_path@, flac_path@, compression),
    {
        let mut level: Vec<char> = Vec::new();
        push_str(&mut level, "--compression-level-");
        push_dec(&mut level, compression.level() as u64, 0);
        let mut args: Vec<String> = Vec::new();
        args.push(string_of(level.as_slice()));
        args.push(owned("--force"));
        args.push(owned("--quiet"));
        args.push(owned("-o"));
        args.push(owned(flac_path));
        args.push(owned(wav_path));
        proof {
            assert(args@.map_values(|s: String| s@) =~= compress_args(
                wav_path@,
                flac_path@,
                compression,
            ));
        }
        args
    }

    /// The encoder's version from a `flac --version` run: what it wrote,
    /// trimmed, where the run succeeded.
    pub fn version_from(success: bool, stdout: &[u8]) -> (r: Option<String>)
        ensures
            success ==> (r matches Some(v) && v@ == trim_ws(utf8_lossy(stdout@))),
            !success ==> r is None,
    {
        if !success {
            return None;
        }
        let text = decode_utf8_lossy(stdout);
        let chars = chars_of(text.as_str());
        let trimmed = trim_ws_vec(&chars);
        Some(string_of(trimmed.as_slice()))
    }

    /// The message of a failed run, from what it wrote to its error output.
    pub fn failure_message(stderr: &str) -> (r: String)
        ensures
            r@ == "flac failed: "@ + stderr@,
    {
        concat("flac failed: ", stderr)
    }
}

/// The little-endian bytes of a sample.
pub open spec fn sample_bytes(s: Seq<i16>) -> Seq<u8>
    decreases s.len(),
{
    if s.len() == 0 {
        seq![]
    } else {
        sample_bytes(s.drop_last()) + le16_bytes(s.last() as u16)
    }
}

/// The WAV file handed to the encoder when samples are encoded: a header whose
/// channel count and block alignment take one byte each, then the samples.
pub open spec fn flac_input_wav(samples: Seq<i16>, sample_rate: u32, channels: u8) -> Seq<u8> {
    let data_len = samples.len() * 2;
    seq![0x52u8, 0x49, 0x46, 0x46] + le32_bytes((data_len + 36) as u32) + seq![0x57u8, 0x41, 0x56, 0x45]
        + seq![0x66u8, 0x6D, 0x74, 0x20] + le32_bytes(16) + le16_bytes(1) + seq![channels]
        + le32_bytes(sample_rate) + le32_bytes((sample_rate * channels * 2) as u32) + seq![
        (channels * 2) as u8,
    ] + le16_bytes(16) + seq![0x64u8, 0x61, 0x74, 0x61] + le32_bytes(data_len as u32)
        + sample_bytes(samples)
}

/// Appends the little-endian bytes of `x`.
fn push_le32(v: &mut Vec<u8>, x: u32)
    ensures
        final(v)@ == old(v)@ + le32_bytes(x),
{
    v.push((x % 256) as u8);
    v.push(((x / 256) % 256) as u8);
    v.push(((x / 65536) % 256) as u8);
    v.push((x / 16777216) as u8);
    proof {
        assert(final(v)@ =~= old(v)@ + le32_bytes(x));
    }
}

/// Appends the little-endian bytes of `x`.
fn push_le16(v: &mut Vec<u8>, x: u16)
    ensures
        final(v)@ == old(v)@ + le16_bytes(x),
{
    v.push((x % 256) as u8);
    v.push((x / 256) as u8);
    proof {
        assert(final(v)@ =~= old(v)@ + le16_bytes(x));
    }
}

/// The bytes of the temporary WAV file written before the encoder runs on
/// samples: the sizes wrap to 32 bits, as casts to `u32` do.
pub fn flac_input_bytes(samples: &[i16], sample_rate: u32, channels: u8) -> (r: Vec<u8>)
    requires
        samples@.len() * 2 + 36 <= usize::MAX,
        sample_rate * channels * 2 <= u32::MAX,
        channels * 2 <= u8::MAX,
    ensures
        r@ == flac_input_wav(samples@, sample_rate, channels),
{
    let data_len: usize = samples.len() * 2;
    let file_size: usize = data_len + 36;
    let per_second: u32 = sample_rate * channels as u32;
    let byte_rate: u32 = per_second * 2;
    let block_align: u8 = channels * 2;
    let mut out: Vec<u8> = Vec::new();
    out.push(0x52);
    out.push(0x49);
    out.push(0x46);
    out.push(0x46);
    push_le32(&mut out, file_size as u32);
    out.push(0x57);
    out.push(0x41);
    out.push(0x56);
    out.push(0x45);
    out.push(0x66);
    out.push(0x6D);
    out.push(0x74);
    out.push(0x20);
    push_le32(&mut out, 16);
    push_le16(&mut out, 1);
    out.push(channels);
    push_le32(&mut out, sample_rate);
    push_le32(&mut out, byte_rate);
    out.push(block_align);
    push_le16(&mut out, 16);
    out.push(0x64);
    out.push(0x61);
    out.push(0x74);
    out.push(0x61);
    push_le32(&mut out, data_len as u32);
    let ghost head = out@;
    let mut i: usize = 0;
    while i < samples.len()
        invariant
            i <= samples@.len(),
            out@ == head + sample_bytes(samples@.subrange(0, i as int)),
        decreases samples.len() - i,
    {
        push_le16(&mut out, samples[i] as u16);
        proof {
            assert(samples@.subrange(0, i + 1).drop_last() =~= samples@.subrange(0, i as int));
            assert(out@ =~= head + sample_bytes(samples@.subrange(0, i + 1)));
        }
        i = i + 1;
    }
    proof {
        assert(samples@.subrange(0, samples@.len() as int) =~= samples@);
        assert(out@ =~= flac_input_wav(samples@, sample_rate, channels));
    }
    out
}

/// A compression setting taken as its encoder level and back is itself;
/// every level is one of 0, 5 and 8.
pub proof fn law_level_round_trip(c: FlacCompression, level: u8)
    ensures
        compression_of(level_of(c)) == c,
        level_of(compression_of(level)) == 0 || level_of(compression_of(level)) == 5 || level_of(
            compression_of(level),
        ) == 8,
{
}

} // verus!
