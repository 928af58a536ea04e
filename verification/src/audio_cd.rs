//! Audio CD ripping: the track list from the table of contents, file names,
//! the WAV header and the cue sheet.
use vstd::prelude::*;
use crate::audio::{le16_bytes, le32_bytes};
use crate::filesystem::native_win::TocTrack;
use crate::text::{chars_of, dec_padded, owned, push_dec, push_str, string_of};

verus! {

/// Output format of ripped audio.
#[derive(Debug, Clone, Copy, PartialEq, Eq, Structural)]
pub enum AudioFormat {
    Wav,
    Flac,
}

/// The name by which an audio format is shown.
pub open spec fn audio_format_name(f: AudioFormat) -> Seq<char> {
    match f {
        AudioFormat::Wav => "WAV"@,
        AudioFormat::Flac => "FLAC"@,
    }
}

impl AudioFormat {
    /// The name by which the format is shown.
    pub fn to_string(&self) -> (r: String)
        ensures
            r@ == audio_format_name(*self),
    {
        match self {
            AudioFormat::Wav => owned("WAV"),
            AudioFormat::Flac => owned("FLAC"),
        }
    }
}

/// A track of an audio CD. Its duration is `sector_count` sectors of
/// 1/75 s.
#[derive(Debug, Clone)]
pub struct AudioTrack {
    pub track_number: u8,
    pub start_sector: u64,
    pub end_sector: u64,
    pub sector_count: u64,
    pub is_audio: bool,
    pub pre_emphasis: bool,
    pub copy_permitted: bool,
    pub channels: u8,
    pub title: Option<String>,
    pub artist: Option<String>,
}

/// `MM:SS:FF` of a number of sectors: minutes, seconds and frames of 1/75 s,
/// a sector being one frame.
pub open spec fn msf_text(sectors: u64) -> Seq<char> {
    dec_padded((sectors / 4500) as nat, 2) + ":"@ + dec_padded(((sectors / 75) % 60) as nat, 2)
        + ":"@ + dec_padded((sectors % 75) as nat, 2)
}

impl AudioTrack {
    /// The duration as `MM:SS:FF`.
    pub fn duration_msf(&self) -> (r: String)
        ensures
            r@ == msf_text(self.sector_count),
    {
        let total_frames = self.sector_count;
        let minutes = total_frames / (75 * 60);
        let seconds = (total_frames / 75) % 60;
        let frames = total_frames % 75;
        let mut out: Vec<char> = Vec::new();
        push_dec(&mut out, minutes, 2);
        push_str(&mut out, ":");
        push_dec(&mut out, seconds, 2);
        push_str(&mut out, ":");
        push_dec(&mut out, frames, 2);
        string_of(out.as_slice())
    }
}

/// The track that table entry `i` describes: it ends where the next one
/// starts, the last where the disc ends (its size in 2352-byte sectors), or
/// 10000 sectors on where the size is unknown.
pub open spec fn track_of(toc: Seq<TocTrack>, i: int, disc_size: Option<u64>) -> AudioTrack {
    let t = toc[i];
    let start = t.start_lba as u64;
    let end: u64 = if i + 1 < toc.len() {
        toc[i + 1].start_lba as u64
    } else {
        match disc_size {
            Some(s) => s / 2352,
            None => (start + 10000) as u64,
        }
    };
    AudioTrack {
        track_number: t.track_number,
        start_sector: start,
        end_sector: end,
        sector_count: if end > start {
            (end - start) as u64
        } else {
            0
        },
        is_audio: t.control & 0x04 == 0,
        pre_emphasis: t.control & 0x01 != 0,
        copy_permitted: t.control & 0x02 != 0,
        channels: 2,
        title: None,
        artist: None,
    }
}

/// The tracks of a table of contents, given the disc size where it could
/// be read.
pub struct AudioCdRipper;

impl AudioCdRipper {
    /// The tracks of a table of contents.
    pub fn tracks_from_toc(toc: &[TocTrack], disc_size: Option<u64>) -> (r: Vec<AudioTrack>)
        ensures
            r@.len() == toc@.len(),
            forall|i: int| 0 <= i < r@.len() ==> #[trigger] r@[i] == track_of(toc@, i, disc_size),
    {
        let mut tracks: Vec<AudioTrack> = Vec::new();
        let mut i: usize = 0;
        while i < toc.len()
            invariant
                i <= toc@.len(),
                tracks@.len() == i,
                forall|k: int| 0 <= k < i ==> #[trigger] tracks@[k] == track_of(toc@, k, disc_size),
            decreases toc.len() - i,
        {
            let t = toc[i];
            let start_sector = t.start_lba as u64;
            let end_sector: u64 = if i + 1 < toc.len() {
                toc[i + 1].start_lba as u64
            } else {
                match disc_size {
                    Some(size) => size / 2352,
                    None => start_sector + 10000,
                }
            };
            let sector_count = end_sector.saturating_sub(start_sector);
            tracks.push(
                AudioTrack {
                    track_number: t.track_number,
                    start_sector,
                    end_sector,
                    sector_count,
                    is_audio: t.control & 0x04 == 0,
                    pre_emphasis: t.control & 0x01 != 0,
                    copy_permitted: t.control & 0x02 != 0,
                    channels: 2,
                    title: None,
                    artist: None,
                },
            );
            proof {
                assert(tracks@[i as int] == track_of(toc@, i as int, disc_size));
            }
            i = i + 1;
        }
        tracks
    }

    /// The file name of track `n`: two digits and `.wav`.
    pub fn track_file_name(n: u8) -> (r: String)
        ensures
            r@ == dec_padded(n as nat, 2) + ".wav"@,
    {
        let mut out: Vec<char> = Vec::new();
        push_dec(&mut out, n as u64, 2);
        push_str(&mut out, ".wav");
        string_of(out.as_slice())
    }
}

/// The little-endian WAV header of PCM audio with `data_size` bytes of
/// samples.
pub open spec fn pcm_header(data_size: u32, sample_rate: u32, bits: u16, channels: u16) -> Seq<u8> {
    seq![0x52u8, 0x49, 0x46, 0x46] + le32_bytes((data_size + 36) as u32) + seq![
        0x57u8,
        0x41,
        0x56,
        0x45,
    ] + seq![0x66u8, 0x6D, 0x74, 0x20] + le32_bytes(16) + le16_bytes(1) + le16_bytes(channels)
        + le32_bytes(sample_rate) + le32_bytes((sample_rate * channels * (bits / 8)) as u32)
        + le16_bytes((channels * (bits / 8)) as u16) + le16_bytes(bits) + seq![
        0x64u8,
        0x61,
        0x74,
        0x61,
    ] + le32_bytes(data_size)
}

/// Appends the little-endian bytes of `x`.
fn push32(v: &mut Vec<u8>, x: u32)
    ensures
        final(v)@ == old(v)@ + le32_bytes(x),
{
    v.push((x % 256) as u8);
    v.push(((x / 256) % 256) as u8);
    v.push(((x / 65536) % 256) as u8);
    v.push((x / 16777216) as u8);
    proof {
        assert(final(v)@ =~= old(v)@ + le32_bytes(x));
    }
}

/// Appends the little-endian bytes of `x`.
fn push16(v: &mut Vec<u8>, x: u16)
    ensures
        final(v)@ == old(v)@ + le16_bytes(x),
{
    v.push((x % 256) as u8);
    v.push((x / 256) as u8);
    proof {
        assert(final(v)@ =~= old(v)@ + le16_bytes(x));
    }
}

/// The WAV header of PCM audio with `data_size` bytes of samples.
pub fn wav_header_bytes(data_size: u32, sample_rate: u32, bits_per_sample: u16, channels: u16) -> (r: Vec<u8>)
    requires
        data_size + 36 <= u32::MAX,
        sample_rate * channels <= u32::MAX,
        sample_rate * channels * (bits_per_sample / 8) <= u32::MAX,
        channels * (bits_per_sample / 8) <= u16::MAX,
    ensures
        r@ == pcm_header(data_size, sample_rate, bits_per_sample, channels),
{
    let per_second: u32 = sample_rate * channels as u32;
    let byte_rate: u32 = per_second * (bits_per_sample as u32 / 8);
    let block_align: u16 = channels * (bits_per_sample / 8);
    let file_size = data_size + 36;
    let mut header: Vec<u8> = Vec::new();
    header.push(0x52);
    header.push(0x49);
    header.push(0x46);
    header.push(0x46);
    push32(&mut header, file_size);
    header.push(0x57);
    header.push(0x41);
    header.push(0x56);
    header.push(0x45);
    header.push(0x66);
    header.push(0x6D);
    header.push(0x74);
    header.push(0x20);
    push32(&mut header, 16);
    push16(&mut header, 1);
    push16(&mut header, channels);
    push32(&mut header, sample_rate);
    push32(&mut header, byte_rate);
    push16(&mut header, block_align);
    push16(&mut header, bits_per_sample);
    header.push(0x64);
    header.push(0x61);
    header.push(0x74);
    header.push(0x61);
    push32(&mut header, data_size);
    proof {
        assert(header@ =~= pcm_header(data_size, sample_rate, bits_per_sample, channels));
    }
    header
}

/// A character escaped for a cue sheet: `"` as `\"`, a line feed as `\n`,
/// a carriage return as `\r`.
pub open spec fn cue_escape_char(c: char) -> Seq<char> {
    if c == '"' {
        seq!['\\', '"']
    } else if c == '\n' {
        seq!['\\', 'n']
    } else if c == '\r' {
        seq!['\\', 'r']
    } else {
        seq![c]
    }
}

/// Text escaped for a cue sheet.
pub open spec fn cue_escape(s: Seq<char>) -> Seq<char>
    decreases s.len(),
{
    if s.len() == 0 {
        seq![]
    } else {
        cue_escape(s.drop_last()) + cue_escape_char(s.last())
    }
}

/// Appends `s` escaped for a cue sheet.
fn push_escaped(out: &mut Vec<char>, s: &str)
    ensures
        final(out)@ == old(out)@ + cue_escape(s@),
{
    let cs = chars_of(s);
    let ghost start = out@;
    let mut i: usize = 0;
    while i < cs.len()
        invariant
            i <= cs@.len(),
            cs@ == s@,
            out@ == start + cue_escape(cs@.subrange(0, i as int)),
        decreases cs.len() - i,
    {
        let c = cs[i];
        proof {
            assert(cs@.subrange(0, i + 1).drop_last() =~= cs@.subrange(0, i as int));
        }
        if c == '"' {
            out.push('\\');
            out.push('"');
        } else if c == '\n' {
            out.push('\\');
            out.push('n');
        } else if c == '\r' {
            out.push('\\');
            out.push('r');
        } else {
            out.push(c);
        }
        proof {
            assert(out@ =~= start + cue_escape(cs@.subrange(0, i + 1)));
        }
        i = i + 1;
    }
    proof {
        assert(cs@.subrange(0, i as int) =~= cs@);
    }
}

/// Text escaped for a cue sheet.
pub fn escape_cue_string(s: &str) -> (r: String)
    ensures
        r@ == cue_escape(s@),
{
    let mut out: Vec<char> = Vec::new();
    push_escaped(&mut out, s);
    proof {
        assert(out@ =~= cue_escape(s@));
    }
    string_of(out.as_slice())
}

/// An optional string taken as characters.
pub open spec fn opt_text(o: Option<String>) -> Option<Seq<char>> {
    match o {
        Some(s) => Some(s@),
        None => None,
    }
}

/// The cue sheet lines of an audio track: its file and track number, an
/// index after the two-second pregap, its title and performer where known,
/// and its flags.
pub open spec fn track_cue(t: AudioTrack) -> Seq<char> {
    let n = dec_padded(t.track_number as nat, 2);
    "FILE \""@ + n + ".wav\" WAV\n"@ + "  TRACK "@ + n + " AUDIO\n"@ + "    INDEX 01 00:02:00\n"@
        + quoted_line("    TITLE \""@, opt_text(t.title)) + quoted_line(
        "    PERFORMER \""@,
        opt_text(t.artist),
    ) + flags_line(t.pre_emphasis, t.copy_permitted)
}

/// A line that gives a quoted, escaped value after a keyword, or nothing
/// where the value is unknown.
pub open spec fn quoted_line(head: Seq<char>, o: Option<Seq<char>>) -> Seq<char> {
    match o {
        Some(s) => head + cue_escape(s) + "\"\n"@,
        None => seq![],
    }
}

/// The flags line of a track: pre-emphasis and digital copy permitted.
pub open spec fn flags_line(pre: bool, dcp: bool) -> Seq<char> {
    if pre && dcp {
        "    FLAGS PRE DCP\n"@
    } else if pre {
        "    FLAGS PRE\n"@
    } else if dcp {
        "    FLAGS DCP\n"@
    } else {
        seq![]
    }
}

/// The cue sheet lines of the audio tracks among the first `n`.
pub open spec fn tracks_cue(ts: Seq<AudioTrack>, n: int) -> Seq<char>
    decreases n,
{
    if n <= 0 {
        seq![]
    } else if ts[n - 1].is_audio {
        tracks_cue(ts, n - 1) + track_cue(ts[n - 1])
    } else {
        tracks_cue(ts, n - 1)
    }
}

/// A cue sheet: the disc's performer and title where known, then each
/// audio track.
pub open spec fn cue_sheet_text(ts: Seq<AudioTrack>, title: Option<Seq<char>>, artist: Option<Seq<char>>) -> Seq<char> {
    quoted_line("PERFORMER \""@, artist) + quoted_line("TITLE \""@, title) + tracks_cue(
        ts,
        ts.len() as int,
    )
}

/// An optional borrowed string taken as characters.
pub open spec fn opt_str_text(o: Option<&str>) -> Option<Seq<char>> {
    match o {
        Some(s) => Some(s@),
        None => None,
    }
}

/// Appends the file, track and index lines of an audio track.
fn push_track_head(out: &mut Vec<char>, track_number: u8)
    ensures
        final(out)@ == old(out)@ + "FILE \""@ + dec_padded(track_number as nat, 2) + ".wav\" WAV\n"@
            + "  TRACK "@ + dec_padded(track_number as nat, 2) + " AUDIO\n"@
            + "    INDEX 01 00:02:00\n"@,
{
    let ghost start = out@;
    let mut n: Vec<char> = Vec::new();
    push_dec(&mut n, track_number as u64, 2);
    let num = string_of(n.as_slice());
    push_str(out, "FILE \"");
    push_str(out, num.as_str());
    push_str(out, ".wav\" WAV\n");
    push_str(out, "  TRACK ");
    push_str(out, num.as_str());
    push_str(out, " AUDIO\n");
    let ghost mid = out@;
    let pregap_sectors: u64 = 150;
    let pregap_frames = pregap_sectors % 75;
    let pregap_seconds = (pregap_sectors / 75) % 60;
    let pregap_minutes = pregap_sectors / (75 * 60);
    push_str(out, "    INDEX 01 ");
    push_dec(out, pregap_minutes, 2);
    push_str(out, ":");
    push_dec(out, pregap_seconds, 2);
    push_str(out, ":");
    push_dec(out, pregap_frames, 2);
    push_str(out, "\n");
    proof {
        reveal_strlit("    INDEX 01 00:02:00\n");
        reveal_strlit("    INDEX 01 ");
        reveal_strlit(":");
        reveal_strlit("\n");
        assert(dec_padded(0, 2) =~= seq!['0', '0']);
        assert(dec_padded(2, 2) =~= seq!['0', '2']);
        assert(out@ =~= mid + "    INDEX 01 00:02:00\n"@);
    }
}

/// Appends a keyword and a quoted, escaped value where the value is known.
fn push_quoted_line(out: &mut Vec<char>, head: &str, o: &Option<String>)
    ensures
        final(out)@ == old(out)@ + quoted_line(head@, opt_text(*o)),
{
    match o {
        Some(s) => {
            push_str(out, head);
            push_escaped(out, s.as_str());
            push_str(out, "\"\n");
        },
        None => {},
    }
}

/// Appends the flags line of a track.
fn push_flags(out: &mut Vec<char>, pre: bool, dcp: bool)
    ensures
        final(out)@ == old(out)@ + flags_line(pre, dcp),
{
    if pre && dcp {
        push_str(out, "    FLAGS PRE DCP\n");
    } else if pre {
        push_str(out, "    FLAGS PRE\n");
    } else if dcp {
        push_str(out, "    FLAGS DCP\n");
    }
}

/// Appends the cue sheet lines of an audio track.
fn push_track_cue(out: &mut Vec<char>, t: &AudioTrack)
    ensures
        final(out)@ == old(out)@ + track_cue(*t),
{
    let ghost start = out@;
    push_track_head(out, t.track_number);
    push_quoted_line(out, "    TITLE \"", &t.title);
    push_quoted_line(out, "    PERFORMER \"", &t.artist);
    push_flags(out, t.pre_emphasis, t.copy_permitted);
    proof {
        assert(out@ =~= start + track_cue(*t));
    }
}

impl AudioCdRipper {
    /// The cue sheet of an album's tracks.
    pub fn generate_cue_sheet(tracks: &[AudioTrack], disc_title: Option<&str>, disc_artist: Option<&str>) -> (r:
        String)
        ensures
            r@ == cue_sheet_text(tracks@, opt_str_text(disc_title), opt_str_text(disc_artist)),
    {
        let mut cue: Vec<char> = Vec::new();
        match disc_artist {
            Some(a) => {
                push_str(&mut cue, "PERFORMER \"");
                push_escaped(&mut cue, a);
                push_str(&mut cue, "\"\n");
            },
            None => {},
        }
        match disc_title {
            Some(t) => {
                push_str(&mut cue, "TITLE \"");
                push_escaped(&mut cue, t);
                push_str(&mut cue, "\"\n");
            },
            None => {},
        }
        let ghost head = cue@;
        let mut i: usize = 0;
        while i < tracks.len()
            invariant
                i <= tracks@.len(),
                cue@ == head + tracks_cue(tracks@, i as int),
            decreases tracks.len() - i,
        {
            if tracks[i].is_audio {
                push_track_cue(&mut cue, &tracks[i]);
                proof {
                    assert(cue@ =~= head + tracks_cue(tracks@, i + 1));
                }
            }
            i = i + 1;
        }
        proof {
            assert(cue@ =~= cue_sheet_text(tracks@, opt_str_text(disc_title), opt_str_text(disc_artist)));
        }
        string_of(cue.as_slice())
    }
}

} // verus!
