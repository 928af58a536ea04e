//! DVD-Video IFO parsing: titles, chapters, audio and subtitle streams.
//!
//! Durations are kept as counts of 1/75 s frames; the caller turns them into
//! seconds.
use vstd::prelude::*;
use vstd::std_specs::convert::FromSpecImpl;
use crate::bytes::{be16_at, be32_at, read_be_u16, read_be_u32};
use crate::error::DiskRipperError;
use crate::text::{owned, string_of};

verus! {

/// Parser of DVD IFO files.
#[derive(Debug)]
pub struct DvdParser;

/// A chapter of a title. Its duration is `time_frames` (1/75 s frames of
/// its program chain) divided among `programs` programs (at least one).
#[derive(Debug, Clone, Copy)]
pub struct DvdChapter {
    pub chapter_number: u16,
    pub start_cell: u8,
    pub end_cell: u8,
    pub time_frames: u64,
    pub programs: u16,
    pub start_sector: u64,
    pub end_sector: u64,
}

/// An audio stream of a title.
#[derive(Debug, Clone)]
pub struct AudioTrack {
    pub track_number: u8,
    pub codec: AudioCodec,
    pub sample_rate: u32,
    pub channels: u8,
    pub language: String,
    pub stream_id: u8,
}

/// A subtitle stream of a title.
#[derive(Debug, Clone)]
pub struct SubtitleTrack {
    pub track_number: u8,
    pub language: String,
    pub stream_id: u8,
}

/// A title: its chapters and streams. Its duration is the sum of its
/// chapters' durations.
#[derive(Debug, Clone)]
pub struct DvdTitle {
    pub title_number: u16,
    pub chapters: Vec<DvdChapter>,
    pub audio_tracks: Vec<AudioTrack>,
    pub subtitle_tracks: Vec<SubtitleTrack>,
    pub sector_count: u64,
}

/// Summary of a video title set.
#[derive(Debug, Clone, Copy)]
pub struct VtsInfo {
    pub vts_number: u16,
    pub sector_count: u64,
    pub chapter_count: u16,
    pub audio_track_count: u8,
    pub subtitle_track_count: u8,
}

/// The coding of an audio stream.
#[derive(Debug, Clone, Copy, PartialEq, Eq, Structural)]
pub enum AudioCodec {
    Ac3,
    Dts,
    Lpcm,
    Mpeg1,
    Mpeg2,
    Sdds,
    Unknown(u8),
}

/// The codec an attribute byte names by its low three bits.
pub open spec fn codec_of(byte: u8) -> AudioCodec {
    let k = byte & 0x07;
    if k == 0 {
        AudioCodec::Ac3
    } else if k == 1 {
        AudioCodec::Dts
    } else if k == 2 {
        AudioCodec::Lpcm
    } else if k == 3 {
        AudioCodec::Mpeg1
    } else if k == 4 {
        AudioCodec::Mpeg2
    } else if k == 5 {
        AudioCodec::Sdds
    } else {
        AudioCodec::Unknown(byte)
    }
}

impl From<u8> for AudioCodec {
    fn from(byte: u8) -> (r: Self) {
        let k = byte & 0x07;
        if k == 0 {
            AudioCodec::Ac3
        } else if k == 1 {
            AudioCodec::Dts
        } else if k == 2 {
            AudioCodec::Lpcm
        } else if k == 3 {
            AudioCodec::Mpeg1
        } else if k == 4 {
            AudioCodec::Mpeg2
        } else if k == 5 {
            AudioCodec::Sdds
        } else {
            AudioCodec::Unknown(byte)
        }
    }
}

impl FromSpecImpl<u8> for AudioCodec {
    open spec fn obeys_from_spec() -> bool {
        true
    }

    open spec fn from_spec(byte: u8) -> AudioCodec {
        codec_of(byte)
    }
}

/// Value of a BCD byte: tens in the high nibble, units in the low one.
pub open spec fn bcd(b: u8) -> nat {
    ((b / 16) * 10 + b % 16) as nat
}

/// A BCD playback time `HH:MM:SS:FF` as frames of 1/75 s; 0 for fewer than
/// four bytes.
pub open spec fn bcd_frames(d: Seq<u8>) -> nat {
    if d.len() < 4 {
        0
    } else {
        ((bcd(d[0]) * 3600 + bcd(d[1]) * 60 + bcd(d[2])) * 75 + bcd(d[3])) as nat
    }
}

/// Whether a byte is an ASCII letter.
pub open spec fn ascii_alpha(b: u8) -> bool {
    (65 <= b <= 90) || (97 <= b <= 122)
}

/// The lower-case character of an ASCII letter.
pub open spec fn lower_letter(b: u8) -> char {
    if 65 <= b <= 90 {
        ((b + 32) as u8) as char
    } else {
        b as char
    }
}

/// The language code of a 4-byte field: its first two bytes in lower case
/// where both are ASCII letters, else `und`.
pub open spec fn language_of(d: Seq<u8>) -> Seq<char> {
    if d.len() >= 4 && ascii_alpha(d[0]) && ascii_alpha(d[1]) {
        seq![lower_letter(d[0]), lower_letter(d[1])]
    } else {
        "und"@
    }
}

/// The value of a BCD byte.
fn bcd_value(b: u8) -> (r: u64)
    ensures
        r == bcd(b),
{
    proof {
        assert(b >> 4 == b / 16) by (bit_vector);
        assert(b & 0x0F == b % 16) by (bit_vector);
    }
    ((b >> 4) as u64) * 10 + (b & 0x0F) as u64
}

/// The lower-case character of an ASCII letter.
fn lower_char(b: u8) -> (r: char)
    requires
        ascii_alpha(b),
    ensures
        r == lower_letter(b),
{
    if b >= 65 && b <= 90 {
        (b + 32) as char
    } else {
        b as char
    }
}

impl DvdParser {
    /// The parser.
    pub fn new() -> (r: Self) {
        DvdParser
    }

    /// A BCD playback time as frames of 1/75 s.
    pub fn parse_bcd_time(data: &[u8]) -> (r: u64)
        ensures
            r == bcd_frames(data@),
    {
        if data.len() < 4 {
            return 0;
        }
        let hours = bcd_value(data[0]);
        let minutes = bcd_value(data[1]);
        let seconds = bcd_value(data[2]);
        let frames = bcd_value(data[3]);
        (hours * 3600 + minutes * 60 + seconds) * 75 + frames
    }

    /// The language code of a 4-byte field.
    pub fn parse_language_code(data: &[u8]) -> (r: String)
        ensures
            r@ == language_of(data@),
    {
        if data.len() < 4 {
            return owned("und");
        }
        let a = data[0];
        let b = data[1];
        let alpha_a = (a >= 65 && a <= 90) || (a >= 97 && a <= 122);
        let alpha_b = (b >= 65 && b <= 90) || (b >= 97 && b <= 122);
        if alpha_a && alpha_b {
            let mut v: Vec<char> = Vec::new();
            v.push(lower_char(a));
            v.push(lower_char(b));
            proof {
                assert(v@ =~= seq![lower_letter(a), lower_letter(b)]);
            }
            string_of(v.as_slice())
        } else {
            owned("und")
        }
    }
}


/// An audio stream with its language taken as characters.
pub struct AudioTrackView {
    pub track_number: u8,
    pub codec: AudioCodec,
    pub sample_rate: u32,
    pub channels: u8,
    pub language: Seq<char>,
    pub stream_id: u8,
}

impl View for AudioTrack {
    type V = AudioTrackView;

    open spec fn view(&self) -> AudioTrackView {
        AudioTrackView {
            track_number: self.track_number,
            codec: self.codec,
            sample_rate: self.sample_rate,
            channels: self.channels,
            language: self.language@,
            stream_id: self.stream_id,
        }
    }
}

/// A subtitle stream with its language taken as characters.
pub struct SubtitleTrackView {
    pub track_number: u8,
    pub language: Seq<char>,
    pub stream_id: u8,
}

impl View for SubtitleTrack {
    type V = SubtitleTrackView;

    open spec fn view(&self) -> SubtitleTrackView {
        SubtitleTrackView { track_number: self.track_number, language: self.language@, stream_id: self.stream_id }
    }
}

/// The smaller of two numbers.
pub open spec fn min(a: int, b: int) -> int {
    if a < b {
        a
    } else {
        b
    }
}

/// How many 8-byte records starting at `base` fit in `len` bytes.
pub open spec fn records_fitting(len: int, base: int, size: int) -> int {
    if len >= base + size {
        (len - base) / size
    } else {
        0
    }
}

/// Number of audio streams declared (the low byte of the big-endian count
/// at 0x300).
pub open spec fn audio_count(d: Seq<u8>) -> u8 {
    d[0x301]
}

/// Number of subtitle streams declared (the low byte of the count at
/// 0x302).
pub open spec fn subtitle_count(d: Seq<u8>) -> u8 {
    d[0x303]
}

/// Audio stream `k`, whose attributes are the 8 bytes at `0x304 + 8k`.
pub open spec fn audio_view(d: Seq<u8>, k: int) -> AudioTrackView {
    let o = 0x304 + 8 * k;
    AudioTrackView {
        track_number: (k + 1) as u8,
        codec: codec_of(d[o]),
        sample_rate: if d[o + 2] % 16 == 1 {
            96000
        } else {
            48000
        },
        channels: (d[o + 2] / 16 + 1) as u8,
        language: language_of(d.subrange(o + 4, o + 8)),
        stream_id: d[o + 1] % 8,
    }
}

/// The audio streams read: at most 8 of those declared, as far as their
/// attributes lie in the data.
pub open spec fn audio_views(d: Seq<u8>) -> Seq<AudioTrackView> {
    Seq::new(
        min(min(audio_count(d) as int, 8), records_fitting(d.len() as int, 0x304, 8)) as nat,
        |k: int| audio_view(d, k),
    )
}

/// Where the subtitle attributes start: after all declared audio streams.
pub open spec fn subtitle_base(d: Seq<u8>) -> int {
    0x304 + 8 * audio_count(d)
}

/// Subtitle stream `k`, whose attributes are the 8 bytes after the audio
/// ones at `8k`.
pub open spec fn subtitle_view(d: Seq<u8>, k: int) -> SubtitleTrackView {
    let o = subtitle_base(d) + 8 * k;
    SubtitleTrackView {
        track_number: (k + 1) as u8,
        language: language_of(d.subrange(o + 2, o + 6)),
        stream_id: d[o] % 32,
    }
}

/// The subtitle streams read: at most 32 of those declared, as far as
/// their attributes lie in the data.
pub open spec fn subtitle_views(d: Seq<u8>) -> Seq<SubtitleTrackView> {
    Seq::new(
        min(
            min(subtitle_count(d) as int, 32),
            records_fitting(d.len() as int, subtitle_base(d), 8),
        ) as nat,
        |k: int| subtitle_view(d, k),
    )
}

/// Views of audio streams.
pub open spec fn audio_track_views(v: Seq<AudioTrack>) -> Seq<AudioTrackView> {
    v.map_values(|t: AudioTrack| t@)
}

/// Views of subtitle streams.
pub open spec fn subtitle_track_views(v: Seq<SubtitleTrack>) -> Seq<SubtitleTrackView> {
    v.map_values(|t: SubtitleTrack| t@)
}

/// Whether a VTS IFO can be parsed without reading beyond its end: it
/// holds the number and the last sector (up to 0x24) and, where it holds a
/// management table, also the stream counts.
pub open spec fn vts_readable(d: Seq<u8>) -> bool {
    d.len() >= 0x24 && !(0x200 <= d.len() < 0x304)
}

impl DvdParser {
    /// The audio streams of a VTS IFO.
    fn parse_audio_tracks(data: &[u8]) -> (r: Vec<AudioTrack>)
        requires
            data@.len() >= 0x304,
        ensures
            audio_track_views(r@) == audio_views(data@),
    {
        let ghost d = data@;
        let count = data[0x301];
        let limit: u8 = if count < 8 {
            count
        } else {
            8
        };
        let len = data.len();
        let mut tracks: Vec<AudioTrack> = Vec::new();
        let mut i: u8 = 0;
        while i < limit
            invariant
                d == data@,
                len == d.len(),
                len >= 0x304,
                limit == min(audio_count(d) as int, 8),
                i <= limit,
                audio_track_views(tracks@) == Seq::new(
                    min(i as int, records_fitting(len as int, 0x304, 8)) as nat,
                    |k: int| audio_view(d, k),
                ),
            decreases limit - i,
        {
            let offset = 0x304 + i as usize * 8;
            let ghost before = audio_track_views(tracks@);
            if offset + 8 <= len {
                let codec_byte = data[offset];
                let sid = data[offset + 1];
                let attr = data[offset + 2];
                proof {
                    assert(attr & 0x07 == attr % 8) by (bit_vector);
                    assert(sid & 0x07 == sid % 8) by (bit_vector);
                    assert(attr & 0x0F == attr % 16) by (bit_vector);
                    assert((attr >> 4) & 0x0F == attr / 16) by (bit_vector);
                    assert(records_fitting(len as int, 0x304, 8) > i) by (nonlinear_arith)
                        requires
                            offset + 8 <= len,
                            offset == 0x304 + i * 8,
                            len >= 0x304,
                    ;
                }
                let stream_id = sid & 0x07;
                let channels = ((attr >> 4) & 0x0F) + 1;
                let sample_rate: u32 = if attr & 0x0F == 1 {
                    96000
                } else {
                    48000
                };
                let language = Self::parse_language_code(
                    vstd::slice::slice_subrange(data, offset + 4, offset + 8),
                );
                let codec = AudioCodec::from(codec_byte);
                proof {
                    let o = 0x304 + 8 * i;
                    assert(o == offset);
                    assert(language@ == language_of(d.subrange(o + 4, o + 8)));
                    assert(codec == codec_of(d[o]));
                }
                tracks.push(
                    AudioTrack {
                        track_number: i + 1,
                        codec,
                        sample_rate,
                        channels,
                        language,
                        stream_id,
                    },
                );
                proof {
                    assert(tracks@.last()@ == audio_view(d, i as int));
                    assert(audio_track_views(tracks@) =~= before.push(audio_view(d, i as int)));
                    assert(audio_track_views(tracks@) =~= Seq::new(
                        min(i + 1, records_fitting(len as int, 0x304, 8)) as nat,
                        |k: int| audio_view(d, k),
                    ));
                }
            } else {
                proof {
                    assert(records_fitting(len as int, 0x304, 8) <= i) by (nonlinear_arith)
                        requires
                            offset + 8 > len,
                            offset == 0x304 + i * 8,
                            len >= 0x304,
                    ;
                    assert(audio_track_views(tracks@) =~= Seq::new(
                        min(i + 1, records_fitting(len as int, 0x304, 8)) as nat,
                        |k: int| audio_view(d, k),
                    ));
                }
            }
            i = i + 1;
        }
        tracks
    }
}


/// A record of `size` bytes at `base + size * i` lies within `len` bytes
/// exactly when `i` is below the number of records fitting.
proof fn lemma_fits(len: int, base: int, size: int, i: int)
    requires
        size > 0,
        i >= 0,
        base >= 0,
    ensures
        (base + size * i + size <= len) <==> (i < records_fitting(len, base, size)),
{
    if len >= base + size {
        let q = (len - base) / size;
        assert(size * q <= len - base && len - base < size * q + size) by (nonlinear_arith)
            requires
                size > 0,
                q == (len - base) / size,
                len - base >= 0,
        ;
        if base + size * i + size <= len {
            assert(i < q) by (nonlinear_arith)
                requires
                    size > 0,
                    base + size * i + size <= len,
                    len - base < size * q + size,
            ;
        }
        if i < q {
            assert(size * i + size <= size * q) by (nonlinear_arith)
                requires
                    size > 0,
                    i < q,
            ;
        }
    } else {
        assert(size * i >= 0) by (nonlinear_arith)
            requires
                size > 0,
                i >= 0,
        ;
    }
}

impl DvdParser {
    /// The subtitle streams of a VTS IFO.
    fn parse_subtitle_tracks(data: &[u8]) -> (r: Vec<SubtitleTrack>)
        requires
            data@.len() >= 0x304,
        ensures
            subtitle_track_views(r@) == subtitle_views(data@),
    {
        let ghost d = data@;
        let count = data[0x303];
        let limit: u8 = if count < 32 {
            count
        } else {
            32
        };
        let base: usize = 0x304 + data[0x301] as usize * 8;
        let len = data.len();
        let mut tracks: Vec<SubtitleTrack> = Vec::new();
        let mut i: u8 = 0;
        while i < limit
            invariant
                d == data@,
                len == d.len(),
                len >= 0x304,
                base == subtitle_base(d),
                base <= 0x304 + 255 * 8,
                limit == min(subtitle_count(d) as int, 32),
                i <= limit,
                subtitle_track_views(tracks@) == Seq::new(
                    min(i as int, records_fitting(len as int, base as int, 8)) as nat,
                    |k: int| subtitle_view(d, k),
                ),
            decreases limit - i,
        {
            let offset = base + i as usize * 8;
            let ghost before = subtitle_track_views(tracks@);
            proof {
                lemma_fits(len as int, base as int, 8, i as int);
            }
            if offset + 8 <= len {
                let b0 = data[offset];
                proof {
                    assert(b0 & 0x1F == b0 % 32) by (bit_vector);
                }
                let stream_id = b0 & 0x1F;
                let language = Self::parse_language_code(
                    vstd::slice::slice_subrange(data, offset + 2, offset + 6),
                );
                tracks.push(SubtitleTrack { track_number: i + 1, language, stream_id });
                proof {
                    assert(tracks@.last()@ == subtitle_view(d, i as int));
                    assert(subtitle_track_views(tracks@) =~= before.push(subtitle_view(d, i as int)));
                    assert(subtitle_track_views(tracks@) =~= Seq::new(
                        min(i + 1, records_fitting(len as int, base as int, 8)) as nat,
                        |k: int| subtitle_view(d, k),
                    ));
                }
            } else {
                proof {
                    assert(subtitle_track_views(tracks@) =~= Seq::new(
                        min(i + 1, records_fitting(len as int, base as int, 8)) as nat,
                        |k: int| subtitle_view(d, k),
                    ));
                }
            }
            i = i + 1;
        }
        tracks
    }
}

/// Number of program chains declared (low 16 bits of the category at
/// 0x300).
pub open spec fn pgc_count(d: Seq<u8>) -> int {
    be16_at(d, 0x302)
}

/// Number of program chain entries read: at most 99 of those declared, as
/// far as their 8-byte entries from 0x1E8 lie in the data.
pub open spec fn pgc_limit(d: Seq<u8>) -> int {
    min(min(pgc_count(d), 99), records_fitting(d.len() as int, 0x1E8, 8))
}

/// The bytes of program chain `i`, where its entry names a non-empty chain
/// lying within the data.
pub open spec fn pgc_bytes(d: Seq<u8>, i: int) -> Option<Seq<u8>> {
    let off = 0x1E8 + 8 * i;
    let sector = be32_at(d, off);
    let length = be16_at(d, off + 4);
    if sector == 0 || length == 0 || sector * 2048 + length > d.len() {
        None
    } else {
        Some(d.subrange(sector * 2048, sector * 2048 + length))
    }
}

/// Number of cells read from a program chain: those declared, as far as
/// their 4-byte start sectors from 0xEC lie in the chain.
pub open spec fn cell_limit(p: Seq<u8>) -> int {
    min(p[3] as int, records_fitting(p.len() as int, 0xEC, 4))
}

/// The chapter of cell `j` of program chain `p`: it ends where the next
/// cell starts, or 1000 sectors after its start.
pub open spec fn chapter_of(p: Seq<u8>, j: int) -> DvdChapter {
    let start = be32_at(p, 0xEC + 4 * j);
    DvdChapter {
        chapter_number: (j + 1) as u16,
        start_cell: (j + 1) as u8,
        end_cell: (j + 1) as u8,
        time_frames: bcd_frames(p.subrange(4, 8)) as u64,
        programs: if p[2] == 0 {
            1
        } else {
            p[2] as u16
        },
        start_sector: start as u64,
        end_sector: if j + 1 < p[3] && 0xEC + 4 * j + 8 <= p.len() {
            be32_at(p, 0xEC + 4 * (j + 1)) as u64
        } else {
            (start + 1000) as u64
        },
    }
}

/// The chapters of program chain `i`.
pub open spec fn pgc_chapters(d: Seq<u8>, i: int) -> Seq<DvdChapter> {
    match pgc_bytes(d, i) {
        None => seq![],
        Some(p) => if p.len() < 0x0E {
            seq![]
        } else {
            Seq::new(cell_limit(p) as nat, |j: int| chapter_of(p, j))
        },
    }
}

/// The chapters of the first `n` program chains, in order.
pub open spec fn all_chapters(d: Seq<u8>, n: int) -> Seq<DvdChapter>
    decreases n,
{
    if n <= 0 {
        seq![]
    } else {
        all_chapters(d, n - 1) + pgc_chapters(d, n - 1)
    }
}

impl DvdParser {
    /// The chapters of one program chain's bytes `p` (at least 14 bytes).
    fn chain_chapters(data: &[u8], start: usize, length: usize, chapters: &mut Vec<DvdChapter>)
        requires
            start + length <= data@.len(),
            length >= 0x0E,
        ensures
            final(chapters)@ == old(chapters)@ + Seq::new(
                cell_limit(data@.subrange(start as int, start + length)) as nat,
                |j: int| chapter_of(data@.subrange(start as int, start + length), j),
            ),
    {
        let ghost p = data@.subrange(start as int, start + length);
        let ghost prefix = chapters@;
        let dl = data.len();
        let program_count = data[start + 2];
        let cell_count = data[start + 3];
        let time = Self::parse_bcd_time(vstd::slice::slice_subrange(data, start + 4, start + 8));
        proof {
            assert(data@.subrange(start + 4, start + 8) =~= p.subrange(4, 8));
        }
        let programs: u16 = if program_count == 0 {
            1
        } else {
            program_count as u16
        };
        let mut j: u8 = 0;
        proof {
            lemma_fits(length as int, 0xEC, 4, 0);
        }
        while j < cell_count && 0xEC + (j as usize) * 4 + 4 <= length
            invariant
                p == data@.subrange(start as int, start + length),
                start + length <= data@.len(),
                dl == data@.len(),
                cell_count == p[3],
                programs == (if p[2] == 0 {
                    1
                } else {
                    p[2] as u16
                }),
                time == bcd_frames(p.subrange(4, 8)),
                j <= cell_limit(p),
                chapters@ == prefix + Seq::new(j as nat, |k: int| chapter_of(p, k)),
            decreases cell_count - j,
        {
            let cell_offset = 0xEC + (j as usize) * 4;
            proof {
                lemma_fits(length as int, 0xEC, 4, j as int);
                lemma_fits(length as int, 0xEC, 4, j + 1);
            }
            let start_sector = read_be_u32(data, start + cell_offset) as u64;
            let end_sector: u64 = if j + 1 < cell_count {
                if cell_offset + 8 <= length {
                    read_be_u32(data, start + cell_offset + 4) as u64
                } else {
                    start_sector + 1000
                }
            } else {
                start_sector + 1000
            };
            let ghost before = chapters@;
            chapters.push(
                DvdChapter {
                    chapter_number: j as u16 + 1,
                    start_cell: j + 1,
                    end_cell: j + 1,
                    time_frames: time,
                    programs,
                    start_sector,
                    end_sector,
                },
            );
            proof {
                assert(be32_at(p, 0xEC + 4 * j) == be32_at(data@, start + cell_offset));
                assert(j + 1 < p[3] && 0xEC + 4 * j + 8 <= p.len() ==> be32_at(
                    p,
                    0xEC + 4 * (j + 1),
                ) == be32_at(data@, start + cell_offset + 4));
                assert(chapters@.last() == chapter_of(p, j as int));
                assert(chapters@ =~= prefix + Seq::new((j + 1) as nat, |k: int| chapter_of(p, k)));
            }
            j = j + 1;
        }
        proof {
            lemma_fits(length as int, 0xEC, 4, j as int);
            assert(j == cell_limit(p));
        }
    }

    /// The chapters of all program chains of a VTS IFO.
    fn parse_chapters(data: &[u8]) -> (r: Vec<DvdChapter>)
        requires
            data@.len() >= 0x304,
        ensures
            r@ == all_chapters(data@, pgc_limit(data@)),
    {
        let ghost d = data@;
        let len = data.len();
        let count = read_be_u16(data, 0x302);
        let limit: u16 = if count < 99 {
            count
        } else {
            99
        };
        let mut chapters: Vec<DvdChapter> = Vec::new();
        let mut i: u16 = 0;
        proof {
            lemma_fits(len as int, 0x1E8, 8, 0);
        }
        while i < limit && 0x1E8 + (i as usize) * 8 + 8 <= len
            invariant
                d == data@,
                len == d.len(),
                len >= 0x304,
                limit == min(pgc_count(d), 99),
                i <= pgc_limit(d),
                chapters@ == all_chapters(d, i as int),
            decreases limit - i,
        {
            let offset = 0x1E8 + (i as usize) * 8;
            proof {
                lemma_fits(len as int, 0x1E8, 8, i as int);
                lemma_fits(len as int, 0x1E8, 8, i + 1);
            }
            let pgc_sector = read_be_u32(data, offset);
            let pgc_length = read_be_u16(data, offset + 4);
            let ghost before = chapters@;
            if pgc_sector != 0 && pgc_length != 0 {
                let pdo: u64 = pgc_sector as u64 * 2048;
                if pdo + (pgc_length as u64) <= len as u64 {
                    let start = pdo as usize;
                    let length = pgc_length as usize;
                    if length >= 0x0E {
                        Self::chain_chapters(data, start, length, &mut chapters);
                    }
                }
            }
            proof {
                assert(chapters@ =~= before + pgc_chapters(d, i as int));
            }
            i = i + 1;
        }
        proof {
            lemma_fits(len as int, 0x1E8, 8, i as int);
            assert(i == pgc_limit(d));
        }
        chapters
    }
}

/// Whether the title `t` is what a VTS IFO `d` describes.
pub open spec fn vts_title(d: Seq<u8>, t: DvdTitle) -> bool {
    &&& t.title_number == be16_at(d, 0)
    &&& t.sector_count == be32_at(d, 0x20)
    &&& t.chapters@ == all_chapters(d, pgc_limit(d))
    &&& audio_track_views(t.audio_tracks@) == audio_views(d)
    &&& subtitle_track_views(t.subtitle_tracks@) == subtitle_views(d)
}

/// An audio stream's sample rate comes from the low four bits of its third
/// attribute byte: 96 kHz exactly when they are 1, 48 kHz otherwise (0
/// included). Every stream of a parsed title set has one of the two rates,
/// and two streams whose third bytes agree in their low four bits have the
/// same rate.
pub proof fn law_audio_sample_rate(d: Seq<u8>, t: DvdTitle)
    requires
        vts_title(d, t),
    ensures
        forall|k: int|
            0 <= k < t.audio_tracks@.len() ==> {
                let b = d[0x304 + 8 * k + 2];
                &&& (#[trigger] t.audio_tracks@[k]).sample_rate == 96000 <==> b - (b / 16) * 16 == 1
                &&& t.audio_tracks@[k].sample_rate == 48000 <==> b - (b / 16) * 16 != 1
            },
{
    assert forall|k: int| 0 <= k < t.audio_tracks@.len() implies {
        let b = d[0x304 + 8 * k + 2];
        &&& (#[trigger] t.audio_tracks@[k]).sample_rate == 96000 <==> b - (b / 16) * 16 == 1
        &&& t.audio_tracks@[k].sample_rate == 48000 <==> b - (b / 16) * 16 != 1
    } by {
        assert(audio_track_views(t.audio_tracks@).len() == t.audio_tracks@.len());
        assert(audio_track_views(t.audio_tracks@)[k] == t.audio_tracks@[k]@);
        assert(k < records_fitting(d.len() as int, 0x304, 8));
        assert(audio_views(d)[k] == audio_view(d, k));
        let b = d[0x304 + 8 * k + 2];
        assert(b % 16 == b - (b / 16) * 16);
    }
}

/// The audio streams of a parsed title set are those declared by the low
/// byte of the count at 0x300, at most eight and as far as their 8-byte
/// attribute records from 0x304 lie in the data; stream `k` is numbered
/// `k + 1`, has the high four bits of its third byte plus one as its channel
/// count and the low three bits of its second byte as its stream id.
pub proof fn law_audio_stream_layout(d: Seq<u8>, t: DvdTitle)
    requires
        vts_title(d, t),
        d.len() >= 0x304,
    ensures
        t.audio_tracks@.len() == min(min(d[0x301] as int, 8), (d.len() - 0x304) / 8),
        forall|k: int|
            0 <= k < t.audio_tracks@.len() ==> {
                let o = 0x304 + 8 * k;
                &&& o + 8 <= d.len()
                &&& (#[trigger] t.audio_tracks@[k]).track_number == k + 1
                &&& t.audio_tracks@[k].channels == d[o + 2] / 16 + 1
                &&& t.audio_tracks@[k].stream_id == d[o + 1] - (d[o + 1] / 8) * 8
            },
{
    assert(audio_track_views(t.audio_tracks@).len() == t.audio_tracks@.len());
    assert forall|k: int| 0 <= k < t.audio_tracks@.len() implies {
        let o = 0x304 + 8 * k;
        &&& o + 8 <= d.len()
        &&& (#[trigger] t.audio_tracks@[k]).track_number == k + 1
        &&& t.audio_tracks@[k].channels == d[o + 2] / 16 + 1
        &&& t.audio_tracks@[k].stream_id == d[o + 1] - (d[o + 1] / 8) * 8
    } by {
        let o = 0x304 + 8 * k;
        assert(audio_track_views(t.audio_tracks@)[k] == t.audio_tracks@[k]@);
        assert(k < records_fitting(d.len() as int, 0x304, 8));
        assert(o + 8 <= d.len()) by (nonlinear_arith)
            requires
                o == 0x304 + 8 * k,
                k < (d.len() - 0x304) / 8,
                d.len() >= 0x304 + 8,
        ;
        assert(audio_views(d)[k] == audio_view(d, k));
        let b = d[o + 1];
        assert(b % 8 == b - (b / 8) * 8);
    }
}

impl DvdParser {
    /// Parses a VTS IFO: its number and size, its audio and subtitle
    /// streams and the chapters of its program chains.
    pub fn parse_vts(&self, data: &[u8]) -> (r: Result<DvdTitle, DiskRipperError>)
        requires
            vts_readable(data@),
        ensures
            data@.len() < 0x200 ==> (r matches Err(DiskRipperError::InvalidPath(m)) && m@
                == "VTS_MAT too short"@),
            data@.len() >= 0x200 ==> (r matches Ok(t) && vts_title(data@, t)),
    {
        let vts_number = read_be_u16(data, 0);
        let sector_count = read_be_u32(data, 0x20) as u64;
        if data.len() < 0x200 {
            return Err(DiskRipperError::InvalidPath(owned("VTS_MAT too short")));
        }
        let audio_tracks = Self::parse_audio_tracks(data);
        let subtitle_tracks = Self::parse_subtitle_tracks(data);
        let chapters = Self::parse_chapters(data);
        Ok(DvdTitle { title_number: vts_number, chapters, audio_tracks, subtitle_tracks, sector_count })
    }
}


/// Number of titles a VMG IFO declares.
pub open spec fn vmg_title_count(d: Seq<u8>) -> int {
    be16_at(d, 0xE4)
}

/// Whether the title table of a VMG IFO is read: the data extends beyond
/// the table's declared size.
pub open spec fn vmg_table_present(d: Seq<u8>) -> bool {
    d.len() > 0xF00 + vmg_title_count(d) * 4
}

/// The number of titles read from a VMG IFO.
pub open spec fn vmg_titles_read(d: Seq<u8>) -> int {
    if vmg_table_present(d) {
        min(vmg_title_count(d), 99)
    } else {
        0
    }
}

/// Whether a VMG IFO can be parsed without reading beyond its end: the
/// last entry read (each entry is followed by the next one's first four
/// bytes) lies within the data.
pub open spec fn vmg_readable(d: Seq<u8>) -> bool {
    &&& d.len() >= 0x100
    &&& vmg_titles_read(d) > 0 ==> 0xF00 + 4 * (vmg_titles_read(d) - 1) + 8 <= d.len()
}

/// Whether `v` are the titles of a VMG IFO: one per entry read, numbered
/// by the entry, with nothing else known.
pub open spec fn vmg_titles(d: Seq<u8>, v: Seq<DvdTitle>) -> bool {
    &&& v.len() == vmg_titles_read(d)
    &&& forall|i: int|
        0 <= i < v.len() ==> {
            &&& #[trigger] v[i].title_number == be16_at(d, 0xF00 + 4 * i)
            &&& v[i].chapters@.len() == 0
            &&& v[i].audio_tracks@.len() == 0
            &&& v[i].subtitle_tracks@.len() == 0
            &&& v[i].sector_count == 0
        }
}

/// Whether the data starts with `DVDVIDEO-` followed by the three bytes
/// `a`, `b`, `c`.
pub open spec fn has_ident(d: Seq<u8>, a: u8, b: u8, c: u8) -> bool {
    d.len() >= 12 && d.subrange(0, 12) == seq![
        0x44u8,
        0x56,
        0x44,
        0x56,
        0x49,
        0x44,
        0x45,
        0x4F,
        0x2D,
        a,
        b,
        c,
    ]
}

/// Whether the data is a VTS IFO (`DVDVIDEO-VTS`).
pub open spec fn is_vts(d: Seq<u8>) -> bool {
    has_ident(d, 0x56, 0x54, 0x53)
}

/// Whether the data is a VMG IFO (`DVDVIDEO-VMG`).
pub open spec fn is_vmg(d: Seq<u8>) -> bool {
    has_ident(d, 0x56, 0x4D, 0x47)
}

/// Whether the data starts with `DVDVIDEO-` and the three given bytes.
fn check_ident(data: &[u8], a: u8, b: u8, c: u8) -> (r: bool)
    requires
        data@.len() >= 12,
    ensures
        r == has_ident(data@, a, b, c),
{
    let r = data[0] == 0x44 && data[1] == 0x56 && data[2] == 0x44 && data[3] == 0x56 && data[4]
        == 0x49 && data[5] == 0x44 && data[6] == 0x45 && data[7] == 0x4F && data[8] == 0x2D
        && data[9] == a && data[10] == b && data[11] == c;
    proof {
        let lit = seq![0x44u8, 0x56, 0x44, 0x56, 0x49, 0x44, 0x45, 0x4F, 0x2D, a, b, c];
        if r {
            assert(data@.subrange(0, 12) =~= lit);
        } else {
            if data@.subrange(0, 12) == lit {
                assert(data@[0] == data@.subrange(0, 12)[0]);
                assert(data@[11] == data@.subrange(0, 12)[11]);
                assert(false) by {
                    assert forall|k: int| 0 <= k < 12 implies data@[k] == lit[k] by {
                        assert(data@[k] == data@.subrange(0, 12)[k]);
                    }
                }
            }
        }
    }
    r
}

impl DvdParser {
    /// Parses a VMG IFO: one title per entry of its title table.
    #[verifier::spinoff_prover]
    fn parse_vmg(&self, data: &[u8]) -> (r: Vec<DvdTitle>)
        requires
            vmg_readable(data@),
        ensures
            vmg_titles(data@, r@),
    {
        let ghost d = data@;
        let title_count = read_be_u16(data, 0xE4) as usize;
        let mut titles: Vec<DvdTitle> = Vec::new();
        if data.len() > 0xF00 + title_count * 4 {
            let limit = if title_count < 99 {
                title_count
            } else {
                99
            };
            let mut i: usize = 0;
            while i < limit
                invariant
                    d == data@,
                    limit == vmg_titles_read(d),
                    vmg_readable(d),
                    i <= limit,
                    titles@.len() == i,
                    forall|k: int|
                        0 <= k < i ==> {
                            &&& #[trigger] titles@[k].title_number == be16_at(d, 0xF00 + 4 * k)
                            &&& titles@[k].chapters@.len() == 0
                            &&& titles@[k].audio_tracks@.len() == 0
                            &&& titles@[k].subtitle_tracks@.len() == 0
                            &&& titles@[k].sector_count == 0
                        },
                decreases limit - i,
            {
                let offset = 0xF00 + i * 4;
                let vts_number = read_be_u16(data, offset);
                titles.push(
                    DvdTitle {
                        title_number: vts_number,
                        chapters: Vec::new(),
                        audio_tracks: Vec::new(),
                        subtitle_tracks: Vec::new(),
                        sector_count: 0,
                    },
                );
                i = i + 1;
            }
            proof {
                assert(titles@.len() == vmg_titles_read(d));
                assert(vmg_titles(d, titles@));
            }
        } else {
            proof {
                assert(!vmg_table_present(d));
                assert(titles@.len() == vmg_titles_read(d));
            }
        }
        titles
    }

    /// Parses the bytes of an IFO file: a VMG gives its title table, a
    /// VTS its one title.
    pub fn parse_ifo_data(&self, data: &[u8]) -> (r: Result<Vec<DvdTitle>, DiskRipperError>)
        requires
            is_vmg(data@) ==> vmg_readable(data@),
            is_vts(data@) ==> vts_readable(data@),
        ensures
            data@.len() < 0x100 ==> (r matches Err(DiskRipperError::InvalidPath(m)) && m@
                == "IFO file too short"@),
            data@.len() >= 0x100 && !is_vts(data@) && !is_vmg(data@) ==> (r matches Err(
                DiskRipperError::InvalidPath(m),
            ) && m@ == "Not a valid DVD IFO file"@),
            data@.len() >= 0x100 && is_vmg(data@) ==> (r matches Ok(v) && vmg_titles(data@, v@)),
            data@.len() >= 0x100 && is_vts(data@) && data@.len() < 0x200 ==> (r matches Err(
                DiskRipperError::InvalidPath(m),
            ) && m@ == "VTS_MAT too short"@),
            data@.len() >= 0x200 && is_vts(data@) ==> (r matches Ok(v) && v@.len() == 1
                && vts_title(data@, v@[0])),
    {
        if data.len() < 0x100 {
            return Err(DiskRipperError::InvalidPath(owned("IFO file too short")));
        }
        let vts = check_ident(data, 0x56, 0x54, 0x53);
        let vmg = check_ident(data, 0x56, 0x4D, 0x47);
        if !vts && !vmg {
            return Err(DiskRipperError::InvalidPath(owned("Not a valid DVD IFO file")));
        }
        if vmg {
            Ok(self.parse_vmg(data))
        } else {
            let title = self.parse_vts(data)?;
            let mut v: Vec<DvdTitle> = Vec::new();
            v.push(title);
            Ok(v)
        }
    }

    /// Summary of a VTS IFO's bytes: number, size, chapter and stream
    /// counts.
    pub fn vts_info_from(&self, data: &[u8]) -> (r: Result<VtsInfo, DiskRipperError>)
        ensures
            data@.len() < 0x100 ==> (r matches Err(DiskRipperError::InvalidPath(m)) && m@
                == "IFO file too short"@),
            0x100 <= data@.len() < 0x304 ==> (r matches Err(DiskRipperError::InvalidPath(m)) && m@
                == "VTS_MAT too short"@),
            data@.len() >= 0x304 ==> (r matches Ok(v) && v.vts_number == be16_at(data@, 0)
                && v.sector_count == be32_at(data@, 0x20) && v.chapter_count == pgc_count(data@)
                && v.audio_track_count == audio_count(data@) && v.subtitle_track_count
                == subtitle_count(data@)),
    {
        if data.len() < 0x100 {
            return Err(DiskRipperError::InvalidPath(owned("IFO file too short")));
        }
        let vts_number = read_be_u16(data, 0);
        let sector_count = read_be_u32(data, 0x20) as u64;
        if data.len() < 0x304 {
            return Err(DiskRipperError::InvalidPath(owned("VTS_MAT too short")));
        }
        let audio_track_count = data[0x301];
        let subtitle_track_count = data[0x303];
        let chapter_count = read_be_u16(data, 0x302);
        Ok(VtsInfo { vts_number, sector_count, chapter_count, audio_track_count, subtitle_track_count })
    }
}

} // verus!
