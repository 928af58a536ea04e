//! Audio CD (CD-DA) reading: track tables, sector arithmetic, the check of
//! an audio sector and the WAV header.
use vstd::prelude::*;
use crate::bytes::{le16, le32};
use crate::numtext::{parse_unsigned, split_whitespace, unsigned_value, views_of, words};
use crate::text::{char_vecs, chars_of, contains_chars, find_chars_from, find_from, has_substr, lemma_find_from, lines_of, lines_vec, split_chars, split_on, sub_chars, trim_end_char, trim_end_char_vec, trim_ws, trim_ws_vec};

verus! {

/// CD-DA sector size: 2352 bytes.
pub const CD_DA_SECTOR_SIZE: u32 = 2352;

/// CD-DA sectors per second.
pub const CD_DA_SECTORS_PER_SECOND: u32 = 75;

/// CD-DA bytes per sample (16-bit).
pub const CD_DA_BYTES_PER_SAMPLE: u32 = 2;

/// CD-DA channels (stereo).
pub const CD_DA_CHANNELS: u32 = 2;

/// CD-DA sample rate in Hz.
pub const CD_DA_SAMPLE_RATE: u32 = 44100;

/// A track from the table of contents. Its duration is kept as a number of
/// sectors, `duration_sectors`; in seconds it is that divided by
/// [`CD_DA_SECTORS_PER_SECOND`].
#[derive(Debug, Clone, Copy)]
pub struct TrackInfo {
    pub track_number: u8,
    pub start_sector: u64,
    pub end_sector: u64,
    pub duration_sectors: u64,
    pub is_audio: bool,
}

impl TrackInfo {
    /// Number of sectors of the track, both ends included.
    pub fn sector_count(&self) -> (r: u64)
        requires
            self.start_sector <= self.end_sector,
            self.end_sector - self.start_sector < u64::MAX,
        ensures
            r == self.end_sector - self.start_sector + 1,
    {
        self.end_sector - self.start_sector + 1
    }
}

/// Audio CD reader: the drive, its size in sectors, whether reads are
/// checked for jitter, and the table of contents once read.
pub struct AudioCdReader {
    drive_path: String,
    total_sectors: u64,
    jitter_correction: bool,
    toc: Option<Vec<TrackInfo>>,
}

/// The number of the first `n` bytes of `s` that are not zero.
pub open spec fn nonzero_count(s: Seq<u8>, n: int) -> int
    decreases n,
{
    if n <= 0 {
        0
    } else {
        nonzero_count(s, n - 1) + if s[n - 1] != 0 {
            1int
        } else {
            0
        }
    }
}

/// Whether a sector looks like real audio: a full sector whose first 100
/// bytes are not all equal and hold more than 10 non-zero bytes.
pub open spec fn plausible_audio(s: Seq<u8>) -> bool {
    &&& s.len() >= 2352
    &&& exists|i: int| 0 <= i < 100 && #[trigger] s[i] != s[0]
    &&& nonzero_count(s, 100) > 10
}

/// `(hours, minutes, seconds)` of a number of sectors, whole seconds.
pub open spec fn duration_of(sectors: u64) -> (u32, u32, u32) {
    let t = sectors / 75;
    ((t / 3600) as u32, ((t % 3600) / 60) as u32, (t % 60) as u32)
}

/// The single track that stands for a whole disc of `total` sectors.
pub open spec fn whole_disc_track(total: u64) -> TrackInfo {
    TrackInfo {
        track_number: 1,
        start_sector: 0,
        end_sector: (total - 1) as u64,
        duration_sectors: total,
        is_audio: true,
    }
}

impl AudioCdReader {
    /// The drive path.
    pub closed spec fn drive(&self) -> Seq<char> {
        self.drive_path@
    }

    /// The disc size in sectors.
    pub closed spec fn sectors(&self) -> u64 {
        self.total_sectors
    }

    /// Whether reads are checked for jitter.
    pub closed spec fn checks_jitter(&self) -> bool {
        self.jitter_correction
    }

    /// The table of contents read so far.
    pub closed spec fn cached_toc(&self) -> Option<Seq<TrackInfo>> {
        match self.toc {
            Some(v) => Some(v@),
            None => None,
        }
    }

    /// A reader of `drive_path` with `total_sectors` sectors, checking for
    /// jitter, no table of contents read.
    pub fn new(drive_path: String, total_sectors: u64) -> (r: Self)
        ensures
            r.drive() == drive_path@,
            r.sectors() == total_sectors,
            r.checks_jitter(),
            r.cached_toc() is None,
    {
        AudioCdReader { drive_path, total_sectors, jitter_correction: true, toc: None }
    }

    /// The reader with jitter checking set to `enabled`.
    pub fn with_jitter_correction(self, enabled: bool) -> (r: Self)
        ensures
            r.drive() == self.drive(),
            r.sectors() == self.sectors(),
            r.checks_jitter() == enabled,
            r.cached_toc() == self.cached_toc(),
    {
        let mut s = self;
        s.jitter_correction = enabled;
        s
    }

    /// The drive path.
    pub fn drive_path(&self) -> (r: &str)
        ensures
            r@ == self.drive(),
    {
        self.drive_path.as_str()
    }

    /// Whether reads are checked for jitter.
    pub fn jitter_correction(&self) -> (r: bool)
        ensures
            r == self.checks_jitter(),
    {
        self.jitter_correction
    }

    /// Whether a sector looks like real audio rather than silence or a
    /// failed read.
    pub fn verify_audio_sector(data: &[u8]) -> (r: bool)
        ensures
            r == plausible_audio(data@),
    {
        if data.len() < CD_DA_SECTOR_SIZE as usize {
            return false;
        }
        let first = data[0];
        let mut all_same = true;
        let mut non_zero_count: u32 = 0;
        let mut i: usize = 0;
        while i < 100
            invariant
                i <= 100,
                data@.len() >= 2352,
                first == data@[0],
                all_same == forall|j: int| 0 <= j < i ==> #[trigger] data@[j] == data@[0],
                non_zero_count == nonzero_count(data@, i as int),
                non_zero_count <= i,
            decreases 100 - i,
        {
            if data[i] != first {
                all_same = false;
            }
            if data[i] != 0 {
                non_zero_count = non_zero_count + 1;
            }
            i = i + 1;
        }
        !all_same && non_zero_count > 10
    }

    /// The table of contents when nothing better is known: one audio track
    /// over the whole disc.
    pub fn parse_toc_fallback(&self) -> (r: Vec<TrackInfo>)
        requires
            self.sectors() > 0,
        ensures
            r@ == seq![whole_disc_track(self.sectors())],
    {
        let mut v: Vec<TrackInfo> = Vec::new();
        v.push(
            TrackInfo {
                track_number: 1,
                start_sector: 0,
                end_sector: self.total_sectors - 1,
                duration_sectors: self.total_sectors,
                is_audio: true,
            },
        );
        proof {
            assert(v@ =~= seq![whole_disc_track(self.sectors())]);
        }
        v
    }

    /// The table of contents read before, if any.
    pub fn cached(&self) -> (r: Option<Vec<TrackInfo>>)
        ensures
            match r {
                Some(v) => self.cached_toc() == Some(v@),
                None => self.cached_toc() is None,
            },
    {
        match &self.toc {
            Some(v) => {
                let mut c: Vec<TrackInfo> = Vec::new();
                let mut i: usize = 0;
                while i < v.len()
                    invariant
                        i <= v@.len(),
                        c@ == v@.subrange(0, i as int),
                    decreases v.len() - i,
                {
                    c.push(v[i]);
                    proof {
                        assert(c@ =~= v@.subrange(0, i + 1));
                    }
                    i = i + 1;
                }
                proof {
                    assert(v@.subrange(0, i as int) =~= v@);
                }
                Some(c)
            },
            None => None,
        }
    }

    /// Records the table of contents read from the drive.
    pub fn store_toc(&mut self, toc: Vec<TrackInfo>)
        ensures
            final(self).cached_toc() == Some(toc@),
            final(self).drive() == old(self).drive(),
            final(self).sectors() == old(self).sectors(),
            final(self).checks_jitter() == old(self).checks_jitter(),
    {
        self.toc = Some(toc);
    }

    /// `(hours, minutes, seconds)` of a number of sectors.
    pub fn sectors_to_duration(sectors: u64) -> (r: (u32, u32, u32))
        ensures
            r == duration_of(sectors),
    {
        let total_seconds = sectors / CD_DA_SECTORS_PER_SECOND as u64;
        let hours = (total_seconds / 3600) as u32;
        let minutes = ((total_seconds % 3600) / 60) as u32;
        let seconds = (total_seconds % 60) as u32;
        (hours, minutes, seconds)
    }

    /// The number of bytes of a number of sectors.
    pub fn sectors_to_bytes(sectors: u64) -> (r: u64)
        requires
            sectors * 2352 <= u64::MAX,
        ensures
            r == sectors * 2352,
    {
        sectors * CD_DA_SECTOR_SIZE as u64
    }

    /// The disc size in sectors.
    pub fn total_sectors(&self) -> (r: u64)
        ensures
            r == self.sectors(),
    {
        self.total_sectors
    }

    /// The duration of the whole disc.
    pub fn total_duration(&self) -> (r: (u32, u32, u32))
        ensures
            r == duration_of(self.sectors()),
    {
        Self::sectors_to_duration(self.total_sectors)
    }
}


/// The tracks and the position reached after the first `n` table entries
/// read from a Linux drive: a failed read (`None`) is skipped; an entry
/// `(frame, control)` adds a track from the position reached to `frame`,
/// numbered from `first`, audio unless control bit 2 is set.
pub open spec fn linux_fold(first: u8, es: Seq<Option<(u8, u8)>>, n: int) -> (Seq<TrackInfo>, u64)
    decreases n,
{
    if n <= 0 {
        (seq![], 0)
    } else {
        let prev = linux_fold(first, es, n - 1);
        match es[n - 1] {
            None => prev,
            Some(e) => (
                prev.0.push(
                    TrackInfo {
                        track_number: (first + (n - 1)) as u8,
                        start_sector: prev.1,
                        end_sector: e.0 as u64,
                        duration_sectors: (e.0 - prev.1) as u64,
                        is_audio: e.1 & 0x04 == 0,
                    },
                ),
                e.0 as u64,
            ),
        }
    }
}

/// Whether each entry read starts no earlier than the position reached.
pub open spec fn linux_ordered(first: u8, es: Seq<Option<(u8, u8)>>, n: int) -> bool
    decreases n,
{
    if n <= 0 {
        true
    } else {
        linux_ordered(first, es, n - 1) && match es[n - 1] {
            None => true,
            Some(e) => e.0 >= linux_fold(first, es, n - 1).1,
        }
    }
}

/// The tracks of a Linux table of contents: the entries' tracks, then the
/// lead-out (track `0xAA`) where it was read.
pub open spec fn linux_tracks(first: u8, es: Seq<Option<(u8, u8)>>, leadout: Option<u8>) -> Seq<
    TrackInfo,
> {
    let f = linux_fold(first, es, es.len() as int);
    match leadout {
        Some(l) => f.0.push(
            TrackInfo {
                track_number: 0xAA,
                start_sector: f.1,
                end_sector: l as u64,
                duration_sectors: (l - f.1) as u64,
                is_audio: true,
            },
        ),
        None => f.0,
    }
}

impl AudioCdReader {
    /// The table of contents from what a Linux drive reported: the header
    /// (first and last track) if it was read, for each track from first to
    /// last its entry (the first byte of the address and the control byte)
    /// if it was read, and the lead-out likewise. Without a header, or
    /// without any track, the whole disc is one track.
    pub fn toc_from_entries(
        &self,
        header: Option<(u8, u8)>,
        entries: &[Option<(u8, u8)>],
        leadout: Option<u8>,
    ) -> (r: Vec<TrackInfo>)
        requires
            header matches Some(h) ==> {
                &&& entries@.len() == (if h.0 <= h.1 {
                    h.1 - h.0 + 1
                } else {
                    0
                })
                &&& linux_ordered(h.0, entries@, entries@.len() as int)
                &&& leadout matches Some(l) ==> l >= linux_fold(
                    h.0,
                    entries@,
                    entries@.len() as int,
                ).1
                &&& linux_tracks(h.0, entries@, leadout).len() == 0 ==> self.sectors() > 0
            },
            header is None ==> self.sectors() > 0,
        ensures
            match header {
                Some(h) => if linux_tracks(h.0, entries@, leadout).len() > 0 {
                    r@ == linux_tracks(h.0, entries@, leadout)
                } else {
                    r@ == seq![whole_disc_track(self.sectors())]
                },
                None => r@ == seq![whole_disc_track(self.sectors())],
            },
    {
        let (first, _last) = match header {
            Some(h) => h,
            None => {
                return self.parse_toc_fallback();
            },
        };
        let mut tracks: Vec<TrackInfo> = Vec::new();
        let mut current_sector: u64 = 0;
        let mut i: usize = 0;
        while i < entries.len()
            invariant
                i <= entries@.len(),
                entries@.len() <= 256,
                first + entries@.len() <= 256,
                linux_ordered(first, entries@, entries@.len() as int),
                (tracks@, current_sector) == linux_fold(first, entries@, i as int),
                current_sector <= 255,
            decreases entries.len() - i,
        {
            proof {
                lemma_ordered_prefix(first, entries@, entries@.len() as int, i + 1);
            }
            match entries[i] {
                None => {},
                Some(e) => {
                    let start_sector = e.0 as u64;
                    tracks.push(
                        TrackInfo {
                            track_number: first + i as u8,
                            start_sector: current_sector,
                            end_sector: start_sector,
                            duration_sectors: start_sector - current_sector,
                            is_audio: e.1 & 0x04 == 0,
                        },
                    );
                    current_sector = start_sector;
                },
            }
            i = i + 1;
        }
        match leadout {
            Some(l) => {
                let leadout_sector = l as u64;
                tracks.push(
                    TrackInfo {
                        track_number: 0xAA,
                        start_sector: current_sector,
                        end_sector: leadout_sector,
                        duration_sectors: leadout_sector - current_sector,
                        is_audio: true,
                    },
                );
            },
            None => {},
        }
        if tracks.len() == 0 {
            self.parse_toc_fallback()
        } else {
            tracks
        }
    }
}

/// Ordering of all entries implies ordering of a prefix.
proof fn lemma_ordered_prefix(first: u8, es: Seq<Option<(u8, u8)>>, n: int, k: int)
    requires
        0 <= k <= n,
        linux_ordered(first, es, n),
    ensures
        linux_ordered(first, es, k),
    decreases n - k,
{
    if k < n {
        lemma_ordered_prefix(first, es, n - 1, k);
    }
}

/// The four little-endian bytes of `x`.
pub open spec fn le32_bytes(x: u32) -> Seq<u8> {
    seq![(x % 256) as u8, ((x / 256) % 256) as u8, ((x / 65536) % 256) as u8, (x / 16777216) as u8]
}

/// The two little-endian bytes of `x`.
pub open spec fn le16_bytes(x: u16) -> Seq<u8> {
    seq![(x % 256) as u8, (x / 256) as u8]
}

/// The 44-byte WAV header of CD-DA audio (PCM, 2 channels, 44100 Hz,
/// 16 bits) with `data_size` bytes of samples.
pub open spec fn wav_header(data_size: u32) -> Seq<u8> {
    seq![0x52u8, 0x49, 0x46, 0x46] + le32_bytes((36 + data_size) as u32) + seq![
        0x57u8,
        0x41,
        0x56,
        0x45,
    ] + seq![0x66u8, 0x6D, 0x74, 0x20] + le32_bytes(16) + le16_bytes(1) + le16_bytes(2)
        + le32_bytes(44100) + le32_bytes(176400) + le16_bytes(4) + le16_bytes(16) + seq![
        0x64u8,
        0x61,
        0x74,
        0x61,
    ] + le32_bytes(data_size)
}

/// Appends the little-endian bytes of `x`.
fn push_le32(v: &mut Vec<u8>, x: u32)
    ensures
        final(v)@ == old(v)@ + le32_bytes(x),
{
    v.push((x % 256) as u8);
    v.push(((x / 256) % 256) as u8);
    v.push(((x / 65536) % 256) as u8);
    v.push((x / 16777216) as u8);
    proof {
        assert(final(v)@ =~= old(v)@ + le32_bytes(x));
    }
}

/// Appends the little-endian bytes of `x`.
fn push_le16(v: &mut Vec<u8>, x: u16)
    ensures
        final(v)@ == old(v)@ + le16_bytes(x),
{
    v.push((x % 256) as u8);
    v.push((x / 256) as u8);
    proof {
        assert(final(v)@ =~= old(v)@ + le16_bytes(x));
    }
}

/// Appends four bytes.
fn push4(v: &mut Vec<u8>, a: u8, b: u8, c: u8, d: u8)
    ensures
        final(v)@ == old(v)@ + seq![a, b, c, d],
{
    v.push(a);
    v.push(b);
    v.push(c);
    v.push(d);
    proof {
        assert(final(v)@ =~= old(v)@ + seq![a, b, c, d]);
    }
}

/// Four little-endian bytes read back give the value written.
pub proof fn lemma_le32_roundtrip(x: u32)
    ensures
        le32(le32_bytes(x)[0], le32_bytes(x)[1], le32_bytes(x)[2], le32_bytes(x)[3]) == x,
{
}

/// The WAV header of CD-DA audio.
pub struct WavHeader;

impl WavHeader {
    /// The WAV header for `data_size` bytes of CD-DA samples. It is 44
    /// bytes long and its RIFF size and data size fields read back as
    /// `36 + data_size` and `data_size`.
    pub fn new_cd_da(data_size: u32) -> (r: Vec<u8>)
        requires
            data_size <= u32::MAX - 36,
        ensures
            r@ == wav_header(data_size),
            r@.len() == 44,
            le32(r@[4], r@[5], r@[6], r@[7]) == 36 + data_size,
            le32(r@[40], r@[41], r@[42], r@[43]) == data_size,
            le16(r@[22], r@[23]) == 2,
            le32(r@[24], r@[25], r@[26], r@[27]) == 44100,
    {
        let mut header: Vec<u8> = Vec::new();
        let byte_rate: u32 = CD_DA_SAMPLE_RATE * CD_DA_CHANNELS * CD_DA_BYTES_PER_SAMPLE;
        let block_align: u16 = (CD_DA_CHANNELS * CD_DA_BYTES_PER_SAMPLE) as u16;
        push4(&mut header, 0x52, 0x49, 0x46, 0x46);
        push_le32(&mut header, 36 + data_size);
        push4(&mut header, 0x57, 0x41, 0x56, 0x45);
        push4(&mut header, 0x66, 0x6D, 0x74, 0x20);
        push_le32(&mut header, 16);
        push_le16(&mut header, 1);
        push_le16(&mut header, CD_DA_CHANNELS as u16);
        push_le32(&mut header, CD_DA_SAMPLE_RATE);
        push_le32(&mut header, byte_rate);
        push_le16(&mut header, block_align);
        push_le16(&mut header, 16);
        push4(&mut header, 0x64, 0x61, 0x74, 0x61);
        push_le32(&mut header, data_size);
        proof {
            assert(header@ =~= wav_header(data_size));
            lemma_le32_roundtrip((36 + data_size) as u32);
            lemma_le32_roundtrip(data_size);
            lemma_le32_roundtrip(44100);
        }
        header
    }
}

/// The track number and last sector of a `diskutil` track line such as
/// `Track 1: 0 -> 12345`: its second word (without a trailing `:`) and its
/// fifth, where the line names a track and both are numbers.
pub open spec fn mac_track_line(l: Seq<char>) -> Option<(u8, u64)> {
    let w = words(l);
    if has_substr(l, "Track"@) && w.len() >= 5 {
        match (unsigned_value(trim_end_char(w[1], ':'), 255), unsigned_value(w[4], u64::MAX as int)) {
            (Some(n), Some(e)) => Some((n as u8, e as u64)),
            _ => None,
        }
    } else {
        None
    }
}

/// The tracks listed in `diskutil` output from line `i` on: after the
/// `Tracks:` line, each track line gives a track from the sector after the
/// previous one to its last sector, up to the first blank line.
pub open spec fn mac_scan(lines: Seq<Seq<char>>, i: int, in_tracks: bool, cur: u64) -> Seq<TrackInfo>
    decreases lines.len() - i,
{
    if i < 0 || i >= lines.len() {
        seq![]
    } else if has_substr(lines[i], "Tracks:"@) {
        mac_scan(lines, i + 1, true, cur)
    } else if in_tracks {
        if trim_ws(lines[i]).len() == 0 {
            seq![]
        } else {
            match mac_track_line(lines[i]) {
                Some(t) => seq![
                    TrackInfo {
                        track_number: t.0,
                        start_sector: cur,
                        end_sector: t.1,
                        duration_sectors: t.1.wrapping_sub(cur),
                        is_audio: true,
                    },
                ] + mac_scan(lines, i + 1, true, t.1.wrapping_add(1)),
                None => mac_scan(lines, i + 1, true, cur),
            }
        }
    } else {
        mac_scan(lines, i + 1, false, cur)
    }
}

/// The tracks listed in `diskutil` output.
pub open spec fn mac_tracks(info: Seq<char>) -> Seq<TrackInfo> {
    mac_scan(lines_of(info), 0, false, 0)
}

/// The track number and last sector of a `diskutil` track line.
fn parse_mac_track_line(l: &Vec<char>) -> (r: Option<(u8, u64)>)
    ensures
        r == mac_track_line(l@),
{
    let track = chars_of("Track");
    if !contains_chars(l.as_slice(), track.as_slice()) {
        return None;
    }
    let w = split_whitespace(l.as_slice());
    proof {
        assert(views_of(w@).len() == w@.len());
    }
    if w.len() < 5 {
        return None;
    }
    let mut first = copy_chars(&w[1]);
    trim_end_char_vec(&mut first, ':');
    let n = parse_unsigned(first.as_slice(), 255);
    let e = parse_unsigned(w[4].as_slice(), u64::MAX);
    proof {
        assert(views_of(w@)[1] == w@[1]@);
        assert(views_of(w@)[4] == w@[4]@);
        assert(first@ == trim_end_char(words(l@)[1], ':'));
    }
    let r = match (n, e) {
        (Some(n), Some(e)) => Some((n as u8, e)),
        _ => None,
    };
    proof {
        match (unsigned_value(first@, 255), unsigned_value(words(l@)[4], u64::MAX as int)) {
            (Some(x), Some(y)) => {
                assert(n == Some(x as u64));
                assert(e == Some(y as u64));
                crate::numtext::lemma_digits_nonneg(crate::numtext::unsigned_digits(first@));
                assert(0 <= x <= 255);
                assert((x as u64) as u8 == x as u8);
                assert(r == Some((x as u8, y as u64)));
            },
            _ => {
                assert(r is None);
            },
        }
    }
    r
}

/// A copy of a character vector.
fn copy_chars(v: &Vec<char>) -> (r: Vec<char>)
    ensures
        r@ == v@,
{
    let mut r: Vec<char> = Vec::new();
    let mut i: usize = 0;
    while i < v.len()
        invariant
            i <= v@.len(),
            r@ == v@.subrange(0, i as int),
        decreases v.len() - i,
    {
        r.push(v[i]);
        i = i + 1;
    }
    proof {
        assert(v@.subrange(0, i as int) =~= v@);
    }
    r
}

impl AudioCdReader {
    /// The table of contents from `diskutil` output, or the whole-disc
    /// track where it lists none.
    pub fn parse_macos_toc(&self, info: &str) -> (r: Vec<TrackInfo>)
        requires
            mac_tracks(info@).len() > 0 || self.sectors() > 0,
        ensures
            mac_tracks(info@).len() > 0 ==> r@ == mac_tracks(info@),
            mac_tracks(info@).len() == 0 ==> r@ == seq![whole_disc_track(self.sectors())],
    {
        let lines = lines_vec(info);
        let ghost ls = char_vecs(lines@);
        let tracks_mark = chars_of("Tracks:");
        let mut tracks: Vec<TrackInfo> = Vec::new();
        let mut in_tracks = false;
        let mut current: u64 = 0;
        let mut i: usize = 0;
        while i < lines.len()
            invariant
                ls == char_vecs(lines@),
                ls == lines_of(info@),
                tracks_mark@ == "Tracks:"@,
                i <= lines@.len(),
                tracks@ + mac_scan(ls, i as int, in_tracks, current) == mac_tracks(info@),
            ensures
                tracks@ == mac_tracks(info@),
            decreases lines.len() - i,
        {
            let l = &lines[i];
            proof {
                assert(ls[i as int] == l@);
            }
            if contains_chars(l.as_slice(), tracks_mark.as_slice()) {
                in_tracks = true;
                i = i + 1;
                continue;
            }
            if in_tracks {
                let t = trim_ws_vec(l);
                if t.len() == 0 {
                    proof {
                        assert(tracks@ + seq![] =~= tracks@);
                    }
                    break;
                }
                match parse_mac_track_line(l) {
                    Some(p) => {
                        let ghost before = tracks@;
                        tracks.push(
                            TrackInfo {
                                track_number: p.0,
                                start_sector: current,
                                end_sector: p.1,
                                duration_sectors: p.1.wrapping_sub(current),
                                is_audio: true,
                            },
                        );
                        current = p.1.wrapping_add(1);
                        proof {
                            assert(tracks@ =~= before.push(tracks@.last()));
                        }
                    },
                    None => {},
                }
            }
            i = i + 1;
        }
        if tracks.len() == 0 {
            self.parse_toc_fallback()
        } else {
            tracks
        }
    }
}

/// The text of the track list in the JSON that Windows reports for a CD
/// drive: from after the first `:` that follows the key `"Tracks"` up to
/// the next `]`.
pub open spec fn wmi_tracks_text(json: Seq<char>) -> Option<Seq<char>> {
    match find_from(json, "\"Tracks\""@, 0) {
        None => None,
        Some(t) => match find_from(json, seq![':'], t) {
            None => None,
            Some(c) => match find_from(json, seq![']'], c + 1) {
                None => None,
                Some(e) => Some(json.subrange(c + 1, e)),
            },
        },
    }
}

/// The tracks read from the first `n` comma-separated pieces of the track
/// list, and the sector after the last of them: a piece that is a number
/// (spaces around it aside) ends a track at that sector, numbered by the
/// piece's place in the list and begun after the previous track; other
/// pieces are passed over. Sums wrap around as in a release build.
pub open spec fn wmi_fold(pieces: Seq<Seq<char>>, n: int) -> (Seq<TrackInfo>, u64)
    decreases n,
{
    if n <= 0 {
        (seq![], 0)
    } else {
        let prev = wmi_fold(pieces, n - 1);
        match unsigned_value(trim_ws(pieces[n - 1]), u64::MAX as int) {
            None => prev,
            Some(v) => (
                prev.0.push(
                    TrackInfo {
                        track_number: n as u8,
                        start_sector: prev.1,
                        end_sector: v as u64,
                        duration_sectors: (v as u64).wrapping_sub(prev.1).wrapping_add(1),
                        is_audio: true,
                    },
                ),
                (v as u64).wrapping_add(1),
            ),
        }
    }
}

/// The tracks listed in the JSON that Windows reports for a CD drive.
pub open spec fn wmi_tracks(json: Seq<char>) -> Seq<TrackInfo> {
    match wmi_tracks_text(json) {
        None => seq![],
        Some(t) => {
            let pieces = split_on(t, ',', seq![]);
            wmi_fold(pieces, pieces.len() as int).0
        },
    }
}

/// A vector holding the one character `c`.
fn one_char(c: char) -> (r: Vec<char>)
    ensures
        r@ == seq![c],
{
    let mut v: Vec<char> = Vec::new();
    v.push(c);
    v
}

impl AudioCdReader {
    /// The table of contents from the JSON that Windows reports for the
    /// drive, or the whole-disc track where it lists none.
    pub fn parse_windows_toc_json(&self, json: &str) -> (r: Vec<TrackInfo>)
        requires
            wmi_tracks(json@).len() > 0 || self.sectors() > 0,
        ensures
            wmi_tracks(json@).len() > 0 ==> r@ == wmi_tracks(json@),
            wmi_tracks(json@).len() == 0 ==> r@ == seq![whole_disc_track(self.sectors())],
    {
        let text = chars_of(json);
        let key = chars_of("\"Tracks\"");
        let colon = one_char(':');
        let close = one_char(']');
        let mut tracks: Vec<TrackInfo> = Vec::new();
        let ghost found: Option<Seq<char>> = wmi_tracks_text(json@);
        assert(text@ == json@ && key@ == "\"Tracks\""@);
        assert(colon@ == seq![':'] && close@ == seq![']']);
        let n = text.len();
        let mut segment: Option<Vec<char>> = None;
        let ft = find_chars_from(&text, &key, 0);
        match ft {
            None => {
                assert(found is None);
            },
            Some(t) => {
                let fc = find_chars_from(&text, &colon, t);
                match fc {
                    None => {
                        assert(find_from(json@, seq![':'], t as int) is None);
                        assert(found is None);
                    },
                    Some(c) => {
                        assert(c + 1 <= n);
                        let fe = find_chars_from(&text, &close, c + 1);
                        match fe {
                            None => {
                                assert(found is None);
                            },
                            Some(e) => {
                                proof {
                                    lemma_find_from(text@, close@, c + 1);
                                }
                                segment = Some(sub_chars(&text, c + 1, e));
                            },
                        }
                    },
                }
            },
        }
        match segment {
            None => {
                assert(found is None);
            },
            Some(seg) => {
                assert(found == Some(seg@));
                let pieces = split_chars(&seg, ',');
                let ghost ps = char_vecs(pieces@);
                let mut current: u64 = 0;
                let mut i: usize = 0;
                while i < pieces.len()
                    invariant
                        ps == char_vecs(pieces@),
                        i <= pieces@.len(),
                        (tracks@, current) == wmi_fold(ps, i as int),
                    decreases pieces.len() - i,
                {
                    let piece = trim_ws_vec(&pieces[i]);
                    proof {
                        assert(ps[i as int] == pieces@[i as int]@);
                    }
                    match parse_unsigned(piece.as_slice(), u64::MAX) {
                        Some(v) => {
                            tracks.push(
                                TrackInfo {
                                    track_number: #[verifier::truncate] ((i + 1) as u8),
                                    start_sector: current,
                                    end_sector: v,
                                    duration_sectors: v.wrapping_sub(current).wrapping_add(1),
                                    is_audio: true,
                                },
                            );
                            current = v.wrapping_add(1);
                        },
                        None => {},
                    }
                    i = i + 1;
                }
            },
        }
        if tracks.len() == 0 {
            self.parse_toc_fallback()
        } else {
            tracks
        }
    }
}

/// A read of one sector checked for jitter: the sector is read up to a
/// number of times until a read looks like real audio; failing that, the
/// last data read is taken, where there was any.
pub struct CheckedSectorRead {
    tries_left: u32,
    last_data: Vec<u8>,
}

impl CheckedSectorRead {
    /// Reads still to be tried.
    pub closed spec fn remaining(&self) -> nat {
        self.tries_left as nat
    }

    /// The data of the last read that gave data.
    pub closed spec fn last(&self) -> Seq<u8> {
        self.last_data@
    }

    /// A checked read that tries `max_retries` times.
    pub fn new(max_retries: u32) -> (r: Self)
        ensures
            r.remaining() == max_retries,
            r.last() == Seq::<u8>::empty(),
    {
        CheckedSectorRead { tries_left: max_retries, last_data: Vec::new() }
    }

    /// Whether another read is to be made.
    pub fn wants_read(&self) -> (r: bool)
        ensures
            r == (self.remaining() > 0),
    {
        self.tries_left > 0
    }

    /// Takes what a read gave (`None` for a failed read). Data that looks
    /// like real audio is the answer; other data is kept as the last read;
    /// either way short of an answer, a try is used up.
    pub fn on_read(&mut self, outcome: Option<Vec<u8>>) -> (r: Option<Vec<u8>>)
        requires
            old(self).remaining() > 0,
        ensures
            match outcome {
                Some(d) => if plausible_audio(d@) {
                    &&& r matches Some(x) && x@ == d@
                    &&& final(self).remaining() == old(self).remaining()
                    &&& final(self).last() == old(self).last()
                } else {
                    &&& r is None
                    &&& final(self).remaining() == old(self).remaining() - 1
                    &&& final(self).last() == d@
                },
                None => {
                    &&& r is None
                    &&& final(self).remaining() == old(self).remaining() - 1
                    &&& final(self).last() == old(self).last()
                },
            },
    {
        match outcome {
            Some(d) => {
                if AudioCdReader::verify_audio_sector(d.as_slice()) {
                    Some(d)
                } else {
                    self.tries_left = self.tries_left - 1;
                    self.last_data = d;
                    None
                }
            },
            None => {
                self.tries_left = self.tries_left - 1;
                None
            },
        }
    }

    /// What the read gives once the tries ran out: the last data read,
    /// where it is not empty.
    pub fn finish(self) -> (r: Option<Vec<u8>>)
        ensures
            self.last().len() > 0 ==> (r matches Some(x) && x@ == self.last()),
            self.last().len() == 0 ==> r is None,
    {
        if self.last_data.len() > 0 {
            Some(self.last_data)
        } else {
            None
        }
    }
}

} // verus!
