//! Multisession and mixed-mode CDs: the table of contents, track types,
//! and the session layouts of Enhanced CDs.
use vstd::prelude::*;
use crate::bytes::{be32_at, read_be_u16, read_be_u32};
use crate::error::DiskRipperError;
use crate::text::{dec_digits, dec_padded, owned, push_dec, push_str, string_of};

verus! {

/// A session of a disc.
#[derive(Debug, Clone)]
pub struct SessionInfo {
    pub session_number: u8,
    pub start_lba: u32,
    pub end_lba: u32,
    pub track_count: u8,
    pub tracks: Vec<TrackInfo>,
}

/// A track of a session.
#[derive(Debug, Clone)]
pub struct TrackInfo {
    pub track_number: u8,
    pub start_lba: u32,
    pub end_lba: u32,
    pub sector_count: u64,
    pub track_type: TrackType,
    pub pre_emphasis: bool,
    pub copy_permitted: bool,
    pub channels: u8,
    pub isrc: Option<String>,
    pub title: Option<String>,
}

/// The kind of a track.
#[derive(Debug, Clone, Copy, PartialEq, Eq, Structural)]
pub enum TrackType {
    Audio,
    Data,
    Mode1,
    Mode2,
    Unknown,
}

/// The name of a track type.
pub open spec fn track_type_name(t: TrackType) -> Seq<char> {
    match t {
        TrackType::Audio => "Audio"@,
        TrackType::Data => "Data"@,
        TrackType::Mode1 => "Mode 1"@,
        TrackType::Mode2 => "Mode 2"@,
        TrackType::Unknown => "Unknown"@,
    }
}

impl TrackType {
    /// The name of the track type, as it is shown.
    pub fn name(&self) -> (r: String)
        ensures
            r@ == track_type_name(*self),
    {
        match self {
            TrackType::Audio => owned("Audio"),
            TrackType::Data => owned("Data"),
            TrackType::Mode1 => owned("Mode 1"),
            TrackType::Mode2 => owned("Mode 2"),
            TrackType::Unknown => owned("Unknown"),
        }
    }
}

/// Whether a track holds data (data, mode 1 or mode 2).
pub open spec fn is_data_type(t: TrackType) -> bool {
    t == TrackType::Data || t == TrackType::Mode1 || t == TrackType::Mode2
}

/// A disc's table of contents.
#[derive(Debug, Clone)]
pub struct CdToc {
    pub sessions: Vec<SessionInfo>,
    pub total_sessions: u8,
    pub total_tracks: u8,
    pub lead_out_lba: u32,
}

/// The tracks of sessions `s`, session after session.
pub open spec fn all_tracks(s: Seq<SessionInfo>) -> Seq<TrackInfo>
    decreases s.len(),
{
    if s.len() == 0 {
        seq![]
    } else {
        all_tracks(s.drop_last()) + s.last().tracks@
    }
}

/// The audio tracks of `t`, in order.
pub open spec fn audio_tracks(t: Seq<TrackInfo>) -> Seq<TrackInfo>
    decreases t.len(),
{
    if t.len() == 0 {
        seq![]
    } else if t.last().track_type == TrackType::Audio {
        audio_tracks(t.drop_last()).push(t.last())
    } else {
        audio_tracks(t.drop_last())
    }
}

/// The data tracks of `t`, in order.
pub open spec fn data_tracks(t: Seq<TrackInfo>) -> Seq<TrackInfo>
    decreases t.len(),
{
    if t.len() == 0 {
        seq![]
    } else if is_data_type(t.last().track_type) {
        data_tracks(t.drop_last()).push(t.last())
    } else {
        data_tracks(t.drop_last())
    }
}

/// The tracks a list of borrowed tracks points to.
pub open spec fn derefs(v: Seq<&TrackInfo>) -> Seq<TrackInfo> {
    v.map_values(|t: &TrackInfo| *t)
}

/// Whether all tracks of a session hold data (none is audio).
pub open spec fn all_non_audio(s: SessionInfo) -> bool {
    forall|j: int| 0 <= j < s.tracks@.len() ==> s.tracks@[j].track_type != TrackType::Audio
}

/// Whether a session holds an audio track.
pub open spec fn any_audio(s: SessionInfo) -> bool {
    exists|j: int| 0 <= j < s.tracks@.len() && s.tracks@[j].track_type == TrackType::Audio
}

/// Whether a disc is an Enhanced CD: at least two sessions counted, the
/// first all audio, the last without audio.
pub open spec fn enhanced(toc: CdToc) -> bool {
    &&& toc.total_sessions >= 2
    &&& toc.sessions@.len() > 0
    &&& forall|j: int|
        0 <= j < toc.sessions@[0].tracks@.len() ==> toc.sessions@[0].tracks@[j].track_type
            == TrackType::Audio
    &&& all_non_audio(toc.sessions@.last())
}

// ---------------------------------------------------------------------------
// Parsing a READ TOC response
// ---------------------------------------------------------------------------

/// Number of track descriptors read from a response of `len` bytes whose
/// length field is `toc_len`, counting from descriptor `k`: a descriptor is
/// read while it lies within the data and starts before `toc_len + 2`.
pub open spec fn toc_count(len: nat, toc_len: nat, k: nat) -> nat
    decreases len - 8 * k,
{
    if 4 + 8 * k + 8 <= len && 4 + 8 * k < toc_len + 2 {
        1 + toc_count(len, toc_len, k + 1)
    } else {
        0
    }
}

/// The number of track descriptors in a response.
pub open spec fn descriptors(raw: Seq<u8>) -> nat {
    toc_count(raw.len(), ((raw[0] as nat) * 256 + raw[1] as nat), 0)
}

/// Start block of descriptor `k`.
pub open spec fn desc_start(raw: Seq<u8>, k: int) -> u32 {
    be32_at(raw, 4 + 8 * k + 4) as u32
}

/// Control byte of descriptor `k`.
pub open spec fn desc_control(raw: Seq<u8>, k: int) -> u8 {
    raw[4 + 8 * k + 1]
}

/// The track that descriptor `k` of `n` describes: its number, start and
/// control flags; it ends where the next begins (the last: end and length 0).
pub open spec fn desc_track(raw: Seq<u8>, n: int, k: int) -> TrackInfo {
    let c = desc_control(raw, k);
    let start = desc_start(raw, k);
    let end: u32 = if k + 1 < n {
        desc_start(raw, k + 1)
    } else {
        0
    };
    TrackInfo {
        track_number: raw[4 + 8 * k + 2],
        start_lba: start,
        end_lba: end,
        sector_count: if k + 1 < n {
            (end - start) as u64
        } else {
            0
        },
        track_type: if c & 0x04 != 0 {
            TrackType::Data
        } else {
            TrackType::Audio
        },
        pre_emphasis: c & 0x01 != 0,
        copy_permitted: c & 0x02 != 0,
        channels: 2,
        isrc: None,
        title: None,
    }
}

/// Whether a response can be parsed without arithmetic going out of range:
/// at most 254 descriptors, the last session not before the first and at
/// most 254 after it, and track starts not decreasing.
pub open spec fn toc_parsable(raw: Seq<u8>) -> bool {
    raw.len() >= 4 ==> {
        &&& descriptors(raw) <= 254
        &&& raw[2] <= raw[3]
        &&& raw[3] - raw[2] < 255
        &&& forall|k: int|
            0 <= k < descriptors(raw) - 1 ==> #[trigger] desc_start(raw, k) <= desc_start(raw, k + 1)
    }
}

/// The table of contents a response gives: every descriptor is a track of
/// one session, numbered with the first session number and starting at its
/// first track.
pub open spec fn toc_matches(raw: Seq<u8>, toc: CdToc) -> bool {
    let n = descriptors(raw) as int;
    &&& toc.total_sessions == raw[3] - raw[2] + 1
    &&& toc.total_tracks == n
    &&& toc.lead_out_lba == 0
    &&& if n == 0 {
        toc.sessions@.len() == 0
    } else {
        &&& toc.sessions@.len() == 1
        &&& toc.sessions@[0].session_number == raw[2]
        &&& toc.sessions@[0].start_lba == desc_start(raw, 0)
        &&& toc.sessions@[0].end_lba == 0
        &&& toc.sessions@[0].track_count == n
        &&& toc.sessions@[0].tracks@.len() == n
        &&& forall|k: int| 0 <= k < n ==> #[trigger] toc.sessions@[0].tracks@[k] == desc_track(raw, n, k)
    }
}

/// A parsed track's pre-emphasis flag is bit 0 (value 1) of its
/// descriptor's control byte, its digital-copy flag is bit 1 (value 2), and
/// it is a data track exactly when bit 2 (value 4) is set; the bits are read
/// by division, independently of one another.
pub proof fn law_track_control_bits(raw: Seq<u8>, toc: CdToc)
    requires
        toc_matches(raw, toc),
    ensures
        toc.sessions@.len() > 0 ==> forall|k: int|
            0 <= k < toc.sessions@[0].tracks@.len() ==> {
                let c = raw[4 + 8 * k + 1] as int;
                &&& (#[trigger] toc.sessions@[0].tracks@[k]).pre_emphasis == (c % 2 == 1)
                &&& toc.sessions@[0].tracks@[k].copy_permitted == ((c / 2) % 2 == 1)
                &&& (toc.sessions@[0].tracks@[k].track_type == TrackType::Data) == ((c / 4) % 2 == 1)
            },
{
    if toc.sessions@.len() > 0 {
        let n = descriptors(raw) as int;
        assert forall|k: int| 0 <= k < toc.sessions@[0].tracks@.len() implies {
            let c = raw[4 + 8 * k + 1] as int;
            &&& (#[trigger] toc.sessions@[0].tracks@[k]).pre_emphasis == (c % 2 == 1)
            &&& toc.sessions@[0].tracks@[k].copy_permitted == ((c / 2) % 2 == 1)
            &&& (toc.sessions@[0].tracks@[k].track_type == TrackType::Data) == ((c / 4) % 2 == 1)
        } by {
            assert(toc.sessions@[0].tracks@[k] == desc_track(raw, n, k));
            let c: u8 = desc_control(raw, k);
            assert((c & 0x01 != 0) == (c % 2 == 1)) by (bit_vector);
            assert((c & 0x02 != 0) == ((c / 2) % 2 == 1)) by (bit_vector);
            assert((c & 0x04 != 0) == ((c / 4) % 2 == 1)) by (bit_vector);
        }
    }
}

/// Each descriptor of a READ TOC response is one parsed track, in order:
/// the track number is its third byte, the start block its last four bytes
/// read most significant first, and each track but the last ends where the
/// next one starts.
pub proof fn law_track_layout(raw: Seq<u8>, toc: CdToc)
    requires
        toc_matches(raw, toc),
        toc.sessions@.len() > 0,
    ensures
        forall|k: int|
            0 <= k < toc.sessions@[0].tracks@.len() ==> {
                let o = 4 + 8 * k;
                &&& (#[trigger] toc.sessions@[0].tracks@[k]).track_number == raw[o + 2]
                &&& toc.sessions@[0].tracks@[k].start_lba == raw[o + 4] * 16777216 + raw[o + 5]
                    * 65536 + raw[o + 6] * 256 + raw[o + 7]
            },
        forall|k: int|
            0 <= k < toc.sessions@[0].tracks@.len() - 1 ==> (#[trigger] toc.sessions@[0].tracks@[k]).end_lba
                == toc.sessions@[0].tracks@[k + 1].start_lba,
{
    let n = descriptors(raw) as int;
    assert forall|k: int| 0 <= k < toc.sessions@[0].tracks@.len() implies {
        let o = 4 + 8 * k;
        &&& (#[trigger] toc.sessions@[0].tracks@[k]).track_number == raw[o + 2]
        &&& toc.sessions@[0].tracks@[k].start_lba == raw[o + 4] * 16777216 + raw[o + 5] * 65536
            + raw[o + 6] * 256 + raw[o + 7]
    } by {
        assert(toc.sessions@[0].tracks@[k] == desc_track(raw, n, k));
        let o = 4 + 8 * k;
        assert(raw[o + 4] * 16777216 + raw[o + 5] * 65536 + raw[o + 6] * 256 + raw[o + 7] < 0x1_0000_0000);
    }
    assert forall|k: int| 0 <= k < toc.sessions@[0].tracks@.len() - 1 implies (#[trigger] toc.sessions@[0].tracks@[k]).end_lba
        == toc.sessions@[0].tracks@[k + 1].start_lba by {
        assert(toc.sessions@[0].tracks@[k] == desc_track(raw, n, k));
        assert(toc.sessions@[0].tracks@[k + 1] == desc_track(raw, n, k + 1));
    }
}

/// Reader of multisession discs.
pub struct MultisessionReader;

/// An empty table of contents.
pub open spec fn empty_toc(toc: CdToc) -> bool {
    toc.sessions@.len() == 0 && toc.total_sessions == 0 && toc.total_tracks == 0
        && toc.lead_out_lba == 0
}

impl MultisessionReader {
    /// Reads the table of contents of a drive. Sending READ TOC is not
    /// implemented: the table is always empty.
    pub fn read_toc(_drive_path: &str) -> (r: Result<CdToc, DiskRipperError>)
        ensures
            r matches Ok(toc) && empty_toc(toc),
    {
        Ok(CdToc { sessions: Vec::new(), total_sessions: 0, total_tracks: 0, lead_out_lba: 0 })
    }

    /// Whether a disc holds both audio and data tracks.
    pub fn is_mixed_mode(toc: &CdToc) -> (r: bool)
        ensures
            r == (audio_tracks(all_tracks(toc.sessions@)).len() > 0 && data_tracks(
                all_tracks(toc.sessions@),
            ).len() > 0),
    {
        let mut has_audio = false;
        let mut has_data = false;
        let mut i: usize = 0;
        while i < toc.sessions.len()
            invariant
                i <= toc.sessions@.len(),
                has_audio == (audio_tracks(all_tracks(toc.sessions@.subrange(0, i as int))).len()
                    > 0),
                has_data == (data_tracks(all_tracks(toc.sessions@.subrange(0, i as int))).len()
                    > 0),
            decreases toc.sessions.len() - i,
        {
            let session = &toc.sessions[i];
            let ghost pre = all_tracks(toc.sessions@.subrange(0, i as int));
            proof {
                assert(toc.sessions@.subrange(0, i + 1).drop_last() =~= toc.sessions@.subrange(
                    0,
                    i as int,
                ));
                assert(session.tracks@.subrange(0, 0) =~= Seq::<TrackInfo>::empty());
                assert(pre + session.tracks@.subrange(0, 0) =~= pre);
            }
            let mut k: usize = 0;
            while k < session.tracks.len()
                invariant
                    k <= session.tracks@.len(),
                    has_audio == (audio_tracks(pre + session.tracks@.subrange(0, k as int)).len()
                        > 0),
                    has_data == (data_tracks(pre + session.tracks@.subrange(0, k as int)).len()
                        > 0),
                decreases session.tracks.len() - k,
            {
                proof {
                    let cur = pre + session.tracks@.subrange(0, k as int);
                    let nx = pre + session.tracks@.subrange(0, k + 1);
                    assert(nx =~= cur.push(session.tracks@[k as int]));
                    assert(nx.drop_last() =~= cur);
                    assert(nx.last() == session.tracks@[k as int]);
                }
                match session.tracks[k].track_type {
                    TrackType::Audio => {
                        has_audio = true;
                    },
                    TrackType::Data | TrackType::Mode1 | TrackType::Mode2 => {
                        has_data = true;
                    },
                    _ => {},
                }
                k = k + 1;
            }
            proof {
                assert(session.tracks@.subrange(0, k as int) =~= session.tracks@);
            }
            i = i + 1;
        }
        proof {
            assert(toc.sessions@.subrange(0, i as int) =~= toc.sessions@);
        }
        has_audio && has_data
    }
}


impl MultisessionReader {
    /// The audio tracks of all sessions, in order.
    pub fn get_audio_tracks(toc: &CdToc) -> (r: Vec<&TrackInfo>)
        ensures
            derefs(r@) == audio_tracks(all_tracks(toc.sessions@)),
    {
        let mut out: Vec<&TrackInfo> = Vec::new();
        let mut i: usize = 0;
        while i < toc.sessions.len()
            invariant
                i <= toc.sessions@.len(),
                derefs(out@) == audio_tracks(all_tracks(toc.sessions@.subrange(0, i as int))),
            decreases toc.sessions.len() - i,
        {
            let session = &toc.sessions[i];
            let ghost pre = all_tracks(toc.sessions@.subrange(0, i as int));
            proof {
                assert(toc.sessions@.subrange(0, i + 1).drop_last() =~= toc.sessions@.subrange(
                    0,
                    i as int,
                ));
                assert(pre + session.tracks@.subrange(0, 0) =~= pre);
            }
            let mut k: usize = 0;
            while k < session.tracks.len()
                invariant
                    k <= session.tracks@.len(),
                    derefs(out@) == audio_tracks(pre + session.tracks@.subrange(0, k as int)),
                decreases session.tracks.len() - k,
            {
                let ghost cur = pre + session.tracks@.subrange(0, k as int);
                let ghost nx = pre + session.tracks@.subrange(0, k + 1);
                proof {
                    assert(nx =~= cur.push(session.tracks@[k as int]));
                    assert(nx.drop_last() =~= cur);
                }
                let t = &session.tracks[k];
                if t.track_type == TrackType::Audio {
                    let ghost before = derefs(out@);
                    out.push(t);
                    proof {
                        assert(derefs(out@) =~= before.push(*t));
                    }
                }
                k = k + 1;
            }
            proof {
                assert(session.tracks@.subrange(0, k as int) =~= session.tracks@);
            }
            i = i + 1;
        }
        proof {
            assert(toc.sessions@.subrange(0, i as int) =~= toc.sessions@);
        }
        out
    }

    /// The data tracks (data, mode 1, mode 2) of all sessions, in order.
    pub fn get_data_tracks(toc: &CdToc) -> (r: Vec<&TrackInfo>)
        ensures
            derefs(r@) == data_tracks(all_tracks(toc.sessions@)),
    {
        let mut out: Vec<&TrackInfo> = Vec::new();
        let mut i: usize = 0;
        while i < toc.sessions.len()
            invariant
                i <= toc.sessions@.len(),
                derefs(out@) == data_tracks(all_tracks(toc.sessions@.subrange(0, i as int))),
            decreases toc.sessions.len() - i,
        {
            let session = &toc.sessions[i];
            let ghost pre = all_tracks(toc.sessions@.subrange(0, i as int));
            proof {
                assert(toc.sessions@.subrange(0, i + 1).drop_last() =~= toc.sessions@.subrange(
                    0,
                    i as int,
                ));
                assert(pre + session.tracks@.subrange(0, 0) =~= pre);
            }
            let mut k: usize = 0;
            while k < session.tracks.len()
                invariant
                    k <= session.tracks@.len(),
                    derefs(out@) == data_tracks(pre + session.tracks@.subrange(0, k as int)),
                decreases session.tracks.len() - k,
            {
                let ghost cur = pre + session.tracks@.subrange(0, k as int);
                let ghost nx = pre + session.tracks@.subrange(0, k + 1);
                proof {
                    assert(nx =~= cur.push(session.tracks@[k as int]));
                    assert(nx.drop_last() =~= cur);
                }
                let t = &session.tracks[k];
                let is_data = match t.track_type {
                    TrackType::Data | TrackType::Mode1 | TrackType::Mode2 => true,
                    _ => false,
                };
                if is_data {
                    let ghost before = derefs(out@);
                    out.push(t);
                    proof {
                        assert(derefs(out@) =~= before.push(*t));
                    }
                }
                k = k + 1;
            }
            proof {
                assert(session.tracks@.subrange(0, k as int) =~= session.tracks@);
            }
            i = i + 1;
        }
        proof {
            assert(toc.sessions@.subrange(0, i as int) =~= toc.sessions@);
        }
        out
    }

    /// Reads the sectors of session `session`. The table of contents is
    /// always empty (see [`MultisessionReader::read_toc`]), so no session is
    /// found.
    pub fn read_session(drive_path: &str, session: u8) -> (r: Result<Vec<u8>, DiskRipperError>)
        ensures
            r matches Err(DiskRipperError::InvalidPath(m)) && m@ == "Session "@ + dec_digits(
                session as nat,
            ) + " not found"@,
    {
        let toc = Self::read_toc(drive_path)?;
        let mut i: usize = 0;
        let mut found: Option<usize> = None;
        while i < toc.sessions.len()
            invariant
                i <= toc.sessions@.len(),
                toc.sessions@.len() == 0,
                found.is_none(),
            decreases toc.sessions.len() - i,
        {
            if toc.sessions[i].session_number == session {
                found = Some(i);
                break;
            }
            i = i + 1;
        }
        match found {
            Some(_) => Ok(Vec::new()),
            None => {
                let mut m: Vec<char> = Vec::new();
                push_str(&mut m, "Session ");
                push_dec(&mut m, session as u64, 0);
                push_str(&mut m, " not found");
                proof {
                    assert(dec_padded(session as nat, 0) == dec_digits(session as nat));
                }
                Err(DiskRipperError::InvalidPath(string_of(m.as_slice())))
            },
        }
    }
}

/// Reader of Enhanced CDs (Blue Book): an audio session followed by a
/// data session.
pub struct EnhancedCdReader;

impl EnhancedCdReader {
    /// Whether a disc is an Enhanced CD.
    pub fn is_enhanced_cd(toc: &CdToc) -> (r: bool)
        ensures
            r == enhanced(*toc),
    {
        if toc.total_sessions < 2 {
            return false;
        }
        if toc.sessions.len() == 0 {
            return false;
        }
        let first = &toc.sessions[0];
        let mut k: usize = 0;
        while k < first.tracks.len()
            invariant
                k <= first.tracks@.len(),
                toc.sessions@.len() > 0,
                *first == toc.sessions@[0],
                forall|j: int| 0 <= j < k ==> first.tracks@[j].track_type == TrackType::Audio,
            decreases first.tracks.len() - k,
        {
            if first.tracks[k].track_type != TrackType::Audio {
                proof {
                    assert(toc.sessions@[0].tracks@[k as int].track_type != TrackType::Audio);
                }
                return false;
            }
            k = k + 1;
        }
        let last = &toc.sessions[toc.sessions.len() - 1];
        let mut k2: usize = 0;
        while k2 < last.tracks.len()
            invariant
                k2 <= last.tracks@.len(),
                toc.sessions@.len() > 0,
                *last == toc.sessions@[toc.sessions@.len() - 1],
                forall|j: int| 0 <= j < k2 ==> last.tracks@[j].track_type != TrackType::Audio,
            decreases last.tracks.len() - k2,
        {
            if last.tracks[k2].track_type == TrackType::Audio {
                proof {
                    assert(*last == toc.sessions@.last());
                    assert(last.tracks@[k2 as int].track_type == TrackType::Audio);
                }
                return false;
            }
            k2 = k2 + 1;
        }
        true
    }

    /// The first session without an audio track.
    pub fn get_data_session(toc: &CdToc) -> (r: Option<&SessionInfo>)
        ensures
            match r {
                Some(s) => exists|i: int|
                    0 <= i < toc.sessions@.len() && toc.sessions@[i] == *s && all_non_audio(*s)
                        && forall|h: int| 0 <= h < i ==> !all_non_audio(#[trigger] toc.sessions@[h]),
                None => forall|h: int|
                    0 <= h < toc.sessions@.len() ==> !all_non_audio(#[trigger] toc.sessions@[h]),
            },
    {
        let mut i: usize = 0;
        while i < toc.sessions.len()
            invariant
                i <= toc.sessions@.len(),
                forall|h: int| 0 <= h < i ==> !all_non_audio(#[trigger] toc.sessions@[h]),
            decreases toc.sessions.len() - i,
        {
            let s = &toc.sessions[i];
            let mut k: usize = 0;
            let mut all = true;
            while k < s.tracks.len()
                invariant
                    k <= s.tracks@.len(),
                    all == forall|j: int| 0 <= j < k ==> s.tracks@[j].track_type != TrackType::Audio,
                decreases s.tracks.len() - k,
            {
                if s.tracks[k].track_type == TrackType::Audio {
                    all = false;
                }
                k = k + 1;
            }
            if all {
                return Some(s);
            }
            i = i + 1;
        }
        None
    }

    /// The first session with an audio track.
    pub fn get_audio_session(toc: &CdToc) -> (r: Option<&SessionInfo>)
        ensures
            match r {
                Some(s) => exists|i: int|
                    0 <= i < toc.sessions@.len() && toc.sessions@[i] == *s && any_audio(*s)
                        && forall|h: int| 0 <= h < i ==> !any_audio(#[trigger] toc.sessions@[h]),
                None => forall|h: int|
                    0 <= h < toc.sessions@.len() ==> !any_audio(#[trigger] toc.sessions@[h]),
            },
    {
        let mut i: usize = 0;
        while i < toc.sessions.len()
            invariant
                i <= toc.sessions@.len(),
                forall|h: int| 0 <= h < i ==> !any_audio(#[trigger] toc.sessions@[h]),
            decreases toc.sessions.len() - i,
        {
            let s = &toc.sessions[i];
            let mut k: usize = 0;
            let mut any = false;
            while k < s.tracks.len()
                invariant
                    k <= s.tracks@.len(),
                    any == exists|j: int| 0 <= j < k && s.tracks@[j].track_type == TrackType::Audio,
                decreases s.tracks.len() - k,
            {
                if s.tracks[k].track_type == TrackType::Audio {
                    any = true;
                }
                k = k + 1;
            }
            if any {
                return Some(s);
            }
            i = i + 1;
        }
        None
    }
}

/// Reader of CD-i (Compact Disc Interactive) discs.
pub struct CdIReader;

impl CdIReader {
    /// Whether a disc is a CD-i disc. Detection is not implemented: no disc
    /// is recognised.
    pub fn is_cd_i(_toc: &CdToc) -> (r: bool)
        ensures
            !r,
    {
        false
    }
}


/// Whether `descs` holds the (track, control, start) of the first
/// descriptors of `raw`.
pub open spec fn descs_match(raw: Seq<u8>, descs: Seq<(u8, u8, u32)>) -> bool {
    forall|k: int|
        0 <= k < descs.len() ==> #[trigger] descs[k] == (
            raw[4 + 8 * k + 2],
            desc_control(raw, k),
            desc_start(raw, k),
        )
}

/// Reads the track descriptors of a response.
fn read_descriptors(raw_data: &[u8]) -> (r: Vec<(u8, u8, u32)>)
    requires
        raw_data@.len() >= 4,
    ensures
        r@.len() == descriptors(raw_data@),
        descs_match(raw_data@, r@),
{
    let toc_len = read_be_u16(raw_data, 0) as usize;
    let ghost raw = raw_data@;
    let ghost n = descriptors(raw);
    let mut descs: Vec<(u8, u8, u32)> = Vec::new();
    let mut offset: usize = 4;
    let len = raw_data.len();
    while len >= 8 && offset <= len - 8 && offset < toc_len + 2
        invariant
            raw == raw_data@,
            len == raw.len(),
            toc_len == raw[0] as nat * 256 + raw[1] as nat,
            n == descriptors(raw),
            offset == 4 + 8 * descs@.len(),
            descs@.len() + toc_count(len as nat, toc_len as nat, descs@.len()) == n,
            descs_match(raw, descs@),
        decreases len - offset,
    {
        let control_adr = raw_data[offset + 1];
        let track = raw_data[offset + 2];
        let start_lba = read_be_u32(raw_data, offset + 4);
        let ghost before = descs@;
        descs.push((track, control_adr, start_lba));
        proof {
            assert(descs@ =~= before.push((track, control_adr, start_lba)));
        }
        offset = offset + 8;
    }
    descs
}

/// The tracks that descriptors `descs` (all `n` of them) describe.
fn tracks_of(descs: &Vec<(u8, u8, u32)>, Ghost(raw): Ghost<Seq<u8>>) -> (r: Vec<TrackInfo>)
    requires
        descs@.len() == descriptors(raw),
        descs_match(raw, descs@),
        forall|j: int|
            0 <= j < descriptors(raw) - 1 ==> #[trigger] desc_start(raw, j) <= desc_start(raw, j + 1),
    ensures
        r@.len() == descs@.len(),
        forall|j: int| 0 <= j < r@.len() ==> #[trigger] r@[j] == desc_track(raw, descs@.len() as int, j),
{
    let nd = descs.len();
    let ghost n = nd as int;
    let mut tracks: Vec<TrackInfo> = Vec::new();
    let mut k: usize = 0;
    while k < nd
        invariant
            nd == descs@.len(),
            n == nd,
            n == descriptors(raw),
            k <= nd,
            tracks@.len() == k,
            descs_match(raw, descs@),
            forall|j: int| 0 <= j < n - 1 ==> #[trigger] desc_start(raw, j) <= desc_start(raw, j + 1),
            forall|j: int| 0 <= j < k ==> #[trigger] tracks@[j] == desc_track(raw, n, j),
        decreases nd - k,
    {
        let (track, c, start) = descs[k];
        proof {
            assert(descs@[k as int] == (raw[4 + 8 * k + 2], desc_control(raw, k as int), desc_start(raw, k as int)));
        }
        let (end, count): (u32, u64) = if k + 1 < nd {
            let e = descs[k + 1].2;
            proof {
                assert(descs@[k + 1] == (
                    raw[4 + 8 * (k + 1) + 2],
                    desc_control(raw, k + 1),
                    desc_start(raw, k + 1),
                ));
                assert(desc_start(raw, k as int) <= desc_start(raw, k + 1));
            }
            (e, (e - start) as u64)
        } else {
            (0, 0)
        };
        tracks.push(
            TrackInfo {
                track_number: track,
                start_lba: start,
                end_lba: end,
                sector_count: count,
                track_type: if c & 0x04 != 0 {
                    TrackType::Data
                } else {
                    TrackType::Audio
                },
                pre_emphasis: c & 0x01 != 0,
                copy_permitted: c & 0x02 != 0,
                channels: 2,
                isrc: None,
                title: None,
            },
        );
        proof {
            assert(tracks@[k as int] == desc_track(raw, n, k as int));
        }
        k = k + 1;
    }
    tracks
}

impl MultisessionReader {
    /// Parses a READ TOC response: a big-endian length, the first and last
    /// session numbers, then descriptors of 8 bytes (reserved, control/ADR,
    /// track number, reserved, big-endian start block). Every track goes to
    /// the first session; a track ends where the next one starts.
    pub fn parse_toc(raw_data: &[u8]) -> (r: Result<CdToc, DiskRipperError>)
        requires
            toc_parsable(raw_data@),
        ensures
            raw_data@.len() < 4 ==> (r matches Err(DiskRipperError::InvalidPath(m)) && m@
                == "TOC data too short"@),
            raw_data@.len() >= 4 ==> (r matches Ok(toc) && toc_matches(raw_data@, toc)),
    {
        if raw_data.len() < 4 {
            return Err(DiskRipperError::InvalidPath(owned("TOC data too short")));
        }
        let first_session = raw_data[2];
        let last_session = raw_data[3];
        let current_session = first_session;
        let descs = read_descriptors(raw_data);
        let tracks = tracks_of(&descs, Ghost(raw_data@));
        let nd = descs.len();
        let mut sessions: Vec<SessionInfo> = Vec::new();
        if nd > 0 {
            let start_lba = tracks[0].start_lba;
            sessions.push(
                SessionInfo {
                    session_number: current_session,
                    start_lba,
                    end_lba: 0,
                    track_count: nd as u8,
                    tracks,
                },
            );
        }
        Ok(
            CdToc {
                sessions,
                total_sessions: last_session - first_session + 1,
                total_tracks: nd as u8,
                lead_out_lba: 0,
            },
        )
    }
}

} // verus!
