//! What the Windows raw drive access computes from what the drive returns:
//! the filesystem announced by the first sectors and the track table.
use vstd::prelude::*;
use super::{has5, sig_cd001, sig_nsr02, sig_nsr03, is_cd001, is_nsr};
use crate::text::{chars_of, push_str, string_of, trim_end_char, trim_end_char_vec};

verus! {

/// A track of the table of contents.
#[derive(Debug, Clone, Copy)]
pub struct TocTrack {
    pub track_number: u8,
    pub control: u8,
    pub start_lba: u32,
}

/// The filesystem found on a disc.
#[derive(Debug, Clone, Copy, PartialEq, Eq, Structural)]
pub enum DiscFilesystem {
    Iso9660,
    Joliet,
    Udf,
    Hfs,
    Hybrid,
    Unknown,
}

/// What is known of the disc in a drive.
#[derive(Debug, Clone)]
pub struct DiscTypeInfo {
    pub filesystem: DiscFilesystem,
    pub total_size: u64,
    pub sector_count: u64,
    pub tracks: Vec<TocTrack>,
}

/// The filesystem that the data read from sector 16 on announces: the
/// volume descriptor identifier at byte 1 of that sector, `CD001` for
/// ISO 9660 (Joliet where the next sector, the supplementary descriptor,
/// carries `CD001` too) and `NSR02`/`NSR03` for UDF. Fewer than 16 bytes
/// announce nothing.
pub open spec fn pvd_filesystem(d: Seq<u8>) -> DiscFilesystem {
    if d.len() >= 0x10 {
        if has5(d, 0x1, sig_cd001()) {
            if d.len() >= 0x835 && has5(d, 0x801, sig_cd001()) {
                DiscFilesystem::Joliet
            } else {
                DiscFilesystem::Iso9660
            }
        } else if has5(d, 0x1, sig_nsr02()) || has5(d, 0x1, sig_nsr03()) {
            DiscFilesystem::Udf
        } else {
            DiscFilesystem::Unknown
        }
    } else {
        DiscFilesystem::Unknown
    }
}

/// The filesystem that the data read from sector 16 on announces.
pub fn classify_pvd(pvd_data: &[u8]) -> (r: DiscFilesystem)
    ensures
        r == pvd_filesystem(pvd_data@),
{
    let n = pvd_data.len();
    if n >= 0x10 {
        if is_cd001(pvd_data, 0x1) {
            if n >= 0x835 && is_cd001(pvd_data, 0x801) {
                DiscFilesystem::Joliet
            } else {
                DiscFilesystem::Iso9660
            }
        } else if is_nsr(pvd_data, 0x1) {
            DiscFilesystem::Udf
        } else {
            DiscFilesystem::Unknown
        }
    } else {
        DiscFilesystem::Unknown
    }
}

/// What is known of a disc: the filesystem that its sector 16 (the
/// primary volume descriptor) and what follows announce, its
/// size (0 where it could not be read) in bytes and in 2048-byte sectors,
/// and its tracks (none where they could not be read).
pub fn detect_disc_type(pvd_data: &[u8], disc_size: Option<u64>, toc: Option<Vec<TocTrack>>) -> (r:
    DiscTypeInfo)
    ensures
        r.filesystem == pvd_filesystem(pvd_data@),
        r.total_size == match disc_size {
            Some(s) => s,
            None => 0,
        },
        r.sector_count == r.total_size / 2048,
        r.tracks@ == match toc {
            Some(t) => t@,
            None => Seq::<TocTrack>::empty(),
        },
{
    let filesystem = classify_pvd(pvd_data);
    let total_size = match disc_size {
        Some(s) => s,
        None => 0,
    };
    let tracks = match toc {
        Some(t) => t,
        None => Vec::new(),
    };
    DiscTypeInfo { filesystem, total_size, sector_count: total_size / 2048, tracks }
}

/// The block of an MSF address `(frame, second, minute)`, less the two
/// seconds of lead-in.
pub open spec fn msf_block(frame: u8, second: u8, minute: u8) -> int {
    minute * 60 * 75 + second * 75 + frame - 150
}

/// The tracks of a Windows table of contents: tracks `first` to `last`,
/// those numbered up to 100, each from its entry (address bytes and
/// control) at index number - 1.
pub open spec fn msf_tracks(first: u8, last: u8, entries: Seq<([u8; 4], u8)>, n: int) -> Seq<TocTrack>
    decreases n,
{
    if n <= 0 {
        seq![]
    } else {
        let i = first + n - 1;
        let prev = msf_tracks(first, last, entries, n - 1);
        if i - 1 < 100 {
            let e = entries[i - 1];
            prev.push(
                TocTrack {
                    track_number: i as u8,
                    control: e.1,
                    start_lba: msf_block(e.0[0], e.0[1], e.0[2]) as u32,
                },
            )
        } else {
            prev
        }
    }
}

/// Number of tracks from `first` to `last`.
pub open spec fn track_span(first: u8, last: u8) -> int {
    if first <= last {
        last - first + 1
    } else {
        0
    }
}

/// The tracks of a Windows table of contents of up to 100 entries.
pub fn toc_from_msf(first: u8, last: u8, entries: &[([u8; 4], u8)]) -> (r: Vec<TocTrack>)
    requires
        entries@.len() == 100,
        first <= last ==> first >= 1,
        forall|k: int|
            0 <= k < track_span(first, last) && first + k - 1 < 100 ==> msf_block(
                #[trigger] entries@[first + k - 1].0[0],
                entries@[first + k - 1].0[1],
                entries@[first + k - 1].0[2],
            ) >= 0,
    ensures
        r@ == msf_tracks(first, last, entries@, track_span(first, last)),
{
    let mut tracks: Vec<TocTrack> = Vec::new();
    if first > last {
        return tracks;
    }
    let mut k: u16 = 0;
    let span: u16 = (last - first) as u16 + 1;
    while k < span
        invariant
            first <= last,
            first >= 1,
            span == track_span(first, last),
            k <= span,
            entries@.len() == 100,
            forall|q: int|
                0 <= q < track_span(first, last) && first + q - 1 < 100 ==> msf_block(
                    #[trigger] entries@[first + q - 1].0[0],
                    entries@[first + q - 1].0[1],
                    entries@[first + q - 1].0[2],
                ) >= 0,
            tracks@ == msf_tracks(first, last, entries@, k as int),
        decreases span - k,
    {
        let num: u8 = (first as u16 + k) as u8;
        let idx = (num - 1) as usize;
        if idx < 100 {
            let e = entries[idx];
            let a = e.0;
            proof {
                assert(msf_block(
                    entries@[first + k - 1].0[0],
                    entries@[first + k - 1].0[1],
                    entries@[first + k - 1].0[2],
                ) >= 0);
            }
            let lba = (a[2] as u32) * 60 * 75 + (a[1] as u32) * 75 + (a[0] as u32) - 150;
            tracks.push(TocTrack { track_number: num, control: e.1, start_lba: lba });
        }
        k = k + 1;
    }
    tracks
}

/// An ASCII letter.
pub open spec fn ascii_alpha(c: char) -> bool {
    ('a' <= c && c <= 'z') || ('A' <= c && c <= 'Z')
}

/// A character in upper case, where it is an ASCII lower-case letter.
pub open spec fn ascii_upper(c: char) -> char {
    if 'a' <= c && c <= 'z' {
        ((c as u32) - 32) as char
    } else {
        c
    }
}

/// The Windows device path that opens a drive raw: without trailing `\`,
/// a drive letter `d` (alone, or as `d:`) becomes `\\.\D:`; any other path
/// stays as it is.
pub open spec fn raw_device_text(drive_path: Seq<char>) -> Seq<char> {
    let clean = trim_end_char(drive_path, '\\');
    if clean.len() == 1 && ascii_alpha(clean[0]) {
        "\\\\.\\"@ + seq![ascii_upper(clean[0]), ':']
    } else if clean.len() == 2 && clean[1] == ':' && (clean[0] as u32) < 128 {
        "\\\\.\\"@ + seq![ascii_upper(clean[0]), ':']
    } else {
        clean
    }
}

/// A character in upper case, where it is an ASCII lower-case letter.
fn upper_ascii(c: char) -> (r: char)
    ensures
        r == ascii_upper(c),
{
    if 'a' <= c && c <= 'z' {
        let b: u8 = c as u8;
        (b - 32) as char
    } else {
        c
    }
}

/// The Windows device path that opens the drive `drive_path` raw.
pub fn raw_device_path(drive_path: &str) -> (r: String)
    ensures
        r@ == raw_device_text(drive_path@),
{
    let mut clean = chars_of(drive_path);
    trim_end_char_vec(&mut clean, '\\');
    let letter = clean.len() == 1 && (('a' <= clean[0] && clean[0] <= 'z') || ('A' <= clean[0] && clean[0] <= 'Z'));
    let with_colon = clean.len() == 2 && clean[1] == ':' && (clean[0] as u32) < 128;
    if letter || with_colon {
        let mut v: Vec<char> = Vec::new();
        push_str(&mut v, "\\\\.\\");
        v.push(upper_ascii(clean[0]));
        v.push(':');
        proof {
            assert(v@ =~= raw_device_text(drive_path@));
        }
        string_of(v.as_slice())
    } else {
        string_of(clean.as_slice())
    }
}

} // verus!
