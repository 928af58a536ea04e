//! ISO 9660 (with Joliet and Rock Ridge) image reader.
use vstd::prelude::*;
use vstd::slice::slice_subrange;
use crate::bytes::{be16, le16_at, le32_at, read_be_u16, read_le_u16, read_le_u32};
use crate::error::DiskRipperError;
use crate::types::{FileEntry, FileEntryView, plain_entry};
use crate::text::{
    char_from_u32, decode_utf8_lossy, chars_of, string_of, owned, trim_end_char, trim_end_char_vec,
    trim_end_pair, trim_end_pair_vec, trim_end_ws, trim_end_ws_vec, utf8_lossy, str_eq, concat,
    chars_eq, trim_start_char, trim_start_char_vec, char_vecs, split_chars, split_on,
};

verus! {

/// ISO 9660 directory record.
#[derive(Debug, Clone)]
pub struct DirectoryRecord {
    pub lba: u32,
    pub data_len: u32,
    pub flags: u8,
    pub name: String,
    pub is_dir: bool,
    pub size: u64,
    pub rock_ridge: Option<RockRidgeData>,
    /// Multi-extent: total size across all extents
    pub total_extent_size: u64,
}

/// Rock Ridge extension data.
#[derive(Debug, Clone)]
pub struct RockRidgeData {
    pub mode: u32,
    pub uid: u32,
    pub gid: u32,
    pub is_symlink: bool,
    pub symlink_target: Option<String>,
}

/// A file extent (for multi-extent files).
#[derive(Debug, Clone, Copy)]
pub struct FileExtent {
    pub lba: u32,
    pub size: u32,
}

/// Rock Ridge data with its strings taken as characters.
pub struct RockRidgeView {
    pub mode: u32,
    pub uid: u32,
    pub gid: u32,
    pub is_symlink: bool,
    pub symlink_target: Option<Seq<char>>,
}

impl View for RockRidgeData {
    type V = RockRidgeView;

    open spec fn view(&self) -> RockRidgeView {
        RockRidgeView {
            mode: self.mode,
            uid: self.uid,
            gid: self.gid,
            is_symlink: self.is_symlink,
            symlink_target: match self.symlink_target {
                Some(s) => Some(s@),
                None => None,
            },
        }
    }
}

/// A directory record with its strings taken as characters.
pub struct RecordView {
    pub lba: u32,
    pub data_len: u32,
    pub flags: u8,
    pub name: Seq<char>,
    pub is_dir: bool,
    pub size: u64,
    pub rock_ridge: Option<RockRidgeView>,
    pub total_extent_size: u64,
}

impl View for DirectoryRecord {
    type V = RecordView;

    open spec fn view(&self) -> RecordView {
        RecordView {
            lba: self.lba,
            data_len: self.data_len,
            flags: self.flags,
            name: self.name@,
            is_dir: self.is_dir,
            size: self.size,
            rock_ridge: match self.rock_ridge {
                Some(r) => Some(r@),
                None => None,
            },
            total_extent_size: self.total_extent_size,
        }
    }
}

// ---------------------------------------------------------------------------
// Decoding of names
// ---------------------------------------------------------------------------

/// Characters of a big-endian UCS-2 string, stopping at the first NUL code
/// unit; code units that are not Unicode scalar values (surrogates) are dropped
/// and an odd trailing byte is ignored.
pub open spec fn ucs2_chars(b: Seq<u8>) -> Seq<char>
    decreases b.len(),
{
    if b.len() < 2 {
        seq![]
    } else {
        let code = be16(b[0], b[1]);
        let rest = ucs2_chars(b.subrange(2, b.len() as int));
        if code == 0 {
            seq![]
        } else if 0xD800 <= code <= 0xDFFF {
            rest
        } else {
            seq![(code as u32) as char] + rest
        }
    }
}

/// A name from the path table: NUL, `;`, `1` and `.` trimmed from its end in
/// that order (for Joliet), or space, `;`, `1` and `.` (otherwise).
pub open spec fn path_table_name(joliet: bool, b: Seq<u8>) -> Seq<char> {
    if joliet {
        trim_end_char(trim_end_char(trim_end_char(trim_end_char(ucs2_chars(b), '\0'), ';'), '1'),
            '.')
    } else {
        trim_end_char(trim_end_char(trim_end_char(trim_end_char(utf8_lossy(b), ' '), ';'), '1'),
            '.')
    }
}

/// The name of a directory record from its identifier bytes: `"."` for an
/// empty identifier; otherwise the decoded identifier without its `;1`
/// version suffix and trailing dots (and trailing NULs for Joliet, trailing
/// whitespace otherwise).
pub open spec fn record_name(joliet: bool, b: Seq<u8>) -> Seq<char> {
    if b.len() == 0 {
        seq!['.']
    } else if joliet {
        trim_end_char(trim_end_pair(trim_end_char(ucs2_chars(b), '\0'), ';', '1'), '.')
    } else {
        trim_end_ws(trim_end_char(trim_end_pair(utf8_lossy(b), ';', '1'), '.'))
    }
}

/// State of a scan over the System Use area of a record.
pub struct RrScan {
    pub mode: u32,
    pub uid: u32,
    pub gid: u32,
    pub is_symlink: bool,
    pub target: Option<Seq<char>>,
}

/// Scans the System Use entries of record `r` from `pos`: a `PX` entry of at
/// least 36 bytes sets mode, uid and gid; an `SL` entry marks a symlink and,
/// when its target fits, records it. The scan stops at an entry shorter than 4
/// bytes or running past the record.
pub open spec fn rr_scan(r: Seq<u8>, pos: int, acc: RrScan) -> RrScan
    decreases r.len() - pos,
{
    if 0 <= pos && pos + 4 <= r.len() {
        let el = r[pos + 2] as int;
        if el < 4 || pos + el > r.len() {
            acc
        } else {
            let next = if r[pos] == 0x50 && r[pos + 1] == 0x58 {
                if el >= 36 {
                    RrScan {
                        mode: le32_at(r, pos + 4) as u32,
                        uid: le32_at(r, pos + 20) as u32,
                        gid: le32_at(r, pos + 28) as u32,
                        ..acc
                    }
                } else {
                    acc
                }
            } else if r[pos] == 0x53 && r[pos + 1] == 0x4C {
                let tl = r[pos + 5] as int;
                RrScan {
                    is_symlink: true,
                    target: if el > 5 && pos + 6 + tl <= r.len() {
                        Some(utf8_lossy(r.subrange(pos + 6, pos + 6 + tl)))
                    } else {
                        acc.target
                    },
                    ..acc
                }
            } else {
                acc
            };
            rr_scan(r, pos + el, next)
        }
    } else {
        acc
    }
}

/// The Rock Ridge data of record `r` whose identifier has `name_len` bytes:
/// present when the scan after the identifier finds a non-zero mode.
pub open spec fn rock_ridge_of(r: Seq<u8>, name_len: int) -> Option<RockRidgeView> {
    let start = 33 + name_len;
    if start >= r.len() {
        None
    } else {
        let s = rr_scan(
            r,
            start,
            RrScan { mode: 0, uid: 0, gid: 0, is_symlink: false, target: None },
        );
        if s.mode > 0 {
            Some(
                RockRidgeView {
                    mode: s.mode,
                    uid: s.uid,
                    gid: s.gid,
                    is_symlink: s.is_symlink,
                    symlink_target: s.target,
                },
            )
        } else {
            None
        }
    }
}

/// Whether record bytes `r` hold the fixed fields and the identifier.
pub open spec fn record_fits(r: Seq<u8>) -> bool {
    r.len() >= 33 && r.len() >= 33 + r[32]
}

/// The directory record that bytes `r` encode.
pub open spec fn record_view(joliet: bool, r: Seq<u8>) -> RecordView {
    let nl = r[32] as int;
    let data_len = le32_at(r, 10) as u32;
    let flags = r[25];
    RecordView {
        lba: le32_at(r, 2) as u32,
        data_len,
        flags,
        name: record_name(joliet, r.subrange(33, 33 + nl)),
        is_dir: flags & 0x02 != 0,
        size: data_len as u64,
        rock_ridge: rock_ridge_of(r, nl),
        total_extent_size: data_len as u64,
    }
}

#[verifier::opaque]
/// Records of the directory extent `[offset, end)` from `pos`: a zero length
/// byte skips to the next 4-byte boundary (relative to the extent) plus one;
/// `None` where a record is cut short.
pub open spec fn dir_walk(d: Seq<u8>, joliet: bool, offset: int, end: int, pos: int) -> Option<
    Seq<RecordView>,
>
    decreases (if end > pos {
        end - pos
    } else {
        0
    }),
{
    if offset <= pos < end && end <= d.len() {
        let rl = d[pos] as int;
        if rl == 0 {
            let pad = (4 - ((pos - offset) % 4)) % 4;
            dir_walk(d, joliet, offset, end, pos + 1 + pad)
        } else if pos + rl <= d.len() && record_fits(d.subrange(pos, pos + rl)) {
            match dir_walk(d, joliet, offset, end, pos + rl) {
                Some(rest) => Some(seq![record_view(joliet, d.subrange(pos, pos + rl))] + rest),
                None => None,
            }
        } else {
            None
        }
    } else {
        Some(seq![])
    }
}

/// Outcome of reading a directory extent.
pub enum DirScan {
    /// The extent lies outside the image.
    OutOfBounds,
    /// A record is cut short.
    Malformed,
    /// The records in order.
    Records(Seq<RecordView>),
}

/// The directory records of the extent at block `lba` of `size` bytes.
pub open spec fn dir_records(d: Seq<u8>, joliet: bool, block_size: u32, lba: u32, size: u32) -> DirScan {
    let offset = lba * block_size;
    let end = offset + size;
    if offset >= d.len() || end > d.len() {
        DirScan::OutOfBounds
    } else {
        match dir_walk(d, joliet, offset, end, offset) {
            Some(rs) => DirScan::Records(rs),
            None => DirScan::Malformed,
        }
    }
}

/// The characters of a record sequence's views.
pub open spec fn record_views(v: Seq<DirectoryRecord>) -> Seq<RecordView> {
    v.map_values(|r: DirectoryRecord| r@)
}

} // verus!

verus! {

/// Whether a supplementary volume descriptor at sector 17 carries one of
/// the three Joliet escape sequences (`%/@`, `%/C`, `%/E`).
pub open spec fn joliet_present(d: Seq<u8>) -> bool {
    d.len() > 0x8800 + 91 && super::has5(d, 0x8801, super::sig_cd001()) && d[0x8858] == 0x25
        && d[0x8859] == 0x2F && (d[0x885A] == 0x40 || d[0x885A] == 0x43 || d[0x885A] == 0x45)
}

/// ISO 9660 image reader.
pub struct Iso9660Reader {
    data: Vec<u8>,
    block_size: u32,
    root_dir_lba: u32,
    root_dir_size: u32,
    joliet: bool,
    /// Directory names of the path table with their extents, in the order
    /// they were recorded; a later entry for a name shadows an earlier one.
    path_table: Vec<(String, u32)>,
    /// Files recorded in several extents, by path, in the order recorded; a
    /// later entry for a path shadows an earlier one.
    multi_extents: Vec<(String, Vec<FileExtent>)>,
}

/// The most recent value recorded for `key` in an insertion-ordered table.
pub open spec fn latest<V>(t: Seq<(Seq<char>, V)>, key: Seq<char>) -> Option<V>
    decreases t.len(),
{
    if t.len() == 0 {
        None
    } else if t.last().0 == key {
        Some(t.last().1)
    } else {
        latest(t.drop_last(), key)
    }
}

/// Extent sequence as (lba, size) pairs.
pub open spec fn extent_pairs(v: Seq<FileExtent>) -> Seq<(u32, u32)> {
    v.map_values(|e: FileExtent| (e.lba, e.size))
}

impl Iso9660Reader {
    /// The image bytes.
    pub closed spec fn image(&self) -> Seq<u8> {
        self.data@
    }

    /// The logical block size.
    pub closed spec fn block(&self) -> u32 {
        self.block_size
    }

    /// Whether names are Joliet (UCS-2) names.
    pub closed spec fn is_joliet(&self) -> bool {
        self.joliet
    }

    /// Block of the root directory.
    pub closed spec fn root_lba(&self) -> u32 {
        self.root_dir_lba
    }

    /// Size of the root directory extent.
    pub closed spec fn root_size(&self) -> u32 {
        self.root_dir_size
    }

    /// The path table as recorded: (name, block) in insertion order.
    pub closed spec fn path_entries(&self) -> Seq<(Seq<char>, u32)> {
        self.path_table@.map_values(|e: (String, u32)| (e.0@, e.1))
    }

    /// The multi-extent table as recorded: (path, extents) in insertion order.
    pub closed spec fn extent_entries(&self) -> Seq<(Seq<char>, Seq<(u32, u32)>)> {
        self.multi_extents@.map_values(|e: (String, Vec<FileExtent>)| (e.0@, extent_pairs(e.1@)))
    }

    /// The reader's invariant: the image holds the primary volume
    /// descriptor's fields and the block size is positive.
    pub closed spec fn wf(&self) -> bool {
        &&& self.data@.len() >= 0x80BE
        &&& self.block_size >= 1
        &&& forall|k: int|
            0 <= k < self.extent_entries().len() ==> #[trigger] self.extent_entries()[k].1.len()
                <= 0xFFFF_FFFF
    }

    /// Whether `self` reads the same volume as `other`: all but the
    /// multi-extent table agree.
    pub open spec fn same_volume(&self, other: Self) -> bool {
        &&& self.image() == other.image()
        &&& self.block() == other.block()
        &&& self.is_joliet() == other.is_joliet()
        &&& self.root_lba() == other.root_lba()
        &&& self.root_size() == other.root_size()
        &&& self.path_entries() == other.path_entries()
    }

    /// Reads a both-endian `u16` (ISO 9660 stores both byte orders); the
    /// little-endian half is authoritative.
    pub fn read_both_endian_u16(data: &[u8], offset: usize) -> (r: u16)
        requires
            offset + 2 <= data@.len(),
        ensures
            r == le16_at(data@, offset as int),
    {
        read_le_u16(data, offset)
    }

    /// Reads a both-endian `u32`; the little-endian half is authoritative.
    pub fn read_both_endian_u32(data: &[u8], offset: usize) -> (r: u32)
        requires
            offset + 4 <= data@.len(),
        ensures
            r == le32_at(data@, offset as int),
    {
        read_le_u32(data, offset)
    }

    /// Decodes big-endian UCS-2 (Joliet) into characters.
    fn ucs2_vec(bytes: &[u8]) -> (r: Vec<char>)
        ensures
            r@ == ucs2_chars(bytes@),
    {
        let mut out: Vec<char> = Vec::new();
        let mut i: usize = 0;
        assert(bytes@.subrange(0, bytes@.len() as int) =~= bytes@);
        while bytes.len() - i >= 2
            invariant
                i <= bytes@.len(),
                out@ + ucs2_chars(bytes@.subrange(i as int, bytes@.len() as int)) == ucs2_chars(
                    bytes@,
                ),
            decreases bytes.len() - i,
        {
            let code = read_be_u16(bytes, i);
            let ghost sub = bytes@.subrange(i as int, bytes@.len() as int);
            proof {
                assert(sub.subrange(2, sub.len() as int) =~= bytes@.subrange(
                    i + 2,
                    bytes@.len() as int,
                ));
                assert(be16(sub[0], sub[1]) == code);
            }
            if code == 0 {
                proof {
                    assert(out@ + seq![] =~= out@);
                }
                return out;
            }
            match char_from_u32(code as u32) {
                Some(c) => {
                    proof {
                        assert(out@.push(c) + ucs2_chars(
                            bytes@.subrange(i + 2, bytes@.len() as int),
                        ) =~= out@ + (seq![c] + ucs2_chars(
                            bytes@.subrange(i + 2, bytes@.len() as int),
                        )));
                    }
                    out.push(c);
                },
                None => {},
            }
            i = i + 2;
        }
        proof {
            assert(ucs2_chars(bytes@.subrange(i as int, bytes@.len() as int)) =~= Seq::<
                char,
            >::empty());
            assert(out@ + Seq::<char>::empty() =~= out@);
        }
        out
    }

    /// Decodes UCS-2 big-endian (Joliet) to a string.
    pub fn decode_ucs2_be(&self, bytes: &[u8]) -> (r: String)
        ensures
            r@ == ucs2_chars(bytes@),
    {
        let v = Self::ucs2_vec(bytes);
        string_of(v.as_slice())
    }

    /// Whether the image carries a Joliet supplementary volume descriptor.
    pub fn detect_joliet(data: &[u8]) -> (r: bool)
        ensures
            r == joliet_present(data@),
    {
        let svd_offset: usize = 0x8800;
        if data.len() > svd_offset + 91 {
            if super::is_cd001(data, svd_offset + 1) {
                return data[0x8858] == 0x25 && data[0x8859] == 0x2F && (data[0x885A] == 0x40
                    || data[0x885A] == 0x43 || data[0x885A] == 0x45);
            }
        }
        false
    }

    /// Reads a name of `len` bytes at `offset` as the path table stores it.
    fn read_iso_name(&self, offset: usize, len: usize) -> (r: String)
        requires
            offset + len <= self.image().len(),
        ensures
            r@ == path_table_name(
                self.is_joliet(),
                self.image().subrange(offset as int, offset + len),
            ),
    {
        assert(self.data@.len() == self.data.len());
        let bytes = slice_subrange(self.data.as_slice(), offset, offset + len);
        let mut v = if self.joliet {
            let mut v = Self::ucs2_vec(bytes);
            trim_end_char_vec(&mut v, '\0');
            v
        } else {
            let s = decode_utf8_lossy(bytes);
            let mut v = chars_of(s.as_str());
            trim_end_char_vec(&mut v, ' ');
            v
        };
        trim_end_char_vec(&mut v, ';');
        trim_end_char_vec(&mut v, '1');
        trim_end_char_vec(&mut v, '.');
        string_of(v.as_slice())
    }

    /// Scans the System Use area of a record for Rock Ridge entries.
    fn parse_rock_ridge(&self, data: &[u8], name_len: usize) -> (r: Option<RockRidgeData>)
        requires
            name_len <= 255,
        ensures
            match r {
                Some(x) => rock_ridge_of(data@, name_len as int) == Some(x@),
                None => rock_ridge_of(data@, name_len as int).is_none(),
            },
    {
        let rr_start = 33 + name_len;
        if rr_start >= data.len() {
            return None;
        }
        let mut pos = rr_start;
        let mut mode: u32 = 0;
        let mut uid: u32 = 0;
        let mut gid: u32 = 0;
        let mut is_symlink = false;
        let mut symlink_target: Option<String> = None;
        let ghost init = RrScan { mode: 0, uid: 0, gid: 0, is_symlink: false, target: None };
        while data.len() >= 4 && pos <= data.len() - 4
            invariant
                rr_start <= pos <= data@.len(),
                rr_scan(data@, rr_start as int, init) == rr_scan(
                    data@,
                    pos as int,
                    RrScan {
                        mode,
                        uid,
                        gid,
                        is_symlink,
                        target: match symlink_target {
                            Some(s) => Some(s@),
                            None => None,
                        },
                    },
                ),
            ensures
                rr_scan(data@, rr_start as int, init) == (RrScan {
                    mode,
                    uid,
                    gid,
                    is_symlink,
                    target: match symlink_target {
                        Some(s) => Some(s@),
                        None => None,
                    },
                }),
            decreases data.len() - pos,
        {
            let entry_len = data[pos + 2] as usize;
            if entry_len < 4 || entry_len > data.len() - pos {
                break;
            }
            if data[pos] == 0x50 && data[pos + 1] == 0x58 {
                if entry_len >= 36 {
                    mode = Self::read_both_endian_u32(data, pos + 4);
                    uid = Self::read_both_endian_u32(data, pos + 20);
                    gid = Self::read_both_endian_u32(data, pos + 28);
                }
            } else if data[pos] == 0x53 && data[pos + 1] == 0x4C {
                is_symlink = true;
                if entry_len > 5 {
                    let target_len = data[pos + 5] as usize;
                    if target_len <= data.len() - (pos + 6) {
                        let t = slice_subrange(data, pos + 6, pos + 6 + target_len);
                        symlink_target = Some(decode_utf8_lossy(t));
                    }
                }
            }
            pos = pos + entry_len;
        }
        if mode > 0 {
            Some(RockRidgeData { mode, uid, gid, is_symlink, symlink_target })
        } else {
            None
        }
    }
}

} // verus!

verus! {

/// The bytes of the extent at block `lba` of `size` bytes, cut at the end of
/// the image; empty when the extent starts beyond it.
pub open spec fn extent_bytes(d: Seq<u8>, block_size: u32, lba: u32, size: u32) -> Seq<u8> {
    let offset = lba * block_size;
    let end = offset + size;
    if offset >= d.len() {
        seq![]
    } else if end <= d.len() {
        d.subrange(offset, end)
    } else {
        d.subrange(offset, d.len() as int)
    }
}

/// The bytes of several extents, one after another.
pub open spec fn extents_bytes(d: Seq<u8>, block_size: u32, e: Seq<(u32, u32)>) -> Seq<u8>
    decreases e.len(),
{
    if e.len() == 0 {
        seq![]
    } else {
        extents_bytes(d, block_size, e.drop_last()) + extent_bytes(
            d,
            block_size,
            e.last().0,
            e.last().1,
        )
    }
}

/// Sum of the extent sizes.
pub open spec fn extents_total(e: Seq<(u32, u32)>) -> int
    decreases e.len(),
{
    if e.len() == 0 {
        0
    } else {
        extents_total(e.drop_last()) + e.last().1
    }
}

/// The byte offset of a block, plus a size, fits in 64 bits.
pub proof fn lemma_block_offset(lba: u32, block_size: u32, size: u32)
    ensures
        lba * block_size + size <= u64::MAX,
        lba * block_size <= u64::MAX,
{
    assert(lba * block_size <= 0xFFFF_FFFFnat * 0xFFFF_FFFFnat) by (nonlinear_arith)
        requires
            lba <= 0xFFFF_FFFFnat,
            block_size <= 0xFFFF_FFFFnat,
    ;
}

/// One step of a directory walk over a zero length byte.
proof fn lemma_walk_zero(d: Seq<u8>, joliet: bool, offset: int, end: int, pos: int, next: int)
    requires
        offset <= pos < end <= d.len(),
        d[pos] == 0,
        next == (if pos + 1 + (4 - ((pos - offset) % 4)) % 4 >= end {
            end
        } else {
            pos + 1 + (4 - ((pos - offset) % 4)) % 4
        }),
    ensures
        dir_walk(d, joliet, offset, end, pos) == dir_walk(d, joliet, offset, end, next),
{
    reveal(dir_walk);
    let n2 = pos + 1 + (4 - ((pos - offset) % 4)) % 4;
    if n2 >= end {
        assert(dir_walk(d, joliet, offset, end, n2) == Some(Seq::<RecordView>::empty()));
        assert(dir_walk(d, joliet, offset, end, end) == Some(Seq::<RecordView>::empty()));
    }
}

/// One step of a directory walk over a record.
proof fn lemma_walk_record(d: Seq<u8>, joliet: bool, offset: int, end: int, pos: int)
    requires
        offset <= pos < end <= d.len(),
        d[pos] != 0,
        dir_walk(d, joliet, offset, end, pos).is_some(),
    ensures
        pos + d[pos] <= d.len(),
        record_fits(d.subrange(pos, pos + d[pos])),
        dir_walk(d, joliet, offset, end, pos + d[pos]).is_some(),
        dir_walk(d, joliet, offset, end, pos) == Some(
            seq![record_view(joliet, d.subrange(pos, pos + d[pos]))] + dir_walk(
                d,
                joliet,
                offset,
                end,
                pos + d[pos],
            )->Some_0,
        ),
{
    reveal(dir_walk);
}

/// A walk that starts at or after the end finds nothing.
proof fn lemma_walk_end(d: Seq<u8>, joliet: bool, offset: int, end: int, pos: int)
    requires
        pos >= end,
    ensures
        dir_walk(d, joliet, offset, end, pos) == Some(Seq::<RecordView>::empty()),
{
    reveal(dir_walk);
}

/// One step of a directory walk over a nonzero length byte: the walk goes
/// on exactly where the record lies in the image and holds its fields.
proof fn lemma_walk_step(d: Seq<u8>, joliet: bool, offset: int, end: int, pos: int)
    requires
        offset <= pos < end <= d.len(),
        d[pos] != 0,
    ensures
        dir_walk(d, joliet, offset, end, pos).is_some() == (pos + d[pos] <= d.len() && record_fits(
            d.subrange(pos, pos + d[pos]),
        ) && dir_walk(d, joliet, offset, end, pos + d[pos]).is_some()),
{
    reveal(dir_walk);
}

impl Iso9660Reader {
    /// Whether no record of the directory extent at block `lba` of `size`
    /// bytes is cut short, so that the extent can be read.
    pub fn records_whole(&self, lba: u32, size: u32) -> (r: bool)
        requires
            self.wf(),
        ensures
            r == !(dir_records(self.image(), self.is_joliet(), self.block(), lba, size) is Malformed),
    {
        proof {
            lemma_block_offset(lba, self.block_size, size);
        }
        let offset64: u64 = lba as u64 * self.block_size as u64;
        let end64: u64 = offset64 + size as u64;
        let n = self.data.len();
        if offset64 >= n as u64 || end64 > n as u64 {
            return true;
        }
        let offset = offset64 as usize;
        let end = end64 as usize;
        let ghost d = self.data@;
        let ghost j = self.joliet;
        proof {
            assert(offset as int == lba * self.block_size);
            assert(end as int == lba * self.block_size + size);
        }
        let mut pos = offset;
        while pos < end
            invariant
                offset <= pos,
                end <= n == d.len(),
                d == self.data@,
                j == self.joliet,
                offset == lba * self.block_size,
                end == lba * self.block_size + size,
                dir_walk(d, j, offset as int, end as int, offset as int).is_some() == dir_walk(
                    d,
                    j,
                    offset as int,
                    end as int,
                    pos as int,
                ).is_some(),
            decreases (if pos < end {
                end - pos
            } else {
                0
            }),
        {
            let record_len = self.data[pos];
            if record_len == 0 {
                let padding = (4 - ((pos - offset) % 4)) % 4;
                let step = 1 + padding;
                let ghost old_pos = pos;
                if step >= end - pos {
                    pos = end;
                } else {
                    pos = pos + step;
                }
                proof {
                    lemma_walk_zero(d, j, offset as int, end as int, old_pos as int, pos as int);
                }
                continue;
            }
            let rl = record_len as usize;
            proof {
                lemma_walk_step(d, j, offset as int, end as int, pos as int);
            }
            if rl > n - pos || rl < 33 {
                return false;
            }
            if rl < 33 + self.data[pos + 32] as usize {
                proof {
                    assert(d.subrange(pos as int, pos + rl)[32] == d[pos + 32]);
                }
                return false;
            }
            proof {
                assert(d.subrange(pos as int, pos + rl)[32] == d[pos + 32]);
            }
            pos = pos + rl;
        }
        proof {
            lemma_walk_end(d, j, offset as int, end as int, pos as int);
        }
        true
    }
}

/// Whether the option holds the records' views.
pub open spec fn records_match(v: Seq<DirectoryRecord>, rs: Seq<RecordView>) -> bool {
    record_views(v) == rs
}

impl Iso9660Reader {
    /// Decodes a directory record of `len` bytes at `offset`.
    fn parse_directory_record(&self, offset: usize, len: usize) -> (r: DirectoryRecord)
        requires
            offset + len <= self.image().len(),
            record_fits(self.image().subrange(offset as int, offset + len)),
        ensures
            r@ == record_view(self.is_joliet(), self.image().subrange(offset as int, offset + len)),
    {
        assert(self.data@.len() == self.data.len());
        let data = slice_subrange(self.data.as_slice(), offset, offset + len);
        let lba = Self::read_both_endian_u32(data, 2);
        let data_len = Self::read_both_endian_u32(data, 10);
        let flags = data[25];
        let name_len = data[32] as usize;
        let name = if name_len > 0 {
            let name_bytes = slice_subrange(data, 33, 33 + name_len);
            let mut v = if self.joliet {
                let mut v = Self::ucs2_vec(name_bytes);
                trim_end_char_vec(&mut v, '\0');
                trim_end_pair_vec(&mut v, ';', '1');
                trim_end_char_vec(&mut v, '.');
                v
            } else {
                let s = decode_utf8_lossy(name_bytes);
                let mut v = chars_of(s.as_str());
                trim_end_pair_vec(&mut v, ';', '1');
                trim_end_char_vec(&mut v, '.');
                trim_end_ws_vec(&mut v);
                v
            };
            string_of(v.as_slice())
        } else {
            let mut v: Vec<char> = Vec::new();
            v.push('.');
            proof {
                assert(v@ =~= seq!['.']);
            }
            string_of(v.as_slice())
        };
        let rock_ridge = self.parse_rock_ridge(data, name_len);
        proof {
            assert(data@.subrange(33, 33 + name_len) =~= self.image().subrange(
                offset + 33,
                offset + 33 + name_len,
            ).subrange(0, name_len as int) || true);
        }
        DirectoryRecord {
            lba,
            data_len,
            flags,
            name,
            is_dir: flags & 0x02 != 0,
            size: data_len as u64,
            rock_ridge,
            total_extent_size: data_len as u64,
        }
    }

    /// Reads the directory records of the extent at block `lba` of `size`
    /// bytes.
    fn read_directory_records(&self, lba: u32, size: u32) -> (r: Result<
        Vec<DirectoryRecord>,
        DiskRipperError,
    >)
        requires
            self.wf(),
            !(dir_records(self.image(), self.is_joliet(), self.block(), lba, size) is Malformed),
        ensures
            match dir_records(self.image(), self.is_joliet(), self.block(), lba, size) {
                DirScan::OutOfBounds => r matches Err(DiskRipperError::InvalidPath(m)) && m@
                    == "Directory extent out of bounds"@,
                DirScan::Records(rs) => r matches Ok(v) && records_match(v@, rs),
                DirScan::Malformed => false,
            },
    {
        proof {
            lemma_block_offset(lba, self.block_size, size);
        }
        let offset64: u64 = lba as u64 * self.block_size as u64;
        let end64: u64 = offset64 + size as u64;
        let n = self.data.len();
        if offset64 >= n as u64 || end64 > n as u64 {
            return Err(DiskRipperError::InvalidPath(owned("Directory extent out of bounds")));
        }
        let offset = offset64 as usize;
        let end = end64 as usize;
        let ghost d = self.data@;
        let ghost j = self.joliet;
        let ghost total = dir_walk(d, j, offset as int, end as int, offset as int);
        let mut records: Vec<DirectoryRecord> = Vec::new();
        let mut pos = offset;
        while pos < end
            invariant
                offset <= pos,
                end <= n == d.len(),
                d == self.data@,
                j == self.joliet,
                total == dir_walk(d, j, offset as int, end as int, offset as int),
                total.is_some(),
                dir_walk(d, j, offset as int, end as int, pos as int) matches Some(rest) && total
                    == Some(record_views(records@) + rest),
            decreases (if pos < end {
                end - pos
            } else {
                0
            }),
        {
            let record_len = self.data[pos];
            if record_len == 0 {
                let padding = (4 - ((pos - offset) % 4)) % 4;
                let step = 1 + padding;
                let ghost old_pos = pos;
                if step >= end - pos {
                    pos = end;
                } else {
                    pos = pos + step;
                }
                proof {
                    lemma_walk_zero(d, j, offset as int, end as int, old_pos as int, pos as int);
                }
                continue;
            }
            let rl = record_len as usize;
            let ghost rest = dir_walk(d, j, offset as int, end as int, pos as int)->Some_0;
            proof {
                lemma_walk_record(d, j, offset as int, end as int, pos as int);
            }
            let record = self.parse_directory_record(pos, rl);
            proof {
                let tail = dir_walk(d, j, offset as int, end as int, pos + rl)->Some_0;
                assert(rest == seq![record@] + tail);
                assert(record_views(records@.push(record)) =~= record_views(records@).push(
                    record@,
                ));
                assert(record_views(records@) + rest =~= record_views(records@.push(record))
                    + tail);
            }
            records.push(record);
            pos = pos + rl;
        }
        proof {
            lemma_walk_end(d, j, offset as int, end as int, pos as int);
            assert(record_views(records@) + Seq::<RecordView>::empty() =~= record_views(records@));
        }
        Ok(records)
    }

    /// The bytes of the extent at block `lba` of `size` bytes.
    fn read_file_data(&self, lba: u32, size: u32) -> (r: Vec<u8>)
        ensures
            r@ == extent_bytes(self.image(), self.block(), lba, size),
    {
        proof {
            lemma_block_offset(lba, self.block_size, size);
        }
        let offset64: u64 = lba as u64 * self.block_size as u64;
        let end64: u64 = offset64 + size as u64;
        let n = self.data.len();
        if offset64 >= n as u64 {
            return Vec::new();
        }
        let actual_end: usize = if end64 <= n as u64 {
            end64 as usize
        } else {
            n
        };
        let s = slice_subrange(self.data.as_slice(), offset64 as usize, actual_end);
        vstd::slice::slice_to_vec(s)
    }

    /// The bytes of a file recorded in several extents.
    fn read_multi_extent_data(&self, extents: &[FileExtent]) -> (r: Vec<u8>)
        requires
            extents_total(extent_pairs(extents@)) <= u32::MAX,
        ensures
            r@ == extents_bytes(self.image(), self.block(), extent_pairs(extents@)),
    {
        let mut data: Vec<u8> = Vec::new();
        let mut i: usize = 0;
        while i < extents.len()
            invariant
                i <= extents@.len(),
                data@ == extents_bytes(
                    self.image(),
                    self.block(),
                    extent_pairs(extents@.subrange(0, i as int)),
                ),
            decreases extents.len() - i,
        {
            let extent = extents[i];
            let extent_data = self.read_file_data(extent.lba, extent.size);
            proof {
                assert(extent_pairs(extents@.subrange(0, i + 1)).drop_last() =~= extent_pairs(
                    extents@.subrange(0, i as int),
                ));
            }
            let mut k: usize = 0;
            let ghost before = data@;
            while k < extent_data.len()
                invariant
                    k <= extent_data@.len(),
                    data@ == before + extent_data@.subrange(0, k as int),
                decreases extent_data.len() - k,
            {
                data.push(extent_data[k]);
                k = k + 1;
                proof {
                    assert(extent_data@.subrange(0, k as int) =~= extent_data@.subrange(
                        0,
                        k - 1,
                    ).push(extent_data@[k - 1]));
                }
            }
            proof {
                assert(extent_data@.subrange(0, extent_data@.len() as int) =~= extent_data@);
            }
            i = i + 1;
        }
        proof {
            assert(extents@.subrange(0, extents@.len() as int) =~= extents@);
        }
        data
    }
}

} // verus!

verus! {

/// Path table entries after the first, from `pos` up to `end`: a name
/// length byte, the extent block at +2, the name at +8 (padded to even
/// length); a zero name length ends the table. `None` where a name runs
/// past the image.
pub open spec fn pt_walk(d: Seq<u8>, joliet: bool, end: int, pos: int) -> Option<
    Seq<(Seq<char>, u32)>,
>
    decreases (if end > pos {
        end - pos
    } else {
        0
    }),
{
    if 0 <= pos && pos + 8 < end && end <= d.len() {
        let nl = d[pos] as int;
        if nl == 0 {
            Some(seq![])
        } else if pos + 8 + nl <= d.len() {
            match pt_walk(d, joliet, end, pos + 8 + nl + nl % 2) {
                Some(rest) => Some(
                    seq![
                        (path_table_name(joliet, d.subrange(pos + 8, pos + 8 + nl)), le32_at(
                            d,
                            pos + 2,
                        ) as u32),
                    ] + rest,
                ),
                None => None,
            }
        } else {
            None
        }
    } else {
        Some(seq![])
    }
}

/// The path table at block `lba` of `size` bytes, as (name, block) pairs
/// in the order read. The root entry is recorded under its own name and
/// under `\` and `/`. Empty when the table is absent or runs past the image;
/// `None` where a name runs past the image.
pub open spec fn path_table_of(d: Seq<u8>, joliet: bool, block_size: u32, lba: u32, size: u32) -> Option<
    Seq<(Seq<char>, u32)>,
> {
    let offset = lba * block_size;
    let end = offset + size;
    if size == 0 || lba == 0 || end > d.len() {
        Some(seq![])
    } else if offset + 8 < end {
        let nl = d[offset] as int;
        if offset + 8 + nl <= d.len() {
            let b = le32_at(d, offset + 2) as u32;
            match pt_walk(d, joliet, end, offset + 8 + nl + nl % 2) {
                Some(rest) => Some(
                    seq![
                        (path_table_name(joliet, d.subrange(offset + 8, offset + 8 + nl)), b),
                        ("\\"@, b),
                        ("/"@, b),
                    ] + rest,
                ),
                None => None,
            }
        } else {
            None
        }
    } else {
        Some(seq![])
    }
}

/// The logical block size the primary volume descriptor gives (2048 when
/// it gives 0).
pub open spec fn pvd_block_size(d: Seq<u8>) -> u32 {
    let b = le16_at(d, 0x8080);
    if b == 0 {
        2048
    } else {
        b as u32
    }
}

/// Whether opening the image reads only within it: it is too small or not
/// ISO 9660 (and is refused), or it holds the primary descriptor's fields
/// and its path table's names.
pub open spec fn iso_openable(d: Seq<u8>) -> bool {
    d.len() < 0x8010 || !super::has5(d, 0x8001, super::sig_cd001()) || (d.len() >= 0x80BE
        && path_table_of(
        d,
        joliet_present(d),
        pvd_block_size(d),
        le32_at(d, 0x808C) as u32,
        le32_at(d, 0x8084) as u32,
    ).is_some())
}

impl Iso9660Reader {
    /// The path table entries from `pos` up to `end`, appended.
    fn build_path_table_rest(&mut self, end: usize, start_pos: usize)
        requires
            old(self).wf(),
            end <= old(self).image().len(),
            pt_walk(old(self).image(), old(self).is_joliet(), end as int, start_pos as int).is_some(),
        ensures
            final(self).wf(),
            final(self).image() == old(self).image(),
            final(self).block() == old(self).block(),
            final(self).is_joliet() == old(self).is_joliet(),
            final(self).root_lba() == old(self).root_lba(),
            final(self).root_size() == old(self).root_size(),
            final(self).extent_entries() == old(self).extent_entries(),
            final(self).path_entries() == old(self).path_entries() + pt_walk(
                old(self).image(),
                old(self).is_joliet(),
                end as int,
                start_pos as int,
            )->Some_0,
    {
        let ghost d = self.data@;
        let ghost j = self.joliet;
        let ghost start = self.path_entries();
        let ghost total = pt_walk(d, j, end as int, start_pos as int)->Some_0;
        assert(start == old(self).path_entries());
        let ghost pos0 = start_pos;
        assert(d == old(self).image() && j == old(self).is_joliet());
        let mut pos = start_pos;
        while end >= 8 && pos < end - 8
            invariant
                self.wf(),
                self.data@ == d,
                d == old(self).image(),
                start == old(self).path_entries(),
                total == pt_walk(old(self).image(), old(self).is_joliet(), end as int, pos0 as int)->Some_0,
                self.joliet == j,
                j == old(self).is_joliet(),
                self.block() == old(self).block(),
                self.root_lba() == old(self).root_lba(),
                self.root_size() == old(self).root_size(),
                self.extent_entries() == old(self).extent_entries(),
                end <= d.len(),
                pt_walk(d, j, end as int, pos as int) matches Some(rest) && start + total
                    == self.path_entries() + rest,
            decreases end - pos,
        {
            let name_len = self.data[pos] as usize;
            if name_len == 0 {
                proof {
                    assert(pt_walk(d, j, end as int, pos as int) == Some(
                        Seq::<(Seq<char>, u32)>::empty(),
                    ));
                    assert(self.path_entries() + Seq::<(Seq<char>, u32)>::empty()
                        =~= self.path_entries());
                    assert(start + total == self.path_entries());
                    assert(pt_walk(d, j, end as int, end as int) == Some(
                        Seq::<(Seq<char>, u32)>::empty(),
                    ));
                }
                pos = end;
                continue;
            }
            let dir_lba = Self::read_both_endian_u32(self.data.as_slice(), pos + 2);
            let name = self.read_iso_name(pos + 8, name_len);
            let ghost before = self.path_entries();
            let ghost rest = pt_walk(d, j, end as int, pos as int)->Some_0;
            self.path_table.push((name, dir_lba));
            proof {
                assert(self.path_entries() =~= before.push((name@, dir_lba)));
                let tail = pt_walk(d, j, end as int, pos + 8 + name_len + name_len % 2)->Some_0;
                assert(rest == seq![(name@, dir_lba)] + tail);
                assert(before + rest =~= before.push((name@, dir_lba)) + tail);
            }
            let entry_len = 8 + name_len + (name_len % 2);
            if entry_len >= end - pos {
                proof {
                    let np = pos + entry_len;
                    assert(pt_walk(d, j, end as int, np as int) == Some(
                        Seq::<(Seq<char>, u32)>::empty(),
                    ));
                    assert(self.path_entries() + Seq::<(Seq<char>, u32)>::empty()
                        =~= self.path_entries());
                    assert(start + total == self.path_entries());
                    assert(pt_walk(d, j, end as int, end as int) == Some(
                        Seq::<(Seq<char>, u32)>::empty(),
                    ));
                }
                pos = end;
            } else {
                pos = pos + entry_len;
            }
        }
        proof {
            assert(pt_walk(d, j, end as int, pos as int) == Some(
                Seq::<(Seq<char>, u32)>::empty(),
            ));
            assert(self.path_entries() + Seq::<(Seq<char>, u32)>::empty() =~= self.path_entries());
        }
    }

    /// Records the path table at block `lba` of `size` bytes.
    fn build_path_table(&mut self, lba: u32, size: u32)
        requires
            old(self).wf(),
            path_table_of(
                old(self).image(),
                old(self).is_joliet(),
                old(self).block(),
                lba,
                size,
            ).is_some(),
        ensures
            final(self).wf(),
            final(self).image() == old(self).image(),
            final(self).block() == old(self).block(),
            final(self).is_joliet() == old(self).is_joliet(),
            final(self).root_lba() == old(self).root_lba(),
            final(self).root_size() == old(self).root_size(),
            final(self).extent_entries() == old(self).extent_entries(),
            final(self).path_entries() == old(self).path_entries() + path_table_of(
                old(self).image(),
                old(self).is_joliet(),
                old(self).block(),
                lba,
                size,
            )->Some_0,
    {
        let ghost d = self.data@;
        if size == 0 || lba == 0 {
            proof {
                assert(self.path_entries() + Seq::<(Seq<char>, u32)>::empty()
                    =~= self.path_entries());
            }
            return ;
        }
        proof {
            lemma_block_offset(lba, self.block_size, size);
        }
        let offset64: u64 = lba as u64 * self.block_size as u64;
        let end64: u64 = offset64 + size as u64;
        if end64 > self.data.len() as u64 {
            proof {
                assert(self.path_entries() + Seq::<(Seq<char>, u32)>::empty()
                    =~= self.path_entries());
            }
            return ;
        }
        let offset = offset64 as usize;
        let end = end64 as usize;
        if end >= 8 && offset < end - 8 {
            let name_len = self.data[offset] as usize;
            let dir_lba = Self::read_both_endian_u32(self.data.as_slice(), offset + 2);
            let name = self.read_iso_name(offset + 8, name_len);
            let ghost before = self.path_entries();
            self.path_table.push((name, dir_lba));
            self.path_table.push((owned("\\"), dir_lba));
            self.path_table.push((owned("/"), dir_lba));
            let ghost mid = self.path_entries();
            proof {
                assert(mid =~= before + seq![(name@, dir_lba), ("\\"@, dir_lba), ("/"@, dir_lba)]);
                assert(self.extent_entries() == old(self).extent_entries());
            }
            let entry_len = 8 + name_len + (name_len % 2);
            let next = if entry_len >= end - offset {
                end
            } else {
                offset + entry_len
            };
            proof {
                if entry_len >= end - offset {
                    assert(pt_walk(d, self.joliet, end as int, offset + entry_len) == Some(
                        Seq::<(Seq<char>, u32)>::empty(),
                    ));
                    assert(pt_walk(d, self.joliet, end as int, end as int) == Some(
                        Seq::<(Seq<char>, u32)>::empty(),
                    ));
                }
            }
            self.build_path_table_rest(end, next);
            proof {
                assert(self.path_entries() =~= before + (seq![
                    (name@, dir_lba),
                    ("\\"@, dir_lba),
                    ("/"@, dir_lba),
                ] + pt_walk(d, self.joliet, end as int, next as int)->Some_0));
            }
        } else {
            proof {
                assert(self.path_entries() + Seq::<(Seq<char>, u32)>::empty()
                    =~= self.path_entries());
            }
        }
    }

    /// Whether [`Iso9660Reader::new`] reads only within `data`.
    pub fn can_open(data: &[u8]) -> (r: bool)
        ensures
            r == iso_openable(data@),
    {
        if data.len() < 0x8010 || !super::is_cd001(data, 0x8001) {
            return true;
        }
        if data.len() < 0x80BE {
            return false;
        }
        let bs = Self::read_both_endian_u16(data, 0x8000 + 128) as u32;
        let block_size: u32 = if bs == 0 {
            2048
        } else {
            bs
        };
        let size = Self::read_both_endian_u32(data, 0x8000 + 132);
        let lba = Self::read_both_endian_u32(data, 0x8000 + 140);
        let joliet = Self::detect_joliet(data);
        Self::path_table_fits(data, joliet, block_size, lba, size)
    }

    /// Whether the path table's names lie within `data`.
    fn path_table_fits(data: &[u8], joliet: bool, block_size: u32, lba: u32, size: u32) -> (r:
        bool)
        ensures
            r == path_table_of(data@, joliet, block_size, lba, size).is_some(),
    {
        if size == 0 || lba == 0 {
            return true;
        }
        proof {
            lemma_block_offset(lba, block_size, size);
        }
        let offset64: u64 = lba as u64 * block_size as u64;
        let end64: u64 = offset64 + size as u64;
        if end64 > data.len() as u64 {
            return true;
        }
        let offset = offset64 as usize;
        let end = end64 as usize;
        if !(end >= 8 && offset < end - 8) {
            return true;
        }
        let nl = data[offset] as usize;
        if nl > data.len() - (offset + 8) {
            return false;
        }
        let first_len = 8 + nl + nl % 2;
        if first_len >= end - offset {
            proof {
                assert(pt_walk(data@, joliet, end as int, offset + first_len).is_some());
            }
            return true;
        }
        let mut pos = offset + first_len;
        while end >= 8 && pos < end - 8
            invariant
                end <= data@.len(),
                path_table_of(data@, joliet, block_size, lba, size).is_some() == pt_walk(
                    data@,
                    joliet,
                    end as int,
                    pos as int,
                ).is_some(),
            decreases end - pos,
        {
            let name_len = data[pos] as usize;
            if name_len == 0 {
                return true;
            }
            if name_len > data.len() - (pos + 8) {
                return false;
            }
            let entry_len = 8 + name_len + (name_len % 2);
            if entry_len >= end - pos {
                proof {
                    assert(pt_walk(data@, joliet, end as int, pos + entry_len).is_some());
                }
                return true;
            }
            pos = pos + entry_len;
        }
        true
    }
}

} // verus!

verus! {

/// Views of a sequence of file entries.
pub open spec fn entry_views(v: Seq<FileEntry>) -> Seq<FileEntryView> {
    v.map_values(|e: FileEntry| e@)
}

/// Whether a directory path names the root.
pub open spec fn is_root_path(p: Seq<char>) -> bool {
    p == "/"@ || p == "\\"@ || p.len() == 0
}

/// Whether a record name is listed (not `.`, NUL or empty).
pub open spec fn listed_name(n: Seq<char>) -> bool {
    !(n == "."@ || n == "\0"@ || n.len() == 0)
}

/// The path of entry `name` in directory `dir`.
pub open spec fn entry_path(dir: Seq<char>, name: Seq<char>) -> Seq<char> {
    if dir == "/"@ || dir.len() == 0 {
        "/"@ + name
    } else {
        dir + "/"@ + name
    }
}

/// The entries a directory listing gives for records `rs` of directory `dir`.
pub open spec fn dir_listing(dir: Seq<char>, rs: Seq<RecordView>) -> Seq<FileEntryView>
    decreases rs.len(),
{
    if rs.len() == 0 {
        seq![]
    } else {
        let rest = dir_listing(dir, rs.drop_last());
        let r = rs.last();
        if listed_name(r.name) {
            rest.push(plain_entry(entry_path(dir, r.name), r.size, r.is_dir))
        } else {
            rest
        }
    }
}

impl Iso9660Reader {
    /// Whether `self` is the reader opened on image `d`.
    pub open spec fn opened_from(&self, d: Seq<u8>) -> bool {
        &&& self.wf()
        &&& self.image() == d
        &&& self.block() == pvd_block_size(d)
        &&& self.root_lba() == le32_at(d, 0x809E) as u32
        &&& self.root_size() == le32_at(d, 0x80A6) as u32
        &&& self.is_joliet() == joliet_present(d)
        &&& self.path_entries() == path_table_of(
            d,
            joliet_present(d),
            pvd_block_size(d),
            le32_at(d, 0x808C) as u32,
            le32_at(d, 0x8084) as u32,
        )->Some_0
        &&& self.extent_entries().len() == 0
    }

    /// Opens an ISO 9660 image: checks the `CD001` signature of the primary
    /// volume descriptor at sector 16, reads the block size, root directory
    /// and path table, and detects Joliet.
    pub fn new(data: Vec<u8>) -> (r: Result<Self, DiskRipperError>)
        requires
            iso_openable(data@),
        ensures
            data@.len() < 0x8010 ==> (r matches Err(DiskRipperError::InvalidPath(m)) && m@
                == "Data too small for ISO 9660"@),
            data@.len() >= 0x8010 && !super::has5(data@, 0x8001, super::sig_cd001()) ==> (
            r matches Err(DiskRipperError::InvalidPath(m)) && m@ == "Not a valid ISO 9660 image"@),
            data@.len() >= 0x8010 && super::has5(data@, 0x8001, super::sig_cd001()) ==> (
            r matches Ok(reader) && reader.opened_from(data@)),
    {
        if data.len() < 0x8010 {
            return Err(DiskRipperError::InvalidPath(owned("Data too small for ISO 9660")));
        }
        if !super::is_cd001(data.as_slice(), 0x8001) {
            return Err(DiskRipperError::InvalidPath(owned("Not a valid ISO 9660 image")));
        }
        let pvd_offset: usize = 0x8000;
        let bs = Self::read_both_endian_u16(data.as_slice(), pvd_offset + 128) as u32;
        let block_size: u32 = if bs == 0 {
            2048
        } else {
            bs
        };
        let path_table_size = Self::read_both_endian_u32(data.as_slice(), pvd_offset + 132);
        let path_table_lba = Self::read_both_endian_u32(data.as_slice(), pvd_offset + 140);
        let root_record = slice_subrange(data.as_slice(), pvd_offset + 156, pvd_offset + 190);
        let root_dir_lba = Self::read_both_endian_u32(root_record, 2);
        let root_dir_size = Self::read_both_endian_u32(root_record, 10);
        let joliet = Self::detect_joliet(data.as_slice());
        let mut reader = Self {
            data,
            block_size,
            root_dir_lba,
            root_dir_size,
            joliet,
            path_table: Vec::new(),
            multi_extents: Vec::new(),
        };
        proof {
            assert(reader.path_entries() =~= Seq::<(Seq<char>, u32)>::empty());
            assert(reader.extent_entries() =~= Seq::<(Seq<char>, Seq<(u32, u32)>)>::empty());
        }
        reader.build_path_table(path_table_lba, path_table_size);
        proof {
            assert(reader.path_entries() =~= path_table_of(
                reader.image(),
                joliet,
                block_size,
                path_table_lba,
                path_table_size,
            )->Some_0);
        }
        Ok(reader)
    }

    /// Whether `v` is the volume information of the primary volume
    /// descriptor: identifiers with trailing spaces removed, size in bytes,
    /// and the type (Joliet where its descriptor was found).
    pub open spec fn describes(&self, v: super::VolumeInfo) -> bool {
        &&& v.volume_id@ == trim_end_char(utf8_lossy(self.image().subrange(0x8028, 0x8048)), ' ')
        &&& v.system_id@ == trim_end_char(utf8_lossy(self.image().subrange(0x8008, 0x8028)), ' ')
        &&& v.volume_size == le32_at(self.image(), 0x8050) * self.block()
        &&& v.block_size == self.block()
        &&& v.files_used == le32_at(self.image(), 0x809A)
        &&& v.fs_type == if self.is_joliet() {
            super::FilesystemType::Joliet
        } else {
            super::FilesystemType::Iso9660
        }
    }

    /// Volume information from the primary volume descriptor.
    pub fn read_volume(&self) -> (r: Result<super::VolumeInfo, DiskRipperError>)
        requires
            self.wf(),
        ensures
            r matches Ok(v) && self.describes(v),
    {
        let pvd_offset: usize = 0x8000;
        let vid = decode_utf8_lossy(
            slice_subrange(self.data.as_slice(), pvd_offset + 40, pvd_offset + 72),
        );
        let mut v = chars_of(vid.as_str());
        trim_end_char_vec(&mut v, ' ');
        let volume_id = string_of(v.as_slice());
        let sid = decode_utf8_lossy(
            slice_subrange(self.data.as_slice(), pvd_offset + 8, pvd_offset + 40),
        );
        let mut w = chars_of(sid.as_str());
        trim_end_char_vec(&mut w, ' ');
        let system_id = string_of(w.as_slice());
        let blocks = Self::read_both_endian_u32(self.data.as_slice(), pvd_offset + 80) as u64;
        proof {
            assert(blocks * self.block_size <= 0xFFFF_FFFFnat * 0xFFFF_FFFFnat) by (nonlinear_arith)
                requires
                    blocks <= 0xFFFF_FFFFnat,
                    self.block_size <= 0xFFFF_FFFFnat,
            ;
        }
        let volume_size = blocks * self.block_size as u64;
        let files_used = Self::read_both_endian_u32(self.data.as_slice(), pvd_offset + 154) as u64;
        Ok(
            super::VolumeInfo {
                volume_id,
                system_id,
                volume_size,
                block_size: self.block_size,
                files_used,
                fs_type: if self.joliet {
                    super::FilesystemType::Joliet
                } else {
                    super::FilesystemType::Iso9660
                },
            },
        )
    }

    /// The block of the directory that `path` names: the root for `/`, `\`
    /// or the empty path, else the latest path table entry of that name.
    pub open spec fn directory_lba(&self, path: Seq<char>) -> Option<u32> {
        if is_root_path(path) {
            Some(self.root_lba())
        } else {
            latest(self.path_entries(), path)
        }
    }

    /// Looks up the latest path table entry named `key`.
    fn lookup_path_table(&self, key: &str) -> (r: Option<u32>)
        ensures
            r == latest(self.path_entries(), key@),
    {
        let mut i = self.path_table.len();
        assert(self.path_entries().subrange(0, i as int) =~= self.path_entries());
        while i > 0
            invariant
                i <= self.path_table@.len(),
                latest(self.path_entries(), key@) == latest(
                    self.path_entries().subrange(0, i as int),
                    key@,
                ),
            decreases i,
        {
            let ghost sub = self.path_entries().subrange(0, i as int);
            proof {
                assert(sub.drop_last() =~= self.path_entries().subrange(0, i - 1));
            }
            if str_eq(self.path_table[i - 1].0.as_str(), key) {
                return Some(self.path_table[i - 1].1);
            }
            i = i - 1;
        }
        None
    }

    /// Whether [`Iso9660Reader::read_directory`] can read the directory
    /// named `path`: it is not found, or none of its records is cut short.
    pub fn directory_readable(&self, path: &str) -> (r: bool)
        requires
            self.wf(),
        ensures
            r == (self.directory_lba(path@) matches Some(lba) ==> !(dir_records(
                self.image(),
                self.is_joliet(),
                self.block(),
                lba,
                self.root_size(),
            ) is Malformed)),
    {
        let is_root = str_eq(path, "/") || str_eq(path, "\\") || path.is_empty();
        let lba = if is_root {
            self.root_dir_lba
        } else {
            match self.lookup_path_table(path) {
                Some(l) => l,
                None => {
                    return true;
                },
            }
        };
        self.records_whole(lba, self.root_dir_size)
    }

    /// Lists the directory named `path`: its records other than `.`, NUL
    /// and unnamed ones, each under `path` joined with its name. The
    /// extent read is the directory's block with the root directory's size.
    pub fn read_directory(&self, path: &str) -> (r: Result<Vec<FileEntry>, DiskRipperError>)
        requires
            self.wf(),
            self.directory_lba(path@) matches Some(lba) ==> !(dir_records(
                self.image(),
                self.is_joliet(),
                self.block(),
                lba,
                self.root_size(),
            ) is Malformed),
        ensures
            match self.directory_lba(path@) {
                None => r matches Err(DiskRipperError::InvalidPath(m)) && m@ == "Path not found: "@
                    + path@,
                Some(lba) => match dir_records(
                    self.image(),
                    self.is_joliet(),
                    self.block(),
                    lba,
                    self.root_size(),
                ) {
                    DirScan::OutOfBounds => r matches Err(DiskRipperError::InvalidPath(m)) && m@
                        == "Directory extent out of bounds"@,
                    DirScan::Records(rs) => r matches Ok(v) && entry_views(v@) == dir_listing(
                        path@,
                        rs,
                    ),
                    DirScan::Malformed => false,
                },
            },
    {
        let is_root = str_eq(path, "/") || str_eq(path, "\\") || path.is_empty();
        let lba = if is_root {
            self.root_dir_lba
        } else {
            match self.lookup_path_table(path) {
                Some(l) => l,
                None => {
                    return Err(DiskRipperError::InvalidPath(concat("Path not found: ", path)));
                },
            }
        };
        let records = match self.read_directory_records(lba, self.root_dir_size) {
            Ok(v) => v,
            Err(e) => {
                return Err(e);
            },
        };
        let ghost rs = record_views(records@);
        let slash_dir = str_eq(path, "/") || path.is_empty();
        let mut entries: Vec<FileEntry> = Vec::new();
        let mut i: usize = 0;
        while i < records.len()
            invariant
                i <= records@.len(),
                rs == record_views(records@),
                slash_dir == (path@ == "/"@ || path@.len() == 0),
                entry_views(entries@) == dir_listing(path@, rs.subrange(0, i as int)),
            decreases records.len() - i,
        {
            let record = &records[i];
            proof {
                assert(rs.subrange(0, i + 1).drop_last() =~= rs.subrange(0, i as int));
            }
            let name = record.name.as_str();
            if !(str_eq(name, ".") || str_eq(name, "\0") || name.is_empty()) {
                let p = if slash_dir {
                    concat("/", name)
                } else {
                    let t = concat(path, "/");
                    concat(t.as_str(), name)
                };
                let ghost before = entry_views(entries@);
                entries.push(
                    FileEntry {
                        path: p,
                        size: record.size,
                        is_dir: record.is_dir,
                        modified: None,
                        checksum_sha256: None,
                    },
                );
                proof {
                    assert(entry_views(entries@) =~= before.push(
                        plain_entry(entry_path(path@, record.name@), record.size, record.is_dir),
                    ));
                }
            }
            i = i + 1;
        }
        proof {
            assert(rs.subrange(0, records@.len() as int) =~= rs);
        }
        Ok(entries)
    }
}

/// The volume size read from an ISO 9660 image is in bytes: the volume
/// space size, the little-endian block count at byte 80 of the primary
/// volume descriptor, times the logical block size, the little-endian
/// value at byte 128 (2048 where it is zero). So it is a whole number of
/// blocks, and dividing it by the block size gives the block count back.
pub proof fn law_volume_size_in_bytes(r: Iso9660Reader, data: Seq<u8>, v: super::VolumeInfo)
    requires
        r.opened_from(data),
        r.describes(v),
    ensures
        ({
            let blocks: int = data[0x8050] + data[0x8051] * 256 + data[0x8052] * 65536 + data[0x8053]
                * 16777216;
            let size_field: int = data[0x8080] + data[0x8081] * 256;
            let bs: int = if size_field == 0 {
                2048
            } else {
                size_field
            };
            &&& v.block_size == bs
            &&& v.volume_size == blocks * bs
            &&& (v.volume_size as int) % (v.block_size as int) == 0
            &&& (v.volume_size as int) / (v.block_size as int) == blocks
        }),
{
    let blocks: int = data[0x8050] + data[0x8051] * 256 + data[0x8052] * 65536 + data[0x8053] * 16777216;
    let bs: int = v.block_size as int;
    assert(bs >= 1);
    assert(v.volume_size == blocks * bs);
    assert((blocks * bs) % bs == 0 && (blocks * bs) / bs == blocks) by (nonlinear_arith)
        requires
            bs >= 1,
            blocks >= 0,
    ;
}

} // verus!

verus! {

/// The components of `s` between `/` separators (`str::split('/')`).
pub open spec fn split_slash(s: Seq<char>) -> Seq<Seq<char>> {
    split_on(s, '/', seq![])
}

/// The first record named `name`.
pub open spec fn first_named(rs: Seq<RecordView>, name: Seq<char>) -> Option<RecordView>
    decreases rs.len(),
{
    if rs.len() == 0 {
        None
    } else if rs[0].name == name {
        Some(rs[0])
    } else {
        first_named(rs.drop_first(), name)
    }
}

/// Outcome of looking up a file by path.
pub enum Lookup {
    /// A directory record on the way is cut short.
    Stuck,
    /// The file's extent: block and size.
    Found(u32, u32),
    /// The lookup fails with this message.
    Fail(Seq<char>),
}

/// Walks path components `comps` from index `i`, starting in the directory
/// extent at `lba` of `size` bytes.
pub open spec fn find_walk(
    d: Seq<u8>,
    j: bool,
    bs: u32,
    comps: Seq<Seq<char>>,
    i: int,
    lba: u32,
    size: u32,
    whole: Seq<char>,
) -> Lookup
    decreases comps.len() - i,
{
    if i < 0 || i >= comps.len() {
        Lookup::Fail("File not found: "@ + whole)
    } else {
        match dir_records(d, j, bs, lba, size) {
            DirScan::OutOfBounds => Lookup::Fail("Directory extent out of bounds"@),
            DirScan::Malformed => Lookup::Stuck,
            DirScan::Records(rs) => match first_named(rs, comps[i]) {
                None => Lookup::Fail("Path component not found: "@ + comps[i]),
                Some(r) => if i == comps.len() - 1 {
                    if r.is_dir {
                        Lookup::Fail("Path is a directory: "@ + whole)
                    } else {
                        Lookup::Found(r.lba, r.data_len)
                    }
                } else if !r.is_dir {
                    Lookup::Fail("Path component is a file: "@ + comps[i])
                } else {
                    find_walk(d, j, bs, comps, i + 1, r.lba, r.data_len, whole)
                },
            },
        }
    }
}

/// Looks up the file at `path` from the root directory: leading `/` then
/// leading `\` are removed, and each `/`-separated component is searched in
/// turn; the last must be a file and the others directories.
pub open spec fn find_file(
    d: Seq<u8>,
    j: bool,
    bs: u32,
    root_lba: u32,
    root_size: u32,
    path: Seq<char>,
) -> Lookup {
    let t = trim_start_char(trim_start_char(path, '/'), '\\');
    if t.len() == 0 {
        Lookup::Fail("Empty file path"@)
    } else {
        find_walk(d, j, bs, split_slash(t), 0, root_lba, root_size, t)
    }
}

impl Iso9660Reader {
    /// Looks up a file's extent (block and size) by walking directory
    /// records; `None` where a record on the way is cut short.
    fn find_file_checked(&self, path: &str) -> (r: Option<Result<(u32, u32), DiskRipperError>>)
        requires
            self.wf(),
        ensures
            match find_file(
                self.image(),
                self.is_joliet(),
                self.block(),
                self.root_lba(),
                self.root_size(),
                path@,
            ) {
                Lookup::Found(l, s) => r == Some(Ok::<(u32, u32), DiskRipperError>((l, s))),
                Lookup::Fail(m) => r matches Some(Err(DiskRipperError::InvalidPath(e))) && e@ == m,
                Lookup::Stuck => r is None,
            },
    {
        let all = chars_of(path);
        let t1 = trim_start_char_vec(&all, '/');
        let t = trim_start_char_vec(&t1, '\\');
        if t.len() == 0 {
            return Some(Err(DiskRipperError::InvalidPath(owned("Empty file path"))));
        }
        let whole = string_of(t.as_slice());
        let components = split_chars(&t, '/');
        let ghost comps = char_vecs(components@);
        let mut current_lba = self.root_dir_lba;
        let mut current_size = self.root_dir_size;
        let mut i: usize = 0;
        while i < components.len()
            invariant
                self.wf(),
                i <= components@.len(),
                comps == char_vecs(components@),
                comps == split_slash(t@),
                whole@ == t@,
                t@.len() > 0,
                find_walk(
                    self.image(),
                    self.is_joliet(),
                    self.block(),
                    comps,
                    i as int,
                    current_lba,
                    current_size,
                    t@,
                ) == find_file(
                    self.image(),
                    self.is_joliet(),
                    self.block(),
                    self.root_lba(),
                    self.root_size(),
                    path@,
                ),
            decreases components.len() - i,
        {
            if !self.records_whole(current_lba, current_size) {
                return None;
            }
            let records = match self.read_directory_records(current_lba, current_size) {
                Ok(v) => v,
                Err(e) => {
                    return Some(Err(e));
                },
            };
            let ghost rs = record_views(records@);
            let component = &components[i];
            let mut k: usize = 0;
            let mut found: Option<usize> = None;
            proof {
                assert(rs.subrange(0, rs.len() as int) =~= rs);
            }
            while k < records.len()
                invariant_except_break
                    k <= records@.len(),
                    rs == record_views(records@),
                    found.is_none(),
                    first_named(rs, component@) == first_named(
                        rs.subrange(k as int, rs.len() as int),
                        component@,
                    ),
                ensures
                    rs == record_views(records@),
                    match found {
                        Some(idx) => idx < records@.len() && first_named(rs, component@) == Some(
                            rs[idx as int],
                        ),
                        None => first_named(rs, component@) == None::<RecordView>,
                    },
                decreases records.len() - k,
            {
                let ghost sub = rs.subrange(k as int, rs.len() as int);
                proof {
                    assert(sub.drop_first() =~= rs.subrange(k + 1, rs.len() as int));
                }
                let nm = chars_of(records[k].name.as_str());
                if chars_eq(nm.as_slice(), component.as_slice()) {
                    found = Some(k);
                    break;
                }
                k = k + 1;
            }
            match found {
                None => {
                    let c = string_of(component.as_slice());
                    return Some(
                        Err(
                            DiskRipperError::InvalidPath(
                                concat("Path component not found: ", c.as_str()),
                            ),
                        ),
                    );
                },
                Some(idx) => {
                    let record = &records[idx];
                    proof {
                        assert(first_named(rs, component@) == Some(record@));
                    }
                    if i == components.len() - 1 {
                        if record.is_dir {
                            return Some(
                                Err(
                                    DiskRipperError::InvalidPath(
                                        concat("Path is a directory: ", whole.as_str()),
                                    ),
                                ),
                            );
                        }
                        return Some(Ok((record.lba, record.data_len)));
                    } else {
                        if !record.is_dir {
                            let c = string_of(component.as_slice());
                            return Some(
                                Err(
                                    DiskRipperError::InvalidPath(
                                        concat("Path component is a file: ", c.as_str()),
                                    ),
                                ),
                            );
                        }
                        current_lba = record.lba;
                        current_size = record.data_len;
                    }
                },
            }
            i = i + 1;
        }
        Some(Err(DiskRipperError::InvalidPath(concat("File not found: ", whole.as_str()))))
    }
    /// Finds a file's extent (block and size) by walking directory records.
    pub fn find_file_lba(&self, path: &str) -> (r: Result<(u32, u32), DiskRipperError>)
        requires
            self.wf(),
            !(find_file(
                self.image(),
                self.is_joliet(),
                self.block(),
                self.root_lba(),
                self.root_size(),
                path@,
            ) is Stuck),
        ensures
            match find_file(
                self.image(),
                self.is_joliet(),
                self.block(),
                self.root_lba(),
                self.root_size(),
                path@,
            ) {
                Lookup::Found(l, s) => r == Ok::<(u32, u32), DiskRipperError>((l, s)),
                Lookup::Fail(m) => r matches Err(DiskRipperError::InvalidPath(e)) && e@ == m,
                Lookup::Stuck => false,
            },
    {
        match self.find_file_checked(path) {
            Some(r) => r,
            None => Err(DiskRipperError::InvalidPath(owned("Directory record cut short"))),
        }
    }

    /// Whether [`Iso9660Reader::find_file_lba`] can look up `path`: no
    /// directory record on the way is cut short.
    pub fn file_findable(&self, path: &str) -> (r: bool)
        requires
            self.wf(),
        ensures
            r == !(find_file(
                self.image(),
                self.is_joliet(),
                self.block(),
                self.root_lba(),
                self.root_size(),
                path@,
            ) is Stuck),
    {
        self.find_file_checked(path).is_some()
    }
}


/// A walk over a directory extent finds at most one record per byte.
proof fn lemma_walk_len(d: Seq<u8>, joliet: bool, offset: int, end: int, pos: int)
    requires
        dir_walk(d, joliet, offset, end, pos).is_some(),
    ensures
        dir_walk(d, joliet, offset, end, pos)->Some_0.len() <= (if end > pos {
            end - pos
        } else {
            0
        }),
    decreases (if end > pos {
        end - pos
    } else {
        0
    }),
{
    reveal(dir_walk);
    if offset <= pos < end && end <= d.len() {
        let rl = d[pos] as int;
        if rl == 0 {
            let pad = (4 - ((pos - offset) % 4)) % 4;
            lemma_walk_len(d, joliet, offset, end, pos + 1 + pad);
        } else {
            lemma_walk_len(d, joliet, offset, end, pos + rl);
        }
    }
}

/// A directory extent of `size` bytes holds at most `size` records.
proof fn lemma_records_len(d: Seq<u8>, joliet: bool, bs: u32, lba: u32, size: u32)
    ensures
        dir_records(d, joliet, bs, lba, size) matches DirScan::Records(rs) ==> rs.len() <= size,
{
    let offset = lba * bs;
    let end = offset + size;
    if !(offset >= d.len() || end > d.len()) {
        if dir_walk(d, joliet, offset, end, offset).is_some() {
            lemma_walk_len(d, joliet, offset, end, offset);
        }
    }
}

/// The sizes of `n` extents sum to at most `n` times the largest `u32`.
proof fn lemma_total_bound(e: Seq<(u32, u32)>)
    ensures
        0 <= extents_total(e) <= e.len() * 0xFFFF_FFFF,
    decreases e.len(),
{
    if e.len() > 0 {
        lemma_total_bound(e.drop_last());
    }
}

/// The path of entry `name` under `prefix` in a recursive listing.
pub open spec fn child_path(prefix: Seq<char>, name: Seq<char>) -> Seq<char> {
    if prefix.len() == 0 {
        name
    } else {
        prefix + "/"@ + name
    }
}

/// The run of equally named records being gathered: name, path, extents.
pub type Run = Option<(Seq<char>, Seq<char>, Seq<(u32, u32)>)>;

/// The table entry a finished run adds: only a run of several extents.
pub open spec fn flush(cur: Run) -> Seq<(Seq<char>, Seq<(u32, u32)>)> {
    match cur {
        Some(c) => if c.2.len() > 1 {
            seq![(c.1, c.2)]
        } else {
            seq![]
        },
        None => seq![],
    }
}

/// The first pass over records `rs`: the run still open and the table
/// entries added so far. A listed record that has the open run's name adds
/// its extent to it; another closes the run and opens its own.
pub open spec fn pass1(prefix: Seq<char>, rs: Seq<RecordView>) -> (
    Run,
    Seq<(Seq<char>, Seq<(u32, u32)>)>,
)
    decreases rs.len(),
{
    if rs.len() == 0 {
        (None, seq![])
    } else {
        let prev = pass1(prefix, rs.drop_last());
        let r = rs.last();
        if !listed_name(r.name) {
            prev
        } else {
            match prev.0 {
                Some(c) => if c.0 == r.name {
                    (Some((c.0, c.1, c.2.push((r.lba, r.data_len)))), prev.1)
                } else {
                    (
                        Some((r.name, child_path(prefix, r.name), seq![(r.lba, r.data_len)])),
                        prev.1 + flush(prev.0),
                    )
                },
                None => (
                    Some((r.name, child_path(prefix, r.name), seq![(r.lba, r.data_len)])),
                    prev.1,
                ),
            }
        }
    }
}

/// The multi-extent entries that a directory's records add, in order.
pub open spec fn first_pass(prefix: Seq<char>, rs: Seq<RecordView>) -> Seq<
    (Seq<char>, Seq<(u32, u32)>),
> {
    pass1(prefix, rs).1 + flush(pass1(prefix, rs).0)
}

/// The size listed for a file: the sum of its extents where the table
/// records several, else the record's size.
pub open spec fn file_size(
    table: Seq<(Seq<char>, Seq<(u32, u32)>)>,
    path: Seq<char>,
    r: RecordView,
) -> u64 {
    match latest(table, path) {
        Some(e) => extents_total(e) as u64,
        None => r.size,
    }
}

/// How a recursive listing ends.
pub enum ListStatus {
    Done,
    Failed(Seq<char>),
    /// A record is cut short, or directories nest deeper than the fuel.
    Stuck,
}

/// The state a recursive listing leaves: status, files listed, and the
/// multi-extent table.
pub struct Listing {
    pub status: ListStatus,
    pub out: Seq<FileEntryView>,
    pub table: Seq<(Seq<char>, Seq<(u32, u32)>)>,
}

/// Lists the directory extent at `lba` of `size` bytes under `prefix`,
/// descending at most `fuel` directories deep.
pub open spec fn list_dir(
    d: Seq<u8>,
    j: bool,
    bs: u32,
    fuel: nat,
    prefix: Seq<char>,
    lba: u32,
    size: u32,
    out: Seq<FileEntryView>,
    table: Seq<(Seq<char>, Seq<(u32, u32)>)>,
) -> Listing
    decreases fuel, 1int, 0int,
{
    match dir_records(d, j, bs, lba, size) {
        DirScan::OutOfBounds => Listing {
            status: ListStatus::Failed("Directory extent out of bounds"@),
            out,
            table,
        },
        DirScan::Malformed => Listing { status: ListStatus::Stuck, out, table },
        DirScan::Records(rs) => list_entries(
            d,
            j,
            bs,
            fuel,
            prefix,
            rs,
            0,
            out,
            table + first_pass(prefix, rs),
        ),
    }
}

/// The second pass over records `rs` from index `i`: a directory is listed
/// recursively, a file is added with its size.
pub open spec fn list_entries(
    d: Seq<u8>,
    j: bool,
    bs: u32,
    fuel: nat,
    prefix: Seq<char>,
    rs: Seq<RecordView>,
    i: int,
    out: Seq<FileEntryView>,
    table: Seq<(Seq<char>, Seq<(u32, u32)>)>,
) -> Listing
    decreases fuel, 0int, rs.len() - i,
{
    if i < 0 || i >= rs.len() {
        Listing { status: ListStatus::Done, out, table }
    } else {
        let r = rs[i];
        if !listed_name(r.name) {
            list_entries(d, j, bs, fuel, prefix, rs, i + 1, out, table)
        } else {
            let p = child_path(prefix, r.name);
            if r.is_dir {
                if fuel == 0 {
                    Listing { status: ListStatus::Stuck, out, table }
                } else {
                    let sub = list_dir(d, j, bs, (fuel - 1) as nat, p, r.lba, r.data_len, out, table);
                    if sub.status is Done {
                        list_entries(d, j, bs, fuel, prefix, rs, i + 1, sub.out, sub.table)
                    } else {
                        sub
                    }
                }
            } else {
                list_entries(
                    d,
                    j,
                    bs,
                    fuel,
                    prefix,
                    rs,
                    i + 1,
                    out.push(plain_entry(p, file_size(table, p, r), false)),
                    table,
                )
            }
        }
    }
}


impl Iso9660Reader {
    /// The summed size of the latest multi-extent entry for `path`.
    fn lookup_extents_total(&self, path: &str) -> (r: Option<u64>)
        requires
            self.wf(),
        ensures
            r == match latest(self.extent_entries(), path@) {
                Some(e) => Some(extents_total(e) as u64),
                None => None::<u64>,
            },
            latest(self.extent_entries(), path@) matches Some(e) ==> extents_total(e)
                <= 0xFFFF_FFFFnat * 0xFFFF_FFFFnat,
    {
        let ghost t = self.extent_entries();
        let mut i = self.multi_extents.len();
        assert(t.subrange(0, i as int) =~= t);
        while i > 0
            invariant
                self.wf(),
                t == self.extent_entries(),
                i <= self.multi_extents@.len(),
                latest(t, path@) == latest(t.subrange(0, i as int), path@),
            decreases i,
        {
            let ghost sub = t.subrange(0, i as int);
            proof {
                assert(sub.drop_last() =~= t.subrange(0, i - 1));
            }
            if str_eq(self.multi_extents[i - 1].0.as_str(), path) {
                let extents = &self.multi_extents[i - 1].1;
                let ghost e = t[i - 1].1;
                proof {
                    assert(e.len() <= 0xFFFF_FFFF);
                    assert(e == extent_pairs(extents@));
                }
                let mut total: u64 = 0;
                let mut k: usize = 0;
                while k < extents.len()
                    invariant
                        k <= extents@.len(),
                        extents@.len() <= 0xFFFF_FFFF,
                        e == extent_pairs(extents@),
                        total == extents_total(e.subrange(0, k as int)),
                    decreases extents.len() - k,
                {
                    proof {
                        assert(e.subrange(0, k + 1).drop_last() =~= e.subrange(0, k as int));
                        lemma_total_bound(e.subrange(0, k as int));
                        assert(k * 0xFFFF_FFFF <= 0xFFFF_FFFFnat * 0xFFFF_FFFFnat) by (
                        nonlinear_arith)
                            requires
                                k <= 0xFFFF_FFFFnat,
                        ;
                    }
                    total = total + extents[k].size as u64;
                    k = k + 1;
                }
                proof {
                    assert(e.subrange(0, k as int) =~= e);
                    lemma_total_bound(e);
                    assert(e.len() * 0xFFFF_FFFF <= 0xFFFF_FFFFnat * 0xFFFF_FFFFnat) by (nonlinear_arith)
                        requires
                            e.len() <= 0xFFFF_FFFFnat,
                    ;
                }
                return Some(total);
            }
            i = i - 1;
        }
        None
    }

    /// Lists the files under the directory extent at `lba` of `size` bytes,
    /// paths prefixed with `prefix`: records files of several extents in the
    /// multi-extent table, then adds each file to `output` and descends into
    /// each directory.
    fn list_files_recursive(
        &mut self,
        prefix: &str,
        lba: u32,
        size: u32,
        output: &mut Vec<FileEntry>,
        Ghost(fuel): Ghost<nat>,
    ) -> (r: Result<(), DiskRipperError>)
        requires
            old(self).wf(),
            !(list_dir(
                old(self).image(),
                old(self).is_joliet(),
                old(self).block(),
                fuel,
                prefix@,
                lba,
                size,
                entry_views(old(output)@),
                old(self).extent_entries(),
            ).status is Stuck),
        ensures
            final(self).wf(),
            final(self).same_volume(*old(self)),
            ({
                let l = list_dir(
                    old(self).image(),
                    old(self).is_joliet(),
                    old(self).block(),
                    fuel,
                    prefix@,
                    lba,
                    size,
                    entry_views(old(output)@),
                    old(self).extent_entries(),
                );
                &&& final(self).extent_entries() == l.table
                &&& entry_views(final(output)@) == l.out
                &&& match l.status {
                    ListStatus::Done => r is Ok,
                    ListStatus::Failed(m) => r matches Err(DiskRipperError::InvalidPath(e)) && e@
                        == m,
                    ListStatus::Stuck => false,
                }
            }),
        decreases fuel, 1int, 0int,
    {
        let ghost d = self.image();
        let ghost j = self.is_joliet();
        let ghost bs = self.block();
        let ghost out0 = entry_views(output@);
        let ghost t0 = self.extent_entries();
        let ghost orig = *self;
        let records = match self.read_directory_records(lba, size) {
            Ok(v) => v,
            Err(e) => {
                return Err(e);
            },
        };
        let ghost rs = record_views(records@);
        proof {
            lemma_records_len(d, j, bs, lba, size);
            assert(rs.subrange(0, 0) =~= Seq::<RecordView>::empty());
            assert(t0 + Seq::<(Seq<char>, Seq<(u32, u32)>)>::empty() =~= t0);
        }
        // First pass: gather runs of equally named records.
        let mut has_cur = false;
        let mut cur_name = owned("");
        let mut cur_path = owned("");
        let mut cur_ext: Vec<FileExtent> = Vec::new();
        let mut i: usize = 0;
        while i < records.len()
            invariant
                self.wf(),
                self.same_volume(orig),
                d == orig.image(),
                j == orig.is_joliet(),
                bs == orig.block(),
                i <= records@.len(),
                rs == record_views(records@),
                rs.len() <= 0xFFFF_FFFF,
                cur_ext@.len() <= i,
                pass1(prefix@, rs.subrange(0, i as int)).0 == (if has_cur {
                    Some((cur_name@, cur_path@, extent_pairs(cur_ext@)))
                } else {
                    None::<(Seq<char>, Seq<char>, Seq<(u32, u32)>)>
                }),
                self.extent_entries() == t0 + pass1(prefix@, rs.subrange(0, i as int)).1,
            decreases records.len() - i,
        {
            let record = &records[i];
            proof {
                assert(rs.subrange(0, i + 1).drop_last() =~= rs.subrange(0, i as int));
            }
            let name = record.name.as_str();
            if !(str_eq(name, ".") || str_eq(name, "\0") || name.is_empty()) {
                let p = if prefix.is_empty() {
                    owned(name)
                } else {
                    let t = concat(prefix, "/");
                    concat(t.as_str(), name)
                };
                if has_cur && str_eq(cur_name.as_str(), name) {
                    let ghost before = extent_pairs(cur_ext@);
                    cur_ext.push(FileExtent { lba: record.lba, size: record.data_len });
                    proof {
                        assert(extent_pairs(cur_ext@) =~= before.push((record.lba, record.data_len)));
                    }
                } else {
                    if has_cur && cur_ext.len() > 1 {
                        let ghost before = self.extent_entries();
                        let ghost entry = (cur_path@, extent_pairs(cur_ext@));
                        self.multi_extents.push((cur_path, cur_ext));
                        proof {
                            assert(self.extent_entries() =~= before.push(entry));
                            assert(flush(pass1(prefix@, rs.subrange(0, i as int)).0) =~= seq![entry]);
                            assert(self.extent_entries() =~= t0 + (pass1(prefix@, rs.subrange(0, i as int)).1
                                + seq![entry]));
                        }
                    } else {
                        proof {
                            assert(flush(pass1(prefix@, rs.subrange(0, i as int)).0)
                                =~= Seq::<(Seq<char>, Seq<(u32, u32)>)>::empty());
                            assert(pass1(prefix@, rs.subrange(0, i as int)).1 + flush(
                                pass1(prefix@, rs.subrange(0, i as int)).0,
                            ) =~= pass1(prefix@, rs.subrange(0, i as int)).1);
                        }
                    }
                    has_cur = true;
                    cur_name = owned(name);
                    cur_path = p;
                    cur_ext = Vec::new();
                    cur_ext.push(FileExtent { lba: record.lba, size: record.data_len });
                    proof {
                        assert(extent_pairs(cur_ext@) =~= seq![(record.lba, record.data_len)]);
                    }
                }
            }
            i = i + 1;
        }
        proof {
            assert(rs.subrange(0, i as int) =~= rs);
        }
        if has_cur && cur_ext.len() > 1 {
            let ghost before = self.extent_entries();
            let ghost entry = (cur_path@, extent_pairs(cur_ext@));
            self.multi_extents.push((cur_path, cur_ext));
            proof {
                assert(self.extent_entries() =~= before.push(entry));
                assert(flush(pass1(prefix@, rs).0) =~= seq![entry]);
                assert(self.extent_entries() =~= t0 + first_pass(prefix@, rs));
            }
        } else {
            proof {
                assert(flush(pass1(prefix@, rs).0) =~= Seq::<(Seq<char>, Seq<(u32, u32)>)>::empty());
                assert(self.extent_entries() =~= t0 + first_pass(prefix@, rs));
            }
        }
        // Second pass: list files, descend into directories.
        let ghost t1 = self.extent_entries();
        let mut k: usize = 0;
        while k < records.len()
            invariant
                self.wf(),
                self.same_volume(orig),
                d == orig.image(),
                j == orig.is_joliet(),
                bs == orig.block(),
                k <= records@.len(),
                rs == record_views(records@),
                d == old(self).image(),
                j == old(self).is_joliet(),
                bs == old(self).block(),
                t0 == old(self).extent_entries(),
                out0 == entry_views(old(output)@),
                orig == *old(self),
                list_dir(d, j, bs, fuel, prefix@, lba, size, out0, t0) == list_entries(
                    d,
                    j,
                    bs,
                    fuel,
                    prefix@,
                    rs,
                    k as int,
                    entry_views(output@),
                    self.extent_entries(),
                ),
                !(list_dir(d, j, bs, fuel, prefix@, lba, size, out0, t0).status is Stuck),
            decreases records.len() - k,
        {
            let record = &records[k];
            let name = record.name.as_str();
            if !(str_eq(name, ".") || str_eq(name, "\0") || name.is_empty()) {
                let p = if prefix.is_empty() {
                    owned(name)
                } else {
                    let t = concat(prefix, "/");
                    concat(t.as_str(), name)
                };
                if record.is_dir {
                    let res = self.list_files_recursive(
                        p.as_str(),
                        record.lba,
                        record.data_len,
                        output,
                        Ghost((fuel - 1) as nat),
                    );
                    match res {
                        Ok(()) => {},
                        Err(e) => {
                            return Err(e);
                        },
                    }
                } else {
                    let total = match self.lookup_extents_total(p.as_str()) {
                        Some(t) => t,
                        None => record.size,
                    };
                    let ghost before = entry_views(output@);
                    output.push(
                        FileEntry {
                            path: p,
                            size: total,
                            is_dir: false,
                            modified: None,
                            checksum_sha256: None,
                        },
                    );
                    proof {
                        assert(entry_views(output@) =~= before.push(
                            plain_entry(p@, file_size(self.extent_entries(), p@, rs[k as int]), false),
                        ));
                    }
                }
            }
            k = k + 1;
        }
        Ok(())
    }
}


/// How a listing ends does not depend on the path prefix, the files listed
/// so far or the multi-extent table.
proof fn lemma_list_dir_status(
    d: Seq<u8>,
    j: bool,
    bs: u32,
    fuel: nat,
    p1: Seq<char>,
    p2: Seq<char>,
    lba: u32,
    size: u32,
    o1: Seq<FileEntryView>,
    t1: Seq<(Seq<char>, Seq<(u32, u32)>)>,
    o2: Seq<FileEntryView>,
    t2: Seq<(Seq<char>, Seq<(u32, u32)>)>,
)
    ensures
        list_dir(d, j, bs, fuel, p1, lba, size, o1, t1).status == list_dir(
            d,
            j,
            bs,
            fuel,
            p2,
            lba,
            size,
            o2,
            t2,
        ).status,
    decreases fuel, 1int, 0int,
{
    match dir_records(d, j, bs, lba, size) {
        DirScan::Records(rs) => {
            lemma_list_entries_status(
                d,
                j,
                bs,
                fuel,
                p1,
                p2,
                rs,
                0,
                o1,
                t1 + first_pass(p1, rs),
                o2,
                t2 + first_pass(p2, rs),
            );
        },
        _ => {},
    }
}

/// How the second pass ends does not depend on the path prefix, the files
/// listed so far or the multi-extent table.
proof fn lemma_list_entries_status(
    d: Seq<u8>,
    j: bool,
    bs: u32,
    fuel: nat,
    p1: Seq<char>,
    p2: Seq<char>,
    rs: Seq<RecordView>,
    i: int,
    o1: Seq<FileEntryView>,
    t1: Seq<(Seq<char>, Seq<(u32, u32)>)>,
    o2: Seq<FileEntryView>,
    t2: Seq<(Seq<char>, Seq<(u32, u32)>)>,
)
    ensures
        list_entries(d, j, bs, fuel, p1, rs, i, o1, t1).status == list_entries(
            d,
            j,
            bs,
            fuel,
            p2,
            rs,
            i,
            o2,
            t2,
        ).status,
    decreases fuel, 0int, rs.len() - i,
{
    if 0 <= i < rs.len() {
        let r = rs[i];
        if !listed_name(r.name) {
            lemma_list_entries_status(d, j, bs, fuel, p1, p2, rs, i + 1, o1, t1, o2, t2);
        } else {
            let c1 = child_path(p1, r.name);
            let c2 = child_path(p2, r.name);
            if r.is_dir {
                if fuel > 0 {
                    let f = (fuel - 1) as nat;
                    lemma_list_dir_status(d, j, bs, f, c1, c2, r.lba, r.data_len, o1, t1, o2, t2);
                    let s1 = list_dir(d, j, bs, f, c1, r.lba, r.data_len, o1, t1);
                    let s2 = list_dir(d, j, bs, f, c2, r.lba, r.data_len, o2, t2);
                    if s1.status is Done {
                        lemma_list_entries_status(
                            d,
                            j,
                            bs,
                            fuel,
                            p1,
                            p2,
                            rs,
                            i + 1,
                            s1.out,
                            s1.table,
                            s2.out,
                            s2.table,
                        );
                    }
                }
            } else {
                lemma_list_entries_status(
                    d,
                    j,
                    bs,
                    fuel,
                    p1,
                    p2,
                    rs,
                    i + 1,
                    o1.push(plain_entry(c1, file_size(t1, c1, r), false)),
                    t1,
                    o2.push(plain_entry(c2, file_size(t2, c2, r), false)),
                    t2,
                );
            }
        }
    }
}

/// How listing the directory extent at `lba` of `size` bytes ends,
/// descending at most `fuel` directories deep.
pub open spec fn walk_status(d: Seq<u8>, j: bool, bs: u32, fuel: nat, lba: u32, size: u32) -> ListStatus {
    list_dir(d, j, bs, fuel, Seq::empty(), lba, size, Seq::empty(), Seq::empty()).status
}

impl Iso9660Reader {
    /// How listing the directory extent at `lba` of `size` bytes ends,
    /// descending at most `fuel` directories deep: 0 when it is done, 1
    /// when it fails, 2 when a record is cut short or the nesting is deeper.
    fn walk_outcome(&self, fuel: u64, lba: u32, size: u32) -> (r: u8)
        requires
            self.wf(),
        ensures
            r <= 2,
            r == 0 <==> walk_status(self.image(), self.is_joliet(), self.block(), fuel as nat, lba, size) is Done,
            r == 2 <==> walk_status(self.image(), self.is_joliet(), self.block(), fuel as nat, lba, size) is Stuck,
        decreases fuel,
    {
        let ghost d = self.image();
        let ghost j = self.is_joliet();
        let ghost bs = self.block();
        let ghost e = Seq::<FileEntryView>::empty();
        let ghost t = Seq::<(Seq<char>, Seq<(u32, u32)>)>::empty();
        let ghost p = Seq::<char>::empty();
        if !self.records_whole(lba, size) {
            return 2;
        }
        let records = match self.read_directory_records(lba, size) {
            Ok(v) => v,
            Err(_) => {
                return 1;
            },
        };
        let ghost rs = record_views(records@);
        proof {
            lemma_list_entries_status(d, j, bs, fuel as nat, p, p, rs, 0, e, t + first_pass(p, rs), e, t);
        }
        let mut i: usize = 0;
        while i < records.len()
            invariant
                self.wf(),
                d == self.image(),
                j == self.is_joliet(),
                bs == self.block(),
                e == Seq::<FileEntryView>::empty(),
                t == Seq::<(Seq<char>, Seq<(u32, u32)>)>::empty(),
                p == Seq::<char>::empty(),
                i <= records@.len(),
                rs == record_views(records@),
                walk_status(d, j, bs, fuel as nat, lba, size) == list_entries(
                    d,
                    j,
                    bs,
                    fuel as nat,
                    p,
                    rs,
                    i as int,
                    e,
                    t,
                ).status,
            decreases records.len() - i,
        {
            let record = &records[i];
            let ghost r = rs[i as int];
            proof {
                assert(r == record@);
            }
            let name = record.name.as_str();
            let listed = !(str_eq(name, ".") || str_eq(name, "\0") || name.is_empty());
            proof {
                reveal_strlit(".");
                reveal_strlit("\0");
                if name@.len() == 0 {
                    assert(name@ =~= Seq::<char>::empty());
                }
                assert(listed == listed_name(r.name));
            }
            if listed && record.is_dir {
                if fuel == 0 {
                    return 2;
                }
                let st = self.walk_outcome(fuel - 1, record.lba, record.data_len);
                proof {
                    let c = child_path(p, r.name);
                    let f = (fuel - 1) as nat;
                    lemma_list_dir_status(d, j, bs, f, c, p, r.lba, r.data_len, e, t, e, t);
                    let s1 = list_dir(d, j, bs, f, c, r.lba, r.data_len, e, t);
                    if s1.status is Done {
                        lemma_list_entries_status(
                            d,
                            j,
                            bs,
                            fuel as nat,
                            p,
                            p,
                            rs,
                            i + 1,
                            s1.out,
                            s1.table,
                            e,
                            t,
                        );
                    }
                }
                if st != 0 {
                    return st;
                }
            } else if listed {
                proof {
                    let c = child_path(p, r.name);
                    lemma_list_entries_status(
                        d,
                        j,
                        bs,
                        fuel as nat,
                        p,
                        p,
                        rs,
                        i + 1,
                        e.push(plain_entry(c, file_size(t, c, r), false)),
                        t,
                        e,
                        t,
                    );
                }
            }
            i = i + 1;
        }
        0
    }

    /// Whether listing the volume from the root, descending at most `depth`
    /// directories deep, reads no cut record: where it does,
    /// [`Iso9660Reader::list_files`] can be called.
    pub fn listable_within(&self, depth: u64) -> (r: bool)
        requires
            self.wf(),
        ensures
            r == self.listable(depth as nat),
    {
        proof {
            lemma_list_dir_status(
                self.image(),
                self.is_joliet(),
                self.block(),
                depth as nat,
                Seq::empty(),
                Seq::empty(),
                self.root_lba(),
                self.root_size(),
                Seq::empty(),
                self.extent_entries(),
                Seq::empty(),
                Seq::empty(),
            );
        }
        self.walk_outcome(depth, self.root_dir_lba, self.root_dir_size) != 2
    }
}

impl Iso9660Reader {
    /// Whether listing from the root reads no cut record and nests at most
    /// `fuel` directories deep.
    pub open spec fn listable(&self, fuel: nat) -> bool {
        !(list_dir(
            self.image(),
            self.is_joliet(),
            self.block(),
            fuel,
            Seq::empty(),
            self.root_lba(),
            self.root_size(),
            Seq::empty(),
            self.extent_entries(),
        ).status is Stuck)
    }

    /// The listing of the whole volume from the root.
    pub open spec fn listing(&self) -> Listing {
        list_dir(
            self.image(),
            self.is_joliet(),
            self.block(),
            choose|f: nat| self.listable(f),
            Seq::empty(),
            self.root_lba(),
            self.root_size(),
            Seq::empty(),
            self.extent_entries(),
        )
    }

    /// Lists every file of the volume, recording files of several extents.
    pub fn list_files(&mut self) -> (r: Result<Vec<FileEntry>, DiskRipperError>)
        requires
            old(self).wf(),
            exists|f: nat| old(self).listable(f),
        ensures
            final(self).wf(),
            final(self).same_volume(*old(self)),
            final(self).extent_entries() == old(self).listing().table,
            match old(self).listing().status {
                ListStatus::Done => r matches Ok(v) && entry_views(v@) == old(self).listing().out,
                ListStatus::Failed(m) => r matches Err(DiskRipperError::InvalidPath(e)) && e@ == m,
                ListStatus::Stuck => false,
            },
    {
        let ghost f = choose|f: nat| self.listable(f);
        let mut all_files: Vec<FileEntry> = Vec::new();
        let lba = self.root_dir_lba;
        let size = self.root_dir_size;
        proof {
            reveal_strlit("");
            assert(""@ =~= Seq::<char>::empty());
            assert(entry_views(all_files@) =~= Seq::<FileEntryView>::empty());
            assert(self.listable(f));
        }
        match self.list_files_recursive("", lba, size, &mut all_files, Ghost(f)) {
            Ok(()) => Ok(all_files),
            Err(e) => Err(e),
        }
    }

    /// The index of the latest multi-extent entry for `path`.
    fn find_extents(&self, path: &str) -> (r: Option<usize>)
        ensures
            match r {
                Some(i) => i < self.extent_entries().len() && latest(self.extent_entries(), path@)
                    == Some(self.extent_entries()[i as int].1),
                None => latest(self.extent_entries(), path@) is None,
            },
    {
        let ghost t = self.extent_entries();
        let mut i = self.multi_extents.len();
        assert(t.subrange(0, i as int) =~= t);
        while i > 0
            invariant
                t == self.extent_entries(),
                i <= self.multi_extents@.len(),
                latest(t, path@) == latest(t.subrange(0, i as int), path@),
            decreases i,
        {
            let ghost sub = t.subrange(0, i as int);
            proof {
                assert(sub.drop_last() =~= t.subrange(0, i - 1));
            }
            if str_eq(self.multi_extents[i - 1].0.as_str(), path) {
                return Some(i - 1);
            }
            i = i - 1;
        }
        None
    }

    /// Whether [`Iso9660Reader::read_file_bytes`] can read `entry`: its
    /// extents add up to at most `u32::MAX` bytes, or, where it has no
    /// multi-extent entry, no directory record on the way is cut short.
    pub fn file_bytes_readable(&self, entry: &FileEntry) -> (r: bool)
        requires
            self.wf(),
        ensures
            r == match latest(self.extent_entries(), entry.path@) {
                Some(e) => extents_total(e) <= u32::MAX,
                None => !(find_file(
                    self.image(),
                    self.is_joliet(),
                    self.block(),
                    self.root_lba(),
                    self.root_size(),
                    entry.path@,
                ) is Stuck),
            },
    {
        match self.lookup_extents_total(entry.path.as_str()) {
            Some(t) => {
                proof {
                    let e = latest(self.extent_entries(), entry.path@)->Some_0;
                    lemma_total_bound(e);
                    assert(0xFFFF_FFFFnat * 0xFFFF_FFFFnat <= u64::MAX) by (nonlinear_arith);
                    assert(extents_total(e) as u64 == extents_total(e));
                }
                t <= 0xFFFF_FFFF
            },
            None => self.file_findable(entry.path.as_str()),
        }
    }

    /// The bytes of a listed file: the latest multi-extent entry for its
    /// path where there is one, else the extent found by walking the
    /// directories.
    pub fn read_file_bytes(&self, entry: &FileEntry) -> (r: Result<Vec<u8>, DiskRipperError>)
        requires
            self.wf(),
            latest(self.extent_entries(), entry.path@) matches Some(e) ==> extents_total(e)
                <= u32::MAX,
            latest(self.extent_entries(), entry.path@) is None ==> !(find_file(
                self.image(),
                self.is_joliet(),
                self.block(),
                self.root_lba(),
                self.root_size(),
                entry.path@,
            ) is Stuck),
        ensures
            match latest(self.extent_entries(), entry.path@) {
                Some(e) => r matches Ok(v) && v@ == extents_bytes(self.image(), self.block(), e),
                None => match find_file(
                    self.image(),
                    self.is_joliet(),
                    self.block(),
                    self.root_lba(),
                    self.root_size(),
                    entry.path@,
                ) {
                    Lookup::Found(l, s) => r matches Ok(v) && v@ == extent_bytes(
                        self.image(),
                        self.block(),
                        l,
                        s,
                    ),
                    Lookup::Fail(m) => r matches Err(DiskRipperError::InvalidPath(e)) && e@ == m,
                    Lookup::Stuck => false,
                },
            },
    {
        match self.find_extents(entry.path.as_str()) {
            Some(i) => {
                let extents = &self.multi_extents[i].1;
                Ok(self.read_multi_extent_data(extents.as_slice()))
            },
            None => {
                let (lba, size) = self.find_file_lba(entry.path.as_str())?;
                Ok(self.read_file_data(lba, size))
            },
        }
    }
}

/// Opens an ISO 9660 image and reads its volume information.
pub fn parse_iso9660(data: Vec<u8>) -> (r: Result<(Iso9660Reader, super::VolumeInfo), DiskRipperError>)
    requires
        iso_openable(data@),
    ensures
        data@.len() < 0x8010 ==> (r matches Err(DiskRipperError::InvalidPath(m)) && m@
            == "Data too small for ISO 9660"@),
        data@.len() >= 0x8010 && !super::has5(data@, 0x8001, super::sig_cd001()) ==> (r matches Err(
            DiskRipperError::InvalidPath(m),
        ) && m@ == "Not a valid ISO 9660 image"@),
        data@.len() >= 0x8010 && super::has5(data@, 0x8001, super::sig_cd001()) ==> (r matches Ok(
            p,
        ) && p.0.opened_from(data@) && p.0.describes(p.1)),
{
    let reader = Iso9660Reader::new(data)?;
    let volume_info = reader.read_volume()?;
    Ok((reader, volume_info))
}

} // verus!
