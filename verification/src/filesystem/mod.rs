//! Disc filesystems: detection, ISO 9660 and UDF readers, checksums.
use vstd::prelude::*;

pub mod iso9660;
pub mod linux_sg;
pub mod macos_iokit;
pub mod native_win;
pub mod raw_io;
pub mod recovery;
pub mod udf;
pub mod verify;

verus! {

/// Filesystem found on a disc image.
#[derive(Debug, Clone, Copy, PartialEq, Eq, Structural)]
pub enum FilesystemType {
    Iso9660,
    Joliet,
    Udf,
    Hfs,
    Hybrid,
    Unknown,
}

/// Volume-level information of a filesystem.
#[derive(Debug, Clone)]
pub struct VolumeInfo {
    pub volume_id: String,
    pub system_id: String,
    pub volume_size: u64,
    pub block_size: u32,
    pub files_used: u64,
    pub fs_type: FilesystemType,
}

/// Five bytes `a b c d e` at `off` in `s`.
pub open spec fn has5(s: Seq<u8>, off: int, sig: Seq<u8>) -> bool {
    off + 5 <= s.len() && s.subrange(off, off + 5) == sig
}

/// Two bytes at `off` in `s`.
pub open spec fn has2(s: Seq<u8>, off: int, a: u8, b: u8) -> bool {
    off + 2 <= s.len() && s[off] == a && s[off + 1] == b
}

/// `"CD001"`, the ISO 9660 volume descriptor identifier.
pub open spec fn sig_cd001() -> Seq<u8> {
    seq![0x43u8, 0x44, 0x30, 0x30, 0x31]
}

/// `"NSR02"`, the UDF 1.02 identifier.
pub open spec fn sig_nsr02() -> Seq<u8> {
    seq![0x4Eu8, 0x53, 0x52, 0x30, 0x32]
}

/// `"NSR03"`, the UDF 2.x identifier.
pub open spec fn sig_nsr03() -> Seq<u8> {
    seq![0x4Eu8, 0x53, 0x52, 0x30, 0x33]
}

/// HFS signature (`"HX"` or `"HO"`) at offset 0x400.
pub open spec fn hfs_at_400(d: Seq<u8>) -> bool {
    d.len() > 0x438 && (has2(d, 0x400, 0x48, 0x58) || has2(d, 0x400, 0x48, 0x4F))
}

/// The filesystem that a disc image's first sectors announce.
///
/// An ISO 9660 primary descriptor at sector 16 gives ISO 9660, refined to
/// Joliet when a supplementary descriptor follows at sector 17 with a
/// `%/` escape sequence at its byte 88, or to a hybrid when an `HX` HFS
/// signature sits at offset 0x400; `NSR02`/`NSR03` at sector 16 give UDF;
/// otherwise an HFS volume header or Apple partition map gives HFS.
pub open spec fn filesystem_of(d: Seq<u8>) -> FilesystemType {
    if d.len() > 0x8010 && has5(d, 0x8001, sig_cd001()) {
        if d.len() > 0x8860 && has5(d, 0x8801, sig_cd001()) && d[0x8858] == 0x25 && d[0x8859]
            == 0x2F {
            FilesystemType::Joliet
        } else if d.len() > 0x438 && has2(d, 0x400, 0x48, 0x58) {
            FilesystemType::Hybrid
        } else {
            FilesystemType::Iso9660
        }
    } else if d.len() > 0x8010 && (has5(d, 0x8001, sig_nsr02()) || has5(d, 0x8001, sig_nsr03())) {
        FilesystemType::Udf
    } else if hfs_at_400(d) || (d.len() > 0x200 && has2(d, 0x200, 0x50, 0x4D)) {
        FilesystemType::Hfs
    } else {
        FilesystemType::Unknown
    }
}

/// Whether the five bytes at `off` equal `sig`.
pub fn bytes5_eq(d: &[u8], off: usize, a: u8, b: u8, c: u8, e: u8, f: u8) -> (r: bool)
    requires
        off + 5 <= d@.len(),
    ensures
        r == (d@.subrange(off as int, off + 5) == seq![a, b, c, e, f]),
{
    let r = d[off] == a && d[off + 1] == b && d[off + 2] == c && d[off + 3] == e && d[off + 4]
        == f;
    proof {
        let s = d@.subrange(off as int, off + 5);
        if r {
            assert(s =~= seq![a, b, c, e, f]);
        } else {
            if s == seq![a, b, c, e, f] {
                assert(s[0] == a && s[1] == b && s[2] == c && s[3] == e && s[4] == f);
            }
        }
    }
    r
}

/// Whether the bytes at `off` read `"CD001"`.
pub fn is_cd001(d: &[u8], off: usize) -> (r: bool)
    ensures
        r == has5(d@, off as int, sig_cd001()),
{
    if d.len() < 5 || off > d.len() - 5 {
        return false;
    }
    bytes5_eq(d, off, 0x43, 0x44, 0x30, 0x30, 0x31)
}

/// Whether the bytes at `off` read `"NSR02"` or `"NSR03"`.
pub fn is_nsr(d: &[u8], off: usize) -> (r: bool)
    ensures
        r == (has5(d@, off as int, sig_nsr02()) || has5(d@, off as int, sig_nsr03())),
{
    if d.len() < 5 || off > d.len() - 5 {
        return false;
    }
    bytes5_eq(d, off, 0x4E, 0x53, 0x52, 0x30, 0x32) || bytes5_eq(d, off, 0x4E, 0x53, 0x52, 0x30, 0x33)
}

/// Detects the filesystem of a disc image from its signatures.
///
/// An image of exactly 0x201 bytes is left out: the partition-map check reads
/// two bytes at 0x200 there.
pub fn detect_filesystem(data: &[u8]) -> (r: FilesystemType)
    requires
        data@.len() != 0x201,
    ensures
        r == filesystem_of(data@),
{
    let n = data.len();
    if n > 0x8010 && is_cd001(data, 0x8001) {
        if n > 0x8860 && is_cd001(data, 0x8801) && data[0x8858] == 0x25 && data[0x8859] == 0x2F {
            return FilesystemType::Joliet;
        }
        if n > 0x438 && data[0x400] == 0x48 && data[0x401] == 0x58 {
            return FilesystemType::Hybrid;
        }
        return FilesystemType::Iso9660;
    }
    if n > 0x8010 && is_nsr(data, 0x8001) {
        return FilesystemType::Udf;
    }
    if n > 0x438 && data[0x400] == 0x48 && (data[0x401] == 0x58 || data[0x401] == 0x4F) {
        return FilesystemType::Hfs;
    }
    if n > 0x200 && data[0x200] == 0x50 && data[0x201] == 0x4D {
        return FilesystemType::Hfs;
    }
    FilesystemType::Unknown
}

} // verus!
