//! Kinds of optical disc, their capacities, and recognising the disc kind
//! from what the operating system reports.
use vstd::prelude::*;
use crate::text::{
    chars_of, char_vecs, contains_chars, has_substr, lines_of, lines_vec, owned, push_str,
    str_contains,
};

verus! {

/// The kind of an optical disc.
#[derive(Debug, Clone, Copy, PartialEq, Eq, Structural)]
pub enum DiscType {
    CdRom,
    CdR,
    CdRw,
    DvdRom,
    DvdR,
    DvdRw,
    DvdRam,
    DvdPlusR,
    DvdPlusRw,
    DvdPlusRDL,
    BdRom,
    BdR,
    BdRe,
    BdRDL,
    HdDvd,
    Unknown,
}

/// The name by which a disc kind is shown.
pub open spec fn disc_type_name(t: DiscType) -> Seq<char> {
    match t {
        DiscType::CdRom => "CD-ROM"@,
        DiscType::CdR => "CD-R"@,
        DiscType::CdRw => "CD-RW"@,
        DiscType::DvdRom => "DVD-ROM"@,
        DiscType::DvdR => "DVD-R"@,
        DiscType::DvdRw => "DVD-RW"@,
        DiscType::DvdRam => "DVD-RAM"@,
        DiscType::DvdPlusR => "DVD+R"@,
        DiscType::DvdPlusRw => "DVD+RW"@,
        DiscType::DvdPlusRDL => "DVD+R DL"@,
        DiscType::BdRom => "BD-ROM"@,
        DiscType::BdR => "BD-R"@,
        DiscType::BdRe => "BD-RE"@,
        DiscType::BdRDL => "BD-R DL"@,
        DiscType::HdDvd => "HD DVD"@,
        DiscType::Unknown => "Unknown"@,
    }
}

/// Whether a disc kind can be written.
pub open spec fn writable(t: DiscType) -> bool {
    match t {
        DiscType::CdR | DiscType::CdRw | DiscType::DvdR | DiscType::DvdRw | DiscType::DvdRam
        | DiscType::DvdPlusR | DiscType::DvdPlusRw | DiscType::DvdPlusRDL | DiscType::BdR
        | DiscType::BdRe | DiscType::BdRDL => true,
        _ => false,
    }
}

/// Whether a disc kind is a Blu-ray disc.
pub open spec fn bluray(t: DiscType) -> bool {
    match t {
        DiscType::BdRom | DiscType::BdR | DiscType::BdRe | DiscType::BdRDL => true,
        _ => false,
    }
}

/// Whether a disc kind is a DVD (HD DVD included).
pub open spec fn dvd(t: DiscType) -> bool {
    match t {
        DiscType::DvdRom | DiscType::DvdR | DiscType::DvdRw | DiscType::DvdRam
        | DiscType::DvdPlusR | DiscType::DvdPlusRw | DiscType::DvdPlusRDL | DiscType::HdDvd => true,
        _ => false,
    }
}

/// Whether a disc kind is a CD.
pub open spec fn cd(t: DiscType) -> bool {
    match t {
        DiscType::CdRom | DiscType::CdR | DiscType::CdRw => true,
        _ => false,
    }
}

/// The nominal capacity of a disc kind in bytes (0 where unknown).
pub open spec fn capacity(t: DiscType) -> u64 {
    match t {
        DiscType::CdRom | DiscType::CdR | DiscType::CdRw => 734_003_200,
        DiscType::DvdRom | DiscType::DvdR | DiscType::DvdRw | DiscType::DvdRam => 4_700_000_000,
        DiscType::DvdPlusRDL => 8_500_000_000,
        DiscType::BdRom | DiscType::BdR | DiscType::BdRe => 25_000_000_000,
        DiscType::BdRDL => 50_000_000_000,
        DiscType::HdDvd => 15_000_000_000,
        _ => 0,
    }
}

impl DiscType {
    /// Whether the disc can be written.
    pub fn is_writable(&self) -> (r: bool)
        ensures
            r == writable(*self),
    {
        match self {
            DiscType::CdR | DiscType::CdRw | DiscType::DvdR | DiscType::DvdRw | DiscType::DvdRam
            | DiscType::DvdPlusR | DiscType::DvdPlusRw | DiscType::DvdPlusRDL | DiscType::BdR
            | DiscType::BdRe | DiscType::BdRDL => true,
            _ => false,
        }
    }

    /// Whether the disc is a Blu-ray disc.
    pub fn is_bluray(&self) -> (r: bool)
        ensures
            r == bluray(*self),
    {
        match self {
            DiscType::BdRom | DiscType::BdR | DiscType::BdRe | DiscType::BdRDL => true,
            _ => false,
        }
    }

    /// Whether the disc is a DVD.
    pub fn is_dvd(&self) -> (r: bool)
        ensures
            r == dvd(*self),
    {
        match self {
            DiscType::DvdRom | DiscType::DvdR | DiscType::DvdRw | DiscType::DvdRam
            | DiscType::DvdPlusR | DiscType::DvdPlusRw | DiscType::DvdPlusRDL
            | DiscType::HdDvd => true,
            _ => false,
        }
    }

    /// Whether the disc is a CD.
    pub fn is_cd(&self) -> (r: bool)
        ensures
            r == cd(*self),
    {
        match self {
            DiscType::CdRom | DiscType::CdR | DiscType::CdRw => true,
            _ => false,
        }
    }

    /// The nominal capacity in bytes.
    pub fn capacity_bytes(&self) -> (r: u64)
        ensures
            r == capacity(*self),
    {
        match self {
            DiscType::CdRom | DiscType::CdR | DiscType::CdRw => 700 * 1024 * 1024,
            DiscType::DvdRom | DiscType::DvdR | DiscType::DvdRw | DiscType::DvdRam => 4_700_000_000,
            DiscType::DvdPlusRDL => 8_500_000_000,
            DiscType::BdRom | DiscType::BdR | DiscType::BdRe => 25_000_000_000,
            DiscType::BdRDL => 50_000_000_000,
            DiscType::HdDvd => 15_000_000_000,
            _ => 0,
        }
    }

    /// The name by which the disc kind is shown.
    pub fn to_string(&self) -> (r: String)
        ensures
            r@ == disc_type_name(*self),
    {
        match self {
            DiscType::CdRom => owned("CD-ROM"),
            DiscType::CdR => owned("CD-R"),
            DiscType::CdRw => owned("CD-RW"),
            DiscType::DvdRom => owned("DVD-ROM"),
            DiscType::DvdR => owned("DVD-R"),
            DiscType::DvdRw => owned("DVD-RW"),
            DiscType::DvdRam => owned("DVD-RAM"),
            DiscType::DvdPlusR => owned("DVD+R"),
            DiscType::DvdPlusRw => owned("DVD+RW"),
            DiscType::DvdPlusRDL => owned("DVD+R DL"),
            DiscType::BdRom => owned("BD-ROM"),
            DiscType::BdR => owned("BD-R"),
            DiscType::BdRe => owned("BD-RE"),
            DiscType::BdRDL => owned("BD-R DL"),
            DiscType::HdDvd => owned("HD DVD"),
            DiscType::Unknown => owned("Unknown"),
        }
    }
}

/// The filesystem of a disc.
#[derive(Debug, Clone, Copy, PartialEq, Eq, Structural)]
pub enum FileSystem {
    Iso9660,
    Joliet,
    Udf,
    Fat,
    Ntfs,
    HfsPlus,
    Hybrid,
    Unknown,
}

/// The name by which a filesystem is shown.
pub open spec fn file_system_name(f: FileSystem) -> Seq<char> {
    match f {
        FileSystem::Iso9660 => "ISO 9660"@,
        FileSystem::Joliet => "Joliet"@,
        FileSystem::Udf => "UDF"@,
        FileSystem::Fat => "FAT"@,
        FileSystem::Ntfs => "NTFS"@,
        FileSystem::HfsPlus => "HFS+"@,
        FileSystem::Hybrid => "Hybrid"@,
        FileSystem::Unknown => "Unknown"@,
    }
}

impl FileSystem {
    /// The name by which the filesystem is shown.
    pub fn to_string(&self) -> (r: String)
        ensures
            r@ == file_system_name(*self),
    {
        match self {
            FileSystem::Iso9660 => owned("ISO 9660"),
            FileSystem::Joliet => owned("Joliet"),
            FileSystem::Udf => owned("UDF"),
            FileSystem::Fat => owned("FAT"),
            FileSystem::Ntfs => owned("NTFS"),
            FileSystem::HfsPlus => owned("HFS+"),
            FileSystem::Hybrid => owned("Hybrid"),
            FileSystem::Unknown => owned("Unknown"),
        }
    }
}

/// What is known of the disc in a drive; `inserted_at` is the time it was
/// seen, in seconds since the Unix epoch.
#[derive(Debug, Clone)]
pub struct DiscInfo {
    pub disc_type: DiscType,
    pub label: Option<String>,
    pub total_size: u64,
    pub used_size: u64,
    pub free_size: u64,
    pub file_system: FileSystem,
    pub sessions: u32,
    pub tracks: u32,
    pub manufacturer: Option<String>,
    pub write_speed: Option<u32>,
    pub inserted_at: i64,
}

/// Recognises discs with what the platform reports.
pub struct PlatformDiscAnalyzer;

/// The disc kind that a Windows media type description names: the first
/// of CD-ROM, CD-RW, CD-R, DVD-ROM, DVD-RAM, DVD-RW, DVD+R, DVD-R, BD-ROM,
/// BD-R that occurs in it.
pub open spec fn windows_media_type(s: Seq<char>) -> DiscType {
    if has_substr(s, "CD-ROM"@) {
        DiscType::CdRom
    } else if has_substr(s, "CD-RW"@) {
        DiscType::CdRw
    } else if has_substr(s, "CD-R"@) {
        DiscType::CdR
    } else if has_substr(s, "DVD-ROM"@) {
        DiscType::DvdRom
    } else if has_substr(s, "DVD-RAM"@) {
        DiscType::DvdRam
    } else if has_substr(s, "DVD-RW"@) {
        DiscType::DvdRw
    } else if has_substr(s, "DVD+R"@) {
        DiscType::DvdPlusR
    } else if has_substr(s, "DVD-R"@) {
        DiscType::DvdR
    } else if has_substr(s, "BD-ROM"@) {
        DiscType::BdRom
    } else if has_substr(s, "BD-R"@) {
        DiscType::BdR
    } else {
        DiscType::Unknown
    }
}

/// The disc kind that `diskutil info` output names.
pub open spec fn macos_disc_type(s: Seq<char>) -> DiscType {
    if has_substr(s, "BD-ROM"@) || has_substr(s, "Blu-ray"@) {
        DiscType::BdRom
    } else if has_substr(s, "DVD-ROM"@) {
        DiscType::DvdRom
    } else if has_substr(s, "DVD-R"@) {
        DiscType::DvdR
    } else if has_substr(s, "DVD+R"@) {
        DiscType::DvdPlusR
    } else if has_substr(s, "CD-ROM"@) {
        DiscType::CdRom
    } else if has_substr(s, "CD-R"@) {
        DiscType::CdR
    } else {
        DiscType::Unknown
    }
}

/// Scans lines of `/proc/sys/dev/cdrom/info` from line `i`: after a line
/// naming the drive (`key`), the first line that says the drive can read
/// CDs, DVDs or BDs decides.
pub open spec fn linux_scan(ls: Seq<Seq<char>>, i: int, in_drive: bool, key: Seq<char>) -> DiscType
    decreases ls.len() - i,
{
    if i < 0 || i >= ls.len() {
        DiscType::Unknown
    } else if has_substr(ls[i], key) {
        linux_scan(ls, i + 1, true, key)
    } else if in_drive && has_substr(ls[i], "Can read CD"@) {
        DiscType::CdRom
    } else if in_drive && has_substr(ls[i], "Can read DVD"@) {
        DiscType::DvdRom
    } else if in_drive && has_substr(ls[i], "Can read BD"@) {
        DiscType::BdRom
    } else {
        linux_scan(ls, i + 1, in_drive, key)
    }
}

impl PlatformDiscAnalyzer {
    /// The analyzer.
    pub fn new() -> (r: Self) {
        PlatformDiscAnalyzer
    }

    /// What is known of a disc of kind `disc_type` seen at `inserted_at`:
    /// its nominal capacity, all of it free; one session and one track.
    pub fn disc_info(&self, disc_type: DiscType, inserted_at: i64) -> (r: DiscInfo)
        ensures
            r.disc_type == disc_type,
            r.label is None,
            r.total_size == capacity(disc_type),
            r.used_size == 0,
            r.free_size == capacity(disc_type),
            r.file_system == FileSystem::Unknown,
            r.sessions == 1,
            r.tracks == 1,
            r.manufacturer is None,
            r.write_speed is None,
            r.inserted_at == inserted_at,
    {
        let capacity = disc_type.capacity_bytes();
        DiscInfo {
            disc_type,
            label: None,
            total_size: capacity,
            used_size: 0,
            free_size: capacity,
            file_system: FileSystem::Unknown,
            sessions: 1,
            tracks: 1,
            manufacturer: None,
            write_speed: None,
            inserted_at,
        }
    }

    /// The disc kind that a Windows media type description names.
    pub fn parse_windows_media_type(json: &str) -> (r: DiscType)
        ensures
            r == windows_media_type(json@),
    {
        if str_contains(json, "CD-ROM") {
            DiscType::CdRom
        } else if str_contains(json, "CD-RW") {
            DiscType::CdRw
        } else if str_contains(json, "CD-R") {
            DiscType::CdR
        } else if str_contains(json, "DVD-ROM") {
            DiscType::DvdRom
        } else if str_contains(json, "DVD-RAM") {
            DiscType::DvdRam
        } else if str_contains(json, "DVD-RW") {
            DiscType::DvdRw
        } else if str_contains(json, "DVD+R") {
            DiscType::DvdPlusR
        } else if str_contains(json, "DVD-R") {
            DiscType::DvdR
        } else if str_contains(json, "BD-ROM") {
            DiscType::BdRom
        } else if str_contains(json, "BD-R") {
            DiscType::BdR
        } else {
            DiscType::Unknown
        }
    }

    /// The disc kind that `diskutil info` output names.
    pub fn parse_macos_disc_info(info: &str) -> (r: DiscType)
        ensures
            r == macos_disc_type(info@),
    {
        if str_contains(info, "BD-ROM") || str_contains(info, "Blu-ray") {
            DiscType::BdRom
        } else if str_contains(info, "DVD-ROM") {
            DiscType::DvdRom
        } else if str_contains(info, "DVD-R") {
            DiscType::DvdR
        } else if str_contains(info, "DVD+R") {
            DiscType::DvdPlusR
        } else if str_contains(info, "CD-ROM") {
            DiscType::CdRom
        } else if str_contains(info, "CD-R") {
            DiscType::CdR
        } else {
            DiscType::Unknown
        }
    }

    /// The disc kind of drive `drive_name` from `/proc/sys/dev/cdrom/info`.
    pub fn parse_linux_disc_info(info: &str, drive_name: &str) -> (r: DiscType)
        ensures
            r == linux_scan(lines_of(info@), 0, false, "drive name: "@ + drive_name@),
    {
        let ls = lines_vec(info);
        let mut key: Vec<char> = Vec::new();
        push_str(&mut key, "drive name: ");
        push_str(&mut key, drive_name);
        let cd = chars_of("Can read CD");
        let dvd = chars_of("Can read DVD");
        let bd = chars_of("Can read BD");
        let ghost lines = char_vecs(ls@);
        let mut in_drive = false;
        let mut i: usize = 0;
        while i < ls.len()
            invariant
                i <= ls@.len(),
                lines == char_vecs(ls@),
                lines == lines_of(info@),
                key@ == "drive name: "@ + drive_name@,
                cd@ == "Can read CD"@,
                dvd@ == "Can read DVD"@,
                bd@ == "Can read BD"@,
                linux_scan(lines, i as int, in_drive, key@) == linux_scan(
                    lines,
                    0,
                    false,
                    key@,
                ),
            decreases ls.len() - i,
        {
            let line = ls[i].as_slice();
            proof {
                assert(lines[i as int] == line@);
            }
            if contains_chars(line, key.as_slice()) {
                in_drive = true;
            } else if in_drive {
                if contains_chars(line, cd.as_slice()) {
                    return DiscType::CdRom;
                } else if contains_chars(line, dvd.as_slice()) {
                    return DiscType::DvdRom;
                } else if contains_chars(line, bd.as_slice()) {
                    return DiscType::BdRom;
                }
            }
            i = i + 1;
        }
        DiscType::Unknown
    }
}

} // verus!
