//! Optical drives: what is known of a drive and finding one by its
//! identifier among those found.
use vstd::prelude::*;
use crate::numtext::{split_whitespace, views_of, words};
use crate::text::{char_vecs, chars_eq, chars_of, concat, has_substr, lines_of, lines_vec, owned, str_contains, str_eq, string_of};

verus! {

/// A drive found on the system.
#[derive(Debug, Clone)]
pub struct DriveInfo {
    pub id: String,
    pub path: String,
    pub label: Option<String>,
    pub drive_type: DriveType,
    pub has_disc: bool,
    pub disc_present: bool,
}

/// The kind of a drive.
#[derive(Debug, Clone, Copy, PartialEq, Eq, Structural)]
pub enum DriveType {
    Cd,
    Dvd,
    BluRay,
    Hdd,
    Unknown,
}

/// The name by which a drive kind is shown.
pub open spec fn drive_type_name(t: DriveType) -> Seq<char> {
    match t {
        DriveType::Cd => "CD-ROM"@,
        DriveType::Dvd => "DVD-ROM"@,
        DriveType::BluRay => "Blu-ray"@,
        DriveType::Hdd => "HDD"@,
        DriveType::Unknown => "Unknown"@,
    }
}

impl DriveType {
    /// The name by which the drive kind is shown.
    pub fn to_string(&self) -> (r: String)
        ensures
            r@ == drive_type_name(*self),
    {
        match self {
            DriveType::Cd => owned("CD-ROM"),
            DriveType::Dvd => owned("DVD-ROM"),
            DriveType::BluRay => owned("Blu-ray"),
            DriveType::Hdd => owned("HDD"),
            DriveType::Unknown => owned("Unknown"),
        }
    }
}

/// Finds the drives of the system.
pub trait DriveScanner {
    /// The drives found.
    fn scan_drives(&self) -> Vec<DriveInfo>;

    /// The drive with identifier `id`.
    fn get_drive(&self, id: &str) -> Option<DriveInfo>;

    /// Whether the drive with identifier `id` holds a disc.
    fn has_disc(&self, id: &str) -> bool;
}

/// The scanner of the platform the program runs on; the scan itself reads
/// the system.
pub struct PlatformDriveScanner;

impl PlatformDriveScanner {
    /// The scanner.
    pub fn new() -> (r: Self) {
        PlatformDriveScanner
    }
}

/// The index of the first drive with identifier `id`.
pub open spec fn first_with_id(drives: Seq<DriveInfo>, id: Seq<char>, n: int) -> Option<int>
    decreases n,
{
    if n <= 0 {
        None
    } else {
        match first_with_id(drives, id, n - 1) {
            Some(i) => Some(i),
            None => if drives[n - 1].id@ == id {
                Some(n - 1)
            } else {
                None
            },
        }
    }
}

/// The index found is one of the first `n`.
pub proof fn lemma_first_range(drives: Seq<DriveInfo>, id: Seq<char>, n: int)
    ensures
        first_with_id(drives, id, n) matches Some(i) ==> 0 <= i < n,
    decreases n,
{
    if n > 0 {
        lemma_first_range(drives, id, n - 1);
    }
}

/// The first of `drives` with identifier `id`.
pub fn find_drive(drives: &[DriveInfo], id: &str) -> (r: Option<usize>)
    ensures
        r matches Some(i) ==> i < drives@.len(),
        match first_with_id(drives@, id@, drives@.len() as int) {
            Some(i) => r == Some(i as usize),
            None => r is None,
        },
{
    let mut i: usize = 0;
    while i < drives.len()
        invariant
            i <= drives@.len(),
            first_with_id(drives@, id@, i as int) is None,
        decreases drives.len() - i,
    {
        if str_eq(drives[i].id.as_str(), id) {
            proof {
                lemma_first_stays(drives@, id@, i + 1, drives@.len() as int);
            }
            return Some(i);
        }
        i = i + 1;
    }
    None
}

/// Once a drive with the identifier is among the first `m`, it stays the
/// first among more.
proof fn lemma_first_stays(drives: Seq<DriveInfo>, id: Seq<char>, m: int, n: int)
    requires
        0 <= m <= n,
        first_with_id(drives, id, m) is Some,
    ensures
        first_with_id(drives, id, n) == first_with_id(drives, id, m),
    decreases n - m,
{
    if m < n {
        lemma_first_stays(drives, id, m, n - 1);
    }
}

/// Whether the first drive with identifier `id` holds a disc; `false` where
/// there is none.
pub fn drive_has_disc(drives: &[DriveInfo], id: &str) -> (r: bool)
    ensures
        r == match first_with_id(drives@, id@, drives@.len() as int) {
            Some(i) => drives@[i].has_disc,
            None => false,
        },
{
    proof {
        lemma_first_range(drives@, id@, drives@.len() as int);
    }
    match find_drive(drives, id) {
        Some(i) => drives[i].has_disc,
        None => false,
    }
}

/// A logical disk as the Windows system lists it.
pub struct DriveRecord {
    pub device_id: String,
    /// The system's disk kind; 5 is an optical drive.
    pub drive_type: u32,
    pub volume_name: Option<String>,
}

/// The drive kind that a volume name shows: Blu-ray for `BD` or `BLU`,
/// DVD for `DVD`, else CD.
pub open spec fn kind_of_volume(name: Option<Seq<char>>) -> DriveType {
    match name {
        Some(n) => if has_substr(n, "BD"@) || has_substr(n, "BLU"@) {
            DriveType::BluRay
        } else if has_substr(n, "DVD"@) {
            DriveType::Dvd
        } else {
            DriveType::Cd
        },
        None => DriveType::Cd,
    }
}

/// An optional string taken as characters.
pub open spec fn opt_seq(o: Option<String>) -> Option<Seq<char>> {
    match o {
        Some(s) => Some(s@),
        None => None,
    }
}

/// Whether `d` is the drive listed by the optical disk record `r`: its
/// device as identifier, the device and `\` as path, the volume name as
/// label, the kind the name shows, with a disc.
pub open spec fn drive_of_record(r: DriveRecord, d: DriveInfo) -> bool {
    &&& d.id@ == r.device_id@
    &&& d.path@ == r.device_id@ + "\\"@
    &&& opt_seq(d.label) == opt_seq(r.volume_name)
    &&& d.drive_type == kind_of_volume(opt_seq(r.volume_name))
    &&& d.has_disc
    &&& d.disc_present
}

/// The optical records among the first `n`.
pub open spec fn optical(rs: Seq<DriveRecord>, n: int) -> Seq<DriveRecord>
    decreases n,
{
    if n <= 0 {
        seq![]
    } else if rs[n - 1].drive_type == 5 {
        optical(rs, n - 1).push(rs[n - 1])
    } else {
        optical(rs, n - 1)
    }
}

/// The drive kind that a volume name shows.
fn kind_from_volume(name: &Option<String>) -> (r: DriveType)
    ensures
        r == kind_of_volume(opt_seq(*name)),
{
    match name {
        Some(n) => if str_contains(n.as_str(), "BD") || str_contains(n.as_str(), "BLU") {
            DriveType::BluRay
        } else if str_contains(n.as_str(), "DVD") {
            DriveType::Dvd
        } else {
            DriveType::Cd
        },
        None => DriveType::Cd,
    }
}

/// The optical drives among the logical disks the system lists, in their
/// order.
pub fn drives_from_records(records: &[DriveRecord]) -> (r: Vec<DriveInfo>)
    ensures
        r@.len() == optical(records@, records@.len() as int).len(),
        forall|i: int|
            0 <= i < r@.len() ==> drive_of_record(
                #[trigger] optical(records@, records@.len() as int)[i],
                r@[i],
            ),
{
    let mut out: Vec<DriveInfo> = Vec::new();
    let mut i: usize = 0;
    while i < records.len()
        invariant
            i <= records@.len(),
            out@.len() == optical(records@, i as int).len(),
            forall|k: int|
                0 <= k < out@.len() ==> drive_of_record(
                    #[trigger] optical(records@, i as int)[k],
                    out@[k],
                ),
        decreases records.len() - i,
    {
        let rec = &records[i];
        if rec.drive_type == 5 {
            let label = match &rec.volume_name {
                Some(n) => Some(owned(n.as_str())),
                None => None,
            };
            let d = DriveInfo {
                id: owned(rec.device_id.as_str()),
                path: concat(rec.device_id.as_str(), "\\"),
                label,
                drive_type: kind_from_volume(&rec.volume_name),
                has_disc: true,
                disc_present: true,
            };
            let ghost before = out@;
            out.push(d);
            proof {
                assert(optical(records@, i + 1) == optical(records@, i as int).push(records@[i as int]));
                assert forall|k: int| 0 <= k < out@.len() implies drive_of_record(
                    #[trigger] optical(records@, i + 1)[k],
                    out@[k],
                ) by {
                    if k < before.len() {
                        assert(optical(records@, i + 1)[k] == optical(records@, i as int)[k]);
                        assert(out@[k] == before[k]);
                    }
                }
            }
        } else {
            proof {
                assert(optical(records@, i + 1) == optical(records@, i as int));
            }
        }
        i = i + 1;
    }
    out
}

/// Where the device `dev` is mounted according to the mount table lines
/// from line `i` on: the second word of the first line whose first word
/// is `dev` and that has at least two words.
pub open spec fn mount_scan(lines: Seq<Seq<char>>, dev: Seq<char>, i: int) -> Option<Seq<char>>
    decreases lines.len() - i,
{
    if i < 0 || i >= lines.len() {
        None
    } else {
        let w = words(lines[i]);
        if w.len() >= 2 && w[0] == dev {
            Some(w[1])
        } else {
            mount_scan(lines, dev, i + 1)
        }
    }
}

/// Where the device `dev_path` is mounted, according to the text of the
/// mount table (`/proc/mounts`).
pub fn find_mount_path(mounts: &str, dev_path: &str) -> (r: Option<String>)
    ensures
        match mount_scan(lines_of(mounts@), dev_path@, 0) {
            Some(m) => r matches Some(s) && s@ == m,
            None => r is None,
        },
{
    let lines = lines_vec(mounts);
    let ghost ls = char_vecs(lines@);
    let dev = chars_of(dev_path);
    let mut i: usize = 0;
    while i < lines.len()
        invariant
            ls == char_vecs(lines@),
            ls == lines_of(mounts@),
            dev@ == dev_path@,
            i <= lines@.len(),
            mount_scan(ls, dev@, i as int) == mount_scan(ls, dev@, 0),
        decreases lines.len() - i,
    {
        let parts = split_whitespace(lines[i].as_slice());
        proof {
            assert(ls[i as int] == lines@[i as int]@);
            assert(views_of(parts@).len() == parts@.len());
        }
        if parts.len() >= 2 && chars_eq(parts[0].as_slice(), dev.as_slice()) {
            proof {
                assert(views_of(parts@)[0] == parts@[0]@);
                assert(views_of(parts@)[1] == parts@[1]@);
            }
            return Some(string_of(parts[1].as_slice()));
        }
        proof {
            if parts@.len() >= 2 {
                assert(views_of(parts@)[0] == parts@[0]@);
            }
        }
        i = i + 1;
    }
    None
}

} // verus!
