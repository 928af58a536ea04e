//! Extraction: which reader a disc image's file system calls for, and which
//! sources are drive letters.
use vstd::prelude::*;
use crate::error::DiskRipperError;
use crate::filesystem::FilesystemType;
use crate::text::{chars_of, owned, trim_end_char, trim_end_char_vec};

verus! {

/// The reader that extracts an image.
#[derive(Debug, Clone, Copy, PartialEq, Eq, Structural)]
pub enum ExtractKind {
    Iso9660,
    Udf,
}

/// The reader for an image whose file system is `fs`: ISO 9660 (Joliet
/// too) or UDF; HFS, hybrid and unknown file systems are refused.
pub fn extraction_kind(fs: FilesystemType) -> (r: Result<ExtractKind, DiskRipperError>)
    ensures
        (fs is Iso9660 || fs is Joliet) ==> r == Ok::<ExtractKind, DiskRipperError>(
            ExtractKind::Iso9660,
        ),
        fs is Udf ==> r == Ok::<ExtractKind, DiskRipperError>(ExtractKind::Udf),
        (fs is Hfs || fs is Hybrid) ==> (r matches Err(DiskRipperError::UnsupportedDisc(m)) && m@
            == "HFS/Hybrid extraction not yet supported"@),
        fs is Unknown ==> (r matches Err(DiskRipperError::UnsupportedDisc(m)) && m@
            == "Unknown filesystem on disc image"@),
{
    match fs {
        FilesystemType::Iso9660 | FilesystemType::Joliet => Ok(ExtractKind::Iso9660),
        FilesystemType::Udf => Ok(ExtractKind::Udf),
        FilesystemType::Hfs | FilesystemType::Hybrid => {
            proof {
                reveal_strlit("HFS/Hybrid extraction not yet supported");
            }
            Err(DiskRipperError::UnsupportedDisc(owned("HFS/Hybrid extraction not yet supported")))
        },
        FilesystemType::Unknown => {
            proof {
                reveal_strlit("Unknown filesystem on disc image");
            }
            Err(DiskRipperError::UnsupportedDisc(owned("Unknown filesystem on disc image")))
        },
    }
}

/// Whether a path is a drive letter (`D:` or `D`, trailing `\` ignored).
pub open spec fn drive_letter(p: Seq<char>) -> bool {
    let t = trim_end_char(p, '\\');
    (t.len() == 2 && t[1] == ':') || t.len() == 1
}

/// Whether a source path is a drive letter, whose mounted files are copied
/// rather than read as an image.
pub fn is_drive_letter(path: &str) -> (r: bool)
    ensures
        r == drive_letter(path@),
{
    let mut v = chars_of(path);
    trim_end_char_vec(&mut v, '\\');
    (v.len() == 2 && v[1] == ':') || v.len() == 1
}

} // verus!
