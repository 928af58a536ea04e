//! Plain value types shared across the library.
use vstd::prelude::*;
use crate::text::owned;

verus! {

/// A file or directory found on a disc.
#[derive(Debug, Clone)]
pub struct FileEntry {
    pub path: String,
    pub size: u64,
    pub is_dir: bool,
    /// Modification time in seconds since the Unix epoch, where known.
    pub modified: Option<i64>,
    pub checksum_sha256: Option<String>,
}

/// The value of a [`FileEntry`], its strings taken as characters.
pub struct FileEntryView {
    pub path: Seq<char>,
    pub size: u64,
    pub is_dir: bool,
    pub modified: Option<i64>,
    pub checksum_sha256: Option<Seq<char>>,
}

impl View for FileEntry {
    type V = FileEntryView;

    open spec fn view(&self) -> FileEntryView {
        FileEntryView {
            path: self.path@,
            size: self.size,
            is_dir: self.is_dir,
            modified: self.modified,
            checksum_sha256: match self.checksum_sha256 {
                Some(s) => Some(s@),
                None => None,
            },
        }
    }
}

/// An entry as the filesystem readers produce it: no time and no checksum.
pub open spec fn plain_entry(path: Seq<char>, size: u64, is_dir: bool) -> FileEntryView {
    FileEntryView { path, size, is_dir, modified: None, checksum_sha256: None }
}


/// Identifier of a job: a random UUID in its hyphenated text form.
#[derive(Debug, Clone, PartialEq, Eq, Hash)]
pub struct JobId(pub String);

/// `uuid::Uuid::new_v4().to_string()`: a fresh random UUID as 36 characters
/// (32 hexadecimal digits in groups separated by hyphens). Which UUID comes
/// back is chance; the contract states only the length of its text.
#[verifier::external_body]
pub(crate) fn random_uuid() -> (r: String)
    ensures
        r@.len() == 36,
{
    uuid::Uuid::new_v4().to_string()
}

impl JobId {
    /// A new random job identifier.
    pub fn new() -> (r: Self)
        ensures
            r.0@.len() == 36,
    {
        JobId(random_uuid())
    }

    /// The identifier's text.
    pub fn to_string(&self) -> (r: String)
        ensures
            r@ == self.0@,
    {
        owned(self.0.as_str())
    }
}

/// Identifier of a drive.
#[derive(Debug, Clone)]
pub struct DriveId(pub String);

impl DriveId {
    /// The drive identifier `id`.
    pub fn new(id: String) -> (r: Self)
        ensures
            r.0@ == id@,
    {
        DriveId(id)
    }

    /// The identifier's text.
    pub fn to_string(&self) -> (r: String)
        ensures
            r@ == self.0@,
    {
        owned(self.0.as_str())
    }
}

/// Identifier of a disc.
#[derive(Debug, Clone)]
pub struct MediaId(pub String);

impl MediaId {
    /// The disc identifier `id`.
    pub fn new(id: String) -> (r: Self)
        ensures
            r.0@ == id@,
    {
        MediaId(id)
    }
}

/// Where output goes.
#[derive(Debug, Clone)]
pub struct OutputPath(pub String);

impl OutputPath {
    /// The output path `path`.
    pub fn new(path: String) -> (r: Self)
        ensures
            r.0@ == path@,
    {
        OutputPath(path)
    }
}

/// Options of a rip.
#[derive(Debug, Clone)]
pub struct RipOptions {
    pub verify_checksums: bool,
    pub eject_after_rip: bool,
    pub read_speed: Option<u32>,
    pub retries: u32,
    pub buffer_size: usize,
}

impl Default for RipOptions {
    fn default() -> (r: Self)
        ensures
            r.verify_checksums,
            !r.eject_after_rip,
            r.read_speed is None,
            r.retries == 3,
            r.buffer_size == 4 * 1024 * 1024,
    {
        RipOptions {
            verify_checksums: true,
            eject_after_rip: false,
            read_speed: None,
            retries: 3,
            buffer_size: 4 * 1024 * 1024,
        }
    }
}

/// Options of an extraction.
#[derive(Debug, Clone)]
pub struct ExtractOptions {
    pub preserve_timestamps: bool,
    pub preserve_permissions: bool,
    pub overwrite_existing: bool,
    pub extract_path: Option<String>,
}

impl Default for ExtractOptions {
    fn default() -> (r: Self)
        ensures
            r.preserve_timestamps,
            r.preserve_permissions,
            !r.overwrite_existing,
            r.extract_path is None,
    {
        ExtractOptions {
            preserve_timestamps: true,
            preserve_permissions: true,
            overwrite_existing: false,
            extract_path: None,
        }
    }
}

/// The format of a disc image.
#[derive(Debug, Clone, Copy, PartialEq, Eq, Structural)]
pub enum ImageFormat {
    Iso,
    BinCue,
    Img,
    Dmg,
}

/// The name by which an image format is shown.
pub open spec fn image_format_name(f: ImageFormat) -> Seq<char> {
    match f {
        ImageFormat::Iso => "ISO"@,
        ImageFormat::BinCue => "BIN/CUE"@,
        ImageFormat::Img => "IMG"@,
        ImageFormat::Dmg => "DMG"@,
    }
}

impl ImageFormat {
    /// The name by which the format is shown.
    pub fn to_string(&self) -> (r: String)
        ensures
            r@ == image_format_name(*self),
    {
        match self {
            ImageFormat::Iso => owned("ISO"),
            ImageFormat::BinCue => owned("BIN/CUE"),
            ImageFormat::Img => owned("IMG"),
            ImageFormat::Dmg => owned("DMG"),
        }
    }
}

/// How hard an image is compressed.
#[derive(Debug, Clone, Copy, PartialEq, Eq, Structural)]
pub enum CompressionLevel {
    Uncompressed,
    Fast,
    Default,
    Best,
}

/// The name by which a compression level is shown.
pub open spec fn compression_name(c: CompressionLevel) -> Seq<char> {
    match c {
        CompressionLevel::Uncompressed => "None"@,
        CompressionLevel::Fast => "Fast"@,
        CompressionLevel::Default => "Default"@,
        CompressionLevel::Best => "Best"@,
    }
}

impl CompressionLevel {
    /// The name by which the level is shown.
    pub fn to_string(&self) -> (r: String)
        ensures
            r@ == compression_name(*self),
    {
        match self {
            CompressionLevel::Uncompressed => owned("None"),
            CompressionLevel::Fast => owned("Fast"),
            CompressionLevel::Default => owned("Default"),
            CompressionLevel::Best => owned("Best"),
        }
    }
}

/// Options of imaging.
#[derive(Debug, Clone)]
pub struct ImageOptions {
    pub format: ImageFormat,
    pub compression: CompressionLevel,
    pub split_size: Option<u64>,
}

impl Default for ImageOptions {
    fn default() -> (r: Self)
        ensures
            r.format == ImageFormat::Iso,
            r.compression == CompressionLevel::Uncompressed,
            r.split_size is None,
    {
        ImageOptions { format: ImageFormat::Iso, compression: CompressionLevel::Uncompressed, split_size: None }
    }
}

/// The phase a job is in.
#[derive(Debug, Clone, Copy, PartialEq, Eq, Structural)]
pub enum Phase {
    Idle,
    Detecting,
    Analyzing,
    Reading,
    Extracting,
    Imaging,
    Verifying,
    Finalizing,
    Complete,
    Error,
    Cancelled,
}

/// The name by which a phase is shown.
pub open spec fn phase_name(p: Phase) -> Seq<char> {
    match p {
        Phase::Idle => "Idle"@,
        Phase::Detecting => "Detecting"@,
        Phase::Analyzing => "Analyzing"@,
        Phase::Reading => "Reading"@,
        Phase::Extracting => "Extracting"@,
        Phase::Imaging => "Imaging"@,
        Phase::Verifying => "Verifying"@,
        Phase::Finalizing => "Finalizing"@,
        Phase::Complete => "Complete"@,
        Phase::Error => "Error"@,
        Phase::Cancelled => "Cancelled"@,
    }
}

impl Phase {
    /// The name by which the phase is shown.
    pub fn to_string(&self) -> (r: String)
        ensures
            r@ == phase_name(*self),
    {
        match self {
            Phase::Idle => owned("Idle"),
            Phase::Detecting => owned("Detecting"),
            Phase::Analyzing => owned("Analyzing"),
            Phase::Reading => owned("Reading"),
            Phase::Extracting => owned("Extracting"),
            Phase::Imaging => owned("Imaging"),
            Phase::Verifying => owned("Verifying"),
            Phase::Finalizing => owned("Finalizing"),
            Phase::Complete => owned("Complete"),
            Phase::Error => owned("Error"),
            Phase::Cancelled => owned("Cancelled"),
        }
    }
}

/// The outcome of comparing a file's checksum with the expected one.
#[derive(Debug, Clone)]
pub struct ChecksumResult {
    pub file_path: String,
    pub expected: String,
    pub actual: String,
    pub valid: bool,
}

} // verus!
