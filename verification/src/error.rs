//! The library's error type.
use vstd::prelude::*;
use crate::text::{concat, dec_digits, push_dec, push_str, string_of};

verus! {

/// Errors reported by the library.
#[derive(Debug, Clone)]
pub enum DiskRipperError {
    DriveNotFound(String),
    NoDisc(String),
    ReadError(String),
    UnsupportedDisc(String),
    Io(String),
    InvalidPath(String),
    JobNotFound(String),
    JobExists(String),
    ExtractionFailed(String),
    ImagingFailed(String),
    InsufficientSpace { need: u64, have: u64 },
    ChecksumMismatch { expected: String, actual: String },
    Platform(String),
    Unknown(String),
}

/// The text by which an error describes itself.
pub open spec fn error_text(e: DiskRipperError) -> Seq<char> {
    match e {
        DiskRipperError::DriveNotFound(s) => "Drive not found: "@ + s@,
        DiskRipperError::NoDisc(s) => "No disc in drive: "@ + s@,
        DiskRipperError::ReadError(s) => "Disc read error: "@ + s@,
        DiskRipperError::UnsupportedDisc(s) => "Disc type not supported: "@ + s@,
        DiskRipperError::Io(s) => "IO error: "@ + s@,
        DiskRipperError::InvalidPath(s) => "Invalid path: "@ + s@,
        DiskRipperError::JobNotFound(s) => "Job not found: "@ + s@,
        DiskRipperError::JobExists(s) => "Job already exists: "@ + s@,
        DiskRipperError::ExtractionFailed(s) => "Extraction failed: "@ + s@,
        DiskRipperError::ImagingFailed(s) => "Imaging failed: "@ + s@,
        DiskRipperError::InsufficientSpace { need, have } => "Insufficient space: need "@
            + dec_digits(need as nat) + " bytes, have "@ + dec_digits(have as nat) + " bytes"@,
        DiskRipperError::ChecksumMismatch { expected, actual } => "Checksum mismatch: expected "@
            + expected@ + ", got "@ + actual@,
        DiskRipperError::Platform(s) => "Platform error: "@ + s@,
        DiskRipperError::Unknown(s) => "Unknown error: "@ + s@,
    }
}

impl DiskRipperError {
    /// The message that describes the error (what `to_string` gives in app code).
    pub fn message(&self) -> (r: String)
        ensures
            r@ == error_text(*self),
    {
        match self {
            DiskRipperError::DriveNotFound(s) => concat("Drive not found: ", s.as_str()),
            DiskRipperError::NoDisc(s) => concat("No disc in drive: ", s.as_str()),
            DiskRipperError::ReadError(s) => concat("Disc read error: ", s.as_str()),
            DiskRipperError::UnsupportedDisc(s) => concat("Disc type not supported: ", s.as_str()),
            DiskRipperError::Io(s) => concat("IO error: ", s.as_str()),
            DiskRipperError::InvalidPath(s) => concat("Invalid path: ", s.as_str()),
            DiskRipperError::JobNotFound(s) => concat("Job not found: ", s.as_str()),
            DiskRipperError::JobExists(s) => concat("Job already exists: ", s.as_str()),
            DiskRipperError::ExtractionFailed(s) => concat("Extraction failed: ", s.as_str()),
            DiskRipperError::ImagingFailed(s) => concat("Imaging failed: ", s.as_str()),
            DiskRipperError::InsufficientSpace { need, have } => {
                let mut v: Vec<char> = Vec::new();
                push_str(&mut v, "Insufficient space: need ");
                push_dec(&mut v, *need, 0);
                push_str(&mut v, " bytes, have ");
                push_dec(&mut v, *have, 0);
                push_str(&mut v, " bytes");
                string_of(v.as_slice())
            },
            DiskRipperError::ChecksumMismatch { expected, actual } => {
                let mut v: Vec<char> = Vec::new();
                push_str(&mut v, "Checksum mismatch: expected ");
                push_str(&mut v, expected.as_str());
                push_str(&mut v, ", got ");
                push_str(&mut v, actual.as_str());
                string_of(v.as_slice())
            },
            DiskRipperError::Platform(s) => concat("Platform error: ", s.as_str()),
            DiskRipperError::Unknown(s) => concat("Unknown error: ", s.as_str()),
        }
    }
}

} // verus!
