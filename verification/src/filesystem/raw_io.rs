//! Raw sector access to an optical drive: the reader's settings and the
//! errors of raw reads.
use vstd::prelude::*;
use crate::error::DiskRipperError;
use crate::text::{dec_digits, owned, push_dec, push_str, string_of};

verus! {

/// Reads raw sectors of a fixed size from a drive.
pub struct RawDiscReader {
    drive_path: String,
    sector_size: u32,
}

impl RawDiscReader {
    /// The drive read.
    pub closed spec fn drive(&self) -> Seq<char> {
        self.drive_path@
    }

    /// The sector size read.
    pub closed spec fn size(&self) -> u32 {
        self.sector_size
    }

    /// A reader of `drive_path` with sectors of `sector_size` bytes.
    pub fn new(drive_path: String, sector_size: u32) -> (r: Self)
        ensures
            r.drive() == drive_path@,
            r.size() == sector_size,
    {
        RawDiscReader { drive_path, sector_size }
    }

    /// The drive read.
    pub fn drive_path(&self) -> (r: &str)
        ensures
            r@ == self.drive(),
    {
        self.drive_path.as_str()
    }

    /// The sector size read.
    pub fn sector_size(&self) -> (r: u32)
        ensures
            r == self.size(),
    {
        self.sector_size
    }
}

/// Why a raw read failed. An I/O failure carries its message.
#[derive(Debug, Clone)]
pub enum RawDiscError {
    Io(String),
    Cancelled,
    InvalidRange { start: u64, count: u32 },
    DiscEjected,
    BadSector { lba: u64 },
}

/// The library error that a raw read error becomes.
pub open spec fn raw_error_text(e: RawDiscError) -> DiskRipperErrorText {
    match e {
        RawDiscError::Io(m) => DiskRipperErrorText::Io(m@),
        RawDiscError::Cancelled => DiskRipperErrorText::Io("Operation cancelled"@),
        RawDiscError::InvalidRange { start, count } => DiskRipperErrorText::Io(
            "Invalid sector range: start="@ + dec_digits(start as nat) + ", count="@ + dec_digits(
                count as nat,
            ),
        ),
        RawDiscError::DiscEjected => DiskRipperErrorText::NoDisc("Disc ejected"@),
        RawDiscError::BadSector { lba } => DiskRipperErrorText::ReadError(
            "Bad sector at LBA "@ + dec_digits(lba as nat),
        ),
    }
}

/// A library error of the kinds raw reads give, its text as characters.
pub enum DiskRipperErrorText {
    Io(Seq<char>),
    NoDisc(Seq<char>),
    ReadError(Seq<char>),
}

/// Whether `d` is the library error described by `t`.
pub open spec fn error_is(d: DiskRipperError, t: DiskRipperErrorText) -> bool {
    match t {
        DiskRipperErrorText::Io(m) => d matches DiskRipperError::Io(s) && s@ == m,
        DiskRipperErrorText::NoDisc(m) => d matches DiskRipperError::NoDisc(s) && s@ == m,
        DiskRipperErrorText::ReadError(m) => d matches DiskRipperError::ReadError(s) && s@ == m,
    }
}

/// Converts a raw read error into the library's error.
pub fn raw_error_into(e: RawDiscError) -> (r: DiskRipperError)
    ensures
        error_is(r, raw_error_text(e)),
{
    match e {
        RawDiscError::Io(m) => DiskRipperError::Io(m),
        RawDiscError::Cancelled => DiskRipperError::Io(owned("Operation cancelled")),
        RawDiscError::InvalidRange { start, count } => {
            let mut v: Vec<char> = Vec::new();
            push_str(&mut v, "Invalid sector range: start=");
            push_dec(&mut v, start, 0);
            push_str(&mut v, ", count=");
            push_dec(&mut v, count as u64, 0);
            proof {
                assert(crate::text::dec_padded(start as nat, 0) == dec_digits(start as nat));
                assert(crate::text::dec_padded(count as nat, 0) == dec_digits(count as nat));
            }
            DiskRipperError::Io(string_of(v.as_slice()))
        },
        RawDiscError::DiscEjected => DiskRipperError::NoDisc(owned("Disc ejected")),
        RawDiscError::BadSector { lba } => {
            let mut v: Vec<char> = Vec::new();
            push_str(&mut v, "Bad sector at LBA ");
            push_dec(&mut v, lba, 0);
            proof {
                assert(crate::text::dec_padded(lba as nat, 0) == dec_digits(lba as nat));
            }
            DiskRipperError::ReadError(string_of(v.as_slice()))
        },
    }
}

} // verus!
