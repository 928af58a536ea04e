//! The macOS drive access that needs no I/O Kit call.
use vstd::prelude::*;

verus! {

/// A track of the table of contents.
#[derive(Debug, Clone, Copy)]
pub struct TocTrack {
    pub track_number: u8,
    pub control: u8,
    pub start_lba: u32,
}

/// The table of contents.
#[derive(Debug, Clone)]
pub struct TocData {
    pub first_track: u8,
    pub last_track: u8,
    pub tracks: Vec<TocTrack>,
}

/// Whether I/O Kit is available: only on macOS, which this build is not
/// for.
pub fn is_iokit_available() -> (r: bool)
    ensures
        !r,
{
    false
}

/// The table of contents of a drive. Reading it is not implemented: the
/// table is empty (first track 1, last track 0).
pub fn get_toc(_device_path: &str) -> (r: TocData)
    ensures
        r.first_track == 1,
        r.last_track == 0,
        r.tracks@.len() == 0,
{
    TocData { first_track: 1, last_track: 0, tracks: Vec::new() }
}

} // verus!
