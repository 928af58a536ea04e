//! Disc image formats (NRG, MDF/MDS, CCD/IMG/SUB).
use vstd::prelude::*;

verus! {

/// Reader of disc image formats.
#[derive(Debug)]
pub struct ImageFormatReader;

/// Supported image formats.
#[derive(Debug, Clone, Copy, PartialEq, Eq, Structural)]
pub enum ImageFormat {
    Iso,
    BinCue,
    NrG,
    MdfMds,
    CcdImgSub,
}

impl ImageFormatReader {
    /// The reader.
    pub fn new() -> (r: Self) {
        ImageFormatReader
    }
}

} // verus!
