//! Typed error values.  Fatal conditions are returned up the call chain; the
//! caller decides exit behaviour.  Messages carry no numbers: the fields do.

use vstd::prelude::*;

verus! {

/// Everything that can go wrong while locating and decoding the four stems of
/// a directory.
#[derive(PartialEq, Eq, Structural, Clone, Copy, Debug)]
pub enum ImportError {
    /// The directory could not be read at all.
    DirectoryAccess,
    /// Fewer than the four required stem files were found; `found` says how
    /// many of them were present.
    MissingStems { found: usize },
    /// A stem file could not be opened.
    FileOpen,
    /// Probing the container format failed.
    UnsupportedFormat,
    /// The file does not hold exactly one audio track; `count` says how many
    /// it holds.
    MultiTrack { count: usize },
    /// Codec construction or packet decoding failed unrecoverably.
    Decode,
    /// Decoding finished without producing a single sample.
    EmptyResult,
}

impl ImportError {
    /// A short fixed description of the error kind.
    pub fn message(&self) -> (r: &'static str)
    {
        match self {
            ImportError::DirectoryAccess => "failed to open the stem directory",
            ImportError::MissingStems { .. } => "could not find all four separated stems",
            ImportError::FileOpen => "could not open a stem file",
            ImportError::UnsupportedFormat => "unsupported container format",
            ImportError::MultiTrack { .. } => "the file does not hold exactly one audio track",
            ImportError::Decode => "codec construction or packet decoding failed",
            ImportError::EmptyResult => "no problems detected but nothing was decoded",
        }
    }
}

/// Everything that can go wrong while comparing two spectrograms.
#[derive(PartialEq, Eq, Structural, Clone, Copy, Debug)]
pub enum CompareError {
    /// A spectrogram's length is not a multiple of the caller-supplied bin
    /// count.  `second` names the offending input; `len` its channel length.
    BinCountMismatch { second: bool, bins: u32, len: usize },
}

impl CompareError {
    /// A short fixed description of the error kind.
    pub fn message(&self) -> (r: &'static str)
    {
        match self {
            CompareError::BinCountMismatch { .. } => {
                "the number of bins does not divide the size of the input vector"
            },
        }
    }
}

} // verus!
