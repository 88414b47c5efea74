//! The ways in which decoding and building fail.

use vstd::prelude::*;

verus! {

/// A read went past the end of the buffer.
#[derive(Clone, Copy, Debug, PartialEq, Eq, Structural)]
pub struct Truncated;

/// Why a container could not be built from an asset.
#[derive(Clone, Copy, Debug, PartialEq, Eq, Structural)]
pub enum BuildError {
    /// The header or the sub-header ends before all of its fields.
    Truncated,
    /// The compression tag or the texture format tag is not a known one, or
    /// the sub-header describes what the container cannot hold.
    UnknownFormat,
    /// A partition that the asset needs is absent, or its payload has the wrong length.
    MissingPartition,
    /// The asset is of a kind from which no container is built.
    UnsupportedAsset,
}

impl BuildError {
    /// The message shown for this error.
    pub fn message(&self) -> (text: &'static str)
        ensures
            text@ == match *self {
                BuildError::Truncated => "Header is truncated"@,
                BuildError::UnknownFormat => "Unknown format"@,
                BuildError::MissingPartition => "Missing partition"@,
                BuildError::UnsupportedAsset => "File is not supported"@,
            },
    {
        match self {
            BuildError::Truncated => "Header is truncated",
            BuildError::UnknownFormat => "Unknown format",
            BuildError::MissingPartition => "Missing partition",
            BuildError::UnsupportedAsset => "File is not supported",
        }
    }
}

} // verus!
