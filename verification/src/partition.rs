//! What the partitions beside the header partition hold of one asset.

use vstd::prelude::*;

verus! {

/// The payloads of one asset. The header of the asset lies in the H
/// partition; its samples or pixels lie in the F and B partitions, in one of
/// them or spread over both.
#[derive(Debug)]
pub struct Partitions {
    /// The decompressed payload of the asset in the F partition, if it has one.
    pub f: Option<Vec<u8>>,
    /// The decompressed payload of the asset in the B partition, if it has one.
    pub b: Option<Vec<u8>>,
    /// What the F partition holds, decompressed, from the block boundary
    /// nearest to the last sub-offset of a texture on: as many bytes as the
    /// texture takes. Only a texture with mip fragments has it.
    pub f_fragment: Option<Vec<u8>>,
}

/// The bytes of an optional payload; none where there is no payload.
pub open spec fn payload_of(payload: Option<Vec<u8>>) -> Seq<u8> {
    match payload {
        Some(bytes) => bytes@,
        None => Seq::empty(),
    }
}

/// The file extension that suits a built container.
#[derive(Clone, Copy, Debug, PartialEq, Eq, Structural)]
pub enum Extension {
    Wav,
    Opus,
    Dds,
}

impl Extension {
    /// The extension without a dot.
    pub fn as_str(&self) -> (text: &'static str)
        ensures
            text@ == match *self {
                Extension::Wav => "wav"@,
                Extension::Opus => "opus"@,
                Extension::Dds => "dds"@,
            },
    {
        match self {
            Extension::Wav => "wav",
            Extension::Opus => "opus",
            Extension::Dds => "dds",
        }
    }
}

} // verus!
