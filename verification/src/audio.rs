//! Audio assets: the sub-header, the WAV and Ogg/Opus containers, and the
//! builder that joins them with the samples.

pub mod ogg;
pub mod opus;
pub mod header;
pub mod extract;
