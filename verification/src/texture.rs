//! Texture assets: the sub-header, the DDS header, the locator of offsets in
//! a partition of compressed blocks, and the builder that joins them.

pub mod header;
pub mod locate;
pub mod dds;
pub mod extract;
