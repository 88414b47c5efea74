//! Decoding of asset headers and reconstruction of audio and texture files
//! from the fragments that a package keeps in its partitions.

pub mod action;
pub mod args;
pub mod arguments;
pub mod audio;
pub mod bytes;
pub mod error;
pub mod explorer;
pub mod extract;
pub mod metadata;
pub mod partition;
pub mod shell;
pub mod text;
pub mod texture;
pub mod tree;
pub mod utils;
