//! Extract a file, or a directory with what is in it.

use vstd::prelude::*;

verus! {

#[derive(Debug, Clone)]
pub struct Arguments {
    /// The file or the directory to extract.
    pub path: String,
    /// Whether the directories inside a directory are extracted too.
    pub recursive: bool,
    /// Whether the data is written as the partition holds it.
    pub raw: bool,
    /// The partition to take the raw data from: H, F or B.
    pub cache: Option<String>,
}

} // verus!
