//! Display the status of a file.

use vstd::prelude::*;

verus! {

#[derive(Debug, Clone)]
pub struct Arguments {
    /// The file to describe.
    pub file: String,
}

} // verus!
