//! Change the working directory.

use vstd::prelude::*;

verus! {

#[derive(Debug, Clone)]
pub struct Arguments {
    /// The directory to go to.
    pub directory: String,
}

} // verus!
