//! Print the name of the working directory.

use vstd::prelude::*;

verus! {

#[derive(Debug, Clone)]
pub struct Arguments {}

} // verus!
