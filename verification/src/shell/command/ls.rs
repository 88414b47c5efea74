//! List the content of a directory.

use vstd::prelude::*;

verus! {

#[derive(Debug, Clone)]
pub struct Arguments {
    /// The directory to list.
    pub directory: String,
    /// Whether sizes and times are listed too.
    pub long: bool,
}

/// The arguments of the command in its plain form: a directory and nothing else.
#[derive(Debug, Clone)]
pub struct LsArguments {
    /// The directory to list.
    pub directory: String,
}

} // verus!
