//! The arguments of the command line.

use vstd::prelude::*;

verus! {

/// What the command line asks for.
#[derive(Debug)]
pub struct Args {
    /// The directory that holds the packages.
    pub directory: String,
    /// The name of the package to open.
    pub package: String,
    /// The directory that extracted files are written to.
    pub output: String,
    /// A command to run without opening the shell.
    pub command: Option<String>,
    /// Whether the shell is opened in place of the explorer.
    pub shell: bool,
}

} // verus!
