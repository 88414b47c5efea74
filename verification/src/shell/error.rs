//! The errors of the shell's commands.

use vstd::prelude::*;

verus! {

/// No file and no directory has the given path.
#[derive(Debug, Clone, Copy, PartialEq, Eq, Structural)]
pub struct PathNotFound;

impl PathNotFound {
    /// The message shown for this error.
    pub fn message(&self) -> (text: &'static str)
        ensures
            text@ == "Path not found"@,
    {
        "Path not found"
    }
}

/// A command was called without an argument that it needs.
#[derive(Debug, Clone, Copy, PartialEq, Eq, Structural)]
pub struct MissingArgument;

impl MissingArgument {
    /// The message shown for this error.
    pub fn message(&self) -> (text: &'static str)
        ensures
            text@ == "Missing argument"@,
    {
        "Missing argument"
    }
}

} // verus!
