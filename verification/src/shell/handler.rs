//! What the shell does with a line.

use crate::text::same_text;
use vstd::prelude::*;

verus! {

/// The handler of the lines that the shell reads.
#[derive(Default, Copy, Clone, Eq, PartialEq, Debug)]
pub struct Handler();

/// What a line asks the shell to do.
#[derive(Debug, Clone, Copy, PartialEq, Eq, Structural)]
pub enum Request {
    /// The line is empty: nothing.
    Nothing,
    /// Leave the shell.
    Quit,
    /// Show the commands.
    Help,
    /// Run the command that the first word names.
    Run,
}

/// What the line made of `words` asks for.
pub open spec fn request_of(words: Seq<String>) -> Request {
    if words.len() == 0 {
        Request::Nothing
    } else if words[0]@ == "quit"@ || words[0]@ == "exit"@ {
        Request::Quit
    } else if words[0]@ == "help"@ {
        Request::Help
    } else {
        Request::Run
    }
}

impl Handler {
    /// Tells what a line asks for, by its first word.
    pub fn classify(&self, line: &Vec<String>) -> (request: Request)
        ensures
            request == request_of(line@),
    {
        if line.len() == 0 {
            return Request::Nothing;
        }
        let word = line[0].as_str();
        if same_text(word, "quit") || same_text(word, "exit") {
            Request::Quit
        } else if same_text(word, "help") {
            Request::Help
        } else {
            Request::Run
        }
    }
}

} // verus!
