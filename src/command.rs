//! The commands that the program runs.
use vstd::prelude::*;

use crate::text::text_eq;

verus! {

/// What to fetch for a repository.
#[derive(Clone, Copy, Debug, PartialEq, Eq, Structural)]
pub enum Command {
    /// Page views, per day and per week.
    Traffic,
    /// Clones, per day and per week.
    Clones,
    /// The repository's own description.
    Repo,
}

/// The command that the word `s` names, if any.
pub open spec fn command_of(s: Seq<char>) -> Option<Command> {
    if s == "traffic"@ {
        Some(Command::Traffic)
    } else if s == "clones"@ {
        Some(Command::Clones)
    } else if s == "repo"@ {
        Some(Command::Repo)
    } else {
        None
    }
}

impl Command {
    /// Reads a command name: `traffic`, `clones` or `repo`.
    pub fn parse(s: &str) -> (r: Option<Command>)
        ensures
            r == command_of(s@),
    {
        if text_eq(s, "traffic") {
            Some(Command::Traffic)
        } else if text_eq(s, "clones") {
            Some(Command::Clones)
        } else if text_eq(s, "repo") {
            Some(Command::Repo)
        } else {
            None
        }
    }
}

} // verus!
