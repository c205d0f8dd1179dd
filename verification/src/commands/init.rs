//! Starting a workspace.

use vstd::prelude::*;
use crate::ctf::CTF;

verus! {

/// Starts a workspace in the current directory.
#[derive(Clone, Debug, PartialEq, Eq)]
pub struct Init {}

/// The message that the first commit is made under.
pub const MESSAGE: &'static str = "Initial commit";

/// The directory has no name to call the event by.
#[derive(Clone, Debug, PartialEq, Eq)]
pub struct NoDirectoryName {}

impl NoDirectoryName {
    /// The error in words.
    pub fn message(&self) -> (r: String)
        ensures
            r@ == "Could not obtain the name of the current directory"@,
    {
        "Could not obtain the name of the current directory".to_owned()
    }
}

/// The catalog that a workspace starts with: called by the name of its
/// directory, without remotes and challenges. A directory without a name,
/// as the root is, cannot hold a workspace.
pub fn run(_init: Init, directory_name: Option<&str>) -> (r: Result<CTF, NoDirectoryName>)
    ensures
        match directory_name {
            Some(name) => r is Ok && r->Ok_0@.name == name@ && r->Ok_0@.remotes.len() == 0
                && r->Ok_0@.challenges.len() == 0 && r->Ok_0@.well_formed(),
            None => r is Err,
        },
{
    match directory_name {
        Some(name) => Ok(CTF { name: name.to_owned(), remotes: Vec::new(), challenges: Vec::new() }),
        None => Err(NoDirectoryName {  }),
    }
}

} // verus!
