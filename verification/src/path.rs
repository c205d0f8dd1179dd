//! Paths inside the workspace, as the names of their components from the
//! root of the file system down.

use vstd::prelude::*;
use crate::text::strings_view;

verus! {

/// The path is not below the workspace's root.
#[derive(Clone, Debug, PartialEq, Eq)]
pub struct NotInWorkspace {}

impl NotInWorkspace {
    /// The error in words, for the path as it is printed.
    pub fn message(&self, path: &str) -> (r: String)
        ensures
            r@ == path@ + " is not in the CTF directory"@,
    {
        crate::text::join2(path, " is not in the CTF directory")
    }
}

/// `path` starts with the components of `root`.
pub open spec fn is_below(root: Seq<Seq<char>>, path: Seq<Seq<char>>) -> bool {
    root.len() <= path.len() && path.take(root.len() as int) == root
}

/// The path from the workspace's root `root` to `path`, both given from the
/// root of the file system down and without links: the components of `path`
/// that follow those of `root`. A path that does not start with the
/// components of `root` is not in the workspace.
pub fn relativize(root: &[String], path: &[String]) -> (r: Result<Vec<String>, NotInWorkspace>)
    ensures
        match r {
            Ok(rest) => is_below(strings_view(root@), strings_view(path@)) && strings_view(rest@)
                == strings_view(path@).skip(root@.len() as int),
            Err(_) => !is_below(strings_view(root@), strings_view(path@)),
        },
{
    let ghost r = strings_view(root@);
    let ghost p = strings_view(path@);
    if root.len() > path.len() {
        return Err(NotInWorkspace {  });
    }
    let mut i: usize = 0;
    while i < root.len()
        invariant
            i <= root.len() <= path.len(),
            r == strings_view(root@),
            p == strings_view(path@),
            p.take(i as int) == r.take(i as int),
        decreases root.len() - i,
    {
        if !root[i].as_str().eq(path[i].as_str()) {
            proof {
                assert(r[i as int] == root[i as int]@);
                assert(p[i as int] == path[i as int]@);
                if p.take(r.len() as int) == r {
                    assert(p.take(r.len() as int)[i as int] == r[i as int]);
                }
            }
            return Err(NotInWorkspace {  });
        }
        proof {
            assert(r[i as int] == root[i as int]@);
            assert(p[i as int] == path[i as int]@);
            assert(p.take(i + 1) =~= p.take(i as int).push(p[i as int]));
            assert(r.take(i + 1) =~= r.take(i as int).push(r[i as int]));
        }
        i += 1;
    }
    assert(r.take(root.len() as int) == r);
    let mut rest: Vec<String> = Vec::new();
    let mut j: usize = root.len();
    while j < path.len()
        invariant
            root.len() <= j <= path.len(),
            p == strings_view(path@),
            strings_view(rest@) == p.subrange(root.len() as int, j as int),
        decreases path.len() - j,
    {
        let ghost before = strings_view(rest@);
        rest.push(path[j].clone());
        proof {
            assert(strings_view(rest@) =~= before.push(path[j as int]@));
            assert(p[j as int] == path[j as int]@);
            assert(strings_view(rest@) =~= p.subrange(root.len() as int, j + 1));
        }
        j += 1;
    }
    assert(p.subrange(root.len() as int, path.len() as int) =~= p.skip(root.len() as int));
    Ok(rest)
}

/// What looking for the catalog in a directory has come to.
#[derive(Clone, Debug, PartialEq, Eq)]
pub enum Probe {
    /// The directory holds a catalog.
    Found,
    /// It holds none.
    Missing,
    /// It could not be read; with the reason.
    Failed(String),
}

/// The name of a directory: none for the root of the file system, and
/// possibly one that is no text.
#[derive(Clone, Debug, PartialEq, Eq)]
pub enum DirectoryName {
    Root,
    NotText,
    Text(String),
}

/// Why no workspace was found.
#[derive(Clone, Debug, PartialEq, Eq)]
pub enum LoadError {
    /// Neither the directory nor one above it holds a catalog.
    NoWorkspace,
    /// The name of a directory on the way is no text.
    NotText,
    /// A directory could not be read; with the reason.
    Io(String),
}

/// What is said where no workspace is found.
pub const NO_WORKSPACE: &'static str =
    "No .ctf file in the current or any of the parent directories";

/// What is said of a directory whose name is no text.
pub const NOT_TEXT: &'static str = "Non-UTF-8 path";

impl LoadError {
    /// The error in words.
    pub fn message(&self) -> (r: String)
        ensures
            r@ == match self {
                LoadError::NoWorkspace => NO_WORKSPACE@,
                LoadError::NotText => NOT_TEXT@,
                LoadError::Io(reason) => reason@,
            },
    {
        match self {
            LoadError::NoWorkspace => NO_WORKSPACE.to_owned(),
            LoadError::NotText => NOT_TEXT.to_owned(),
            LoadError::Io(reason) => reason.clone(),
        }
    }
}

/// What to do next in the search for the workspace.
#[derive(Clone, Debug, PartialEq, Eq)]
pub enum Climb {
    /// The directory is the root of the workspace: load it.
    Load,
    /// Look in the directory above.
    Up,
    Stop(LoadError),
}

/// What `climb` decides. A directory with a catalog ends the search. From
/// one without, the search goes up, and the directory's name is put before
/// the way down that is known so far; it ends at the root of the file
/// system and at a name that is no text.
pub open spec fn climbed(
    probe: Probe,
    name: DirectoryName,
    before: Seq<Seq<char>>,
    after: Seq<Seq<char>>,
    r: Climb,
) -> bool {
    match probe {
        Probe::Found => r is Load && after == before,
        Probe::Failed(reason) => r == Climb::Stop(LoadError::Io(reason)) && after == before,
        Probe::Missing => match name {
            DirectoryName::Root => r == Climb::Stop(LoadError::NoWorkspace) && after == before,
            DirectoryName::NotText => r == Climb::Stop(LoadError::NotText) && after == before,
            DirectoryName::Text(n) => r is Up && after == seq![n@] + before,
        },
    }
}

/// Decides the next step in the search for the workspace that a directory
/// lies in, after the directory called `name` was probed. `below` is the
/// way from that directory down to the one that the search started from.
pub fn climb(probe: Probe, name: DirectoryName, below: &mut Vec<String>) -> (r: Climb)
    ensures
        climbed(probe, name, strings_view(old(below)@), strings_view(final(below)@), r),
{
    match probe {
        Probe::Found => Climb::Load,
        Probe::Failed(reason) => Climb::Stop(LoadError::Io(reason)),
        Probe::Missing => match name {
            DirectoryName::Root => Climb::Stop(LoadError::NoWorkspace),
            DirectoryName::NotText => Climb::Stop(LoadError::NotText),
            DirectoryName::Text(n) => {
                let ghost before = strings_view(below@);
                below.insert(0, n);
                assert(strings_view(below@) =~= seq![n@] + before);
                Climb::Up
            },
        },
    }
}

} // verus!
