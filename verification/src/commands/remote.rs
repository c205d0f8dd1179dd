//! Managing the links to platforms.

use vstd::prelude::*;
use crate::commands::{committed, printed, sole_position, Report};
use crate::ctf::{default_engine, remote_position, AUTO, CTF};
use crate::model::{
    is_absent, is_first, is_only, lemma_position, lemma_position_none, occurs_once, position,
    CatalogView, RemoteView,
};
use crate::text::{join2, strings_view};

verus! {

/// Manages the links to platforms.
#[derive(Clone, Debug, PartialEq, Eq)]
pub struct Remote {
    pub subcmd: SubCommand,
}

/// What to do about the remotes.
#[derive(Clone, Debug, PartialEq, Eq)]
pub enum SubCommand {
    /// Prints the names of the remotes.
    Show(Show),
    /// Adds a remote.
    Add(Add),
    /// Removes a remote.
    Rm(Rm),
    /// Prints the engine of a remote.
    GetEngine(GetEngine),
    /// Sets the engine of a remote.
    SetEngine(SetEngine),
}

/// Prints the names of the remotes.
#[derive(Clone, Debug, PartialEq, Eq)]
pub struct Show {}

/// Adds the remote called `name` at `url`.
#[derive(Clone, Debug, PartialEq, Eq)]
pub struct Add {
    pub name: String,
    pub url: String,
}

/// Removes the remote called `name`.
#[derive(Clone, Debug, PartialEq, Eq)]
pub struct Rm {
    pub name: String,
}

/// Prints the engine of the remote called `name`.
#[derive(Clone, Debug, PartialEq, Eq)]
pub struct GetEngine {
    pub name: String,
}

/// Sets the engine of the remote called `name`.
#[derive(Clone, Debug, PartialEq, Eq)]
pub struct SetEngine {
    pub name: String,
    pub engine: String,
}

/// Why a remote could not be managed.
#[derive(Clone, Debug, PartialEq, Eq)]
pub enum RemoteError {
    AlreadyExists(String),
    DoesNotExist(String),
}

impl RemoteError {
    /// The error in words.
    pub fn message(&self) -> (r: String)
        ensures
            r@ == match self {
                RemoteError::AlreadyExists(n) => "Remote "@ + n@ + " already exists"@,
                RemoteError::DoesNotExist(n) => "Remote "@ + n@ + " does not exist"@,
            },
    {
        match self {
            RemoteError::AlreadyExists(n) => {
                let mut r = join2("Remote ", n.as_str());
                r.append(" already exists");
                r
            },
            RemoteError::DoesNotExist(n) => {
                let mut r = join2("Remote ", n.as_str());
                r.append(" does not exist");
                r
            },
        }
    }
}

/// The names of the remotes, in their order.
pub fn remote_names(ctf: &CTF) -> (r: Vec<String>)
    ensures
        strings_view(r@) == ctf@.remote_names(),
{
    let mut names: Vec<String> = Vec::new();
    let mut i: usize = 0;
    while i < ctf.remotes.len()
        invariant
            i <= ctf.remotes.len(),
            strings_view(names@) == ctf@.remote_names().take(i as int),
        decreases ctf.remotes.len() - i,
    {
        let ghost before = strings_view(names@);
        names.push(ctf.remotes[i].name.clone());
        assert(strings_view(names@) =~= before.push(ctf.remotes[i as int].name@));
        assert(strings_view(names@) =~= ctf@.remote_names().take(i + 1));
        i += 1;
    }
    assert(ctf@.remote_names().take(ctf.remotes.len() as int) =~= ctf@.remote_names());
    names
}

/// What adding a remote comes to: the catalog gains the remote, with its
/// engine still to be found, unless a remote goes by that name already.
pub open spec fn added(before: CTF, after: CTF, args: Add, r: Result<Report, RemoteError>) -> bool {
    if is_absent(before@.remote_names(), args.name@) {
        &&& r is Ok
        &&& after@ == (CatalogView {
            remotes: before@.remotes.push(
                RemoteView {
                    name: args.name@,
                    url: args.url@,
                    engine: AUTO@,
                    rewrite_rules: Seq::empty(),
                },
            ),
            ..before@
        })
        &&& r->Ok_0.lines@.len() == 0
        &&& r->Ok_0.commit is Some
        &&& r->Ok_0.commit->0@ == "Add remote "@ + args.name@ + " pointing to "@ + args.url@
    } else {
        after == before && r == Err::<Report, RemoteError>(RemoteError::AlreadyExists(args.name))
    }
}

/// Adds the remote `args.name` at `args.url`.
pub fn add_remote(ctf: &mut CTF, args: Add) -> (r: Result<Report, RemoteError>)
    ensures
        added(*old(ctf), *final(ctf), args, r),
{
    let k = remote_position(&ctf.remotes, args.name.as_str());
    if k < ctf.remotes.len() {
        assert(ctf@.remote_names()[k as int] == args.name@);
        return Err(RemoteError::AlreadyExists(args.name));
    }
    assert(is_absent(ctf@.remote_names(), args.name@));
    let mut message = join2("Add remote ", args.name.as_str());
    message.append(" pointing to ");
    message.append(args.url.as_str());
    let remote = crate::ctf::Remote {
        name: args.name,
        url: args.url,
        engine: default_engine(),
        rewrite_rules: Vec::new(),
    };
    let ghost before = ctf@.remotes;
    assert(remote@.rewrite_rules =~= Seq::empty());
    ctf.remotes.push(remote);
    assert(ctf@.remotes =~= before.push(remote@));
    Ok(committed(message))
}

/// What removing a remote comes to: the catalog loses the remote, where
/// exactly one remote goes by the name.
pub open spec fn removed(before: CTF, after: CTF, args: Rm, r: Result<Report, RemoteError>) -> bool {
    if occurs_once(before@.remote_names(), args.name@) {
        &&& r is Ok
        &&& exists|k: int|
            is_only(before@.remote_names(), args.name@, k) && after@ == (CatalogView {
                remotes: before@.remotes.remove(k),
                ..before@
            })
        &&& r->Ok_0.lines@.len() == 0
        &&& r->Ok_0.commit is Some
        &&& r->Ok_0.commit->0@ == "Remove remote "@ + args.name@
    } else {
        after == before && r == Err::<Report, RemoteError>(RemoteError::DoesNotExist(args.name))
    }
}

/// Removes the remote `args.name`.
pub fn remove_remote(ctf: &mut CTF, args: Rm) -> (r: Result<Report, RemoteError>)
    ensures
        removed(*old(ctf), *final(ctf), args, r),
{
    let names = remote_names(ctf);
    match sole_position(&names, args.name.as_str()) {
        Some(k) => {
            let message = join2("Remove remote ", args.name.as_str());
            let ghost before = ctf@.remotes;
            ctf.remotes.remove(k);
            assert(ctf@.remotes =~= before.remove(k as int));
            Ok(committed(message))
        },
        None => Err(RemoteError::DoesNotExist(args.name)),
    }
}

/// What printing the engine of a remote comes to.
pub open spec fn engine_shown(
    before: CTF,
    after: CTF,
    args: GetEngine,
    r: Result<Report, RemoteError>,
) -> bool {
    &&& after == before
    &&& match position(before@.remote_names(), args.name@) {
        Some(k) => r is Ok && strings_view(r->Ok_0.lines@) == seq![before@.remotes[k].engine]
            && r->Ok_0.commit is None,
        None => r == Err::<Report, RemoteError>(RemoteError::DoesNotExist(args.name)),
    }
}

/// What setting the engine of a remote comes to.
pub open spec fn engine_set(
    before: CTF,
    after: CTF,
    args: SetEngine,
    r: Result<Report, RemoteError>,
) -> bool {
    match position(before@.remote_names(), args.name@) {
        Some(k) => {
            &&& r is Ok
            &&& after@ == (CatalogView {
                remotes: before@.remotes.update(
                    k,
                    RemoteView { engine: args.engine@, ..before@.remotes[k] },
                ),
                ..before@
            })
            &&& r->Ok_0.lines@.len() == 0
            &&& r->Ok_0.commit is Some
            &&& r->Ok_0.commit->0@ == "Set remote "@ + args.name@ + " engine to "@ + args.engine@
        },
        None => after == before && r == Err::<Report, RemoteError>(
            RemoteError::DoesNotExist(args.name),
        ),
    }
}

/// Carries out what was asked for about the remotes. Showing prints the
/// names of the remotes, each on a line, and getting an engine prints it;
/// neither changes the catalog. Adding, removing and setting an engine
/// change it and are committed.
pub fn run(remote: Remote, ctf: &mut CTF) -> (r: Result<Report, RemoteError>)
    ensures
        match remote.subcmd {
            SubCommand::Show(_) => r is Ok && *final(ctf) == *old(ctf) && strings_view(
                r->Ok_0.lines@,
            ) == old(ctf)@.remote_names() && r->Ok_0.commit is None,
            SubCommand::Add(args) => added(*old(ctf), *final(ctf), args, r),
            SubCommand::Rm(args) => removed(*old(ctf), *final(ctf), args, r),
            SubCommand::GetEngine(args) => engine_shown(*old(ctf), *final(ctf), args, r),
            SubCommand::SetEngine(args) => engine_set(*old(ctf), *final(ctf), args, r),
        },
{
    match remote.subcmd {
        SubCommand::Show(_) => Ok(printed(remote_names(ctf))),
        SubCommand::Add(args) => add_remote(ctf, args),
        SubCommand::Rm(args) => remove_remote(ctf, args),
        SubCommand::GetEngine(args) => {
            proof {
                lemma_position_none(ctf@.remote_names(), args.name@);
            }
            let k = remote_position(&ctf.remotes, args.name.as_str());
            if k < ctf.remotes.len() {
                proof {
                    assert(is_first(ctf@.remote_names(), args.name@, k as int));
                    lemma_position(ctf@.remote_names(), args.name@, k as int);
                }
                let mut lines: Vec<String> = Vec::new();
                lines.push(ctf.remotes[k].engine.clone());
                assert(strings_view(lines@) =~= seq![ctf@.remotes[k as int].engine]);
                Ok(printed(lines))
            } else {
                assert(is_absent(ctf@.remote_names(), args.name@));
                Err(RemoteError::DoesNotExist(args.name))
            }
        },
        SubCommand::SetEngine(args) => {
            proof {
                lemma_position_none(ctf@.remote_names(), args.name@);
            }
            let k = remote_position(&ctf.remotes, args.name.as_str());
            if k < ctf.remotes.len() {
                proof {
                    assert(is_first(ctf@.remote_names(), args.name@, k as int));
                    lemma_position(ctf@.remote_names(), args.name@, k as int);
                }
                let mut message = join2("Set remote ", args.name.as_str());
                message.append(" engine to ");
                message.append(args.engine.as_str());
                let ghost before = ctf@;
                ctf.remotes[k].engine = args.engine;
                assert(ctf@.remotes =~= before.remotes.update(
                    k as int,
                    RemoteView { engine: args.engine@, ..before.remotes[k as int] },
                ));
                assert(ctf@.challenges =~= before.challenges);
                Ok(committed(message))
            } else {
                assert(is_absent(ctf@.remote_names(), args.name@));
                Err(RemoteError::DoesNotExist(args.name))
            }
        },
    }
}

} // verus!
