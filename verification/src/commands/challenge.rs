//! Managing the challenges.

use vstd::prelude::*;
use crate::commands::{committed, printed, sole_position, Report};
use crate::ctf::{challenge_position, CTF};
use crate::model::{
    is_absent, is_first, is_only, lemma_position, lemma_position_none, occurs_once, position,
    CatalogView, ChallengeView,
};
use crate::text::{join2, strings_view};

verus! {

/// Manages the challenges. The names are those of the challenges'
/// directories, as they stand below the workspace's root.
#[derive(Clone, Debug, PartialEq, Eq)]
pub struct Challenge {
    pub subcmd: SubCommand,
}

/// What to do about the challenges.
#[derive(Clone, Debug, PartialEq, Eq)]
pub enum SubCommand {
    /// Prints the challenges and their descriptions.
    Show(Show),
    /// Adds a challenge.
    Add(Add),
    /// Sets the description of a challenge.
    SetDescription(SetDescription),
    /// Removes a challenge.
    Rm(Rm),
}

/// Prints the challenges.
#[derive(Clone, Debug, PartialEq, Eq)]
pub struct Show {}

/// Adds the challenge called `name`.
#[derive(Clone, Debug, PartialEq, Eq)]
pub struct Add {
    pub name: String,
}

/// Sets the description of the challenge called `name`.
#[derive(Clone, Debug, PartialEq, Eq)]
pub struct SetDescription {
    pub name: String,
    pub description: String,
}

/// Removes the challenge called `name`.
#[derive(Clone, Debug, PartialEq, Eq)]
pub struct Rm {
    pub name: String,
}

/// Why a challenge could not be managed.
#[derive(Clone, Debug, PartialEq, Eq)]
pub enum ChallengeError {
    AlreadyExists(String),
    /// The challenge has no directory in the workspace.
    NoDirectory(String),
    DoesNotExist(String),
    NoSuchChallenge(String),
}

impl ChallengeError {
    /// The error in words.
    pub fn message(&self) -> (r: String)
        ensures
            r@ == match self {
                ChallengeError::AlreadyExists(n) => "Challenge "@ + n@ + " already exists"@,
                ChallengeError::NoDirectory(n) => "Directory "@ + n@ + " does not exist"@,
                ChallengeError::DoesNotExist(n) => "Challenge "@ + n@ + " does not exist"@,
                ChallengeError::NoSuchChallenge(n) => "No such challenge: "@ + n@,
            },
    {
        match self {
            ChallengeError::AlreadyExists(n) => {
                let mut r = join2("Challenge ", n.as_str());
                r.append(" already exists");
                r
            },
            ChallengeError::NoDirectory(n) => {
                let mut r = join2("Directory ", n.as_str());
                r.append(" does not exist");
                r
            },
            ChallengeError::DoesNotExist(n) => {
                let mut r = join2("Challenge ", n.as_str());
                r.append(" does not exist");
                r
            },
            ChallengeError::NoSuchChallenge(n) => join2("No such challenge: ", n.as_str()),
        }
    }
}

/// The names of the challenges, in their order.
pub fn challenge_names(ctf: &CTF) -> (r: Vec<String>)
    ensures
        strings_view(r@) == ctf@.challenge_names(),
{
    let mut names: Vec<String> = Vec::new();
    let mut i: usize = 0;
    while i < ctf.challenges.len()
        invariant
            i <= ctf.challenges.len(),
            strings_view(names@) == ctf@.challenge_names().take(i as int),
        decreases ctf.challenges.len() - i,
    {
        let ghost before = strings_view(names@);
        names.push(ctf.challenges[i].name.clone());
        assert(strings_view(names@) =~= before.push(ctf.challenges[i as int].name@));
        assert(strings_view(names@) =~= ctf@.challenge_names().take(i + 1));
        i += 1;
    }
    assert(ctf@.challenge_names().take(ctf.challenges.len() as int) =~= ctf@.challenge_names());
    names
}

/// The line that a challenge is shown with: its name, a hyphen between
/// blanks, its description.
pub open spec fn shown(c: ChallengeView) -> Seq<char> {
    c.name + " - "@ + c.description
}

/// The lines that the challenges are shown with.
pub fn show(ctf: &CTF) -> (r: Vec<String>)
    ensures
        strings_view(r@) == ctf@.challenges.map_values(|c: ChallengeView| shown(c)),
{
    let ghost all = ctf@.challenges.map_values(|c: ChallengeView| shown(c));
    let mut lines: Vec<String> = Vec::new();
    let mut i: usize = 0;
    while i < ctf.challenges.len()
        invariant
            i <= ctf.challenges.len(),
            all == ctf@.challenges.map_values(|c: ChallengeView| shown(c)),
            strings_view(lines@) == all.take(i as int),
        decreases ctf.challenges.len() - i,
    {
        let ghost before = strings_view(lines@);
        let mut line = join2(ctf.challenges[i].name.as_str(), " - ");
        line.append(ctf.challenges[i].description.as_str());
        assert(line@ == shown(ctf@.challenges[i as int]));
        lines.push(line);
        assert(strings_view(lines@) =~= before.push(line@));
        assert(strings_view(lines@) =~= all.take(i + 1));
        i += 1;
    }
    assert(all.take(ctf.challenges.len() as int) =~= all);
    lines
}

/// What adding a challenge comes to: the catalog gains a challenge of that
/// name, without a description, binaries or services, unless a challenge
/// goes by the name already or the workspace has no directory for it.
pub open spec fn added(
    before: CTF,
    after: CTF,
    args: Add,
    has_directory: bool,
    r: Result<Report, ChallengeError>,
) -> bool {
    if !is_absent(before@.challenge_names(), args.name@) {
        after == before && r == Err::<Report, ChallengeError>(
            ChallengeError::AlreadyExists(args.name),
        )
    } else if !has_directory {
        after == before && r == Err::<Report, ChallengeError>(
            ChallengeError::NoDirectory(args.name),
        )
    } else {
        &&& r is Ok
        &&& after@ == (CatalogView {
            challenges: before@.challenges.push(
                ChallengeView {
                    name: args.name@,
                    description: Seq::empty(),
                    binaries: Seq::empty(),
                    services: Seq::empty(),
                },
            ),
            ..before@
        })
        &&& r->Ok_0.lines@.len() == 0
        &&& r->Ok_0.commit is Some
        &&& r->Ok_0.commit->0@ == "Add challenge "@ + args.name@
    }
}

/// Adds the challenge `args.name`; `has_directory` tells whether the
/// workspace has a directory of that name.
pub fn add_challenge(ctf: &mut CTF, args: Add, has_directory: bool) -> (r: Result<
    Report,
    ChallengeError,
>)
    ensures
        added(*old(ctf), *final(ctf), args, has_directory, r),
{
    let k = challenge_position(&ctf.challenges, args.name.as_str());
    if k < ctf.challenges.len() {
        assert(ctf@.challenge_names()[k as int] == args.name@);
        return Err(ChallengeError::AlreadyExists(args.name));
    }
    assert(is_absent(ctf@.challenge_names(), args.name@));
    if !has_directory {
        return Err(ChallengeError::NoDirectory(args.name));
    }
    let message = join2("Add challenge ", args.name.as_str());
    let challenge = crate::ctf::Challenge {
        name: args.name,
        description: String::new(),
        binaries: Vec::new(),
        services: Vec::new(),
    };
    let ghost before = ctf@.challenges;
    proof {
        assert(challenge@.binaries =~= Seq::empty());
        assert(challenge@.services =~= Seq::empty());
    }
    ctf.challenges.push(challenge);
    assert(ctf@.challenges =~= before.push(challenge@));
    assert(ctf@.remotes =~= old(ctf)@.remotes);
    Ok(committed(message))
}

/// What setting a description comes to: the first challenge of that name
/// gets the description.
pub open spec fn described(
    before: CTF,
    after: CTF,
    args: SetDescription,
    r: Result<Report, ChallengeError>,
) -> bool {
    match position(before@.challenge_names(), args.name@) {
        Some(k) => {
            &&& r is Ok
            &&& after@ == (CatalogView {
                challenges: before@.challenges.update(
                    k,
                    ChallengeView { description: args.description@, ..before@.challenges[k] },
                ),
                ..before@
            })
            &&& r->Ok_0.lines@.len() == 0
            &&& r->Ok_0.commit is Some
            &&& r->Ok_0.commit->0@ == "Set challenge "@ + args.name@ + " description to "@
                + args.description@
        },
        None => after == before && r == Err::<Report, ChallengeError>(
            ChallengeError::NoSuchChallenge(args.name),
        ),
    }
}

/// Sets the description of the challenge `args.name`.
pub fn set_description(ctf: &mut CTF, args: SetDescription) -> (r: Result<Report, ChallengeError>)
    ensures
        described(*old(ctf), *final(ctf), args, r),
{
    proof {
        lemma_position_none(ctf@.challenge_names(), args.name@);
    }
    let k = challenge_position(&ctf.challenges, args.name.as_str());
    if k >= ctf.challenges.len() {
        assert(is_absent(ctf@.challenge_names(), args.name@));
        return Err(ChallengeError::NoSuchChallenge(args.name));
    }
    proof {
        assert(is_first(ctf@.challenge_names(), args.name@, k as int));
        lemma_position(ctf@.challenge_names(), args.name@, k as int);
    }
    let mut message = join2("Set challenge ", args.name.as_str());
    message.append(" description to ");
    message.append(args.description.as_str());
    let ghost before = ctf@;
    ctf.challenges[k].description = args.description;
    proof {
        assert(ctf@.challenges[k as int].binaries =~= before.challenges[k as int].binaries);
        assert(ctf@.challenges[k as int].services =~= before.challenges[k as int].services);
        assert(ctf@.challenges =~= before.challenges.update(
            k as int,
            ChallengeView { description: args.description@, ..before.challenges[k as int] },
        ));
        assert(ctf@.remotes =~= before.remotes);
    }
    Ok(committed(message))
}

/// What removing a challenge comes to: the catalog loses the challenge,
/// where exactly one challenge goes by the name.
pub open spec fn removed(before: CTF, after: CTF, args: Rm, r: Result<Report, ChallengeError>) -> bool {
    if occurs_once(before@.challenge_names(), args.name@) {
        &&& r is Ok
        &&& exists|k: int|
            is_only(before@.challenge_names(), args.name@, k) && after@ == (CatalogView {
                challenges: before@.challenges.remove(k),
                ..before@
            })
        &&& r->Ok_0.lines@.len() == 0
        &&& r->Ok_0.commit is Some
        &&& r->Ok_0.commit->0@ == "Remove challenge "@ + args.name@
    } else {
        after == before && r == Err::<Report, ChallengeError>(
            ChallengeError::DoesNotExist(args.name),
        )
    }
}

/// Removes the challenge `args.name`.
pub fn remove_challenge(ctf: &mut CTF, args: Rm) -> (r: Result<Report, ChallengeError>)
    ensures
        removed(*old(ctf), *final(ctf), args, r),
{
    let names = challenge_names(ctf);
    match sole_position(&names, args.name.as_str()) {
        Some(k) => {
            let message = join2("Remove challenge ", args.name.as_str());
            let ghost before = ctf@;
            ctf.challenges.remove(k);
            assert(ctf@.challenges =~= before.challenges.remove(k as int));
            assert(ctf@.remotes =~= before.remotes);
            Ok(committed(message))
        },
        None => Err(ChallengeError::DoesNotExist(args.name)),
    }
}

/// Carries out what was asked for about the challenges; `has_directory`
/// tells, for a challenge to add, whether the workspace has its directory.
/// Showing prints each challenge with its description and changes nothing;
/// the others change the catalog and are committed.
pub fn run(challenge: Challenge, ctf: &mut CTF, has_directory: bool) -> (r: Result<
    Report,
    ChallengeError,
>)
    ensures
        match challenge.subcmd {
            SubCommand::Show(_) => r is Ok && *final(ctf) == *old(ctf) && strings_view(
                r->Ok_0.lines@,
            ) == old(ctf)@.challenges.map_values(|c: ChallengeView| shown(c)) && r->Ok_0.commit
                is None,
            SubCommand::Add(args) => added(*old(ctf), *final(ctf), args, has_directory, r),
            SubCommand::SetDescription(args) => described(*old(ctf), *final(ctf), args, r),
            SubCommand::Rm(args) => removed(*old(ctf), *final(ctf), args, r),
        },
{
    match challenge.subcmd {
        SubCommand::Show(_) => Ok(printed(show(ctf))),
        SubCommand::Add(args) => add_challenge(ctf, args, has_directory),
        SubCommand::SetDescription(args) => set_description(ctf, args),
        SubCommand::Rm(args) => remove_challenge(ctf, args),
    }
}

} // verus!
