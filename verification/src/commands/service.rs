//! Managing the services of a challenge.

use vstd::prelude::*;
use crate::commands::{committed, printed, Report};
use crate::ctf::Challenge;
use crate::model::{
    is_absent, is_first, is_only, lemma_position, lemma_position_none, occurs_once, position,
    ChallengeView, ServiceView,
};
use crate::text::{join2, opt_view, strings_view};

verus! {

/// Manages the services of the challenge in whose directory the command is
/// called.
#[derive(Clone, Debug, PartialEq, Eq)]
pub struct Service {
    pub subcmd: SubCommand,
}

/// What to do about the services.
#[derive(Clone, Debug, PartialEq, Eq)]
pub enum SubCommand {
    /// Prints the services and their addresses.
    Show(Show),
    /// Adds a service.
    Add(Add),
    /// Sets the address of a service.
    SetUrl(SetUrl),
    /// Removes a service.
    Rm(Rm),
}

/// Prints the services.
#[derive(Clone, Debug, PartialEq, Eq)]
pub struct Show {}

/// Adds the service called `name` at `url`.
#[derive(Clone, Debug, PartialEq, Eq)]
pub struct Add {
    pub name: String,
    pub url: String,
}

/// Moves the service called `name` to `url`.
#[derive(Clone, Debug, PartialEq, Eq)]
pub struct SetUrl {
    pub name: String,
    pub url: String,
}

/// Removes the service called `name`.
#[derive(Clone, Debug, PartialEq, Eq)]
pub struct Rm {
    pub name: String,
}

/// Why a service could not be managed.
#[derive(Clone, Debug, PartialEq, Eq)]
pub enum ServiceError {
    AlreadyExists(String),
    DoesNotExist(String),
    NoSuchService(String),
}

impl ServiceError {
    /// The error in words.
    pub fn message(&self) -> (r: String)
        ensures
            r@ == match self {
                ServiceError::AlreadyExists(n) => "Service "@ + n@ + " already exists"@,
                ServiceError::DoesNotExist(n) => "Service "@ + n@ + " does not exist"@,
                ServiceError::NoSuchService(n) => "No such service: "@ + n@,
            },
    {
        match self {
            ServiceError::AlreadyExists(n) => {
                let mut r = join2("Service ", n.as_str());
                r.append(" already exists");
                r
            },
            ServiceError::DoesNotExist(n) => {
                let mut r = join2("Service ", n.as_str());
                r.append(" does not exist");
                r
            },
            ServiceError::NoSuchService(n) => join2("No such service: ", n.as_str()),
        }
    }
}

/// What stands for a name or an address that a service lacks.
pub const NONE: &'static str = "<none>";

/// The names of the services, in their order; `None` for an unnamed one.
pub open spec fn service_names(c: ChallengeView) -> Seq<Option<Seq<char>>> {
    c.services.map_values(|s: ServiceView| s.name)
}

/// The text, or `<none>`.
pub open spec fn or_none(text: Option<Seq<char>>) -> Seq<char> {
    match text {
        Some(t) => t,
        None => NONE@,
    }
}

/// The line that a service is shown with: its name, a hyphen between
/// blanks, its address.
pub open spec fn shown(s: ServiceView) -> Seq<char> {
    or_none(s.name) + " - "@ + or_none(s.url)
}

fn text_or_none(text: &Option<String>) -> (r: &str)
    ensures
        r@ == or_none(opt_view(*text)),
{
    match text {
        Some(t) => t.as_str(),
        None => NONE,
    }
}

/// The lines that the services are shown with.
pub fn show(challenge: &Challenge) -> (r: Vec<String>)
    ensures
        strings_view(r@) == challenge@.services.map_values(|s: ServiceView| shown(s)),
{
    let ghost all = challenge@.services.map_values(|s: ServiceView| shown(s));
    let mut lines: Vec<String> = Vec::new();
    let mut i: usize = 0;
    while i < challenge.services.len()
        invariant
            i <= challenge.services.len(),
            all == challenge@.services.map_values(|s: ServiceView| shown(s)),
            strings_view(lines@) == all.take(i as int),
        decreases challenge.services.len() - i,
    {
        let ghost before = strings_view(lines@);
        let mut line = join2(text_or_none(&challenge.services[i].name), " - ");
        line.append(text_or_none(&challenge.services[i].url));
        assert(line@ == shown(challenge@.services[i as int]));
        lines.push(line);
        assert(strings_view(lines@) =~= before.push(line@));
        assert(strings_view(lines@) =~= all.take(i + 1));
        i += 1;
    }
    assert(all.take(challenge.services.len() as int) =~= all);
    lines
}

/// Whether a service is called `name`.
fn is_named(service: &crate::ctf::Service, name: &str) -> (r: bool)
    ensures
        r == (service@.name == Some(name@)),
{
    match &service.name {
        Some(n) => n.as_str().eq(name),
        None => false,
    }
}

/// The position of the first service called `name`, or the length.
pub fn service_position(challenge: &Challenge, name: &str) -> (k: usize)
    ensures
        k <= challenge.services.len(),
        k < challenge.services.len() ==> is_first(service_names(challenge@), Some(name@), k as int),
        k == challenge.services.len() ==> is_absent(service_names(challenge@), Some(name@)),
{
    let mut k: usize = 0;
    while k < challenge.services.len()
        invariant
            k <= challenge.services.len(),
            forall|j: int| 0 <= j < k ==> service_names(challenge@)[j] != Some(name@),
        decreases challenge.services.len() - k,
    {
        if is_named(&challenge.services[k], name) {
            return k;
        }
        k += 1;
    }
    k
}

/// The position of the one service called `name`, if there is exactly one.
pub fn sole_service(challenge: &Challenge, name: &str) -> (r: Option<usize>)
    ensures
        match r {
            Some(k) => is_only(service_names(challenge@), Some(name@), k as int),
            None => !occurs_once(service_names(challenge@), Some(name@)),
        },
{
    let ghost all = service_names(challenge@);
    let k = service_position(challenge, name);
    if k >= challenge.services.len() {
        assert forall|c: int| !is_only(all, Some(name@), c) by {}
        return None;
    }
    let mut i: usize = k + 1;
    while i < challenge.services.len()
        invariant
            k < i <= challenge.services.len(),
            all == service_names(challenge@),
            is_first(all, Some(name@), k as int),
            forall|j: int| k < j < i ==> all[j] != Some(name@),
        decreases challenge.services.len() - i,
    {
        if is_named(&challenge.services[i], name) {
            assert forall|c: int| !is_only(all, Some(name@), c) by {
                if is_only(all, Some(name@), c) {
                    if c == k as int {
                        assert(all[i as int] == Some(name@));
                    } else {
                        assert(all[k as int] == Some(name@));
                    }
                }
            }
            return None;
        }
        i += 1;
    }
    Some(k)
}

/// What adding a service comes to: the challenge gains a service of that
/// name at that address, unless a service goes by the name already.
pub open spec fn added(
    before: Challenge,
    after: Challenge,
    args: Add,
    r: Result<Report, ServiceError>,
) -> bool {
    if is_absent(service_names(before@), Some(args.name@)) {
        &&& r is Ok
        &&& after@ == (ChallengeView {
            services: before@.services.push(
                ServiceView { name: Some(args.name@), url: Some(args.url@) },
            ),
            ..before@
        })
        &&& r->Ok_0.lines@.len() == 0
        &&& r->Ok_0.commit is Some
        &&& r->Ok_0.commit->0@ == "Add service "@ + args.name@ + " to challenge "@ + before.name@
    } else {
        after == before && r == Err::<Report, ServiceError>(
            ServiceError::AlreadyExists(args.name),
        )
    }
}

/// Adds the service `args.name` at `args.url`.
pub fn add_service(challenge: &mut Challenge, args: Add) -> (r: Result<Report, ServiceError>)
    ensures
        added(*old(challenge), *final(challenge), args, r),
{
    let k = service_position(challenge, args.name.as_str());
    if k < challenge.services.len() {
        return Err(ServiceError::AlreadyExists(args.name));
    }
    let mut message = join2("Add service ", args.name.as_str());
    message.append(" to challenge ");
    message.append(challenge.name.as_str());
    let service = crate::ctf::Service { name: Some(args.name), url: Some(args.url) };
    let ghost before = challenge@;
    challenge.services.push(service);
    assert(challenge@.services =~= before.services.push(service@));
    assert(challenge@.binaries =~= before.binaries);
    Ok(committed(message))
}

/// What setting an address comes to: the first service of that name gets
/// the address.
pub open spec fn moved(
    before: Challenge,
    after: Challenge,
    args: SetUrl,
    r: Result<Report, ServiceError>,
) -> bool {
    match position(service_names(before@), Some(args.name@)) {
        Some(k) => {
            &&& r is Ok
            &&& after@ == (ChallengeView {
                services: before@.services.update(
                    k,
                    ServiceView { url: Some(args.url@), ..before@.services[k] },
                ),
                ..before@
            })
            &&& r->Ok_0.lines@.len() == 0
            &&& r->Ok_0.commit is Some
            &&& r->Ok_0.commit->0@ == "Set service "@ + args.name@ + " URL to "@ + args.url@
                + " in challenge "@ + before.name@
        },
        None => after == before && r == Err::<Report, ServiceError>(
            ServiceError::NoSuchService(args.name),
        ),
    }
}

/// Sets the address of the service `args.name`.
pub fn set_url(challenge: &mut Challenge, args: SetUrl) -> (r: Result<Report, ServiceError>)
    ensures
        moved(*old(challenge), *final(challenge), args, r),
{
    proof {
        lemma_position_none(service_names(challenge@), Some(args.name@));
    }
    let k = service_position(challenge, args.name.as_str());
    if k >= challenge.services.len() {
        return Err(ServiceError::NoSuchService(args.name));
    }
    proof {
        lemma_position(service_names(challenge@), Some(args.name@), k as int);
    }
    let mut message = join2("Set service ", args.name.as_str());
    message.append(" URL to ");
    message.append(args.url.as_str());
    message.append(" in challenge ");
    message.append(challenge.name.as_str());
    let ghost before = challenge@;
    challenge.services[k].url = Some(args.url);
    proof {
        assert(challenge@.services =~= before.services.update(
            k as int,
            ServiceView { url: Some(args.url@), ..before.services[k as int] },
        ));
        assert(challenge@.binaries =~= before.binaries);
    }
    Ok(committed(message))
}

/// What removing a service comes to: the challenge loses the service,
/// where exactly one service goes by the name.
pub open spec fn removed(
    before: Challenge,
    after: Challenge,
    args: Rm,
    r: Result<Report, ServiceError>,
) -> bool {
    if occurs_once(service_names(before@), Some(args.name@)) {
        &&& r is Ok
        &&& exists|k: int|
            is_only(service_names(before@), Some(args.name@), k) && after@ == (ChallengeView {
                services: before@.services.remove(k),
                ..before@
            })
        &&& r->Ok_0.lines@.len() == 0
        &&& r->Ok_0.commit is Some
        &&& r->Ok_0.commit->0@ == "Remove service "@ + args.name@ + " from challenge "@
            + before.name@
    } else {
        after == before && r == Err::<Report, ServiceError>(ServiceError::DoesNotExist(args.name))
    }
}

/// Removes the service `args.name`.
pub fn remove_service(challenge: &mut Challenge, args: Rm) -> (r: Result<Report, ServiceError>)
    ensures
        removed(*old(challenge), *final(challenge), args, r),
{
    match sole_service(challenge, args.name.as_str()) {
        Some(k) => {
            let mut message = join2("Remove service ", args.name.as_str());
            message.append(" from challenge ");
            message.append(challenge.name.as_str());
            let ghost before = challenge@;
            challenge.services.remove(k);
            assert(challenge@.services =~= before.services.remove(k as int));
            assert(challenge@.binaries =~= before.binaries);
            Ok(committed(message))
        },
        None => Err(ServiceError::DoesNotExist(args.name)),
    }
}

/// Carries out what was asked for about the services of `challenge`.
/// Showing prints each service with its address and changes nothing; the
/// others change the challenge and are committed.
pub fn run(service: Service, challenge: &mut Challenge) -> (r: Result<Report, ServiceError>)
    ensures
        match service.subcmd {
            SubCommand::Show(_) => r is Ok && *final(challenge) == *old(challenge) && strings_view(
                r->Ok_0.lines@,
            ) == old(challenge)@.services.map_values(|s: ServiceView| shown(s)) && r->Ok_0.commit
                is None,
            SubCommand::Add(args) => added(*old(challenge), *final(challenge), args, r),
            SubCommand::SetUrl(args) => moved(*old(challenge), *final(challenge), args, r),
            SubCommand::Rm(args) => removed(*old(challenge), *final(challenge), args, r),
        },
{
    match service.subcmd {
        SubCommand::Show(_) => Ok(printed(show(challenge))),
        SubCommand::Add(args) => add_service(challenge, args),
        SubCommand::SetUrl(args) => set_url(challenge, args),
        SubCommand::Rm(args) => remove_service(challenge, args),
    }
}

} // verus!
