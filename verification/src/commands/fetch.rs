//! Fetching: the listing of a remote is merged into the catalog.

use vstd::prelude::*;
use crate::commands::{committed, Report};
use crate::ctf::{merge, Credentials, Remote, AUTO, CTF};
use crate::model::{is_absent, is_first, RemoteCredentialsView, RemoteView};
use crate::reconcile::merge_catalog;
use crate::text::join2;

verus! {

/// Fetches the challenges of a remote.
#[derive(Clone, Debug, PartialEq, Eq)]
pub struct Fetch {
    /// The remote's name; `origin` unless another is given.
    pub name: String,
}

/// The remote that is fetched from where none is named.
pub const ORIGIN: &'static str = "origin";

impl Default for Fetch {
    fn default() -> (r: Fetch)
        ensures
            r.name@ == ORIGIN@,
    {
        Fetch { name: ORIGIN.to_owned() }
    }
}

/// Whether the platform behind a remote is still to be found.
pub fn needs_detection(remote: &Remote) -> (r: bool)
    ensures
        r == (remote.engine@ == AUTO@),
{
    remote.engine.as_str().eq(AUTO)
}

/// Writes the adapter that was found onto the remote, so that it is not
/// looked for again.
pub fn adopt_engine(remote: &mut Remote, id: String)
    ensures
        final(remote)@ == (RemoteView { engine: id@, ..old(remote)@ }),
{
    remote.engine = id;
}

/// The names under which cookies are kept.
pub open spec fn credential_names(credentials: Seq<RemoteCredentialsView>) -> Seq<Seq<char>> {
    credentials.map_values(|r: RemoteCredentialsView| r.name)
}

/// The cookies that are kept for the remote `name`: those of the first
/// entry under that name.
pub fn cookies_for<'a>(credentials: &'a Credentials, name: &str) -> (r: Option<&'a str>)
    ensures
        match r {
            Some(cookies) => exists|k: int|
                is_first(credential_names(credentials@), name@, k) && cookies@
                    == credentials@[k].cookies,
            None => is_absent(credential_names(credentials@), name@),
        },
{
    let mut i: usize = 0;
    while i < credentials.remotes.len()
        invariant
            i <= credentials.remotes.len(),
            forall|j: int| 0 <= j < i ==> credential_names(credentials@)[j] != name@,
        decreases credentials.remotes.len() - i,
    {
        if credentials.remotes[i].name.as_str().eq(name) {
            assert(is_first(credential_names(credentials@), name@, i as int));
            return Some(credentials.remotes[i].cookies.as_str());
        }
        i += 1;
    }
    None
}

/// Ends a fetch: the snapshot `fetched` is merged into the catalog, and the
/// workspace is committed under `Fetch from` and the remote's name.
pub fn run(fetch: Fetch, ctf: &mut CTF, fetched: CTF) -> (r: Report)
    ensures
        final(ctf)@ == merge_catalog(old(ctf)@, fetched@),
        r.lines@.len() == 0,
        r.commit is Some,
        r.commit->0@ == "Fetch from "@ + fetch.name@,
{
    merge(ctf, fetched);
    committed(join2("Fetch from ", fetch.name.as_str()))
}

} // verus!
