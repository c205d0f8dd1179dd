//! Logging in: the cookies of the session are kept for the remote.

use vstd::prelude::*;
use crate::commands::{committed, Report};
use crate::ctf::{set_cookies, set_cookies_spec, Credentials};
use crate::text::join2;

verus! {

/// Logs into a remote.
#[derive(Clone, Debug, PartialEq, Eq)]
pub struct Login {
    /// The remote's name; `origin` unless another is given.
    pub name: String,
}

impl Default for Login {
    fn default() -> (r: Login)
        ensures
            r.name@ == crate::commands::fetch::ORIGIN@,
    {
        Login { name: crate::commands::fetch::ORIGIN.to_owned() }
    }
}

/// Ends a login: the cookies of the session are kept for the remote, and
/// the workspace is committed under `Log into` and the remote's name.
pub fn run(login: Login, credentials: &mut Credentials, cookies: String) -> (r: Report)
    ensures
        final(credentials)@ == set_cookies_spec(old(credentials)@, login.name@, cookies@),
        r.lines@.len() == 0,
        r.commit is Some,
        r.commit->0@ == "Log into "@ + login.name@,
{
    let message = join2("Log into ", login.name.as_str());
    set_cookies(credentials, login.name, cookies);
    committed(message)
}

} // verus!
