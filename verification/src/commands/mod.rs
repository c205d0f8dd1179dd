//! What each command decides, given the catalog as it was loaded: the
//! changes to make to it, the lines to print and the message to commit
//! under.

use vstd::prelude::*;

pub mod binary;
pub mod challenge;
pub mod checkout;
pub mod docker;
pub mod fetch;
pub mod init;
pub mod invariants;
pub mod login;
pub mod remote;
pub mod service;

verus! {

/// What a command leaves to do once the catalog is changed.
#[derive(Clone, Debug, PartialEq, Eq)]
pub struct Report {
    /// The lines to print, in order.
    pub lines: Vec<String>,
    /// The message to commit the workspace under, where it has changed.
    pub commit: Option<String>,
}

/// A report that only commits.
pub fn committed(message: String) -> (r: Report)
    ensures
        r.lines@.len() == 0,
        r.commit == Some(message),
{
    Report { lines: Vec::new(), commit: Some(message) }
}

/// A report that only prints.
pub fn printed(lines: Vec<String>) -> (r: Report)
    ensures
        r.lines == lines,
        r.commit is None,
{
    Report { lines, commit: None }
}

/// The position of the one text among `names` that is `name`, if there is
/// exactly one.
pub fn sole_position(names: &Vec<String>, name: &str) -> (r: Option<usize>)
    ensures
        match r {
            Some(k) => crate::model::is_only(crate::text::strings_view(names@), name@, k as int),
            None => !crate::model::occurs_once(crate::text::strings_view(names@), name@),
        },
{
    let ghost all = crate::text::strings_view(names@);
    let mut found: Option<usize> = None;
    let mut i: usize = 0;
    while i < names.len()
        invariant
            i <= names.len(),
            all == crate::text::strings_view(names@),
            match found {
                Some(k) => k < i && all[k as int] == name@ && forall|j: int|
                    0 <= j < i && j != k ==> all[j] != name@,
                None => forall|j: int| 0 <= j < i ==> all[j] != name@,
            },
        decreases names.len() - i,
    {
        if names[i].as_str().eq(name) {
            match found {
                Some(k) => {
                    assert forall|c: int| !crate::model::is_only(all, name@, c) by {
                        if crate::model::is_only(all, name@, c) {
                            if c == k as int {
                                assert(all[i as int] == name@);
                            } else {
                                assert(all[k as int] == name@);
                            }
                        }
                    }
                    return None;
                },
                None => {
                    found = Some(i);
                },
            }
        }
        i += 1;
    }
    proof {
        if found is None {
            assert forall|c: int| !crate::model::is_only(all, name@, c) by {}
        }
    }
    found
}

} // verus!
