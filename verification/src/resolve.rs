//! Resolving a hosted file to a binary: the answers to a chain of requests
//! are judged one by one, until one of them names the file.

use vstd::prelude::*;
use crate::ctf::Binary;
use crate::extract::{fetched_binary, ORIGINAL};
use crate::http::{is_failure, Header, Reply};
use crate::model::{AlternativeView, BinaryView};
use crate::pattern::{
    group, group_text, matches_view, pattern_compiles, pattern_matches, search, PatternError,
};
use crate::text::{join2, opt_view};

verus! {

/// Where a hosted file is downloaded from, but for its identifier.
pub const DOWNLOAD_PREFIX: &'static str = "https://drive.google.com/uc?export=download&id=";

/// The header that names an attachment.
pub const ATTACHMENT_PATTERN: &'static str = "^attachment;filename=\"([^\"]+)\";";

/// How many redirects are followed for one file.
pub const REDIRECT_LIMIT: usize = 10;

/// Why a hosted file could not be resolved.
#[derive(Clone, Debug, PartialEq, Eq)]
pub enum DownloadResolutionError {
    /// A redirect without a target.
    NoLocation,
    /// A header that is no text.
    UnreadableHeader,
    /// More redirects than `REDIRECT_LIMIT`.
    TooManyRedirects,
    /// A response that reports a failure.
    Status(u16),
    /// No header names the file.
    NoContentDisposition,
    /// The header does not name an attachment.
    NoAttachment,
    /// The pattern for the header does not compile.
    Pattern(PatternError),
}

/// What to do after a response.
#[derive(Clone, Debug, PartialEq, Eq)]
pub enum Resolution {
    /// Ask again, at this address.
    Follow(String),
    /// The file is this binary.
    Done(Binary),
    Failed(DownloadResolutionError),
}

/// The address that the file `id` is downloaded from.
pub fn download_url(id: &str) -> (r: String)
    ensures
        r@ == DOWNLOAD_PREFIX@ + id@,
{
    join2(DOWNLOAD_PREFIX, id)
}

/// The binary that a hosted file is: under the name that the header gives,
/// with the one alternative `orig` that is fetched from the file's download
/// address and has no checksum yet.
pub open spec fn hosted_binary(id: Seq<char>, name: Seq<char>) -> BinaryView {
    BinaryView {
        name,
        alternatives: seq![
            AlternativeView { name: ORIGINAL@, url: Some(DOWNLOAD_PREFIX@ + id), checksum: None },
        ],
        default_alternative: None,
    }
}

/// What follows from a response that is no redirect, for the file `id`,
/// given the matches of `ATTACHMENT_PATTERN` in its header.
pub open spec fn named_by(
    id: Seq<char>,
    found: Seq<Seq<Option<Seq<char>>>>,
    r: Resolution,
) -> bool {
    if found.len() > 0 {
        r is Done && r->Done_0@ == hosted_binary(id, group_text(found[0], 1))
    } else {
        r == Resolution::Failed(DownloadResolutionError::NoAttachment)
    }
}

/// The binary that the header names, from the matches of
/// `ATTACHMENT_PATTERN` in it.
pub fn binary_from_attachment(id: &str, found: &Vec<Vec<Option<String>>>) -> (r: Resolution)
    ensures
        named_by(id@, matches_view(*found), r),
{
    if found.len() > 0 {
        proof {
            assert(matches_view(*found)[0] == found[0]@.map_values(
                |g: Option<String>| opt_view(g),
            ));
        }
        let url = download_url(id);
        Resolution::Done(fetched_binary(group(&found[0], 1).to_owned(), url.as_str()))
    } else {
        Resolution::Failed(DownloadResolutionError::NoAttachment)
    }
}

/// What `resolve_step` decides. A redirect is followed to its target, unless
/// `hops` redirects were followed already or the target is missing. Any
/// other response ends the chain: with an error where it reports a failure
/// or names no attachment, else with the binary.
pub open spec fn resolved(id: Seq<char>, hops: usize, reply: Reply, r: Resolution) -> bool {
    if reply.status == 302 {
        match reply.location {
            Header::Text(target) => if hops >= REDIRECT_LIMIT {
                r == Resolution::Failed(DownloadResolutionError::TooManyRedirects)
            } else {
                r is Follow && r->Follow_0@ == target@
            },
            Header::Unreadable => r == Resolution::Failed(
                DownloadResolutionError::UnreadableHeader,
            ),
            Header::Absent => r == Resolution::Failed(DownloadResolutionError::NoLocation),
        }
    } else if is_failure(reply.status) {
        r == Resolution::Failed(DownloadResolutionError::Status(reply.status))
    } else {
        match reply.content_disposition {
            Header::Text(value) => if pattern_compiles(ATTACHMENT_PATTERN@) {
                named_by(id, pattern_matches(ATTACHMENT_PATTERN@, value@), r)
            } else {
                r is Failed && r->Failed_0 is Pattern && r->Failed_0->Pattern_0.pattern@
                    == ATTACHMENT_PATTERN@
            },
            Header::Unreadable => r == Resolution::Failed(
                DownloadResolutionError::UnreadableHeader,
            ),
            Header::Absent => r == Resolution::Failed(
                DownloadResolutionError::NoContentDisposition,
            ),
        }
    }
}

/// Judges one response in the chain of requests for the file `id`, after
/// `hops` redirects were followed.
pub fn resolve_step(id: &str, hops: usize, reply: &Reply) -> (r: Resolution)
    ensures
        resolved(id@, hops, *reply, r),
{
    if reply.status == 302 {
        match &reply.location {
            Header::Text(target) => {
                if hops >= REDIRECT_LIMIT {
                    Resolution::Failed(DownloadResolutionError::TooManyRedirects)
                } else {
                    Resolution::Follow(target.clone())
                }
            },
            Header::Unreadable => Resolution::Failed(DownloadResolutionError::UnreadableHeader),
            Header::Absent => Resolution::Failed(DownloadResolutionError::NoLocation),
        }
    } else if reply.fails() {
        Resolution::Failed(DownloadResolutionError::Status(reply.status))
    } else {
        match &reply.content_disposition {
            Header::Text(value) => match search(ATTACHMENT_PATTERN, value.as_str()) {
                Ok(found) => binary_from_attachment(id, &found),
                Err(e) => Resolution::Failed(DownloadResolutionError::Pattern(e)),
            },
            Header::Unreadable => Resolution::Failed(DownloadResolutionError::UnreadableHeader),
            Header::Absent => Resolution::Failed(DownloadResolutionError::NoContentDisposition),
        }
    }
}

/// How the resolution of one hosted file ended.
pub type Resolved = Result<Binary, DownloadResolutionError>;

/// The binaries of the files that were resolved, in their order.
pub open spec fn resolved_binaries(outcomes: Seq<Resolved>) -> Seq<Binary>
    decreases outcomes.len(),
{
    if outcomes.len() == 0 {
        Seq::empty()
    } else {
        match outcomes.last() {
            Ok(binary) => resolved_binaries(outcomes.drop_last()).push(binary),
            Err(_) => resolved_binaries(outcomes.drop_last()),
        }
    }
}

/// Why the other files were not resolved, in their order.
pub open spec fn unresolved(outcomes: Seq<Resolved>) -> Seq<DownloadResolutionError>
    decreases outcomes.len(),
{
    if outcomes.len() == 0 {
        Seq::empty()
    } else {
        match outcomes.last() {
            Ok(_) => unresolved(outcomes.drop_last()),
            Err(e) => unresolved(outcomes.drop_last()).push(e),
        }
    }
}

/// The binaries that a description yields, from how the resolution of each
/// of its hosted files ended. A file that could not be resolved yields no
/// binary and does not stand in the way of the others; the reasons come
/// back beside the binaries.
pub fn binaries_from_resolutions(outcomes: Vec<Resolved>) -> (r: (
    Vec<Binary>,
    Vec<DownloadResolutionError>,
))
    ensures
        r.0@ == resolved_binaries(outcomes@),
        r.1@ == unresolved(outcomes@),
{
    let mut binaries: Vec<Binary> = Vec::new();
    let mut failures: Vec<DownloadResolutionError> = Vec::new();
    for outcome in it: outcomes
        invariant
            binaries@ == resolved_binaries(outcomes@.take(it.index() as int)),
            failures@ == unresolved(outcomes@.take(it.index() as int)),
    {
        let ghost i = it.index() as int;
        proof {
            assert(outcomes@.take(i + 1).drop_last() == outcomes@.take(i));
            assert(outcomes@.take(i + 1).last() == outcome);
        }
        match outcome {
            Ok(binary) => {
                binaries.push(binary);
            },
            Err(e) => {
                failures.push(e);
            },
        }
    }
    assert(outcomes@.take(outcomes@.len() as int) == outcomes@);
    (binaries, failures)
}

} // verus!
