//! Addresses, as the `url` crate reads and writes them.

use vstd::prelude::*;

verus! {

/// `url::ParseError`, which is only carried through: nothing is known of its
/// values.
#[verifier::external_type_specification]
#[verifier::external_body]
pub struct ExParseError(url::ParseError);

/// Why an address could not be used.
#[derive(Clone, Debug, PartialEq, Eq)]
pub enum UrlError {
    /// The text is no absolute address; with the parser's words.
    Invalid(String),
    /// The address cannot be the base of a path.
    CannotBeBase,
    /// A part of the address is longer than `PART_LIMIT` characters, or there are
    /// more than `SEGMENT_LIMIT` segments.
    TooLong,
}

/// The longest base, segment or query, in characters, that is written into
/// an address.
pub const PART_LIMIT: usize = 65536;

/// The most segments that are appended to an address at once.
pub const SEGMENT_LIMIT: usize = 256;

/// The path of an address; `None` where the text is no absolute address.
pub uninterp spec fn url_path(url: Seq<char>) -> Option<Seq<char>>;

/// The address as the parser writes it back; `None` where the text is no
/// absolute address.
pub uninterp spec fn url_normalized(url: Seq<char>) -> Option<Seq<char>>;

/// The address `base` with `segments` appended to its path: `None` where
/// `base` is no absolute address, `Some(None)` where it cannot be a base.
pub uninterp spec fn url_extended(base: Seq<char>, segments: Seq<Seq<char>>) -> Option<
    Option<Seq<char>>,
>;

/// The address with its query replaced by `query`; `None` where the text is
/// no absolute address.
pub uninterp spec fn url_with_query(url: Seq<char>, query: Seq<char>) -> Option<Seq<char>>;

/// Segments as plain sequences.
pub open spec fn segments_view(segments: Seq<&str>) -> Seq<Seq<char>> {
    segments.map_values(|s: &str| s@)
}

/// No part is over the limit.
pub open spec fn within_limits(base: Seq<char>, segments: Seq<Seq<char>>) -> bool {
    &&& base.len() <= PART_LIMIT
    &&& segments.len() <= SEGMENT_LIMIT
    &&& forall|i: int| 0 <= i < segments.len() ==> (#[trigger] segments[i]).len() <= PART_LIMIT
}

/// `Url::parse`, then `Url::path`: an error exactly where the text does not
/// parse, and else the path, which depends on the text alone.
#[verifier::external_body]
fn parsed_path(url: &str) -> (r: Result<String, url::ParseError>)
    ensures
        match r {
            Ok(p) => url_path(url@) == Some(p@),
            Err(_) => url_path(url@) is None,
        },
{
    Ok(url::Url::parse(url)?.path().to_owned())
}

/// `Url::parse`, then the address written back: an error exactly where the
/// text does not parse.
#[verifier::external_body]
fn parsed(url: &str) -> (r: Result<String, url::ParseError>)
    ensures
        match r {
            Ok(p) => url_normalized(url@) == Some(p@),
            Err(_) => url_normalized(url@) is None,
        },
{
    Ok(url::Url::parse(url)?.into())
}

/// `Url::parse`, then `Url::path_segments_mut` and `PathSegmentsMut::extend`:
/// an error exactly where `base` does not parse, `None` exactly where the
/// address cannot be a base, and else the address with the segments
/// appended. The limits keep the address under the four gigabytes that the
/// crate can hold.
#[verifier::external_body]
fn extended(base: &str, segments: &[&str]) -> (r: Result<Option<String>, url::ParseError>)
    requires
        within_limits(base@, segments_view(segments@)),
    ensures
        match r {
            Ok(Some(u)) => url_extended(base@, segments_view(segments@)) == Some(Some(u@)),
            Ok(None) => url_extended(base@, segments_view(segments@)) == Some(
                None::<Seq<char>>,
            ),
            Err(_) => url_extended(base@, segments_view(segments@)) is None,
        },
{
    let mut url = url::Url::parse(base)?;
    match url.path_segments_mut() {
        Ok(mut path) => {
            path.extend(segments);
        },
        Err(()) => return Ok(None),
    }
    Ok(Some(url.into()))
}

/// `Url::parse`, then `Url::set_query`: an error exactly where the text does
/// not parse, and else the address with the new query. The limits keep the
/// address under the four gigabytes that the crate can hold.
#[verifier::external_body]
fn queried(url: &str, query: &str) -> (r: Result<String, url::ParseError>)
    requires
        url@.len() <= PART_LIMIT,
        query@.len() <= PART_LIMIT,
    ensures
        match r {
            Ok(u) => url_with_query(url@, query@) == Some(u@),
            Err(_) => url_with_query(url@, query@) is None,
        },
{
    let mut parsed = url::Url::parse(url)?;
    parsed.set_query(Some(query));
    Ok(parsed.into())
}

/// The words of `url::ParseError`'s `Display`.
#[verifier::external_body]
fn error_message(e: &url::ParseError) -> String {
    format!("{}", e)
}

/// The path of the address `url`.
pub fn path_of(url: &str) -> (r: Result<String, UrlError>)
    ensures
        match r {
            Ok(p) => url_path(url@) == Some(p@),
            Err(e) => url_path(url@) is None && e is Invalid,
        },
{
    match parsed_path(url) {
        Ok(p) => Ok(p),
        Err(e) => Err(UrlError::Invalid(error_message(&e))),
    }
}

/// The address `url` as the parser writes it back.
pub fn normalize(url: &str) -> (r: Result<String, UrlError>)
    ensures
        match r {
            Ok(p) => url_normalized(url@) == Some(p@),
            Err(e) => url_normalized(url@) is None && e is Invalid,
        },
{
    match parsed(url) {
        Ok(p) => Ok(p),
        Err(e) => Err(UrlError::Invalid(error_message(&e))),
    }
}

/// Whether every part is within the limits.
pub fn check_limits(base: &str, segments: &[&str]) -> (r: bool)
    ensures
        r == within_limits(base@, segments_view(segments@)),
{
    if base.unicode_len() > PART_LIMIT || segments.len() > SEGMENT_LIMIT {
        return false;
    }
    let mut i: usize = 0;
    while i < segments.len()
        invariant
            i <= segments.len(),
            forall|j: int|
                0 <= j < i ==> (#[trigger] segments_view(segments@)[j]).len() <= PART_LIMIT,
        decreases segments.len() - i,
    {
        if segments[i].unicode_len() > PART_LIMIT {
            assert(segments_view(segments@)[i as int] == segments[i as int]@);
            return false;
        }
        assert(segments_view(segments@)[i as int] == segments[i as int]@);
        i += 1;
    }
    true
}

/// What `build_url` returns, given what the `url` crate makes of the
/// arguments.
pub open spec fn built(
    within: bool,
    extended: Option<Option<Seq<char>>>,
    r: Result<String, UrlError>,
) -> bool {
    if !within {
        r is Err && r->Err_0 is TooLong
    } else {
        match extended {
            Some(Some(u)) => r is Ok && r->Ok_0@ == u,
            Some(None) => r is Err && r->Err_0 is CannotBeBase,
            None => r is Err && r->Err_0 is Invalid,
        }
    }
}

/// The address `base` with the segments `path` appended to its path.
pub fn build_url(base: &str, path: &[&str]) -> (r: Result<String, UrlError>)
    ensures
        built(
            within_limits(base@, segments_view(path@)),
            url_extended(base@, segments_view(path@)),
            r,
        ),
{
    if !check_limits(base, path) {
        return Err(UrlError::TooLong);
    }
    match extended(base, path) {
        Ok(Some(u)) => Ok(u),
        Ok(None) => Err(UrlError::CannotBeBase),
        Err(e) => Err(UrlError::Invalid(error_message(&e))),
    }
}

/// What `set_query` returns, given what the `url` crate makes of the
/// arguments.
pub open spec fn queried_as(
    within: bool,
    with_query: Option<Seq<char>>,
    r: Result<String, UrlError>,
) -> bool {
    if !within {
        r is Err && r->Err_0 is TooLong
    } else {
        match with_query {
            Some(u) => r is Ok && r->Ok_0@ == u,
            None => r is Err && r->Err_0 is Invalid,
        }
    }
}

/// The address `url` with its query replaced by `query`.
pub fn set_query(url: &str, query: &str) -> (r: Result<String, UrlError>)
    ensures
        queried_as(
            url@.len() <= PART_LIMIT && query@.len() <= PART_LIMIT,
            url_with_query(url@, query@),
            r,
        ),
{
    if url.unicode_len() > PART_LIMIT || query.unicode_len() > PART_LIMIT {
        return Err(UrlError::TooLong);
    }
    match queried(url, query) {
        Ok(u) => Ok(u),
        Err(e) => Err(UrlError::Invalid(error_message(&e))),
    }
}

/// What `build_url_with_query` returns, given what the `url` crate makes
/// of the arguments.
pub open spec fn built_with_query(
    base: Seq<char>,
    segments: Seq<Seq<char>>,
    query: Seq<char>,
    r: Result<String, UrlError>,
) -> bool {
    if !within_limits(base, segments) {
        r is Err && r->Err_0 is TooLong
    } else {
        match url_extended(base, segments) {
            Some(Some(u)) => queried_as(
                u.len() <= PART_LIMIT && query.len() <= PART_LIMIT,
                url_with_query(u, query),
                r,
            ),
            Some(None) => r is Err && r->Err_0 is CannotBeBase,
            None => r is Err && r->Err_0 is Invalid,
        }
    }
}

/// The address `base` with the segments `path` appended to its path and
/// with the query `query`.
pub fn build_url_with_query(base: &str, path: &[&str], query: &str) -> (r: Result<
    String,
    UrlError,
>)
    ensures
        built_with_query(base@, segments_view(path@), query@, r),
{
    match build_url(base, path) {
        Ok(u) => set_query(u.as_str(), query),
        Err(e) => Err(e),
    }
}

} // verus!
