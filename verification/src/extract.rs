//! What a challenge's description and its links yield: the services it
//! names, the hosted files it points to, and the binary that a link stands
//! for.

use vstd::prelude::*;
use crate::address::{path_of, url_path, UrlError};
use crate::ctf::{Binary, BinaryAlternative, Service};
use crate::model::{AlternativeView, BinaryView, ServiceView};
use crate::pattern::{
    group, group_text, matches_view, pattern_compiles, pattern_matches, search, PatternError,
};
use crate::text::{after_last, join2, opt_view, strings_view, tail_after};

verus! {

/// `nc`, a host and a port.
pub const NC_PATTERN: &'static str = "nc ([^ ]+) (\\d+)";

/// An address: `http` or `https`, up to the next blank, quote or `<`.
pub const URL_PATTERN: &'static str = "https?://[^\\s\"<]+";

/// A hosted file, by the address of its viewer.
pub const DRIVE_FILE_PATTERN: &'static str = "^https://drive.google.com/file/d/(.+)/view$";

/// A hosted file, by the address that opens it.
pub const DRIVE_OPEN_PATTERN: &'static str = "^https://drive.google.com/open\\?id=(.+)$";

/// The name of the alternative that a fetched binary starts with.
pub const ORIGINAL: &'static str = "orig";

/// The service that one `nc` line stands for.
pub open spec fn netcat_service(m: Seq<Option<Seq<char>>>) -> ServiceView {
    ServiceView {
        name: None,
        url: Some("nc://"@ + group_text(m, 1) + ":"@ + group_text(m, 2)),
    }
}

/// The services that the `nc` lines stand for, in their order.
pub open spec fn netcat_services(found: Seq<Seq<Option<Seq<char>>>>) -> Seq<ServiceView> {
    found.map_values(|m: Seq<Option<Seq<char>>>| netcat_service(m))
}

/// Services, as plain values.
pub open spec fn services_view(v: Seq<Service>) -> Seq<ServiceView> {
    v.map_values(|s: Service| s@)
}

/// One unnamed service `nc://host:port` for each match of `NC_PATTERN`, in
/// the order of the matches.
pub fn services_from_captures(found: &Vec<Vec<Option<String>>>) -> (r: Vec<Service>)
    ensures
        services_view(r@) == netcat_services(matches_view(*found)),
{
    let mut services: Vec<Service> = Vec::new();
    let mut i: usize = 0;
    while i < found.len()
        invariant
            i <= found.len(),
            services_view(services@) == netcat_services(matches_view(*found).take(i as int)),
        decreases found.len() - i,
    {
        let mut url = join2("nc://", group(&found[i], 1));
        url.append(":");
        url.append(group(&found[i], 2));
        let service = Service { name: None, url: Some(url) };
        proof {
            let m = matches_view(*found)[i as int];
            assert(m == found[i as int]@.map_values(|g: Option<String>| opt_view(g)));
            assert(service@ == netcat_service(m));
            assert(matches_view(*found).take(i + 1).drop_last() == matches_view(*found).take(
                i as int,
            ));
        }
        let ghost before = services_view(services@);
        services.push(service);
        proof {
            let all = matches_view(*found);
            assert(services_view(services@) =~= before.push(service@));
            assert forall|j: int| 0 <= j < i + 1 implies #[trigger] services_view(services@)[j]
                == netcat_services(all.take(i + 1))[j] by {
                if j < i {
                    assert(before[j] == netcat_services(all.take(i as int))[j]);
                    assert(all.take(i as int)[j] == all.take(i + 1)[j]);
                }
            }
        }
        assert(services_view(services@) =~= netcat_services(
            matches_view(*found).take(i + 1),
        ));
        i += 1;
    }
    assert(matches_view(*found).take(found.len() as int) == matches_view(*found));
    services
}

/// The services that a description names: one for each `nc <host> <port>`
/// in it.
pub fn services_from_description(description: &str) -> (r: Result<Vec<Service>, PatternError>)
    ensures
        r is Ok <==> pattern_compiles(NC_PATTERN@),
        r is Ok ==> services_view(r->Ok_0@) == netcat_services(
            pattern_matches(NC_PATTERN@, description@),
        ),
        r is Err ==> r->Err_0.pattern@ == NC_PATTERN@,
{
    match search(NC_PATTERN, description) {
        Ok(found) => Ok(services_from_captures(&found)),
        Err(e) => Err(e),
    }
}

/// Why a link names no binary.
#[derive(Clone, Debug, PartialEq, Eq)]
pub enum BinaryUrlError {
    /// The link is no absolute address.
    Invalid(UrlError),
    /// The address has no path to take a name from.
    CannotBeBase,
}

/// The binary that the link `url` with the path `path` stands for: named
/// by the last segment of the path, with the one alternative `orig` that is
/// fetched from the link and has no checksum yet.
pub open spec fn linked_binary(url: Seq<char>, path: Seq<char>) -> BinaryView {
    BinaryView {
        name: after_last(path, '/'),
        alternatives: seq![
            AlternativeView { name: ORIGINAL@, url: Some(url), checksum: None },
        ],
        default_alternative: None,
    }
}

/// A binary called `name` whose one alternative, `orig`, is fetched from
/// `url`.
pub fn fetched_binary(name: String, url: &str) -> (r: Binary)
    ensures
        r@ == (BinaryView {
            name: name@,
            alternatives: seq![
                AlternativeView { name: ORIGINAL@, url: Some(url@), checksum: None },
            ],
            default_alternative: None,
        }),
{
    let mut alternatives: Vec<BinaryAlternative> = Vec::new();
    alternatives.push(
        BinaryAlternative { name: ORIGINAL.to_owned(), url: Some(url.to_owned()), checksum: None },
    );
    let r = Binary { name, alternatives, default_alternative: None };
    assert(r@.alternatives =~= seq![
        AlternativeView { name: ORIGINAL@, url: Some(url@), checksum: None },
    ]);
    r
}

/// Whether a path starts with a slash, as the path of every address does
/// that can be a base.
pub open spec fn is_rooted(path: Seq<char>) -> bool {
    path.len() > 0 && path[0] == '/'
}

/// The binary for a link whose path is known.
pub fn binary_from_path(url: &str, path: &str) -> (r: Result<Binary, BinaryUrlError>)
    ensures
        match r {
            Ok(b) => is_rooted(path@) && b@ == linked_binary(url@, path@),
            Err(e) => !is_rooted(path@) && e is CannotBeBase,
        },
{
    let rooted = match path.chars().next() {
        Some(c) => c == '/',
        None => false,
    };
    if rooted {
        Ok(fetched_binary(tail_after(path, '/'), url))
    } else {
        Err(BinaryUrlError::CannotBeBase)
    }
}

/// The binary that a link stands for.
pub fn binary_from_url(url: &str) -> (r: Result<Binary, BinaryUrlError>)
    ensures
        match url_path(url@) {
            Some(path) => match r {
                Ok(b) => is_rooted(path) && b@ == linked_binary(url@, path),
                Err(e) => !is_rooted(path) && e is CannotBeBase,
            },
            None => r is Err && r->Err_0 is Invalid,
        },
{
    match path_of(url) {
        Ok(path) => binary_from_path(url, path.as_str()),
        Err(e) => Err(BinaryUrlError::Invalid(e)),
    }
}

/// The texts in ascending order, as `String` orders them.
pub uninterp spec fn sorted_texts(texts: Seq<Seq<char>>) -> Seq<Seq<char>>;

/// `sort` of a slice of strings: afterwards the vector holds the same
/// strings in ascending order, an order that depends on the strings alone.
#[verifier::external_body]
fn sort(texts: &mut Vec<String>)
    ensures
        strings_view(final(texts)@) == sorted_texts(strings_view(old(texts)@)),
{
    texts.sort();
}

/// The texts without those that repeat the one before them.
pub open spec fn without_repeats(texts: Seq<Seq<char>>) -> Seq<Seq<char>>
    decreases texts.len(),
{
    if texts.len() <= 1 {
        texts
    } else {
        let rest = without_repeats(texts.drop_last());
        if texts.last() == texts[texts.len() - 2] {
            rest
        } else {
            rest.push(texts.last())
        }
    }
}

/// Drops every text that repeats the one before it.
pub fn dedup(texts: Vec<String>) -> (r: Vec<String>)
    ensures
        strings_view(r@) == without_repeats(strings_view(texts@)),
{
    let ghost all = strings_view(texts@);
    let mut r: Vec<String> = Vec::new();
    let mut previous: Option<String> = None;
    for text in it: texts
        invariant
            all == strings_view(texts@),
            strings_view(r@) == without_repeats(all.take(it.index() as int)),
            it.index() == 0 ==> previous is None,
            it.index() > 0 ==> previous is Some && previous->0@ == all[it.index() - 1],
    {
        let ghost i = it.index() as int;
        proof {
            assert(all.take(i + 1).drop_last() == all.take(i));
            assert(all.take(i + 1).last() == text@);
            if i > 0 {
                assert(all.take(i + 1)[i - 1] == all[i - 1]);
            }
        }
        let repeats = match &previous {
            Some(p) => p.as_str().eq(text.as_str()),
            None => false,
        };
        if !repeats {
            r.push(text.clone());
            assert(strings_view(r@) =~= without_repeats(all.take(i)).push(text@));
        }
        proof {
            if i == 0 {
                assert(all.take(1) =~= seq![text@]);
            }
        }
        previous = Some(text);
    }
    assert(all.take(all.len() as int) == all);
    r
}

/// The text that each match covers.
pub open spec fn whole_matches(found: Seq<Seq<Option<Seq<char>>>>) -> Seq<Seq<char>> {
    found.map_values(|m: Seq<Option<Seq<char>>>| group_text(m, 0))
}

/// The addresses in a description, in the order in which they occur.
pub fn urls_from_captures(found: &Vec<Vec<Option<String>>>) -> (r: Vec<String>)
    ensures
        strings_view(r@) == whole_matches(matches_view(*found)),
{
    let mut urls: Vec<String> = Vec::new();
    let mut i: usize = 0;
    while i < found.len()
        invariant
            i <= found.len(),
            urls.len() == i,
            forall|j: int| 0 <= j < i ==> (#[trigger] urls[j])@ == group_text(
                matches_view(*found)[j],
                0,
            ),
        decreases found.len() - i,
    {
        let url = group(&found[i], 0).to_owned();
        proof {
            assert(matches_view(*found)[i as int] == found[i as int]@.map_values(
                |g: Option<String>| opt_view(g),
            ));
        }
        urls.push(url);
        i += 1;
    }
    assert(strings_view(urls@) =~= whole_matches(matches_view(*found)));
    urls
}

/// The identifier of the hosted file that an address points to, given the
/// matches of `DRIVE_FILE_PATTERN` and of `DRIVE_OPEN_PATTERN` in it: the
/// first group of the first match, the viewer's form before the other.
pub open spec fn drive_id(
    as_file: Seq<Seq<Option<Seq<char>>>>,
    as_open: Seq<Seq<Option<Seq<char>>>>,
) -> Option<Seq<char>> {
    if as_file.len() > 0 {
        Some(group_text(as_file[0], 1))
    } else if as_open.len() > 0 {
        Some(group_text(as_open[0], 1))
    } else {
        None
    }
}

/// The identifier of the hosted file, from the matches of the two patterns.
pub fn drive_id_from_captures(
    as_file: &Vec<Vec<Option<String>>>,
    as_open: &Vec<Vec<Option<String>>>,
) -> (r: Option<String>)
    ensures
        opt_view(r) == drive_id(matches_view(*as_file), matches_view(*as_open)),
{
    if as_file.len() > 0 {
        proof {
            assert(matches_view(*as_file)[0] == as_file[0]@.map_values(
                |g: Option<String>| opt_view(g),
            ));
        }
        Some(group(&as_file[0], 1).to_owned())
    } else if as_open.len() > 0 {
        proof {
            assert(matches_view(*as_open)[0] == as_open[0]@.map_values(
                |g: Option<String>| opt_view(g),
            ));
        }
        Some(group(&as_open[0], 1).to_owned())
    } else {
        None
    }
}

/// The identifier that `url` holds, if both patterns compile; `None`
/// otherwise.
pub open spec fn drive_id_of(url: Seq<char>) -> Option<Option<Seq<char>>> {
    if pattern_compiles(DRIVE_FILE_PATTERN@) && pattern_compiles(DRIVE_OPEN_PATTERN@) {
        Some(
            drive_id(
                pattern_matches(DRIVE_FILE_PATTERN@, url),
                pattern_matches(DRIVE_OPEN_PATTERN@, url),
            ),
        )
    } else {
        None
    }
}

/// The one of the two patterns for hosted files that does not compile,
/// where one of them does not.
pub open spec fn failing_drive_pattern() -> Seq<char> {
    if !pattern_compiles(DRIVE_FILE_PATTERN@) {
        DRIVE_FILE_PATTERN@
    } else {
        DRIVE_OPEN_PATTERN@
    }
}

/// The identifier of the hosted file that `url` points to, or `None` where
/// it points to none.
pub fn extract_google_drive_id(url: &str) -> (r: Result<Option<String>, PatternError>)
    ensures
        match drive_id_of(url@) {
            Some(id) => r is Ok && opt_view(r->Ok_0) == id,
            None => r is Err && r->Err_0.pattern@ == failing_drive_pattern(),
        },
{
    let as_file = search(DRIVE_FILE_PATTERN, url)?;
    let as_open = search(DRIVE_OPEN_PATTERN, url)?;
    Ok(drive_id_from_captures(&as_file, &as_open))
}

/// The identifiers that the addresses hold, in their order; `None` where a
/// pattern does not compile.
pub open spec fn drive_ids(urls: Seq<Seq<char>>) -> Option<Seq<Seq<char>>>
    decreases urls.len(),
{
    if urls.len() == 0 {
        Some(Seq::empty())
    } else {
        match (drive_ids(urls.drop_last()), drive_id_of(urls.last())) {
            (Some(ids), Some(Some(id))) => Some(ids.push(id)),
            (Some(ids), Some(None)) => Some(ids),
            _ => None,
        }
    }
}

/// The identifiers of the hosted files among `urls`.
pub fn drive_ids_of(urls: &Vec<String>) -> (r: Result<Vec<String>, PatternError>)
    ensures
        match drive_ids(strings_view(urls@)) {
            Some(ids) => r is Ok && strings_view(r->Ok_0@) == ids,
            None => r is Err && r->Err_0.pattern@ == failing_drive_pattern(),
        },
{
    let ghost all = strings_view(urls@);
    let mut ids: Vec<String> = Vec::new();
    let mut i: usize = 0;
    while i < urls.len()
        invariant
            i <= urls.len(),
            all == strings_view(urls@),
            drive_ids(all.take(i as int)) == Some(strings_view(ids@)),
        decreases urls.len() - i,
    {
        proof {
            assert(all.take(i + 1).drop_last() == all.take(i as int));
            assert(all.take(i + 1).last() == urls[i as int]@);
        }
        match extract_google_drive_id(urls[i].as_str()) {
            Ok(Some(id)) => {
                let ghost before = strings_view(ids@);
                ids.push(id);
                assert(strings_view(ids@) =~= before.push(id@));
            },
            Ok(None) => {},
            Err(e) => {
                proof {
                    lemma_drive_ids_fail(all, i as int);
                }
                return Err(e);
            },
        }
        i += 1;
    }
    assert(all.take(urls.len() as int) == all);
    Ok(ids)
}

/// Where one address fails, the whole list does.
proof fn lemma_drive_ids_fail(urls: Seq<Seq<char>>, i: int)
    requires
        0 <= i < urls.len(),
        drive_id_of(urls[i]) is None,
    ensures
        drive_ids(urls) is None,
    decreases urls.len(),
{
    if i < urls.len() - 1 {
        assert(urls.drop_last()[i] == urls[i]);
        lemma_drive_ids_fail(urls.drop_last(), i);
    }
}

/// The hosted files that a description points to: of the addresses in it,
/// sorted and each taken once, those that hold a file's identifier.
pub open spec fn hosted_files(found: Seq<Seq<Option<Seq<char>>>>) -> Option<Seq<Seq<char>>> {
    drive_ids(without_repeats(sorted_texts(whole_matches(found))))
}

/// The identifiers of the hosted files, from the matches of `URL_PATTERN`
/// in a description.
pub fn hosted_files_from_captures(found: &Vec<Vec<Option<String>>>) -> (r: Result<
    Vec<String>,
    PatternError,
>)
    ensures
        match hosted_files(matches_view(*found)) {
            Some(ids) => r is Ok && strings_view(r->Ok_0@) == ids,
            None => r is Err && r->Err_0.pattern@ == failing_drive_pattern(),
        },
{
    let mut urls = urls_from_captures(found);
    sort(&mut urls);
    let urls = dedup(urls);
    drive_ids_of(&urls)
}

/// The identifiers of the hosted files that a description points to. Each
/// is then resolved to a binary, one request after another.
pub fn hosted_files_from_description(description: &str) -> (r: Result<Vec<String>, PatternError>)
    ensures
        r is Ok <==> pattern_compiles(URL_PATTERN@) && hosted_files(
            pattern_matches(URL_PATTERN@, description@),
        ) is Some,
        r is Ok ==> Some(strings_view(r->Ok_0@)) == hosted_files(
            pattern_matches(URL_PATTERN@, description@),
        ),
        r is Err ==> r->Err_0.pattern@ == if pattern_compiles(URL_PATTERN@) {
            failing_drive_pattern()
        } else {
            URL_PATTERN@
        },
{
    let found = search(URL_PATTERN, description)?;
    hosted_files_from_captures(&found)
}

} // verus!
