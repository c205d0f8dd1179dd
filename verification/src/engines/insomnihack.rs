//! The adapter for the platform of Insomni'hack: a page gives the moment of
//! the last change, the list is asked for with it, and the details of each
//! challenge stand behind the path that the list gives.

use vstd::prelude::*;
use crate::address::{
    build_url, build_url_with_query, built, built_with_query, segments_view, url_extended,
    within_limits, UrlError,
};
use crate::category::{challenge_name, named};
use crate::ctf::{Binary, Challenge};
use crate::engines::auth::{token_from_captures, token_of, LoginRules, Success};
use crate::engines::{detect_needle, DetectFailure, Engine, FetchError};
use crate::extract::{netcat_services, services_from_description, NC_PATTERN};
use crate::model::{BinaryView, ChallengeView};
use crate::pattern::{matches_view, pattern_compiles, pattern_matches, search};
use crate::text::{
    decimal_value, i32_to_string, join, join2, joined, parse_decimal, signed_decimal, split,
    split_at_each, strings_view,
};

verus! {

/// The name of the adapter.
pub const ID: &'static str = "insomnihack";

/// What every page of the platform says.
pub const FINGERPRINT: &'static str = "Insomni'hack";

/// The hidden field of the login form that holds the token.
pub const TOKEN_PATTERN: &'static str =
    "<input type=\"hidden\" name=\"csrfmiddlewaretoken\" value=\"([^\"]+)\">";

/// The target that a login redirects to.
pub const AFTER_LOGIN: &'static str = "/challenges/";

/// The link to the list, with the moment of the last change.
pub const MOMENT_PATTERN: &'static str = "\"/challenges/list\\?t=(\\d+)\"";

/// The adapter for Insomni'hack.
#[derive(Clone, Copy, Debug, PartialEq, Eq)]
pub struct InsomniHackEngine {}

impl Engine for InsomniHackEngine {
    open spec fn id_spec(&self) -> Seq<char> {
        ID@
    }

    open spec fn fingerprint_spec(&self) -> Seq<char> {
        FINGERPRINT@
    }

    fn id(&self) -> (r: &'static str) {
        ID
    }

    fn fingerprint(&self) -> (r: &'static str) {
        FINGERPRINT
    }

    fn detect(&self, main_page: &str) -> (r: Result<(), DetectFailure>) {
        detect_needle(ID, main_page, FINGERPRINT)
    }
}

/// How to log in.
pub fn login_rules() -> (r: LoginRules)
    ensures
        r.token_pattern@ == TOKEN_PATTERN@,
        r.user_field@ == "username"@,
        r.password_field@ == "password"@,
        r.token_field@ == "csrfmiddlewaretoken"@,
        r.referer,
        r.success == Success::LocationIs(AFTER_LOGIN),
{
    LoginRules {
        token_pattern: TOKEN_PATTERN,
        user_field: "username",
        password_field: "password",
        token_field: "csrfmiddlewaretoken",
        referer: true,
        success: Success::LocationIs(AFTER_LOGIN),
    }
}

/// The address of the login page.
pub fn login_url(remote_url: &str) -> (r: Result<String, UrlError>)
    ensures
        built(
            within_limits(remote_url@, seq!["accounts"@, "login"@, ""@]),
            url_extended(remote_url@, seq!["accounts"@, "login"@, ""@]),
            r,
        ),
{
    let path: [&str; 3] = ["accounts", "login", ""];
    proof {
        assert(segments_view(path@) =~= seq!["accounts"@, "login"@, ""@]);
    }
    build_url(remote_url, path.as_slice())
}

/// The address of the page that links to the list.
pub fn challenges_url(remote_url: &str) -> (r: Result<String, UrlError>)
    ensures
        built(
            within_limits(remote_url@, seq!["challenges"@, ""@]),
            url_extended(remote_url@, seq!["challenges"@, ""@]),
            r,
        ),
{
    let path: [&str; 2] = ["challenges", ""];
    proof {
        assert(segments_view(path@) =~= seq!["challenges"@, ""@]);
    }
    build_url(remote_url, path.as_slice())
}

/// The moment of the last change, given the matches of `MOMENT_PATTERN` in
/// the page: the number that the first group of the one match stands for,
/// where it fits an `i32`.
pub open spec fn moment_of(found: Seq<Seq<Option<Seq<char>>>>) -> Option<i32> {
    match token_of(found) {
        Some(digits) => match decimal_value(digits) {
            Some(v) => if v <= i32::MAX {
                Some(v as i32)
            } else {
                None
            },
            None => None,
        },
        None => None,
    }
}

/// What is said of a page that does not link to the list exactly once.
pub const NO_MOMENT: &'static str = "Could not find challenges timestamp";

/// What is said of a link whose moment is no number that fits.
pub const NO_NUMBER: &'static str = "The challenges timestamp is no number";

/// The moment of the last change, from the matches of `MOMENT_PATTERN`.
pub fn moment_from_captures(found: &Vec<Vec<Option<String>>>) -> (r: Result<i32, FetchError>)
    ensures
        match moment_of(matches_view(*found)) {
            Some(t) => r == Ok::<i32, FetchError>(t),
            None => r is Err && r->Err_0 is Schema && r->Err_0->Schema_0@ == if token_of(
                matches_view(*found),
            ) is Some {
                NO_NUMBER@
            } else {
                NO_MOMENT@
            },
        },
{
    match token_from_captures(found) {
        Ok(digits) => match parse_decimal(digits.as_str()) {
            Some(t) => Ok(t),
            None => Err(FetchError::Schema(NO_NUMBER.to_owned())),
        },
        Err(_) => Err(FetchError::Schema(NO_MOMENT.to_owned())),
    }
}

/// The moment of the last change that a page gives. The page must link to
/// the list exactly once.
pub fn moment(page: &str) -> (r: Result<i32, FetchError>)
    ensures
        r is Ok <==> pattern_compiles(MOMENT_PATTERN@) && moment_of(
            pattern_matches(MOMENT_PATTERN@, page@),
        ) is Some,
        r is Ok ==> Some(r->Ok_0) == moment_of(pattern_matches(MOMENT_PATTERN@, page@)),
        r is Err ==> if pattern_compiles(MOMENT_PATTERN@) {
            r->Err_0 is Schema && r->Err_0->Schema_0@ == if token_of(
                pattern_matches(MOMENT_PATTERN@, page@),
            ) is Some {
                NO_NUMBER@
            } else {
                NO_MOMENT@
            }
        } else {
            r->Err_0 is Pattern && r->Err_0->Pattern_0.pattern@ == MOMENT_PATTERN@
        },
{
    match search(MOMENT_PATTERN, page) {
        Ok(found) => moment_from_captures(&found),
        Err(e) => Err(FetchError::Pattern(e)),
    }
}

/// The query that asks for the list as of the moment `t`.
pub fn moment_query(t: i32) -> (r: String)
    ensures
        r@ == "t="@ + signed_decimal(t as int),
{
    join2("t=", i32_to_string(t).as_str())
}

/// The address of the list as of the moment `t`: `challenges/list` under the
/// remote's address, with the query `t=` and the moment.
pub fn list_url(remote_url: &str, t: i32) -> (r: Result<String, UrlError>)
    ensures
        built_with_query(
            remote_url@,
            seq!["challenges"@, "list"@],
            "t="@ + signed_decimal(t as int),
            r,
        ),
{
    let path: [&str; 2] = ["challenges", "list"];
    proof {
        assert(segments_view(path@) =~= seq!["challenges"@, "list"@]);
    }
    build_url_with_query(remote_url, path.as_slice(), moment_query(t).as_str())
}

/// The address of the details of a challenge, from the path that the list
/// gives for it: the parts of the path between its slashes, each as a
/// segment under the remote's address.
pub fn challenge_url(remote_url: &str, path: &str) -> (r: Result<String, UrlError>)
    ensures
        built(
            within_limits(remote_url@, split_at_each(path@, '/')),
            url_extended(remote_url@, split_at_each(path@, '/')),
            r,
        ),
{
    let parts = split(path, '/');
    let mut segments: Vec<&str> = Vec::new();
    let mut i: usize = 0;
    while i < parts.len()
        invariant
            i <= parts.len(),
            segments_view(segments@) == strings_view(parts@).take(i as int),
        decreases parts.len() - i,
    {
        let ghost before = segments_view(segments@);
        segments.push(parts[i].as_str());
        assert(segments_view(segments@) =~= before.push(parts[i as int]@));
        assert(segments_view(segments@) =~= strings_view(parts@).take(i + 1));
        i += 1;
    }
    assert(strings_view(parts@).take(parts.len() as int) =~= strings_view(parts@));
    build_url(remote_url, segments.as_slice())
}

/// A challenge, as the list has it: the path to its details.
#[derive(Clone, Debug, PartialEq, Eq)]
pub struct ListedChallenge {
    pub url: String,
}

/// The details of a challenge, as the platform sends them.
#[derive(Clone, Debug, PartialEq, Eq)]
pub struct Details {
    pub name: String,
    pub categories: Vec<String>,
    pub description: String,
    pub authors: Vec<String>,
}

/// The description of a challenge: its categories and its authors, each on
/// a line, then its text.
pub open spec fn description_of(d: Details) -> Seq<char> {
    "Categories: "@ + joined(strings_view(d.categories@), ", "@) + "\nAuthors: "@ + joined(
        strings_view(d.authors@),
        ", "@,
    ) + "\n"@ + d.description@
}

/// The challenge that the details stand for: named by its best category
/// and its title, with the services that its text names and the binaries
/// that were resolved from it.
pub open spec fn challenge_view(d: Details, binaries: Seq<BinaryView>) -> ChallengeView {
    ChallengeView {
        name: named(strings_view(d.categories@), d.name@),
        description: description_of(d),
        binaries,
        services: netcat_services(pattern_matches(NC_PATTERN@, d.description@)),
    }
}

/// The challenge for the details and the binaries that their text points
/// to.
pub fn challenge_from_details(details: &Details, binaries: Vec<Binary>) -> (r: Result<
    Challenge,
    FetchError,
>)
    ensures
        r is Ok <==> pattern_compiles(NC_PATTERN@),
        r is Ok ==> r->Ok_0@ == challenge_view(*details, binaries@.map_values(|b: Binary| b@)),
        r is Err ==> r->Err_0 is Pattern && r->Err_0->Pattern_0.pattern@ == NC_PATTERN@,
{
    let name = challenge_name(details.categories.as_slice(), details.name.as_str());
    let services = match services_from_description(details.description.as_str()) {
        Ok(s) => s,
        Err(e) => {
            return Err(FetchError::Pattern(e));
        },
    };
    let mut description = join2("Categories: ", join(details.categories.as_slice(), ", ").as_str());
    description.append("\nAuthors: ");
    description.append(join(details.authors.as_slice(), ", ").as_str());
    description.append("\n");
    description.append(details.description.as_str());
    Ok(Challenge { name, description, binaries, services })
}

} // verus!
