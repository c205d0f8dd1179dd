//! The adapter for platforms that run CTFd: a list of challenges, and the
//! details of each behind its number.

use vstd::prelude::*;
use crate::address::{build_url, built, segments_view, url_extended, within_limits, UrlError};
use crate::category::{challenge_name, named};
use crate::ctf::{Binary, Challenge};
use crate::engines::auth::{LoginRules, Success};
use crate::engines::{detect_needle, DetectFailure, Engine, FetchError};
use crate::extract::{netcat_services, services_from_description, NC_PATTERN};
use crate::model::{BinaryView, ChallengeView};
use crate::pattern::{pattern_compiles, pattern_matches};
use crate::text::{i32_to_string, join2, signed_decimal};

verus! {

/// The name of the adapter.
pub const ID: &'static str = "ctfd";

/// What the footer of the default theme says.
pub const FINGERPRINT: &'static str = "Powered by CTFd";

/// The hidden field of the login form that holds the token.
pub const NONCE_PATTERN: &'static str = "<input type=\"hidden\" name=\"nonce\" value=\"([^\"]+)\">";

/// The path that a login redirects to.
pub const AFTER_LOGIN: &'static str = "/challenges";

/// The adapter for CTFd.
#[derive(Clone, Copy, Debug, PartialEq, Eq)]
pub struct CtfdEngine {}

impl Engine for CtfdEngine {
    open spec fn id_spec(&self) -> Seq<char> {
        ID@
    }

    open spec fn fingerprint_spec(&self) -> Seq<char> {
        FINGERPRINT@
    }

    fn id(&self) -> (r: &'static str) {
        ID
    }

    fn fingerprint(&self) -> (r: &'static str) {
        FINGERPRINT
    }

    fn detect(&self, main_page: &str) -> (r: Result<(), DetectFailure>) {
        detect_needle(ID, main_page, FINGERPRINT)
    }
}

/// How to log in.
pub fn login_rules() -> (r: LoginRules)
    ensures
        r.token_pattern@ == NONCE_PATTERN@,
        r.user_field@ == "name"@,
        r.password_field@ == "password"@,
        r.token_field@ == "nonce"@,
        !r.referer,
        r.success == Success::PathIs(AFTER_LOGIN),
{
    LoginRules {
        token_pattern: NONCE_PATTERN,
        user_field: "name",
        password_field: "password",
        token_field: "nonce",
        referer: false,
        success: Success::PathIs(AFTER_LOGIN),
    }
}

/// The address of the login page: `login` under the remote's address.
pub fn login_url(remote_url: &str) -> (r: Result<String, UrlError>)
    ensures
        built(
            within_limits(remote_url@, seq!["login"@]),
            url_extended(remote_url@, seq!["login"@]),
            r,
        ),
{
    let path: [&str; 1] = ["login"];
    proof {
        assert(segments_view(path@) =~= seq!["login"@]);
    }
    build_url(remote_url, path.as_slice())
}

/// The address of the list of challenges.
pub fn challenges_url(remote_url: &str) -> (r: Result<String, UrlError>)
    ensures
        built(
            within_limits(remote_url@, seq!["api"@, "v1"@, "challenges"@]),
            url_extended(remote_url@, seq!["api"@, "v1"@, "challenges"@]),
            r,
        ),
{
    let path: [&str; 3] = ["api", "v1", "challenges"];
    proof {
        assert(segments_view(path@) =~= seq!["api"@, "v1"@, "challenges"@]);
    }
    build_url(remote_url, path.as_slice())
}

/// The address of the details of the challenge with the number `id`.
pub fn challenge_url(remote_url: &str, id: i32) -> (r: Result<String, UrlError>)
    ensures
        built(
            within_limits(
                remote_url@,
                seq!["api"@, "v1"@, "challenges"@, signed_decimal(id as int)],
            ),
            url_extended(
                remote_url@,
                seq!["api"@, "v1"@, "challenges"@, signed_decimal(id as int)],
            ),
            r,
        ),
{
    let digits = i32_to_string(id);
    let path: [&str; 4] = ["api", "v1", "challenges", digits.as_str()];
    proof {
        assert(segments_view(path@) =~= seq![
            "api"@,
            "v1"@,
            "challenges"@,
            signed_decimal(id as int),
        ]);
    }
    build_url(remote_url, path.as_slice())
}

/// A challenge, as the list has it.
#[derive(Clone, Debug, PartialEq, Eq)]
pub struct ListedChallenge {
    pub id: i32,
    pub name: String,
    pub category: String,
}

/// The list of challenges, as the platform sends it.
#[derive(Clone, Debug, PartialEq, Eq)]
pub struct Listing {
    pub success: bool,
    pub data: Vec<ListedChallenge>,
}

/// The details of a challenge, as the platform sends them.
#[derive(Clone, Debug, PartialEq, Eq)]
pub struct Details {
    pub success: bool,
    pub description: String,
}

/// What is said where the platform cannot list its challenges.
pub const NO_LISTING: &'static str = "Could not retrieve challenges";

/// The challenges of a list, unless the platform says that it failed.
pub fn listed(listing: Listing) -> (r: Result<Vec<ListedChallenge>, FetchError>)
    ensures
        match r {
            Ok(data) => listing.success && data == listing.data,
            Err(e) => !listing.success && e is Unsuccessful && e->Unsuccessful_0@ == NO_LISTING@,
        },
{
    if listing.success {
        Ok(listing.data)
    } else {
        Err(FetchError::Unsuccessful(NO_LISTING.to_owned()))
    }
}

/// The challenge that a listed challenge with its details stands for:
/// named by its category and title, described as the details say, with the
/// services that the description names and the binaries that were resolved
/// from it.
pub open spec fn challenge_view(
    listed: ListedChallenge,
    description: Seq<char>,
    binaries: Seq<BinaryView>,
) -> ChallengeView {
    ChallengeView {
        name: named(seq![listed.category@], listed.name@),
        description,
        binaries,
        services: netcat_services(pattern_matches(NC_PATTERN@, description)),
    }
}

/// The challenge for a listed challenge, its details, and the binaries that
/// its description points to.
pub fn challenge_from_details(
    listed: &ListedChallenge,
    details: Details,
    binaries: Vec<Binary>,
) -> (r: Result<Challenge, FetchError>)
    ensures
        r is Ok <==> details.success && pattern_compiles(NC_PATTERN@),
        r is Ok ==> r->Ok_0@ == challenge_view(
            *listed,
            details.description@,
            binaries@.map_values(|b: Binary| b@),
        ),
        !details.success ==> r is Err && r->Err_0 is Unsuccessful && r->Err_0->Unsuccessful_0@
            == "Could not retrieve challenge "@ + signed_decimal(listed.id as int),
        details.success && r is Err ==> r->Err_0 is Pattern && r->Err_0->Pattern_0.pattern@
            == NC_PATTERN@,
{
    if !details.success {
        return Err(
            FetchError::Unsuccessful(
                join2("Could not retrieve challenge ", i32_to_string(listed.id).as_str()),
            ),
        );
    }
    let mut categories: Vec<String> = Vec::new();
    categories.push(listed.category.clone());
    proof {
        assert(crate::text::strings_view(categories@) =~= seq![listed.category@]);
    }
    let name = challenge_name(categories.as_slice(), listed.name.as_str());
    let services = match services_from_description(details.description.as_str()) {
        Ok(s) => s,
        Err(e) => {
            return Err(FetchError::Pattern(e));
        },
    };
    Ok(Challenge { name, description: details.description, binaries, services })
}

} // verus!
