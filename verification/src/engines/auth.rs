//! Logging in: what the adapters that log in have in common.

use vstd::prelude::*;
use crate::http::{is_failure, Header};
use crate::pattern::{group, group_text, matches_view, pattern_compiles, pattern_matches, search};
use crate::address::{path_of, url_path};
use crate::text::{i32_to_string, join2, opt_view, signed_decimal};

verus! {

/// Why a login failed.
#[derive(Clone, Debug, PartialEq, Eq)]
pub enum AuthError {
    /// The login page holds no token, or more than one.
    TokenNotFound,
    /// The platform did not accept the name and the password.
    Rejected,
    /// A request failed; with the reason.
    Transport(String),
}

/// The token of a login page, given the matches of the adapter's pattern in
/// it: the first group of the one match. A page with no match or with
/// several has no token.
pub open spec fn token_of(found: Seq<Seq<Option<Seq<char>>>>) -> Option<Seq<char>> {
    if found.len() == 1 {
        Some(group_text(found[0], 1))
    } else {
        None
    }
}

/// The token of a login page, from the matches of the adapter's pattern.
pub fn token_from_captures(found: &Vec<Vec<Option<String>>>) -> (r: Result<String, AuthError>)
    ensures
        match token_of(matches_view(*found)) {
            Some(token) => r is Ok && r->Ok_0@ == token,
            None => r == Err::<String, AuthError>(AuthError::TokenNotFound),
        },
{
    if found.len() == 1 {
        proof {
            assert(matches_view(*found)[0] == found[0]@.map_values(
                |g: Option<String>| opt_view(g),
            ));
        }
        Ok(group(&found[0], 1).to_owned())
    } else {
        Err(AuthError::TokenNotFound)
    }
}

/// The token that `pattern` finds on a login page. There is none where the
/// pattern matches not at all or more than once.
pub fn extract_token(pattern: &str, login_page: &str) -> (r: Result<String, AuthError>)
    ensures
        r is Ok <==> pattern_compiles(pattern@) && token_of(
            pattern_matches(pattern@, login_page@),
        ) is Some,
        r is Ok ==> Some(r->Ok_0@) == token_of(pattern_matches(pattern@, login_page@)),
        r is Err ==> r->Err_0 == AuthError::TokenNotFound,
{
    match search(pattern, login_page) {
        Ok(found) => token_from_captures(&found),
        Err(_) => Err(AuthError::TokenNotFound),
    }
}

/// How an adapter tells from the response to the login form that the
/// platform let the user in. Either way the response is a redirect.
#[derive(Clone, Copy, Debug, PartialEq, Eq)]
pub enum Success {
    /// The target is an absolute address with this path.
    PathIs(&'static str),
    /// The target is this text.
    LocationIs(&'static str),
}

/// What an adapter that logs in knows of its platform.
#[derive(Clone, Copy, Debug, PartialEq, Eq)]
pub struct LoginRules {
    /// Finds the token on the login page, as its first group.
    pub token_pattern: &'static str,
    /// The form's field for the user's name.
    pub user_field: &'static str,
    /// The form's field for the password.
    pub password_field: &'static str,
    /// The form's field for the token.
    pub token_field: &'static str,
    /// Whether the form is sent with the login page as its referer.
    pub referer: bool,
    pub success: Success,
}

/// The fields of the login form, in the order in which they are sent: the
/// user's name, the password, the token.
pub fn login_form(rules: &LoginRules, username: &str, password: &str, token: &str) -> (r: Vec<
    (String, String),
>)
    ensures
        r@.len() == 3,
        r@[0].0@ == rules.user_field@ && r@[0].1@ == username@,
        r@[1].0@ == rules.password_field@ && r@[1].1@ == password@,
        r@[2].0@ == rules.token_field@ && r@[2].1@ == token@,
{
    let mut form: Vec<(String, String)> = Vec::new();
    form.push((rules.user_field.to_owned(), username.to_owned()));
    form.push((rules.password_field.to_owned(), password.to_owned()));
    form.push((rules.token_field.to_owned(), token.to_owned()));
    form
}

/// What to do after the login page came back.
#[derive(Clone, Debug, PartialEq, Eq)]
pub enum AfterPage {
    /// Send the form, with these fields.
    Post(Vec<(String, String)>),
    Fail(AuthError),
}

/// Judges the response to the request for the login page: a failure ends
/// the login, a page without exactly one token too, and else the form is
/// sent with the token.
pub fn after_login_page(
    rules: &LoginRules,
    username: &str,
    password: &str,
    status: u16,
    login_page: &str,
) -> (r: AfterPage)
    ensures
        if is_failure(status) {
            r is Fail && is_transport(r->Fail_0, status_words(status))
        } else if pattern_compiles(rules.token_pattern@) && token_of(
            pattern_matches(rules.token_pattern@, login_page@),
        ) is Some {
            let token = token_of(pattern_matches(rules.token_pattern@, login_page@))->0;
            &&& r is Post
            &&& r->Post_0@.len() == 3
            &&& r->Post_0@[0].0@ == rules.user_field@ && r->Post_0@[0].1@ == username@
            &&& r->Post_0@[1].0@ == rules.password_field@ && r->Post_0@[1].1@ == password@
            &&& r->Post_0@[2].0@ == rules.token_field@ && r->Post_0@[2].1@ == token
        } else {
            r == AfterPage::Fail(AuthError::TokenNotFound)
        },
{
    if status >= 400 && status < 600 {
        return AfterPage::Fail(status_error(status));
    }
    match extract_token(rules.token_pattern, login_page) {
        Ok(token) => AfterPage::Post(login_form(rules, username, password, token.as_str())),
        Err(e) => AfterPage::Fail(e),
    }
}

/// What is said of a redirect whose target is no text.
pub const UNREADABLE_TARGET: &'static str = "the redirect's target is no text";

/// What is said of a redirect whose target is no absolute address.
pub const BAD_TARGET: &'static str = "the redirect's target is no address";

/// Whether a response to the login form lets the user in, given the path of
/// its target where the target is an absolute address; or else what is
/// wrong with the target.
pub open spec fn lets_in(
    success: Success,
    status: u16,
    location: Header,
    path: Option<Seq<char>>,
) -> Result<bool, Seq<char>> {
    if status != 302 {
        Ok(false)
    } else {
        match location {
            Header::Absent => Ok(false),
            Header::Unreadable => Err(UNREADABLE_TARGET@),
            Header::Text(target) => match success {
                Success::LocationIs(expected) => Ok(target@ == expected@),
                Success::PathIs(expected) => match path {
                    Some(p) => Ok(p == expected@),
                    None => Err(BAD_TARGET@),
                },
            },
        }
    }
}

/// The path of the target of a redirect, where the header is text that
/// reads as an absolute address.
pub open spec fn target_path(location: Header) -> Option<Seq<char>> {
    match location {
        Header::Text(target) => url_path(target@),
        _ => None,
    }
}

/// The error is `Transport` with these words.
pub open spec fn is_transport(e: AuthError, words: Seq<char>) -> bool {
    e is Transport && e->Transport_0@ == words
}

/// Whether the response to the login form lets the user in: it does where
/// it redirects to the place that the adapter expects. A target that cannot
/// be read is an error.
pub fn is_login_ok(success: Success, status: u16, location: &Header) -> (r: Result<
    bool,
    AuthError,
>)
    ensures
        match lets_in(success, status, *location, target_path(*location)) {
            Ok(b) => r == Ok::<bool, AuthError>(b),
            Err(words) => r is Err && is_transport(r->Err_0, words),
        },
{
    if status != 302 {
        return Ok(false);
    }
    match location {
        Header::Absent => Ok(false),
        Header::Unreadable => Err(AuthError::Transport(UNREADABLE_TARGET.to_owned())),
        Header::Text(target) => match success {
            Success::LocationIs(expected) => Ok(target.as_str().eq(expected)),
            Success::PathIs(expected) => match path_of(target.as_str()) {
                Ok(p) => Ok(p.as_str().eq(expected)),
                Err(_) => Err(AuthError::Transport(BAD_TARGET.to_owned())),
            },
        },
    }
}

/// What is said of a response that reports a failure.
pub open spec fn status_words(status: u16) -> Seq<char> {
    "HTTP status "@ + signed_decimal(status as int)
}

/// Judges the response to the login form: a failure or an unreadable
/// target ends the login with `Transport`, a response that does not let the
/// user in with `Rejected`.
pub fn after_login_reply(success: Success, status: u16, location: &Header) -> (r: Result<
    (),
    AuthError,
>)
    ensures
        if is_failure(status) {
            r is Err && is_transport(r->Err_0, status_words(status))
        } else {
            match lets_in(success, status, *location, target_path(*location)) {
                Ok(true) => r is Ok,
                Ok(false) => r == Err::<(), AuthError>(AuthError::Rejected),
                Err(words) => r is Err && is_transport(r->Err_0, words),
            }
        },
{
    if status >= 400 && status < 600 {
        return Err(status_error(status));
    }
    match is_login_ok(success, status, location) {
        Ok(true) => Ok(()),
        Ok(false) => Err(AuthError::Rejected),
        Err(e) => Err(e),
    }
}

/// The error for a response that reports a failure.
pub fn status_error(status: u16) -> (r: AuthError)
    ensures
        is_transport(r, status_words(status)),
{
    AuthError::Transport(join2("HTTP status ", i32_to_string(status as i32).as_str()))
}

} // verus!
