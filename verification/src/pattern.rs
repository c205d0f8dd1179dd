//! Regular expressions, as the `regex` crate matches them.

use vstd::prelude::*;
use crate::text::opt_view;

verus! {

/// `regex::Error`, which is only carried through: nothing is known of its
/// values.
#[verifier::external_type_specification]
#[verifier::external_body]
pub struct ExRegexError(regex::Error);

/// A pattern that could not be compiled, and why.
#[derive(Clone, Debug, PartialEq, Eq)]
pub struct PatternError {
    pub pattern: String,
    pub message: String,
}

/// Whether the pattern compiles.
pub uninterp spec fn pattern_compiles(pattern: Seq<char>) -> bool;

/// The matches of a pattern that compiles in a text, one after another from
/// left to right: for each match its groups, the whole match first, a group
/// that took no part as `None`.
pub uninterp spec fn pattern_matches(pattern: Seq<char>, text: Seq<char>) -> Seq<
    Seq<Option<Seq<char>>>,
>;

/// The text with every match of a pattern that compiles replaced by the
/// expansion of `rep`.
pub uninterp spec fn pattern_replaced(
    pattern: Seq<char>,
    text: Seq<char>,
    rep: Seq<char>,
) -> Seq<char>;

/// Matches as plain sequences.
pub open spec fn matches_view(found: Vec<Vec<Option<String>>>) -> Seq<Seq<Option<Seq<char>>>> {
    found@.map_values(|m: Vec<Option<String>>| m@.map_values(|g: Option<String>| opt_view(g)))
}

/// Every match has its first group, the whole match.
pub open spec fn whole_matches_present(found: Seq<Seq<Option<Seq<char>>>>) -> bool {
    forall|i: int| 0 <= i < found.len() ==> (#[trigger] found[i]).len() > 0 && found[i][0] is Some
}

/// `Regex::new`, then `Regex::captures_iter`: the result is an error exactly
/// where the pattern does not compile, and else lists the matches, which
/// depend on the pattern and the text alone. A `Captures` always holds the
/// group of the whole match.
#[verifier::external_body]
fn captures_iter(pattern: &str, text: &str) -> (r: Result<Vec<Vec<Option<String>>>, regex::Error>)
    ensures
        r is Ok <==> pattern_compiles(pattern@),
        r is Ok ==> pattern_matches(pattern@, text@) == matches_view(r->Ok_0)
            && whole_matches_present(matches_view(r->Ok_0)),
{
    let re = regex::Regex::new(pattern)?;
    Ok(
        re.captures_iter(text).map(
            |c| c.iter().map(|g| g.map(|m| m.as_str().to_owned())).collect(),
        ).collect(),
    )
}

/// `Regex::new`, then `Regex::replace_all` with a replacement string: the
/// result is an error exactly where the pattern does not compile, and else
/// the text after the replacements, which depends on the three arguments
/// alone.
#[verifier::external_body]
fn replace_all(pattern: &str, text: &str, rep: &str) -> (r: Result<String, regex::Error>)
    ensures
        r is Ok <==> pattern_compiles(pattern@),
        r is Ok ==> pattern_replaced(pattern@, text@, rep@) == r->Ok_0@,
{
    let re = regex::Regex::new(pattern)?;
    Ok(re.replace_all(text, rep).into_owned())
}

/// The words of `regex::Error`'s `Display`.
#[verifier::external_body]
fn error_message(e: &regex::Error) -> String {
    format!("{}", e)
}

/// Whether `pattern` compiles, with the reason where it does not.
pub fn check(pattern: &str) -> (r: Result<(), PatternError>)
    ensures
        r is Ok <==> pattern_compiles(pattern@),
        r is Err ==> r->Err_0.pattern@ == pattern@,
{
    match search(pattern, "") {
        Ok(_) => Ok(()),
        Err(e) => Err(e),
    }
}

/// All matches of `pattern` in `text`.
pub fn search(pattern: &str, text: &str) -> (r: Result<Vec<Vec<Option<String>>>, PatternError>)
    ensures
        r is Ok <==> pattern_compiles(pattern@),
        r is Ok ==> pattern_matches(pattern@, text@) == matches_view(r->Ok_0)
            && whole_matches_present(matches_view(r->Ok_0)),
        r is Err ==> r->Err_0.pattern@ == pattern@,
{
    match captures_iter(pattern, text) {
        Ok(found) => Ok(found),
        Err(e) => Err(PatternError { pattern: pattern.to_owned(), message: error_message(&e) }),
    }
}

/// `text` with every match of `pattern` replaced by `rep`.
pub fn substitute(pattern: &str, text: &str, rep: &str) -> (r: Result<String, PatternError>)
    ensures
        r is Ok <==> pattern_compiles(pattern@),
        r is Ok ==> pattern_replaced(pattern@, text@, rep@) == r->Ok_0@,
        r is Err ==> r->Err_0.pattern@ == pattern@,
{
    match replace_all(pattern, text, rep) {
        Ok(s) => Ok(s),
        Err(e) => Err(PatternError { pattern: pattern.to_owned(), message: error_message(&e) }),
    }
}

/// Whether the pattern compiles as a pattern for bytes.
pub uninterp spec fn bytes_pattern_compiles(pattern: Seq<char>) -> bool;

/// What the first group of the first match of a pattern that compiles
/// covers in the bytes: `None` where the pattern does not match,
/// `Some(None)` where the group took no part in the match.
pub uninterp spec fn bytes_first_capture(pattern: Seq<char>, bytes: Seq<u8>) -> Option<
    Option<Seq<u8>>,
>;

/// A capture as plain sequences.
pub open spec fn capture_view(capture: Option<Option<Vec<u8>>>) -> Option<Option<Seq<u8>>> {
    match capture {
        Some(Some(bytes)) => Some(Some(bytes@)),
        Some(None) => Some(None),
        None => None,
    }
}

/// `regex::bytes::Regex::new`, then the first item of
/// `Regex::captures_iter` and its group 1: an error exactly where the
/// pattern does not compile, and else the bytes that the group covers,
/// which depend on the pattern and the bytes alone.
#[verifier::external_body]
fn bytes_captures_first(pattern: &str, bytes: &[u8]) -> (r: Result<
    Option<Option<Vec<u8>>>,
    regex::Error,
>)
    ensures
        r is Ok <==> bytes_pattern_compiles(pattern@),
        r is Ok ==> capture_view(r->Ok_0) == bytes_first_capture(pattern@, bytes@),
{
    let re = regex::bytes::Regex::new(pattern)?;
    let first = re.captures_iter(bytes).next();
    Ok(first.map(|m| m.get(1).map(|g| g.as_bytes().to_vec())))
}

/// What the first group of the first match of `pattern` covers in `bytes`.
pub fn first_capture(pattern: &str, bytes: &[u8]) -> (r: Result<
    Option<Option<Vec<u8>>>,
    PatternError,
>)
    ensures
        r is Ok <==> bytes_pattern_compiles(pattern@),
        r is Ok ==> capture_view(r->Ok_0) == bytes_first_capture(pattern@, bytes@),
        r is Err ==> r->Err_0.pattern@ == pattern@,
{
    match bytes_captures_first(pattern, bytes) {
        Ok(capture) => Ok(capture),
        Err(e) => Err(PatternError { pattern: pattern.to_owned(), message: error_message(&e) }),
    }
}

/// The text of group `i` of a match; empty where the match has no such
/// group or the group took no part.
pub open spec fn group_text(m: Seq<Option<Seq<char>>>, i: int) -> Seq<char> {
    if 0 <= i < m.len() && m[i] is Some {
        m[i]->0
    } else {
        Seq::empty()
    }
}

/// The text of group `i` of a match.
pub fn group<'a>(m: &'a Vec<Option<String>>, i: usize) -> (r: &'a str)
    ensures
        r@ == group_text(m@.map_values(|g: Option<String>| opt_view(g)), i as int),
{
    if i < m.len() {
        match &m[i] {
            Some(s) => s.as_str(),
            None => {
                proof {
                    reveal_strlit("");
                }
                assert(""@ =~= Seq::<char>::empty());
                ""
            },
        }
    } else {
        proof {
            reveal_strlit("");
        }
        assert(""@ =~= Seq::<char>::empty());
        ""
    }
}

} // verus!
