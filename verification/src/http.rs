//! What leaves for a remote and what comes back, as far as the library
//! decides on it: the rewriting of addresses, the headers of a response,
//! and the lifetime of cookies.

use vstd::prelude::*;
use crate::address::{normalize, url_normalized, UrlError};
use crate::ctf::RewriteRule;
use crate::model::RewriteRuleView;
use crate::pattern::{check, pattern_compiles, pattern_replaced, substitute, PatternError};

verus! {

/// A header of a response: not sent, sent with a value that is no text, or
/// its text.
#[derive(Clone, Debug, PartialEq, Eq)]
pub enum Header {
    Absent,
    Unreadable,
    Text(String),
}

/// What of a response the library decides on.
#[derive(Clone, Debug, PartialEq, Eq)]
pub struct Reply {
    pub status: u16,
    pub location: Header,
    pub content_disposition: Header,
}

/// Whether a status reports a failure of the client or of the server.
pub open spec fn is_failure(status: u16) -> bool {
    400 <= status < 600
}

impl Reply {
    /// Whether the response reports a failure.
    pub fn fails(&self) -> (r: bool)
        ensures
            r == is_failure(self.status),
    {
        self.status >= 400 && self.status < 600
    }
}

/// The address after the rules were applied one after another, each to
/// what the one before it made.
pub open spec fn rewritten(rules: Seq<RewriteRuleView>, url: Seq<char>) -> Seq<char>
    decreases rules.len(),
{
    if rules.len() == 0 {
        url
    } else {
        pattern_replaced(rules.last().regex, rewritten(rules.drop_last(), url), rules.last().rep)
    }
}

/// Every rule's pattern compiles.
pub open spec fn rules_compile(rules: Seq<RewriteRuleView>) -> bool {
    forall|i: int| 0 <= i < rules.len() ==> pattern_compiles((#[trigger] rules[i]).regex)
}

/// Rules, as plain values.
pub open spec fn rules_view(rules: Seq<RewriteRule>) -> Seq<RewriteRuleView> {
    rules.map_values(|r: RewriteRule| r@)
}

/// `pattern` is the pattern of the first rule whose pattern does not
/// compile.
pub open spec fn is_first_bad_pattern(rules: Seq<RewriteRuleView>, pattern: Seq<char>) -> bool {
    exists|k: int|
        {
            &&& 0 <= k < rules.len()
            &&& !pattern_compiles((#[trigger] rules[k]).regex)
            &&& rules_compile(rules.take(k))
            &&& pattern == rules[k].regex
        }
}

/// Why a request could not be sent.
#[derive(Clone, Debug, PartialEq, Eq)]
pub enum RewriteError {
    /// A rule's pattern does not compile.
    Pattern(PatternError),
    /// What the rules made is no address.
    Url(UrlError),
}

/// Applies the rules to `url` in order and reads the result as an address.
pub fn rewrite(rules: &[RewriteRule], url: &str) -> (r: Result<String, RewriteError>)
    ensures
        r is Ok <==> rules_compile(rules_view(rules@)) && url_normalized(
            rewritten(rules_view(rules@), url@),
        ) is Some,
        r is Ok ==> Some(r->Ok_0@) == url_normalized(rewritten(rules_view(rules@), url@)),
        r is Err ==> if rules_compile(rules_view(rules@)) {
            r->Err_0 is Url && r->Err_0->Url_0 is Invalid
        } else {
            r->Err_0 is Pattern && is_first_bad_pattern(
                rules_view(rules@),
                r->Err_0->Pattern_0.pattern@,
            )
        },
{
    let ghost all = rules_view(rules@);
    let mut s = url.to_owned();
    let mut i: usize = 0;
    while i < rules.len()
        invariant
            i <= rules.len(),
            all == rules_view(rules@),
            rules_compile(all.take(i as int)),
            s@ == rewritten(all.take(i as int), url@),
        decreases rules.len() - i,
    {
        proof {
            assert(all.take(i + 1).drop_last() == all.take(i as int));
            assert(all.take(i + 1).last() == rules[i as int]@);
        }
        match substitute(rules[i].regex.as_str(), s.as_str(), rules[i].rep.as_str()) {
            Ok(next) => {
                s = next;
            },
            Err(e) => {
                assert(!pattern_compiles(all[i as int].regex));
                assert(is_first_bad_pattern(all, e.pattern@));
                return Err(RewriteError::Pattern(e));
            },
        }
        proof {
            assert forall|j: int| 0 <= j < i + 1 implies pattern_compiles(
                (#[trigger] all.take(i + 1)[j]).regex,
            ) by {
                if j < i {
                    assert(all.take(i as int)[j] == all.take(i + 1)[j]);
                }
            }
        }
        i += 1;
    }
    assert(all.take(rules.len() as int) == all);
    match normalize(s.as_str()) {
        Ok(u) => Ok(u),
        Err(e) => Err(RewriteError::Url(e)),
    }
}

/// The rules that every address passes through before a request leaves.
pub struct Client {
    rewrite_rules: Vec<RewriteRule>,
}

impl Client {
    #[verifier::type_invariant]
    spec fn compiles(&self) -> bool {
        rules_compile(rules_view(self.rewrite_rules@))
    }

    /// The rules, in the order in which they are applied.
    pub closed spec fn rules(&self) -> Seq<RewriteRuleView> {
        rules_view(self.rewrite_rules@)
    }

    /// The address that a request for `url` goes to.
    pub fn rewrite(&self, url: &str) -> (r: Result<String, UrlError>)
        ensures
            rules_compile(self.rules()),
            match url_normalized(rewritten(self.rules(), url@)) {
                Some(u) => r is Ok && r->Ok_0@ == u,
                None => r is Err && r->Err_0 is Invalid,
            },
    {
        proof {
            use_type_invariant(self);
        }
        match rewrite(self.rewrite_rules.as_slice(), url) {
            Ok(u) => Ok(u),
            Err(RewriteError::Url(e)) => Err(e),
            Err(RewriteError::Pattern(_)) => vstd::pervasive::unreached(),
        }
    }
}

/// A client that applies `rewrite_rule_strings`, unless one of the patterns
/// does not compile.
pub fn mk_client(rewrite_rule_strings: &[RewriteRule]) -> (r: Result<Client, PatternError>)
    ensures
        r is Ok <==> rules_compile(rules_view(rewrite_rule_strings@)),
        r is Ok ==> r->Ok_0.rules() == rules_view(rewrite_rule_strings@),
        r is Err ==> is_first_bad_pattern(rules_view(rewrite_rule_strings@), r->Err_0.pattern@),
{
    let ghost all = rules_view(rewrite_rule_strings@);
    let mut rules: Vec<RewriteRule> = Vec::new();
    let mut i: usize = 0;
    while i < rewrite_rule_strings.len()
        invariant
            i <= rewrite_rule_strings.len(),
            all == rules_view(rewrite_rule_strings@),
            rules_view(rules@) == all.take(i as int),
            rules_compile(all.take(i as int)),
        decreases rewrite_rule_strings.len() - i,
    {
        let rule = &rewrite_rule_strings[i];
        match check(rule.regex.as_str()) {
            Ok(()) => {},
            Err(e) => {
                assert(!pattern_compiles(all[i as int].regex));
                assert(all[i as int].regex == rule.regex@);
                assert(is_first_bad_pattern(all, e.pattern@));
                return Err(e);
            },
        }
        let ghost before = rules_view(rules@);
        let copy = RewriteRule { regex: rule.regex.clone(), rep: rule.rep.clone() };
        assert(copy@ == all[i as int]);
        rules.push(copy);
        proof {
            assert(rules_view(rules@) =~= before.push(copy@));
            assert(all.take(i + 1) =~= all.take(i as int).push(all[i as int]));
            assert forall|j: int| 0 <= j < i + 1 implies pattern_compiles(
                (#[trigger] all.take(i + 1)[j]).regex,
            ) by {
                if j < i {
                    assert(all.take(i as int)[j] == all.take(i + 1)[j]);
                }
            }
        }
        i += 1;
    }
    assert(all.take(rewrite_rule_strings.len() as int) == all);
    Ok(Client { rewrite_rules: rules })
}

/// A cookie, as far as its lifetime goes: the seconds it may live and the
/// moment it expires, where the server gave them.
#[derive(Clone, Copy, Debug, PartialEq, Eq, Structural)]
pub struct Lifetime {
    pub max_age: Option<i64>,
    pub expires: Option<i64>,
}

/// One week, in seconds: the lifetime given to a cookie that came without.
pub const WEEK: i64 = 604800;

/// The lifetime that a cookie is stored with. A cookie that the server gave
/// neither a maximal age nor an expiry would be forgotten with the session;
/// it gets a week, so that it is written out with the others.
pub fn persistent(lifetime: Lifetime) -> (r: Lifetime)
    ensures
        r.expires == lifetime.expires,
        r.max_age == if lifetime.max_age is None && lifetime.expires is None {
            Some(WEEK)
        } else {
            lifetime.max_age
        },
{
    if lifetime.max_age.is_none() && lifetime.expires.is_none() {
        Lifetime { max_age: Some(WEEK), expires: None }
    } else {
        lifetime
    }
}

/// Pairs of a cookie's name and its value, as plain sequences.
pub open spec fn pairs_view(pairs: Seq<(String, String)>) -> Seq<(Seq<char>, Seq<char>)> {
    pairs.map_values(|p: (String, String)| (p.0@, p.1@))
}

/// The value of the `Cookie` header for pairs of name and value, in their
/// order: `name=value`, joined by `; `.
pub open spec fn cookie_line(pairs: Seq<(Seq<char>, Seq<char>)>) -> Seq<char>
    decreases pairs.len(),
{
    if pairs.len() == 0 {
        Seq::empty()
    } else if pairs.len() == 1 {
        pairs[0].0 + "="@ + pairs[0].1
    } else {
        cookie_line(pairs.drop_last()) + "; "@ + pairs.last().0 + "="@ + pairs.last().1
    }
}

/// The `Cookie` header for a request, or `None` where there is no cookie to
/// send.
pub fn cookie_header(pairs: &[(String, String)]) -> (r: Option<String>)
    ensures
        match r {
            Some(line) => pairs@.len() > 0 && line@ == cookie_line(pairs_view(pairs@)),
            None => pairs@.len() == 0,
        },
{
    if pairs.len() == 0 {
        return None;
    }
    let ghost all = pairs_view(pairs@);
    let mut line = String::new();
    let mut i: usize = 0;
    while i < pairs.len()
        invariant
            i <= pairs.len(),
            all == pairs_view(pairs@),
            line@ == cookie_line(all.take(i as int)),
        decreases pairs.len() - i,
    {
        proof {
            assert(all.take(i + 1).drop_last() == all.take(i as int));
            assert(all.take(i + 1).last() == (pairs[i as int].0@, pairs[i as int].1@));
        }
        if i > 0 {
            line.append("; ");
        }
        line.append(pairs[i].0.as_str());
        line.append("=");
        line.append(pairs[i].1.as_str());
        proof {
            if i == 0 {
                assert(line@ =~= pairs[0].0@ + "="@ + pairs[0].1@);
            }
        }
        i += 1;
    }
    assert(all.take(pairs.len() as int) == all);
    Some(line)
}

} // verus!
