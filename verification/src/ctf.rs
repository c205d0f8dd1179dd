//! The catalog and its records, as they are kept in the workspace.

use vstd::prelude::*;
use crate::model::{
    is_absent, is_first, AlternativeView, BinaryView, CatalogView, ChallengeView, ChecksumView,
    RemoteCredentialsView, RemoteView, RewriteRuleView, ServiceView,
};
use crate::reconcile::{
    absorb, alternative_joiner, alternative_matcher, binary_joiner, binary_matcher,
    challenge_joiner, challenge_matcher, lemma_first_match_is, merge_alternative,
    merge_alternatives, merge_binary, merge_catalog, merge_challenge, merge_service,
    same_service, service_joiner, service_matcher,
};
use crate::text::{join2, joined, opt_eq, opt_view, strings_view};

verus! {

/// The root of a workspace: the event's name, the platforms it is mirrored
/// from and its challenges.
#[derive(Clone, Debug, PartialEq, Eq)]
pub struct CTF {
    pub name: String,
    pub remotes: Vec<Remote>,
    pub challenges: Vec<Challenge>,
}

/// A substitution applied to every address before a request leaves.
#[derive(Clone, Debug, PartialEq, Eq)]
pub struct RewriteRule {
    pub regex: String,
    pub rep: String,
}

/// One platform instance that the catalog is mirrored from.
#[derive(Clone, Debug, PartialEq, Eq)]
pub struct Remote {
    pub name: String,
    pub url: String,
    pub engine: String,
    pub rewrite_rules: Vec<RewriteRule>,
}

/// A challenge: what it asks, the files that come with it and where it is
/// served.
#[derive(Clone, Debug, PartialEq, Eq)]
pub struct Challenge {
    pub name: String,
    pub description: String,
    pub binaries: Vec<Binary>,
    pub services: Vec<Service>,
}

/// A file of a challenge, in one or more alternatives. The default
/// alternative, where one is set, is also kept under the binary's own name.
#[derive(Clone, Debug, PartialEq, Eq)]
pub struct Binary {
    pub name: String,
    pub alternatives: Vec<BinaryAlternative>,
    pub default_alternative: Option<String>,
}

/// An algorithm's name and the digest in hexadecimal.
#[derive(Clone, Debug, PartialEq, Eq)]
pub struct Checksum {
    pub algorithm: String,
    pub value: String,
}

/// One variant of a binary, with the address it is fetched from and the
/// checksum of its content, as far as they are known. A file that hashes
/// to the checksum is current and is not fetched again.
#[derive(Clone, Debug, PartialEq, Eq)]
pub struct BinaryAlternative {
    pub name: String,
    pub url: Option<String>,
    pub checksum: Option<Checksum>,
}

/// Where a challenge is served. Listings give services without a name;
/// a record that only refines a named service may lack the address.
#[derive(Clone, Debug, PartialEq, Eq)]
pub struct Service {
    pub name: Option<String>,
    pub url: Option<String>,
}

/// The session cookies of each remote, kept apart from the catalog.
#[derive(Clone, Debug, PartialEq, Eq)]
pub struct Credentials {
    pub remotes: Vec<RemoteCredentials>,
}

/// The cookies of the session with one remote, as they are written out.
#[derive(Clone, Debug, PartialEq, Eq)]
pub struct RemoteCredentials {
    pub name: String,
    pub cookies: String,
}

impl View for Checksum {
    type V = ChecksumView;

    open spec fn view(&self) -> ChecksumView {
        ChecksumView { algorithm: self.algorithm@, value: self.value@ }
    }
}

impl View for BinaryAlternative {
    type V = AlternativeView;

    open spec fn view(&self) -> AlternativeView {
        AlternativeView {
            name: self.name@,
            url: opt_view(self.url),
            checksum: match self.checksum {
                Some(c) => Some(c@),
                None => None,
            },
        }
    }
}

impl View for Binary {
    type V = BinaryView;

    open spec fn view(&self) -> BinaryView {
        BinaryView {
            name: self.name@,
            alternatives: self.alternatives@.map_values(|a: BinaryAlternative| a@),
            default_alternative: opt_view(self.default_alternative),
        }
    }
}

impl View for Service {
    type V = ServiceView;

    open spec fn view(&self) -> ServiceView {
        ServiceView { name: opt_view(self.name), url: opt_view(self.url) }
    }
}

impl View for Challenge {
    type V = ChallengeView;

    open spec fn view(&self) -> ChallengeView {
        ChallengeView {
            name: self.name@,
            description: self.description@,
            binaries: self.binaries@.map_values(|b: Binary| b@),
            services: self.services@.map_values(|s: Service| s@),
        }
    }
}

impl View for RewriteRule {
    type V = RewriteRuleView;

    open spec fn view(&self) -> RewriteRuleView {
        RewriteRuleView { regex: self.regex@, rep: self.rep@ }
    }
}

impl View for Remote {
    type V = RemoteView;

    open spec fn view(&self) -> RemoteView {
        RemoteView {
            name: self.name@,
            url: self.url@,
            engine: self.engine@,
            rewrite_rules: self.rewrite_rules@.map_values(|r: RewriteRule| r@),
        }
    }
}

impl View for CTF {
    type V = CatalogView;

    open spec fn view(&self) -> CatalogView {
        CatalogView {
            name: self.name@,
            remotes: self.remotes@.map_values(|r: Remote| r@),
            challenges: self.challenges@.map_values(|c: Challenge| c@),
        }
    }
}

impl View for RemoteCredentials {
    type V = RemoteCredentialsView;

    open spec fn view(&self) -> RemoteCredentialsView {
        RemoteCredentialsView { name: self.name@, cookies: self.cookies@ }
    }
}

impl View for Credentials {
    type V = Seq<RemoteCredentialsView>;

    open spec fn view(&self) -> Seq<RemoteCredentialsView> {
        self.remotes@.map_values(|r: RemoteCredentials| r@)
    }
}

impl Default for CTF {
    fn default() -> (r: CTF)
        ensures
            r@.name.len() == 0,
            r@.remotes.len() == 0,
            r@.challenges.len() == 0,
            r@.well_formed(),
    {
        CTF { name: String::new(), remotes: Vec::new(), challenges: Vec::new() }
    }
}

impl Default for Credentials {
    fn default() -> (r: Credentials)
        ensures
            r@.len() == 0,
    {
        Credentials { remotes: Vec::new() }
    }
}

/// Refines `binary_alternative` by `binary_alternative2`: the address and
/// the checksum are replaced where the incoming record has them.
pub fn merge_binary_alternatives(
    binary_alternative: &mut BinaryAlternative,
    binary_alternative2: BinaryAlternative,
)
    ensures
        final(binary_alternative)@ == merge_alternative(
            old(binary_alternative)@,
            binary_alternative2@,
        ),
{
    if binary_alternative2.url.is_some() {
        binary_alternative.url = binary_alternative2.url;
    }
    if binary_alternative2.checksum.is_some() {
        binary_alternative.checksum = binary_alternative2.checksum;
    }
}

/// The position of the first alternative called `name`, or the length.
pub fn alternative_position(alternatives: &Vec<BinaryAlternative>, name: &str) -> (k: usize)
    ensures
        k <= alternatives.len(),
        forall|j: int| 0 <= j < k ==> alternatives[j].name@ != name@,
        k < alternatives.len() ==> alternatives[k as int].name@ == name@,
{
    let mut k: usize = 0;
    while k < alternatives.len()
        invariant
            k <= alternatives.len(),
            forall|j: int| 0 <= j < k ==> alternatives[j].name@ != name@,
        decreases alternatives.len() - k,
    {
        if alternatives[k].name.as_str().eq(name) {
            return k;
        }
        k += 1;
    }
    k
}

/// Merges the alternatives of `binary2` into `binary`, by name.
pub fn merge_binaries(binary: &mut Binary, binary2: Binary)
    ensures
        final(binary)@ == merge_binary(old(binary)@, binary2@),
{
    let ghost incoming = binary2@.alternatives;
    let alternatives2 = binary2.alternatives;
    for alternative2 in it: alternatives2
        invariant
            binary.name == old(binary).name,
            binary.default_alternative == old(binary).default_alternative,
            incoming == alternatives2@.map_values(|a: BinaryAlternative| a@),
            binary@.alternatives == merge_alternatives(
                old(binary)@.alternatives,
                incoming.take(it.index() as int),
            ),
    {
        let ghost before = binary@.alternatives;
        let ghost i = it.index() as int;
        let k = alternative_position(&binary.alternatives, alternative2.name.as_str());
        proof {
            assert(incoming.take(i + 1).drop_last() == incoming.take(i));
            assert(incoming.take(i + 1).last() == alternative2@);
            assert forall|j: int| 0 <= j < k implies !alternative_matcher()(
                #[trigger] before[j],
                alternative2@,
            ) by {
                assert(before[j] == binary.alternatives[j]@);
            }
            if k < before.len() {
                assert(before[k as int] == binary.alternatives[k as int]@);
            }
            lemma_first_match_is(before, alternative2@, alternative_matcher(), k as int);
        }
        if k < binary.alternatives.len() {
            merge_binary_alternatives(&mut binary.alternatives[k], alternative2);
        } else {
            binary.alternatives.push(alternative2);
        }
        assert(binary@.alternatives =~= absorb(
            before,
            alternative2@,
            alternative_matcher(),
            alternative_joiner(),
        ));
    }
    assert(incoming.take(incoming.len() as int) == incoming);
}

/// Refines `service` by `service2`: the name and the address are replaced
/// where the incoming record has them.
pub fn merge_services(service: &mut Service, service2: Service)
    ensures
        final(service)@ == merge_service(old(service)@, service2@),
{
    if service2.name.is_some() {
        service.name = service2.name;
    }
    if service2.url.is_some() {
        service.url = service2.url;
    }
}

/// The position of the first binary called `name`, or the length.
pub fn binary_position(binaries: &Vec<Binary>, name: &str) -> (k: usize)
    ensures
        k <= binaries.len(),
        forall|j: int| 0 <= j < k ==> binaries[j].name@ != name@,
        k < binaries.len() ==> binaries[k as int].name@ == name@,
{
    let mut k: usize = 0;
    while k < binaries.len()
        invariant
            k <= binaries.len(),
            forall|j: int| 0 <= j < k ==> binaries[j].name@ != name@,
        decreases binaries.len() - k,
    {
        if binaries[k].name.as_str().eq(name) {
            return k;
        }
        k += 1;
    }
    k
}

/// Whether `service2`, coming in, is the service `service`.
fn is_same_service(service: &Service, service2: &Service) -> (r: bool)
    ensures
        r == same_service(service@, service2@),
{
    service.name.is_some() && opt_eq(&service.name, &service2.name) || service.url.is_some()
        && opt_eq(&service.url, &service2.url)
}

/// The position of the first service that `service2` is, or the length.
fn service_position(services: &Vec<Service>, service2: &Service) -> (k: usize)
    ensures
        k <= services.len(),
        forall|j: int| 0 <= j < k ==> !same_service(services[j]@, service2@),
        k < services.len() ==> same_service(services[k as int]@, service2@),
{
    let mut k: usize = 0;
    while k < services.len()
        invariant
            k <= services.len(),
            forall|j: int| 0 <= j < k ==> !same_service(services[j]@, service2@),
        decreases services.len() - k,
    {
        if is_same_service(&services[k], service2) {
            return k;
        }
        k += 1;
    }
    k
}

/// Merges `challenge2` into `challenge`: the description where the incoming
/// one is not empty, the binaries by name, the services by name or address.
pub fn merge_challenges(challenge: &mut Challenge, challenge2: Challenge)
    ensures
        final(challenge)@ == merge_challenge(old(challenge)@, challenge2@),
{
    let ghost incoming = challenge2@;
    let Challenge { name: _, description, binaries, services } = challenge2;
    if !description.as_str().is_empty() {
        challenge.description = description;
    }
    for binary2 in it: binaries
        invariant
            challenge.name == old(challenge).name,
            challenge.services == old(challenge).services,
            challenge.description@ == merge_challenge(old(challenge)@, incoming).description,
            incoming.binaries == binaries@.map_values(|b: Binary| b@),
            challenge@.binaries == crate::reconcile::merge_binaries(
                old(challenge)@.binaries,
                incoming.binaries.take(it.index() as int),
            ),
    {
        let ghost before = challenge@.binaries;
        let ghost i = it.index() as int;
        let k = binary_position(&challenge.binaries, binary2.name.as_str());
        proof {
            assert(incoming.binaries.take(i + 1).drop_last() == incoming.binaries.take(i));
            assert(incoming.binaries.take(i + 1).last() == binary2@);
            assert forall|j: int| 0 <= j < k implies !binary_matcher()(
                #[trigger] before[j],
                binary2@,
            ) by {
                assert(before[j] == challenge.binaries[j]@);
            }
            if k < before.len() {
                assert(before[k as int] == challenge.binaries[k as int]@);
            }
            lemma_first_match_is(before, binary2@, binary_matcher(), k as int);
        }
        if k < challenge.binaries.len() {
            merge_binaries(&mut challenge.binaries[k], binary2);
        } else {
            challenge.binaries.push(binary2);
        }
        assert(challenge@.binaries =~= absorb(before, binary2@, binary_matcher(), binary_joiner()));
    }
    assert(incoming.binaries.take(incoming.binaries.len() as int) == incoming.binaries);
    for service2 in it: services
        invariant
            challenge.name == old(challenge).name,
            challenge@.binaries == merge_challenge(old(challenge)@, incoming).binaries,
            challenge.description@ == merge_challenge(old(challenge)@, incoming).description,
            incoming.services == services@.map_values(|s: Service| s@),
            challenge@.services == crate::reconcile::merge_services(
                old(challenge)@.services,
                incoming.services.take(it.index() as int),
            ),
    {
        let ghost before = challenge@.services;
        let ghost i = it.index() as int;
        let k = service_position(&challenge.services, &service2);
        proof {
            assert(incoming.services.take(i + 1).drop_last() == incoming.services.take(i));
            assert(incoming.services.take(i + 1).last() == service2@);
            assert forall|j: int| 0 <= j < k implies !service_matcher()(
                #[trigger] before[j],
                service2@,
            ) by {
                assert(before[j] == challenge.services[j]@);
            }
            if k < before.len() {
                assert(before[k as int] == challenge.services[k as int]@);
            }
            lemma_first_match_is(before, service2@, service_matcher(), k as int);
        }
        if k < challenge.services.len() {
            merge_services(&mut challenge.services[k], service2);
        } else {
            challenge.services.push(service2);
        }
        assert(challenge@.services =~= absorb(
            before,
            service2@,
            service_matcher(),
            service_joiner(),
        ));
    }
    assert(incoming.services.take(incoming.services.len() as int) == incoming.services);
}

/// The position of the first challenge called `name`, or the length.
pub fn challenge_position(challenges: &Vec<Challenge>, name: &str) -> (k: usize)
    ensures
        k <= challenges.len(),
        forall|j: int| 0 <= j < k ==> challenges[j].name@ != name@,
        k < challenges.len() ==> challenges[k as int].name@ == name@,
{
    let mut k: usize = 0;
    while k < challenges.len()
        invariant
            k <= challenges.len(),
            forall|j: int| 0 <= j < k ==> challenges[j].name@ != name@,
        decreases challenges.len() - k,
    {
        if challenges[k].name.as_str().eq(name) {
            return k;
        }
        k += 1;
    }
    k
}

/// Merges the snapshot `ctf2` into the catalog `ctf`. Nothing is removed:
/// the snapshot's name replaces the catalog's unless it is empty, its
/// challenges are matched by name and merged or appended, and the remotes
/// stay as they are.
pub fn merge(ctf: &mut CTF, ctf2: CTF)
    ensures
        final(ctf)@ == merge_catalog(old(ctf)@, ctf2@),
        old(ctf)@.well_formed() && ctf2@.well_formed() ==> final(ctf)@.well_formed(),
{
    let ghost incoming = ctf2@;
    proof {
        if ctf@.well_formed() && incoming.well_formed() {
            crate::reconcile_laws::merge_preserves_well_formedness(ctf@, incoming);
        }
    }
    let CTF { name, remotes: _, challenges } = ctf2;
    if !name.as_str().is_empty() {
        ctf.name = name;
    }
    for challenge2 in it: challenges
        invariant
            ctf.remotes == old(ctf).remotes,
            ctf.name@ == merge_catalog(old(ctf)@, incoming).name,
            incoming.challenges == challenges@.map_values(|c: Challenge| c@),
            ctf@.challenges == crate::reconcile::merge_challenges(
                old(ctf)@.challenges,
                incoming.challenges.take(it.index() as int),
            ),
    {
        let ghost before = ctf@.challenges;
        let ghost i = it.index() as int;
        let k = challenge_position(&ctf.challenges, challenge2.name.as_str());
        proof {
            assert(incoming.challenges.take(i + 1).drop_last() == incoming.challenges.take(i));
            assert(incoming.challenges.take(i + 1).last() == challenge2@);
            assert forall|j: int| 0 <= j < k implies !challenge_matcher()(
                #[trigger] before[j],
                challenge2@,
            ) by {
                assert(before[j] == ctf.challenges[j]@);
            }
            if k < before.len() {
                assert(before[k as int] == ctf.challenges[k as int]@);
            }
            lemma_first_match_is(before, challenge2@, challenge_matcher(), k as int);
        }
        if k < ctf.challenges.len() {
            merge_challenges(&mut ctf.challenges[k], challenge2);
        } else {
            ctf.challenges.push(challenge2);
        }
        assert(ctf@.challenges =~= absorb(
            before,
            challenge2@,
            challenge_matcher(),
            challenge_joiner(),
        ));
    }
    assert(incoming.challenges.take(incoming.challenges.len() as int) == incoming.challenges);
}

/// Why a record was not found.
#[derive(Clone, Debug, PartialEq, Eq)]
pub enum LookupError {
    NoSuchChallenge(String),
    NoSuchBinary(String),
    NoSuchAlternative(String),
    NoSuchRemote(String),
}

/// A lookup error, as plain values.
pub enum LookupErrorView {
    NoSuchChallenge(Seq<char>),
    NoSuchBinary(Seq<char>),
    NoSuchAlternative(Seq<char>),
    NoSuchRemote(Seq<char>),
}

impl View for LookupError {
    type V = LookupErrorView;

    open spec fn view(&self) -> LookupErrorView {
        match self {
            LookupError::NoSuchChallenge(n) => LookupErrorView::NoSuchChallenge(n@),
            LookupError::NoSuchBinary(n) => LookupErrorView::NoSuchBinary(n@),
            LookupError::NoSuchAlternative(n) => LookupErrorView::NoSuchAlternative(n@),
            LookupError::NoSuchRemote(n) => LookupErrorView::NoSuchRemote(n@),
        }
    }
}

impl LookupError {
    /// The error in words.
    pub open spec fn text(&self) -> Seq<char> {
        match self@ {
            LookupErrorView::NoSuchChallenge(n) => "No such challenge: "@ + n,
            LookupErrorView::NoSuchBinary(n) => "No such binary: "@ + n,
            LookupErrorView::NoSuchAlternative(n) => "No such alternative: "@ + n,
            LookupErrorView::NoSuchRemote(n) => "Remote "@ + n + " does not exist"@,
        }
    }

    /// The error in words.
    pub fn message(&self) -> (r: String)
        ensures
            r@ == self.text(),
    {
        match self {
            LookupError::NoSuchChallenge(n) => join2("No such challenge: ", n.as_str()),
            LookupError::NoSuchBinary(n) => join2("No such binary: ", n.as_str()),
            LookupError::NoSuchAlternative(n) => join2("No such alternative: ", n.as_str()),
            LookupError::NoSuchRemote(n) => {
                let mut r = join2("Remote ", n.as_str());
                r.append(" does not exist");
                r
            },
        }
    }
}

/// The first challenge called `name`.
pub fn find_challenge<'a>(ctf: &'a CTF, name: &str) -> (r: Result<&'a Challenge, LookupError>)
    ensures
        match r {
            Ok(c) => exists|k: int|
                is_first(ctf@.challenge_names(), name@, k) && *c == ctf.challenges[k],
            Err(e) => is_absent(ctf@.challenge_names(), name@) && e@
                == LookupErrorView::NoSuchChallenge(name@),
        },
{
    let k = challenge_position(&ctf.challenges, name);
    if k < ctf.challenges.len() {
        assert(is_first(ctf@.challenge_names(), name@, k as int));
        Ok(&ctf.challenges[k])
    } else {
        Err(LookupError::NoSuchChallenge(name.to_owned()))
    }
}

/// The first challenge called `name`, to be changed in place: the catalog
/// is afterwards what it was, with that challenge as the caller left it.
pub fn find_challenge_mut<'a>(ctf: &'a mut CTF, name: &str) -> (r: Result<
    &'a mut Challenge,
    LookupError,
>)
    ensures
        match r {
            Ok(c) => exists|k: int|
                {
                    &&& is_first(old(ctf)@.challenge_names(), name@, k)
                    &&& *c == old(ctf).challenges[k]
                    &&& final(ctf).challenges@ == old(ctf).challenges@.update(k, *final(c))
                    &&& final(ctf).name == old(ctf).name
                    &&& final(ctf).remotes == old(ctf).remotes
                },
            Err(e) => is_absent(old(ctf)@.challenge_names(), name@) && *final(ctf) == *old(ctf)
                && e@ == LookupErrorView::NoSuchChallenge(name@),
        },
{
    let k = challenge_position(&ctf.challenges, name);
    if k < ctf.challenges.len() {
        assert(is_first(ctf@.challenge_names(), name@, k as int));
        Ok(&mut ctf.challenges[k])
    } else {
        Err(LookupError::NoSuchChallenge(name.to_owned()))
    }
}

/// The first binary called `name`.
pub fn find_binary<'a>(challenge: &'a Challenge, name: &str) -> (r: Result<
    &'a Binary,
    LookupError,
>)
    ensures
        match r {
            Ok(x) => exists|k: int|
                is_first(challenge@.binary_names(), name@, k) && *x == challenge.binaries[k],
            Err(e) => is_absent(challenge@.binary_names(), name@) && e@
                == LookupErrorView::NoSuchBinary(name@),
        },
{
    let k = binary_position(&challenge.binaries, name);
    if k < challenge.binaries.len() {
        assert(is_first(challenge@.binary_names(), name@, k as int));
        Ok(&challenge.binaries[k])
    } else {
        Err(LookupError::NoSuchBinary(name.to_owned()))
    }
}

/// The first binary called `name`, to be changed in place, or `None`
/// where there is none: the challenge is afterwards what it was, with
/// that binary as the caller left it.
pub fn try_find_binary_mut<'a>(challenge: &'a mut Challenge, name: &str) -> (r: Option<
    &'a mut Binary,
>)
    ensures
        match r {
            Some(x) => exists|k: int|
                {
                    &&& is_first(old(challenge)@.binary_names(), name@, k)
                    &&& *x == old(challenge).binaries[k]
                    &&& final(challenge).binaries@ == old(challenge).binaries@.update(
                        k,
                        *final(x),
                    )
                    &&& final(challenge).name == old(challenge).name
                    &&& final(challenge).description == old(challenge).description
                    &&& final(challenge).services == old(challenge).services
                },
            None => is_absent(old(challenge)@.binary_names(), name@) && *final(challenge)
                == *old(challenge),
        },
{
    let k = binary_position(&challenge.binaries, name);
    if k < challenge.binaries.len() {
        assert(is_first(challenge@.binary_names(), name@, k as int));
        Some(&mut challenge.binaries[k])
    } else {
        None
    }
}

/// As `try_find_binary_mut`, with an error where there is none.
pub fn find_binary_mut<'a>(challenge: &'a mut Challenge, name: &str) -> (r: Result<
    &'a mut Binary,
    LookupError,
>)
    ensures
        match r {
            Ok(x) => exists|k: int|
                {
                    &&& is_first(old(challenge)@.binary_names(), name@, k)
                    &&& *x == old(challenge).binaries[k]
                    &&& final(challenge).binaries@ == old(challenge).binaries@.update(
                        k,
                        *final(x),
                    )
                    &&& final(challenge).name == old(challenge).name
                    &&& final(challenge).description == old(challenge).description
                    &&& final(challenge).services == old(challenge).services
                },
            Err(e) => is_absent(old(challenge)@.binary_names(), name@) && *final(challenge)
                == *old(challenge) && e@ == LookupErrorView::NoSuchBinary(name@),
        },
{
    match try_find_binary_mut(challenge, name) {
        Some(x) => Ok(x),
        None => Err(LookupError::NoSuchBinary(name.to_owned())),
    }
}

/// The first alternative called `name`.
pub fn find_alternative<'a>(binary: &'a Binary, name: &str) -> (r: Result<
    &'a BinaryAlternative,
    LookupError,
>)
    ensures
        match r {
            Ok(x) => exists|k: int|
                is_first(binary@.alternative_names(), name@, k) && *x == binary.alternatives[k],
            Err(e) => is_absent(binary@.alternative_names(), name@) && e@
                == LookupErrorView::NoSuchAlternative(name@),
        },
{
    let k = alternative_position(&binary.alternatives, name);
    if k < binary.alternatives.len() {
        assert(is_first(binary@.alternative_names(), name@, k as int));
        Ok(&binary.alternatives[k])
    } else {
        Err(LookupError::NoSuchAlternative(name.to_owned()))
    }
}

/// The first alternative called `name`, to be changed in place, or `None`
/// where there is none: the binary is afterwards what it was, with
/// that alternative as the caller left it.
pub fn try_find_alternative_mut<'a>(binary: &'a mut Binary, name: &str) -> (r: Option<
    &'a mut BinaryAlternative,
>)
    ensures
        match r {
            Some(x) => exists|k: int|
                {
                    &&& is_first(old(binary)@.alternative_names(), name@, k)
                    &&& *x == old(binary).alternatives[k]
                    &&& final(binary).alternatives@ == old(binary).alternatives@.update(
                        k,
                        *final(x),
                    )
                    &&& final(binary).name == old(binary).name
                    &&& final(binary).default_alternative == old(binary).default_alternative
                },
            None => is_absent(old(binary)@.alternative_names(), name@) && *final(binary)
                == *old(binary),
        },
{
    let k = alternative_position(&binary.alternatives, name);
    if k < binary.alternatives.len() {
        assert(is_first(binary@.alternative_names(), name@, k as int));
        Some(&mut binary.alternatives[k])
    } else {
        None
    }
}

/// As `try_find_alternative_mut`, with an error where there is none.
pub fn find_alternative_mut<'a>(binary: &'a mut Binary, name: &str) -> (r: Result<
    &'a mut BinaryAlternative,
    LookupError,
>)
    ensures
        match r {
            Ok(x) => exists|k: int|
                {
                    &&& is_first(old(binary)@.alternative_names(), name@, k)
                    &&& *x == old(binary).alternatives[k]
                    &&& final(binary).alternatives@ == old(binary).alternatives@.update(
                        k,
                        *final(x),
                    )
                    &&& final(binary).name == old(binary).name
                    &&& final(binary).default_alternative == old(binary).default_alternative
                },
            Err(e) => is_absent(old(binary)@.alternative_names(), name@) && *final(binary)
                == *old(binary) && e@ == LookupErrorView::NoSuchAlternative(name@),
        },
{
    match try_find_alternative_mut(binary, name) {
        Some(x) => Ok(x),
        None => Err(LookupError::NoSuchAlternative(name.to_owned())),
    }
}

/// The position of the first remote called `name`, or the length.
pub fn remote_position(remotes: &Vec<Remote>, name: &str) -> (k: usize)
    ensures
        k <= remotes.len(),
        forall|j: int| 0 <= j < k ==> remotes[j].name@ != name@,
        k < remotes.len() ==> remotes[k as int].name@ == name@,
{
    let mut k: usize = 0;
    while k < remotes.len()
        invariant
            k <= remotes.len(),
            forall|j: int| 0 <= j < k ==> remotes[j].name@ != name@,
        decreases remotes.len() - k,
    {
        if remotes[k].name.as_str().eq(name) {
            return k;
        }
        k += 1;
    }
    k
}

/// The first remote called `name`.
pub fn find_remote<'a>(ctf: &'a CTF, name: &str) -> (r: Result<&'a Remote, LookupError>)
    ensures
        match r {
            Ok(x) => exists|k: int|
                is_first(ctf@.remote_names(), name@, k) && *x == ctf.remotes[k],
            Err(e) => is_absent(ctf@.remote_names(), name@) && e@ == LookupErrorView::NoSuchRemote(
                name@,
            ),
        },
{
    let k = remote_position(&ctf.remotes, name);
    if k < ctf.remotes.len() {
        assert(is_first(ctf@.remote_names(), name@, k as int));
        Ok(&ctf.remotes[k])
    } else {
        Err(LookupError::NoSuchRemote(name.to_owned()))
    }
}

/// The first remote called `name`, to be changed in place: the catalog is
/// afterwards what it was, with that remote as the caller left it.
pub fn find_remote_mut<'a>(ctf: &'a mut CTF, name: &str) -> (r: Result<&'a mut Remote, LookupError>)
    ensures
        match r {
            Ok(x) => exists|k: int|
                {
                    &&& is_first(old(ctf)@.remote_names(), name@, k)
                    &&& *x == old(ctf).remotes[k]
                    &&& final(ctf).remotes@ == old(ctf).remotes@.update(k, *final(x))
                    &&& final(ctf).name == old(ctf).name
                    &&& final(ctf).challenges == old(ctf).challenges
                },
            Err(e) => is_absent(old(ctf)@.remote_names(), name@) && *final(ctf) == *old(ctf)
                && e@ == LookupErrorView::NoSuchRemote(name@),
        },
{
    let k = remote_position(&ctf.remotes, name);
    if k < ctf.remotes.len() {
        assert(is_first(ctf@.remote_names(), name@, k as int));
        Ok(&mut ctf.remotes[k])
    } else {
        Err(LookupError::NoSuchRemote(name.to_owned()))
    }
}

/// Records `cookies` for the remote `remote_name`: in place of the cookies
/// of the first entry under that name, or as a new entry at the end.
pub fn set_cookies(credentials: &mut Credentials, remote_name: String, cookies: String)
    ensures
        final(credentials)@ == set_cookies_spec(old(credentials)@, remote_name@, cookies@),
{
    let mut i: usize = 0;
    while i < credentials.remotes.len()
        invariant
            i <= credentials.remotes.len(),
            *credentials == *old(credentials),
            forall|j: int| 0 <= j < i ==> credentials@[j].name != remote_name@,
        decreases credentials.remotes.len() - i,
    {
        if credentials.remotes[i].name.as_str().eq(remote_name.as_str()) {
            credentials.remotes[i].cookies = cookies;
            proof {
                let names = old(credentials)@.map_values(|r: RemoteCredentialsView| r.name);
                assert(is_first(names, remote_name@, i as int));
                assert(credentials@ =~= set_cookies_spec(
                    old(credentials)@,
                    remote_name@,
                    cookies@,
                ));
            }
            return ;
        }
        i += 1;
    }
    proof {
        let names = old(credentials)@.map_values(|r: RemoteCredentialsView| r.name);
        assert(is_absent(names, remote_name@));
    }
    credentials.remotes.push(RemoteCredentials { name: remote_name, cookies });
    assert(credentials@ =~= set_cookies_spec(old(credentials)@, remote_name@, cookies@));
}

/// The credentials after `cookies` was recorded for `name`.
pub open spec fn set_cookies_spec(
    credentials: Seq<RemoteCredentialsView>,
    name: Seq<char>,
    cookies: Seq<char>,
) -> Seq<RemoteCredentialsView> {
    let names = credentials.map_values(|r: RemoteCredentialsView| r.name);
    if is_absent(names, name) {
        credentials.push(RemoteCredentialsView { name, cookies })
    } else {
        let k = choose|k: int| is_first(names, name, k);
        credentials.update(k, RemoteCredentialsView { name, cookies })
    }
}

impl Checksum {
    /// A copy of the checksum.
    pub fn duplicate(&self) -> (r: Checksum)
        ensures
            r@ == self@,
    {
        Checksum { algorithm: self.algorithm.clone(), value: self.value.clone() }
    }
}

impl BinaryAlternative {
    /// A copy of the alternative.
    pub fn duplicate(&self) -> (r: BinaryAlternative)
        ensures
            r@ == self@,
    {
        BinaryAlternative {
            name: self.name.clone(),
            url: match &self.url {
                Some(u) => Some(u.clone()),
                None => None,
            },
            checksum: match &self.checksum {
                Some(c) => Some(c.duplicate()),
                None => None,
            },
        }
    }
}

/// The engine of a remote whose platform is still to be found.
pub const AUTO: &'static str = "auto";

/// The engine that a new remote starts with: `auto`.
pub fn default_engine() -> (r: String)
    ensures
        r@ == AUTO@,
{
    AUTO.to_owned()
}

/// The lines that keep one binary's files: the binary's own file where it
/// has a default alternative, then the file of each alternative.
pub open spec fn binary_lines(challenge: Seq<char>, binary: BinaryView) -> Seq<Seq<char>> {
    (if binary.default_alternative is Some {
        seq!["!/"@ + challenge + "/"@ + binary.name]
    } else {
        Seq::empty()
    }) + binary.alternatives.map_values(
        |a: AlternativeView| "!/"@ + challenge + "/"@ + binary.name + "."@ + a.name,
    )
}

/// The lines of the binaries, one binary after another.
pub open spec fn binaries_lines(challenge: Seq<char>, binaries: Seq<BinaryView>) -> Seq<Seq<char>>
    decreases binaries.len(),
{
    if binaries.len() == 0 {
        Seq::empty()
    } else {
        binaries_lines(challenge, binaries.drop_last()) + binary_lines(challenge, binaries.last())
    }
}

/// The file in a challenge's directory that describes its container.
pub const COMPOSE_FILE: &'static str = "docker-compose.yml";

/// The directory in a challenge's directory that its image is built from.
pub const IMAGE_DIRECTORY: &'static str = "image";

/// The lines of one challenge: its directory is kept, what is in it is not,
/// but for the description of its container, the directory of its image,
/// and the files of its binaries.
pub open spec fn challenge_lines(challenge: ChallengeView) -> Seq<Seq<char>> {
    seq![
        "!/"@ + challenge.name + "/"@,
        "/"@ + challenge.name + "/*"@,
        "!/"@ + challenge.name + "/"@ + COMPOSE_FILE@,
        "!/"@ + challenge.name + "/"@ + IMAGE_DIRECTORY@ + "/"@,
    ] + binaries_lines(challenge.name, challenge.binaries)
}

/// The lines of the challenges, one challenge after another.
pub open spec fn challenges_lines(challenges: Seq<ChallengeView>) -> Seq<Seq<char>>
    decreases challenges.len(),
{
    if challenges.len() == 0 {
        Seq::empty()
    } else {
        challenges_lines(challenges.drop_last()) + challenge_lines(challenges.last())
    }
}

/// The list of what the workspace's history leaves out: everything, but for
/// the catalog, the list itself, and of each challenge its directory, the
/// files that its container is made from and the files of its binaries.
pub open spec fn ignore_lines(ctf: CatalogView) -> Seq<Seq<char>> {
    seq!["/*"@, "!/.ctf"@, "!/.gitignore"@] + challenges_lines(ctf.challenges)
}

/// The lines of one binary.
fn ignore_binary(challenge: &str, binary: &Binary, lines: &mut Vec<String>)
    ensures
        strings_view(final(lines)@) == strings_view(old(lines)@)
            + binary_lines(challenge@, binary@),
{
    let ghost start = strings_view(lines@);
    let mut prefix = join2("!/", challenge);
    prefix.append("/");
    prefix.append(binary.name.as_str());
    if binary.default_alternative.is_some() {
        let ghost before = strings_view(lines@);
        lines.push(prefix.clone());
        assert(strings_view(lines@) =~= before.push(prefix@));
    }
    let ghost head = strings_view(lines@);
    let ghost tail = binary@.alternatives.map_values(
        |a: AlternativeView| "!/"@ + challenge@ + "/"@ + binary.name@ + "."@ + a.name,
    );
    let mut i: usize = 0;
    while i < binary.alternatives.len()
        invariant
            i <= binary.alternatives.len(),
            prefix@ == "!/"@ + challenge@ + "/"@ + binary.name@,
            tail == binary@.alternatives.map_values(
                |a: AlternativeView| "!/"@ + challenge@ + "/"@ + binary.name@ + "."@ + a.name,
            ),
            strings_view(lines@) == head + tail.take(i as int),
        decreases binary.alternatives.len() - i,
    {
        let ghost before = strings_view(lines@);
        let mut line = join2(prefix.as_str(), ".");
        line.append(binary.alternatives[i].name.as_str());
        proof {
            assert(binary@.alternatives[i as int] == binary.alternatives[i as int]@);
            assert(tail[i as int] == line@);
        }
        lines.push(line);
        proof {
            assert(strings_view(lines@) =~= before.push(line@));
            assert(strings_view(lines@) =~= head + tail.take(i + 1));
        }
        i += 1;
    }
    proof {
        assert(tail.take(binary.alternatives.len() as int) =~= tail);
        assert(head + tail =~= start + binary_lines(challenge@, binary@));
    }
}

/// The list of what the workspace's history leaves out.
pub fn ignore(ctf: &CTF) -> (r: Vec<String>)
    ensures
        strings_view(r@) == ignore_lines(ctf@),
{
    let mut result: Vec<String> = Vec::new();
    result.push("/*".to_owned());
    result.push("!/.ctf".to_owned());
    result.push("!/.gitignore".to_owned());
    let ghost start = strings_view(result@);
    assert(start =~= seq!["/*"@, "!/.ctf"@, "!/.gitignore"@]);
    let mut i: usize = 0;
    while i < ctf.challenges.len()
        invariant
            i <= ctf.challenges.len(),
            strings_view(result@) == start + challenges_lines(
                ctf@.challenges.take(i as int),
            ),
        decreases ctf.challenges.len() - i,
    {
        let challenge = &ctf.challenges[i];
        proof {
            assert(ctf@.challenges.take(i + 1).drop_last() == ctf@.challenges.take(i as int));
            assert(ctf@.challenges.take(i + 1).last() == challenge@);
        }
        let ghost before = strings_view(result@);
        let mut kept = join2("!/", challenge.name.as_str());
        kept.append("/");
        let mut rest = join2("/", challenge.name.as_str());
        rest.append("/*");
        let mut compose = kept.clone();
        compose.append(COMPOSE_FILE);
        let mut image = kept.clone();
        image.append(IMAGE_DIRECTORY);
        image.append("/");
        result.push(kept);
        result.push(rest);
        result.push(compose);
        result.push(image);
        let ghost head = strings_view(result@);
        assert(head =~= before + seq![
            "!/"@ + challenge.name@ + "/"@,
            "/"@ + challenge.name@ + "/*"@,
            "!/"@ + challenge.name@ + "/"@ + COMPOSE_FILE@,
            "!/"@ + challenge.name@ + "/"@ + IMAGE_DIRECTORY@ + "/"@,
        ]);
        let mut j: usize = 0;
        while j < challenge.binaries.len()
            invariant
                j <= challenge.binaries.len(),
                strings_view(result@) == head + binaries_lines(
                    challenge.name@,
                    challenge@.binaries.take(j as int),
                ),
            decreases challenge.binaries.len() - j,
        {
            proof {
                assert(challenge@.binaries.take(j + 1).drop_last() == challenge@.binaries.take(
                    j as int,
                ));
                assert(challenge@.binaries.take(j + 1).last() == challenge.binaries[j as int]@);
            }
            ignore_binary(challenge.name.as_str(), &challenge.binaries[j], &mut result);
            j += 1;
        }
        proof {
            assert(challenge@.binaries.take(challenge.binaries.len() as int)
                == challenge@.binaries);
            assert(strings_view(result@) =~= start + challenges_lines(
                ctf@.challenges.take(i + 1),
            ));
        }
        i += 1;
    }
    assert(ctf@.challenges.take(ctf.challenges.len() as int) == ctf@.challenges);
    result
}

/// The text of the file that lists what the workspace's history leaves
/// out: the lines of `ignore`, each ended by a line feed.
pub fn gitignore(ctf: &CTF) -> (r: String)
    ensures
        r@ == joined(ignore_lines(ctf@), "\n"@) + "\n"@,
{
    let lines = ignore(ctf);
    let mut text = crate::text::join(lines.as_slice(), "\n");
    text.append("\n");
    text
}

/// Where the default alternative of a binary is kept, from the workspace's
/// root: in the challenge's directory, under the binary's name.
pub fn default_alternative_path(challenge_name: &str, binary_name: &str) -> (r: Vec<String>)
    ensures
        strings_view(r@) == seq![challenge_name@, binary_name@],
{
    let mut r: Vec<String> = Vec::new();
    r.push(challenge_name.to_owned());
    r.push(binary_name.to_owned());
    assert(strings_view(r@) =~= seq![challenge_name@, binary_name@]);
    r
}

/// Where an alternative is kept, from the workspace's root: in the
/// challenge's directory, under the binary's name, a dot and the
/// alternative's name.
pub fn alternative_path(challenge_name: &str, binary_name: &str, alternative_name: &str) -> (r:
    Vec<String>)
    ensures
        strings_view(r@) == seq![
            challenge_name@,
            binary_name@ + "."@ + alternative_name@,
        ],
{
    let mut file = join2(binary_name, ".");
    file.append(alternative_name);
    let mut r: Vec<String> = Vec::new();
    r.push(challenge_name.to_owned());
    r.push(file);
    assert(strings_view(r@) =~= seq![
        challenge_name@,
        binary_name@ + "."@ + alternative_name@,
    ]);
    r
}

/// Makes the alternative called `alternative_name` the default of the
/// binary, which must have it. The binary's own file is then to be a copy
/// of the alternative's.
pub fn set_default_alternative(binary: &mut Binary, alternative_name: &str) -> (r: Result<
    (),
    LookupError,
>)
    ensures
        if is_absent(old(binary)@.alternative_names(), alternative_name@) {
            &&& *final(binary) == *old(binary)
            &&& r is Err
            &&& r->Err_0@ == LookupErrorView::NoSuchAlternative(alternative_name@)
        } else {
            &&& final(binary)@ == (BinaryView {
                default_alternative: Some(alternative_name@),
                ..old(binary)@
            })
            &&& r is Ok
        },
{
    let i = alternative_position(&binary.alternatives, alternative_name);
    if i >= binary.alternatives.len() {
        assert(is_absent(binary@.alternative_names(), alternative_name@));
        return Err(LookupError::NoSuchAlternative(alternative_name.to_owned()));
    }
    assert(binary@.alternative_names()[i as int] == alternative_name@);
    binary.default_alternative = Some(alternative_name.to_owned());
    Ok(())
}

} // verus!
