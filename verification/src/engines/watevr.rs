//! The adapter for the platform of watevrCTF: one document lists every
//! challenge with all that belongs to it.

use vstd::prelude::*;
use crate::address::{build_url, built, segments_view, url_extended, url_path, within_limits, UrlError};
use crate::category::{challenge_name, named};
use crate::ctf::{Binary, Challenge, Service, CTF};
use crate::engines::{detect_needle, DetectFailure, Engine};
use crate::extract::{binary_from_url, is_rooted, linked_binary, services_view, BinaryUrlError};
use crate::model::{BinaryView, ChallengeView, ServiceView};
use crate::text::{join, join2, joined, strings_view};

verus! {

/// The name of the adapter.
pub const ID: &'static str = "watevr";

/// What every page of the platform says.
pub const FINGERPRINT: &'static str = "watevrCTF";

/// The adapter for watevrCTF.
#[derive(Clone, Copy, Debug, PartialEq, Eq)]
pub struct WatevrEngine {}

impl Engine for WatevrEngine {
    open spec fn id_spec(&self) -> Seq<char> {
        ID@
    }

    open spec fn fingerprint_spec(&self) -> Seq<char> {
        FINGERPRINT@
    }

    fn id(&self) -> (r: &'static str) {
        ID
    }

    fn fingerprint(&self) -> (r: &'static str) {
        FINGERPRINT
    }

    fn detect(&self, main_page: &str) -> (r: Result<(), DetectFailure>) {
        detect_needle(ID, main_page, FINGERPRINT)
    }
}

/// The address of the document that lists the challenges.
pub fn listing_url(remote_url: &str) -> (r: Result<String, UrlError>)
    ensures
        built(
            within_limits(remote_url@, seq!["api"@, "watsup"@]),
            url_extended(remote_url@, seq!["api"@, "watsup"@]),
            r,
        ),
{
    let path: [&str; 2] = ["api", "watsup"];
    proof {
        assert(segments_view(path@) =~= seq!["api"@, "watsup"@]);
    }
    build_url(remote_url, path.as_slice())
}

/// A challenge, as the document lists it.
#[derive(Clone, Debug, PartialEq, Eq)]
pub struct ListedChallenge {
    pub categories: Vec<String>,
    pub authors: Vec<String>,
    pub description: String,
    pub website_urls: Vec<String>,
    pub netcat_ips: Vec<String>,
    pub file_urls: Vec<String>,
    pub title: String,
}

/// The description of a listed challenge: its title, categories, authors
/// and text, each on a line of its own.
pub open spec fn description_of(c: ListedChallenge) -> Seq<char> {
    "Name: "@ + c.title@ + "\nCategories: "@ + joined(strings_view(c.categories@), ", "@)
        + "\nAuthors: "@ + joined(strings_view(c.authors@), ", "@) + "\nDescription: "@
        + c.description@
}

/// The binaries that the links stand for, in the order of the links; a
/// link that stands for none is left out.
pub open spec fn linked_binaries(urls: Seq<Seq<char>>) -> Seq<BinaryView>
    decreases urls.len(),
{
    if urls.len() == 0 {
        Seq::empty()
    } else {
        let before = linked_binaries(urls.drop_last());
        match url_path(urls.last()) {
            Some(path) => if is_rooted(path) {
                before.push(linked_binary(urls.last(), path))
            } else {
                before
            },
            None => before,
        }
    }
}

/// The links that stand for no binary, in their order.
pub open spec fn skipped_links(urls: Seq<Seq<char>>) -> Seq<Seq<char>>
    decreases urls.len(),
{
    if urls.len() == 0 {
        Seq::empty()
    } else {
        let before = skipped_links(urls.drop_last());
        match url_path(urls.last()) {
            Some(path) => if is_rooted(path) {
                before
            } else {
                before.push(urls.last())
            },
            None => before.push(urls.last()),
        }
    }
}

/// The links of the pairs.
pub open spec fn links_of(skipped: Seq<(String, BinaryUrlError)>) -> Seq<Seq<char>> {
    skipped.map_values(|p: (String, BinaryUrlError)| p.0@)
}

/// Each link comes with its reason: that it is no address, or that its
/// address has no path.
pub open spec fn reasons_given(skipped: Seq<(String, BinaryUrlError)>) -> bool {
    forall|i: int|
        0 <= i < skipped.len() ==> ((#[trigger] skipped[i]).1 is Invalid <==> url_path(
            skipped[i].0@,
        ) is None)
}

/// An unnamed service at each address.
pub open spec fn website_services(urls: Seq<Seq<char>>) -> Seq<ServiceView> {
    urls.map_values(|u: Seq<char>| ServiceView { name: None, url: Some(u) })
}

/// An unnamed service `nc://` at each host and port.
pub open spec fn netcat_endpoints(ips: Seq<Seq<char>>) -> Seq<ServiceView> {
    ips.map_values(|ip: Seq<char>| ServiceView { name: None, url: Some("nc://"@ + ip) })
}

/// The challenge that a listed challenge stands for.
pub open spec fn challenge_view(c: ListedChallenge) -> ChallengeView {
    ChallengeView {
        name: named(strings_view(c.categories@), c.title@),
        description: description_of(c),
        binaries: linked_binaries(strings_view(c.file_urls@)),
        services: website_services(strings_view(c.website_urls@)) + netcat_endpoints(
            strings_view(c.netcat_ips@),
        ),
    }
}

/// The binaries that the links stand for, and the links that stand for
/// none, each with the reason.
pub fn binaries_from_urls(urls: &Vec<String>) -> (r: (Vec<Binary>, Vec<(String, BinaryUrlError)>))
    ensures
        r.0@.map_values(|b: Binary| b@) == linked_binaries(strings_view(urls@)),
        links_of(r.1@) == skipped_links(strings_view(urls@)),
        reasons_given(r.1@),
{
    let ghost all = strings_view(urls@);
    let mut binaries: Vec<Binary> = Vec::new();
    let mut skipped: Vec<(String, BinaryUrlError)> = Vec::new();
    let mut i: usize = 0;
    while i < urls.len()
        invariant
            i <= urls.len(),
            all == strings_view(urls@),
            binaries@.map_values(|b: Binary| b@) == linked_binaries(all.take(i as int)),
            links_of(skipped@) == skipped_links(all.take(i as int)),
            reasons_given(skipped@),
        decreases urls.len() - i,
    {
        proof {
            assert(all.take(i + 1).drop_last() == all.take(i as int));
            assert(all.take(i + 1).last() == urls[i as int]@);
        }
        match binary_from_url(urls[i].as_str()) {
            Ok(binary) => {
                let ghost before = binaries@.map_values(|b: Binary| b@);
                binaries.push(binary);
                assert(binaries@.map_values(|b: Binary| b@) =~= before.push(binary@));
            },
            Err(e) => {
                let ghost before = links_of(skipped@);
                let pair = (urls[i].clone(), e);
                skipped.push(pair);
                assert(links_of(skipped@) =~= before.push(pair.0@));
            },
        }
        i += 1;
    }
    assert(all.take(urls.len() as int) == all);
    (binaries, skipped)
}

/// The services of a listed challenge: its websites, then its `nc`
/// endpoints.
pub fn services_of(website_urls: &Vec<String>, netcat_ips: &Vec<String>) -> (r: Vec<Service>)
    ensures
        services_view(r@) == website_services(strings_view(website_urls@)) + netcat_endpoints(
            strings_view(netcat_ips@),
        ),
{
    let mut services: Vec<Service> = Vec::new();
    let mut i: usize = 0;
    while i < website_urls.len()
        invariant
            i <= website_urls.len(),
            services_view(services@) == website_services(strings_view(website_urls@)).take(
                i as int,
            ),
        decreases website_urls.len() - i,
    {
        let ghost before = services_view(services@);
        let service = Service { name: None, url: Some(website_urls[i].clone()) };
        services.push(service);
        assert(services_view(services@) =~= before.push(service@));
        assert(services_view(services@) =~= website_services(strings_view(website_urls@)).take(
            i + 1,
        ));
        i += 1;
    }
    let ghost websites = services_view(services@);
    assert(websites =~= website_services(strings_view(website_urls@)));
    let mut j: usize = 0;
    while j < netcat_ips.len()
        invariant
            j <= netcat_ips.len(),
            services_view(services@) == websites + netcat_endpoints(
                strings_view(netcat_ips@),
            ).take(j as int),
        decreases netcat_ips.len() - j,
    {
        let ghost before = services_view(services@);
        let service = Service { name: None, url: Some(join2("nc://", netcat_ips[j].as_str())) };
        services.push(service);
        assert(services_view(services@) =~= before.push(service@));
        assert(services_view(services@) =~= websites + netcat_endpoints(
            strings_view(netcat_ips@),
        ).take(j + 1));
        j += 1;
    }
    assert(netcat_endpoints(strings_view(netcat_ips@)).take(netcat_ips.len() as int)
        =~= netcat_endpoints(strings_view(netcat_ips@)));
    services
}

/// The challenge that a listed challenge stands for, and the links that
/// stand for no binary.
pub fn challenge_from_listed(c: &ListedChallenge) -> (r: (Challenge, Vec<(String, BinaryUrlError)>))
    ensures
        r.0@ == challenge_view(*c),
        links_of(r.1@) == skipped_links(strings_view(c.file_urls@)),
        reasons_given(r.1@),
{
    let name = challenge_name(c.categories.as_slice(), c.title.as_str());
    let mut description = join2("Name: ", c.title.as_str());
    description.append("\nCategories: ");
    description.append(join(c.categories.as_slice(), ", ").as_str());
    description.append("\nAuthors: ");
    description.append(join(c.authors.as_slice(), ", ").as_str());
    description.append("\nDescription: ");
    description.append(c.description.as_str());
    let (binaries, skipped) = binaries_from_urls(&c.file_urls);
    let services = services_of(&c.website_urls, &c.netcat_ips);
    (Challenge { name, description, binaries, services }, skipped)
}

/// The links of all the listed challenges that stand for no binary.
pub open spec fn all_skipped(listed: Seq<ListedChallenge>) -> Seq<Seq<char>>
    decreases listed.len(),
{
    if listed.len() == 0 {
        Seq::empty()
    } else {
        all_skipped(listed.drop_last()) + skipped_links(strings_view(listed.last().file_urls@))
    }
}

/// The snapshot that a document stands for: an unnamed catalog without
/// remotes, with one challenge for each listed challenge, in their order.
/// With it come the links that stand for no binary.
pub fn snapshot(listed: &Vec<ListedChallenge>) -> (r: (CTF, Vec<(String, BinaryUrlError)>))
    ensures
        r.0@.name.len() == 0,
        r.0@.remotes.len() == 0,
        r.0@.challenges == listed@.map_values(|c: ListedChallenge| challenge_view(c)),
        links_of(r.1@) == all_skipped(listed@),
        reasons_given(r.1@),
{
    let mut ctf = CTF { name: String::new(), remotes: Vec::new(), challenges: Vec::new() };
    let mut skipped: Vec<(String, BinaryUrlError)> = Vec::new();
    let mut i: usize = 0;
    while i < listed.len()
        invariant
            i <= listed.len(),
            ctf@.name.len() == 0,
            ctf@.remotes.len() == 0,
            ctf@.challenges == listed@.map_values(|c: ListedChallenge| challenge_view(c)).take(
                i as int,
            ),
            links_of(skipped@) == all_skipped(listed@.take(i as int)),
            reasons_given(skipped@),
        decreases listed.len() - i,
    {
        let ghost before = ctf@.challenges;
        let (challenge, mut more) = challenge_from_listed(&listed[i]);
        ctf.challenges.push(challenge);
        proof {
            assert(listed@.take(i + 1).drop_last() == listed@.take(i as int));
            assert(listed@.take(i + 1).last() == listed[i as int]);
        }
        let ghost skipped_before = skipped@;
        let ghost added = more@;
        skipped.append(&mut more);
        proof {
            assert(skipped@ == skipped_before + added);
            assert(links_of(skipped@) =~= links_of(skipped_before) + links_of(added));
            assert forall|k: int| 0 <= k < skipped@.len() implies ((#[trigger] skipped@[k]).1
                is Invalid <==> url_path(skipped@[k].0@) is None) by {
                if k < skipped_before.len() {
                    assert(skipped@[k] == skipped_before[k]);
                } else {
                    assert(skipped@[k] == added[k - skipped_before.len()]);
                }
            }
        }
        assert(ctf@.challenges =~= before.push(challenge@));
        assert(ctf@.challenges =~= listed@.map_values(|c: ListedChallenge| challenge_view(c)).take(
            i + 1,
        ));
        i += 1;
    }
    assert(listed@.map_values(|c: ListedChallenge| challenge_view(c)).take(listed.len() as int)
        =~= listed@.map_values(|c: ListedChallenge| challenge_view(c)));
    assert(listed@.take(listed.len() as int) == listed@);
    (ctf, skipped)
}

} // verus!
