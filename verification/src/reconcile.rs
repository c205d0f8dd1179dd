//! What merging a fetched snapshot into the catalog means, stated over the
//! model: records are matched one after another against the growing list,
//! a matched record is refined, an unmatched one is appended.

use vstd::prelude::*;
use crate::model::{AlternativeView, BinaryView, CatalogView, ChallengeView, ServiceView};

verus! {

/// The position of the first record of `s` that `same` matches with `b`, or
/// the length of `s` where there is none.
pub open spec fn first_match<A>(s: Seq<A>, b: A, same: spec_fn(A, A) -> bool) -> int
    decreases s.len(),
{
    if s.len() == 0 {
        0
    } else {
        let k = first_match(s.drop_last(), b, same);
        if k < s.len() - 1 {
            k
        } else if same(s.last(), b) {
            s.len() - 1
        } else {
            s.len() as int
        }
    }
}

/// `s` after one incoming record: the first match is replaced by its join
/// with `b`; without a match `b` goes to the end.
pub open spec fn absorb<A>(
    s: Seq<A>,
    b: A,
    same: spec_fn(A, A) -> bool,
    join: spec_fn(A, A) -> A,
) -> Seq<A> {
    let k = first_match(s, b, same);
    if k < s.len() {
        s.update(k, join(s[k], b))
    } else {
        s.push(b)
    }
}

/// `s` after the incoming records `bs`, taken in order.
pub open spec fn absorb_all<A>(
    s: Seq<A>,
    bs: Seq<A>,
    same: spec_fn(A, A) -> bool,
    join: spec_fn(A, A) -> A,
) -> Seq<A>
    decreases bs.len(),
{
    if bs.len() == 0 {
        s
    } else {
        absorb(absorb_all(s, bs.drop_last(), same, join), bs.last(), same, join)
    }
}

/// The incoming value where there is one, else the local value.
pub open spec fn prefer<T>(local: Option<T>, incoming: Option<T>) -> Option<T> {
    if incoming is Some {
        incoming
    } else {
        local
    }
}

/// The incoming text unless it is empty.
pub open spec fn prefer_text(local: Seq<char>, incoming: Seq<char>) -> Seq<char> {
    if incoming.len() > 0 {
        incoming
    } else {
        local
    }
}

/// Two alternatives are the same where they are named alike.
pub open spec fn same_alternative(a: AlternativeView, b: AlternativeView) -> bool {
    a.name == b.name
}

/// The alternative `a` refined by `b`: the address and the checksum of `b`
/// where it has them.
pub open spec fn merge_alternative(a: AlternativeView, b: AlternativeView) -> AlternativeView {
    AlternativeView {
        name: a.name,
        url: prefer(a.url, b.url),
        checksum: prefer(a.checksum, b.checksum),
    }
}

/// `same_alternative`, as a value.
pub open spec fn alternative_matcher() -> spec_fn(AlternativeView, AlternativeView) -> bool {
    |a: AlternativeView, b: AlternativeView| same_alternative(a, b)
}

/// `merge_alternative`, as a value.
pub open spec fn alternative_joiner() -> spec_fn(AlternativeView, AlternativeView) -> AlternativeView {
    |a: AlternativeView, b: AlternativeView| merge_alternative(a, b)
}

/// The alternatives `s` after the incoming `bs`.
pub open spec fn merge_alternatives(
    s: Seq<AlternativeView>,
    bs: Seq<AlternativeView>,
) -> Seq<AlternativeView> {
    absorb_all(
        s,
        bs,
        alternative_matcher(),
        alternative_joiner(),
    )
}

/// Two binaries are the same where they are named alike.
pub open spec fn same_binary(a: BinaryView, b: BinaryView) -> bool {
    a.name == b.name
}

/// The binary `a` refined by `b`: the alternatives merged; the default
/// alternative stays.
pub open spec fn merge_binary(a: BinaryView, b: BinaryView) -> BinaryView {
    BinaryView {
        name: a.name,
        alternatives: merge_alternatives(a.alternatives, b.alternatives),
        default_alternative: a.default_alternative,
    }
}

/// `same_binary`, as a value.
pub open spec fn binary_matcher() -> spec_fn(BinaryView, BinaryView) -> bool {
    |a: BinaryView, b: BinaryView| same_binary(a, b)
}

/// `merge_binary`, as a value.
pub open spec fn binary_joiner() -> spec_fn(BinaryView, BinaryView) -> BinaryView {
    |a: BinaryView, b: BinaryView| merge_binary(a, b)
}

/// The binaries `s` after the incoming `bs`.
pub open spec fn merge_binaries(s: Seq<BinaryView>, bs: Seq<BinaryView>) -> Seq<BinaryView> {
    absorb_all(
        s,
        bs,
        binary_matcher(),
        binary_joiner(),
    )
}

/// Two services are the same where both are named alike or both point to
/// the same address.
pub open spec fn same_service(a: ServiceView, b: ServiceView) -> bool {
    (a.name is Some && a.name == b.name) || (a.url is Some && a.url == b.url)
}

/// The service `a` refined by `b`: the name and the address of `b` where it
/// has them.
pub open spec fn merge_service(a: ServiceView, b: ServiceView) -> ServiceView {
    ServiceView { name: prefer(a.name, b.name), url: prefer(a.url, b.url) }
}

/// `same_service`, as a value.
pub open spec fn service_matcher() -> spec_fn(ServiceView, ServiceView) -> bool {
    |a: ServiceView, b: ServiceView| same_service(a, b)
}

/// `merge_service`, as a value.
pub open spec fn service_joiner() -> spec_fn(ServiceView, ServiceView) -> ServiceView {
    |a: ServiceView, b: ServiceView| merge_service(a, b)
}

/// The services `s` after the incoming `bs`.
pub open spec fn merge_services(s: Seq<ServiceView>, bs: Seq<ServiceView>) -> Seq<ServiceView> {
    absorb_all(
        s,
        bs,
        service_matcher(),
        service_joiner(),
    )
}

/// Two challenges are the same where they are named alike.
pub open spec fn same_challenge(a: ChallengeView, b: ChallengeView) -> bool {
    a.name == b.name
}

/// The challenge `a` refined by `b`: the description of `b` unless it is
/// empty, the binaries and the services merged.
pub open spec fn merge_challenge(a: ChallengeView, b: ChallengeView) -> ChallengeView {
    ChallengeView {
        name: a.name,
        description: prefer_text(a.description, b.description),
        binaries: merge_binaries(a.binaries, b.binaries),
        services: merge_services(a.services, b.services),
    }
}

/// `same_challenge`, as a value.
pub open spec fn challenge_matcher() -> spec_fn(ChallengeView, ChallengeView) -> bool {
    |a: ChallengeView, b: ChallengeView| same_challenge(a, b)
}

/// `merge_challenge`, as a value.
pub open spec fn challenge_joiner() -> spec_fn(ChallengeView, ChallengeView) -> ChallengeView {
    |a: ChallengeView, b: ChallengeView| merge_challenge(a, b)
}

/// The challenges `s` after the incoming `bs`.
pub open spec fn merge_challenges(
    s: Seq<ChallengeView>,
    bs: Seq<ChallengeView>,
) -> Seq<ChallengeView> {
    absorb_all(
        s,
        bs,
        challenge_matcher(),
        challenge_joiner(),
    )
}

/// The catalog `s` after the snapshot `t`: the snapshot's name where it has
/// one, the remotes as they were, the challenges merged.
pub open spec fn merge_catalog(s: CatalogView, t: CatalogView) -> CatalogView {
    CatalogView {
        name: prefer_text(s.name, t.name),
        remotes: s.remotes,
        challenges: merge_challenges(s.challenges, t.challenges),
    }
}

/// What pins `first_match` down: nothing before it matches, and it matches
/// unless it is the length.
pub proof fn lemma_first_match<A>(s: Seq<A>, b: A, same: spec_fn(A, A) -> bool)
    ensures
        0 <= first_match(s, b, same) <= s.len(),
        forall|j: int| 0 <= j < first_match(s, b, same) ==> !same(#[trigger] s[j], b),
        first_match(s, b, same) < s.len() ==> same(s[first_match(s, b, same)], b),
    decreases s.len(),
{
    if s.len() > 0 {
        lemma_first_match(s.drop_last(), b, same);
        assert forall|j: int| 0 <= j < first_match(s, b, same) implies !same(
            #[trigger] s[j],
            b,
        ) by {
            if j < s.len() - 1 {
                assert(s[j] == s.drop_last()[j]);
            }
        }
        let k = first_match(s.drop_last(), b, same);
        if k < s.len() - 1 {
            assert(s[k] == s.drop_last()[k]);
        }
    }
}

/// A position that nothing matches before, and that matches unless it is
/// the length, is the first match.
pub proof fn lemma_first_match_is<A>(s: Seq<A>, b: A, same: spec_fn(A, A) -> bool, k: int)
    requires
        0 <= k <= s.len(),
        forall|j: int| 0 <= j < k ==> !same(#[trigger] s[j], b),
        k < s.len() ==> same(s[k], b),
    ensures
        first_match(s, b, same) == k,
{
    lemma_first_match(s, b, same);
    let f = first_match(s, b, same);
    if f < k {
        assert(!same(s[f], b));
    } else if k < f {
        assert(!same(s[k], b));
    }
}

} // verus!
