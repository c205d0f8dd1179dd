//! What holds of every merge: nothing is lost, an empty field of the
//! snapshot changes nothing, well-formed catalogs stay well formed, and a
//! catalog absorbs its own merged self without a change.

use vstd::prelude::*;
use crate::absorb::{
    lemma_absorb_all_again, lemma_absorb_all_again_inert, lemma_absorb_all_distinct,
    lemma_absorb_all_every, lemma_absorb_all_inert, lemma_absorb_all_matches,
    lemma_absorb_all_related, lemma_absorb_all_settled, lemma_absorb_all_settles, matched_at,
    related_prefix, unmatched_pairs,
};
use crate::model::{AlternativeView, BinaryView, CatalogView, ChallengeView, ServiceView};
use crate::reconcile::{
    alternative_joiner, alternative_matcher, binary_joiner, binary_matcher, challenge_joiner,
    challenge_matcher, merge_alternative, merge_alternatives, merge_binaries, merge_binary,
    merge_catalog, merge_challenge, merge_challenges, merge_service, merge_services,
    same_service, service_joiner, service_matcher,
};

verus! {

/// Always true: every incoming record is admissible.
pub open spec fn any_record<A>() -> spec_fn(A) -> bool {
    |b: A| true
}

/// `x` is the alternative `a`, with no field lost.
pub open spec fn alternative_kept(a: AlternativeView, x: AlternativeView) -> bool {
    &&& x.name == a.name
    &&& a.url is Some ==> x.url is Some
    &&& a.checksum is Some ==> x.checksum is Some
}

/// `alternative_kept`, as a value.
pub open spec fn alternative_keeper() -> spec_fn(AlternativeView, AlternativeView) -> bool {
    |a: AlternativeView, x: AlternativeView| alternative_kept(a, x)
}

/// `x` is the binary `a`: the same name and default alternative, and every
/// alternative of `a` kept, at its position.
pub open spec fn binary_kept(a: BinaryView, x: BinaryView) -> bool {
    &&& x.name == a.name
    &&& x.default_alternative == a.default_alternative
    &&& related_prefix(a.alternatives, x.alternatives, alternative_keeper())
}

/// `binary_kept`, as a value.
pub open spec fn binary_keeper() -> spec_fn(BinaryView, BinaryView) -> bool {
    |a: BinaryView, x: BinaryView| binary_kept(a, x)
}

/// `x` is the service `a`, with no field lost.
pub open spec fn service_kept(a: ServiceView, x: ServiceView) -> bool {
    &&& a.name is Some ==> x.name is Some
    &&& a.url is Some ==> x.url is Some
}

/// `service_kept`, as a value.
pub open spec fn service_keeper() -> spec_fn(ServiceView, ServiceView) -> bool {
    |a: ServiceView, x: ServiceView| service_kept(a, x)
}

/// `x` is the challenge `a`: the same name, a description unless `a` had
/// none, and every binary and service of `a` kept, at its position.
pub open spec fn challenge_kept(a: ChallengeView, x: ChallengeView) -> bool {
    &&& x.name == a.name
    &&& a.description.len() > 0 ==> x.description.len() > 0
    &&& related_prefix(a.binaries, x.binaries, binary_keeper())
    &&& related_prefix(a.services, x.services, service_keeper())
}

/// `challenge_kept`, as a value.
pub open spec fn challenge_keeper() -> spec_fn(ChallengeView, ChallengeView) -> bool {
    |a: ChallengeView, x: ChallengeView| challenge_kept(a, x)
}

/// `m` holds all that `s` holds: a name unless `s` had none, the same
/// remotes, and every challenge of `s` kept, at its position.
pub open spec fn catalog_kept(s: CatalogView, m: CatalogView) -> bool {
    &&& s.name.len() > 0 ==> m.name.len() > 0
    &&& m.remotes == s.remotes
    &&& related_prefix(s.challenges, m.challenges, challenge_keeper())
}

proof fn lemma_alternatives_kept(
    base: Seq<AlternativeView>,
    s: Seq<AlternativeView>,
    bs: Seq<AlternativeView>,
)
    requires
        related_prefix(base, s, alternative_keeper()),
    ensures
        related_prefix(base, merge_alternatives(s, bs), alternative_keeper()),
{
    lemma_absorb_all_related(
        base,
        s,
        bs,
        alternative_matcher(),
        alternative_joiner(),
        alternative_keeper(),
        any_record(),
    );
}

proof fn lemma_binary_kept(a: BinaryView, x: BinaryView, b: BinaryView)
    requires
        binary_kept(a, x),
    ensures
        binary_kept(a, merge_binary(x, b)),
{
    lemma_alternatives_kept(a.alternatives, x.alternatives, b.alternatives);
}

proof fn lemma_binaries_kept(base: Seq<BinaryView>, s: Seq<BinaryView>, bs: Seq<BinaryView>)
    requires
        related_prefix(base, s, binary_keeper()),
    ensures
        related_prefix(base, merge_binaries(s, bs), binary_keeper()),
{
    assert forall|a: BinaryView, x: BinaryView, b: BinaryView|
        binary_keeper()(a, x) && any_record::<BinaryView>()(b) implies #[trigger] binary_keeper()(
        a,
        binary_joiner()(x, b),
    ) by {
        lemma_binary_kept(a, x, b);
    }
    lemma_absorb_all_related(
        base,
        s,
        bs,
        binary_matcher(),
        binary_joiner(),
        binary_keeper(),
        any_record(),
    );
}

proof fn lemma_services_kept(base: Seq<ServiceView>, s: Seq<ServiceView>, bs: Seq<ServiceView>)
    requires
        related_prefix(base, s, service_keeper()),
    ensures
        related_prefix(base, merge_services(s, bs), service_keeper()),
{
    lemma_absorb_all_related(
        base,
        s,
        bs,
        service_matcher(),
        service_joiner(),
        service_keeper(),
        any_record(),
    );
}

proof fn lemma_challenge_kept(a: ChallengeView, x: ChallengeView, b: ChallengeView)
    requires
        challenge_kept(a, x),
    ensures
        challenge_kept(a, merge_challenge(x, b)),
{
    lemma_binaries_kept(a.binaries, x.binaries, b.binaries);
    lemma_services_kept(a.services, x.services, b.services);
}

proof fn lemma_challenges_kept(
    base: Seq<ChallengeView>,
    s: Seq<ChallengeView>,
    bs: Seq<ChallengeView>,
)
    requires
        related_prefix(base, s, challenge_keeper()),
    ensures
        related_prefix(base, merge_challenges(s, bs), challenge_keeper()),
{
    assert forall|a: ChallengeView, x: ChallengeView, b: ChallengeView|
        challenge_keeper()(a, x) && any_record::<ChallengeView>()(b) implies #[trigger] challenge_keeper()(
        a,
        challenge_joiner()(x, b),
    ) by {
        lemma_challenge_kept(a, x, b);
    }
    lemma_absorb_all_related(
        base,
        s,
        bs,
        challenge_matcher(),
        challenge_joiner(),
        challenge_keeper(),
        any_record(),
    );
}

/// A binary holds all that it holds.
pub proof fn lemma_binary_kept_itself(a: BinaryView)
    ensures
        binary_kept(a, a),
{
}

/// A challenge holds all that it holds.
pub proof fn lemma_challenge_kept_itself(a: ChallengeView)
    ensures
        challenge_kept(a, a),
{
    assert forall|i: int| 0 <= i < a.binaries.len() implies binary_keeper()(
        #[trigger] a.binaries[i],
        a.binaries[i],
    ) by {
        lemma_binary_kept_itself(a.binaries[i]);
    }
}

/// Merging removes nothing. After a snapshot `t` was merged into a catalog
/// `s`, every challenge of `s` stands at its position under its name, and
/// so does every binary of a challenge, every alternative of a binary and
/// every service; the remotes are unchanged; and no name, description,
/// address or checksum that was there has become empty.
pub proof fn merge_keeps_records(s: CatalogView, t: CatalogView)
    ensures
        catalog_kept(s, merge_catalog(s, t)),
{
    assert forall|i: int| 0 <= i < s.challenges.len() implies challenge_keeper()(
        #[trigger] s.challenges[i],
        s.challenges[i],
    ) by {
        lemma_challenge_kept_itself(s.challenges[i]);
    }
    lemma_challenges_kept(s.challenges, s.challenges, t.challenges);
}

/// An empty field of the snapshot changes nothing: a catalog keeps its name
/// when the snapshot has none, a challenge its description when the
/// incoming one is empty, an alternative its address or checksum and a
/// service its name or address when the incoming record has none.
pub proof fn empty_fields_change_nothing(
    s: CatalogView,
    t: CatalogView,
    c: ChallengeView,
    c2: ChallengeView,
    a: AlternativeView,
    a2: AlternativeView,
    v: ServiceView,
    v2: ServiceView,
)
    ensures
        t.name.len() == 0 ==> merge_catalog(s, t).name == s.name,
        c2.description.len() == 0 ==> merge_challenge(c, c2).description == c.description,
        a2.url is None ==> merge_alternative(a, a2).url == a.url,
        a2.checksum is None ==> merge_alternative(a, a2).checksum == a.checksum,
        v2.name is None ==> merge_service(v, v2).name == v.name,
        v2.url is None ==> merge_service(v, v2).url == v.url,
{
}

/// What alternatives are matched by: the name.
pub open spec fn alternative_key() -> spec_fn(AlternativeView) -> Seq<char> {
    |a: AlternativeView| a.name
}

/// What binaries are matched by: the name.
pub open spec fn binary_key() -> spec_fn(BinaryView) -> Seq<char> {
    |a: BinaryView| a.name
}

/// What challenges are matched by: the name.
pub open spec fn challenge_key() -> spec_fn(ChallengeView) -> Seq<char> {
    |a: ChallengeView| a.name
}

/// `BinaryView::well_formed`, as a value.
pub open spec fn binary_is_well_formed() -> spec_fn(BinaryView) -> bool {
    |a: BinaryView| a.well_formed()
}

/// `ChallengeView::well_formed`, as a value.
pub open spec fn challenge_is_well_formed() -> spec_fn(ChallengeView) -> bool {
    |a: ChallengeView| a.well_formed()
}

/// A well-formed binary stays well formed, whatever is merged into it.
pub proof fn lemma_binary_stays_well_formed(x: BinaryView, b: BinaryView)
    requires
        x.well_formed(),
    ensures
        merge_binary(x, b).well_formed(),
{
    let m = merge_binary(x, b);
    assert(unmatched_pairs(x.alternatives, alternative_matcher()));
    lemma_absorb_all_distinct(
        x.alternatives,
        b.alternatives,
        alternative_matcher(),
        alternative_joiner(),
        alternative_key(),
    );
    assert(unmatched_pairs(m.alternatives, alternative_matcher()));
    lemma_binary_kept_itself(x);
    lemma_binary_kept(x, x, b);
    if x.default_alternative is Some {
        let i = choose|i: int|
            0 <= i < x.alternatives.len() && (#[trigger] x.alternatives[i]).name
                == x.default_alternative->0;
        assert(alternative_keeper()(x.alternatives[i], m.alternatives[i]));
        assert(m.alternatives[i].name == m.default_alternative->0);
    }
    assert forall|i: int, j: int| 0 <= i < j < m.alternatives.len() implies (
    #[trigger] m.alternatives[i]).name != (#[trigger] m.alternatives[j]).name by {
        assert(!alternative_matcher()(m.alternatives[i], m.alternatives[j]));
    }
}

/// Two well-formed challenges merge into a well-formed one.
pub proof fn lemma_challenge_stays_well_formed(x: ChallengeView, b: ChallengeView)
    requires
        x.well_formed(),
        b.well_formed(),
    ensures
        merge_challenge(x, b).well_formed(),
{
    let m = merge_challenge(x, b);
    assert(unmatched_pairs(x.binaries, binary_matcher()));
    lemma_absorb_all_distinct(
        x.binaries,
        b.binaries,
        binary_matcher(),
        binary_joiner(),
        binary_key(),
    );
    assert forall|y: BinaryView, c: BinaryView|
        binary_is_well_formed()(y) && binary_is_well_formed()(
            c,
        ) implies #[trigger] binary_is_well_formed()(binary_joiner()(y, c)) by {
        lemma_binary_stays_well_formed(y, c);
    }
    lemma_absorb_all_every(
        x.binaries,
        b.binaries,
        binary_matcher(),
        binary_joiner(),
        binary_is_well_formed(),
    );
    assert forall|i: int, j: int| 0 <= i < j < m.binaries.len() implies (
    #[trigger] m.binaries[i]).name != (#[trigger] m.binaries[j]).name by {
        assert(!binary_matcher()(m.binaries[i], m.binaries[j]));
    }
    assert forall|i: int| 0 <= i < m.binaries.len() implies (
    #[trigger] m.binaries[i]).well_formed() by {
        assert(binary_is_well_formed()(m.binaries[i]));
    }
}

/// Merging keeps the catalog's invariant: where the catalog and the
/// snapshot are well formed, so is the merged catalog.
pub proof fn merge_preserves_well_formedness(s: CatalogView, t: CatalogView)
    requires
        s.well_formed(),
        t.well_formed(),
    ensures
        merge_catalog(s, t).well_formed(),
{
    let m = merge_catalog(s, t);
    assert(unmatched_pairs(s.challenges, challenge_matcher()));
    lemma_absorb_all_distinct(
        s.challenges,
        t.challenges,
        challenge_matcher(),
        challenge_joiner(),
        challenge_key(),
    );
    assert forall|y: ChallengeView, c: ChallengeView|
        challenge_is_well_formed()(y) && challenge_is_well_formed()(
            c,
        ) implies #[trigger] challenge_is_well_formed()(challenge_joiner()(y, c)) by {
        lemma_challenge_stays_well_formed(y, c);
    }
    lemma_absorb_all_every(
        s.challenges,
        t.challenges,
        challenge_matcher(),
        challenge_joiner(),
        challenge_is_well_formed(),
    );
    assert forall|i: int, j: int| 0 <= i < j < m.challenges.len() implies (
    #[trigger] m.challenges[i]).name != (#[trigger] m.challenges[j]).name by {
        assert(!challenge_matcher()(m.challenges[i], m.challenges[j]));
    }
    assert forall|i: int| 0 <= i < m.challenges.len() implies (
    #[trigger] m.challenges[i]).well_formed() by {
        assert(challenge_is_well_formed()(m.challenges[i]));
    }
}

/// `x` is the binary `a` after any number of merges: all of `a` kept, and
/// well formed if `a` was.
pub open spec fn binary_grown(a: BinaryView, x: BinaryView) -> bool {
    &&& binary_kept(a, x)
    &&& a.well_formed() ==> x.well_formed()
}

/// `binary_grown`, as a value.
pub open spec fn binary_grower() -> spec_fn(BinaryView, BinaryView) -> bool {
    |a: BinaryView, x: BinaryView| binary_grown(a, x)
}

/// `x` is the challenge `a` after any number of merges.
pub open spec fn challenge_grown(a: ChallengeView, x: ChallengeView) -> bool {
    &&& x.name == a.name
    &&& a.description.len() > 0 ==> x.description.len() > 0
    &&& related_prefix(a.binaries, x.binaries, binary_grower())
    &&& related_prefix(a.services, x.services, service_keeper())
    &&& unmatched_pairs(a.binaries, binary_matcher()) ==> unmatched_pairs(
        x.binaries,
        binary_matcher(),
    )
}

/// `challenge_grown`, as a value.
pub open spec fn challenge_grower() -> spec_fn(ChallengeView, ChallengeView) -> bool {
    |a: ChallengeView, x: ChallengeView| challenge_grown(a, x)
}

/// The services `after` can be told apart, and each service of `before` is
/// still matched by the one at its position: merged once more, every
/// service lands on itself.
pub open spec fn services_settled(before: Seq<ServiceView>, after: Seq<ServiceView>) -> bool {
    &&& forall|k: int|
        0 <= k < before.len() && k < after.len() ==> same_service(#[trigger] before[k], after[k])
    &&& unmatched_pairs(after, service_matcher())
}

/// `services_settled` of every challenge of `s` and the challenge at its
/// position in `m`.
pub open spec fn catalog_services_settled(s: CatalogView, m: CatalogView) -> bool {
    forall|i: int|
        0 <= i < s.challenges.len() && i < m.challenges.len() ==> services_settled(
            (#[trigger] s.challenges[i]).services,
            m.challenges[i].services,
        )
}

proof fn lemma_binary_grown(a: BinaryView, x: BinaryView, b: BinaryView)
    requires
        binary_grown(a, x),
    ensures
        binary_grown(a, merge_binary(x, b)),
{
    lemma_binary_kept(a, x, b);
    if a.well_formed() {
        lemma_binary_stays_well_formed(x, b);
    }
}

proof fn lemma_challenge_grown(a: ChallengeView, x: ChallengeView, b: ChallengeView)
    requires
        challenge_grown(a, x),
    ensures
        challenge_grown(a, merge_challenge(x, b)),
{
    assert forall|c: BinaryView, y: BinaryView, d: BinaryView|
        binary_grower()(c, y) && any_record::<BinaryView>()(d) implies #[trigger] binary_grower()(
        c,
        binary_joiner()(y, d),
    ) by {
        lemma_binary_grown(c, y, d);
    }
    lemma_absorb_all_related(
        a.binaries,
        x.binaries,
        b.binaries,
        binary_matcher(),
        binary_joiner(),
        binary_grower(),
        any_record(),
    );
    lemma_services_kept(a.services, x.services, b.services);
    if unmatched_pairs(a.binaries, binary_matcher()) {
        lemma_absorb_all_distinct(
            x.binaries,
            b.binaries,
            binary_matcher(),
            binary_joiner(),
            binary_key(),
        );
    }
}

/// A binary absorbs, without a change, any well-formed binary that holds
/// all of it.
pub proof fn lemma_binary_settled(a: BinaryView, x: BinaryView)
    requires
        binary_kept(a, x),
        x.well_formed(),
    ensures
        merge_binary(a, x) == x,
{
    assert(unmatched_pairs(x.alternatives, alternative_matcher()));
    assert forall|i: int| 0 <= i < a.alternatives.len() implies alternative_matcher()(
        #[trigger] a.alternatives[i],
        x.alternatives[i],
    ) && alternative_joiner()(a.alternatives[i], x.alternatives[i]) == x.alternatives[i] by {
        assert(alternative_keeper()(a.alternatives[i], x.alternatives[i]));
    }
    lemma_absorb_all_settled(
        a.alternatives,
        x.alternatives,
        alternative_matcher(),
        alternative_joiner(),
    );
}

/// A well-formed challenge absorbs, without a change, what it has grown
/// into, provided that the services have settled.
pub proof fn lemma_challenge_settled(a: ChallengeView, x: ChallengeView)
    requires
        a.well_formed(),
        challenge_grown(a, x),
        services_settled(a.services, x.services),
    ensures
        merge_challenge(a, x) == x,
{
    assert(unmatched_pairs(a.binaries, binary_matcher()));
    assert forall|i: int| 0 <= i < a.binaries.len() implies binary_matcher()(
        #[trigger] a.binaries[i],
        x.binaries[i],
    ) && binary_joiner()(a.binaries[i], x.binaries[i]) == x.binaries[i] by {
        assert(binary_grower()(a.binaries[i], x.binaries[i]));
        assert(a.binaries[i].well_formed());
        lemma_binary_settled(a.binaries[i], x.binaries[i]);
    }
    lemma_absorb_all_settled(a.binaries, x.binaries, binary_matcher(), binary_joiner());
    assert forall|i: int| 0 <= i < a.services.len() implies service_matcher()(
        #[trigger] a.services[i],
        x.services[i],
    ) && service_joiner()(a.services[i], x.services[i]) == x.services[i] by {
        assert(service_keeper()(a.services[i], x.services[i]));
    }
    lemma_absorb_all_settled(a.services, x.services, service_matcher(), service_joiner());
    assert(merge_challenge(a, x).description =~= x.description);
}

/// Merging is idempotent: a well-formed catalog `s` absorbs the result of
/// merging a snapshot `t` into it without a change,
/// `merge(s, merge(s, t)) == merge(s, t)`, whatever `t` holds, provided
/// that in the merged catalog the services of each challenge of `s` have
/// settled. Services have no key: one whose name and address were both
/// replaced is no longer matched by what it was, and one that has come to
/// share a name or an address with another is matched by both.
pub proof fn merge_absorbs_its_result(s: CatalogView, t: CatalogView)
    requires
        s.well_formed(),
        catalog_services_settled(s, merge_catalog(s, t)),
    ensures
        merge_catalog(s, merge_catalog(s, t)) == merge_catalog(s, t),
{
    let m = merge_catalog(s, t);
    assert forall|a: ChallengeView, x: ChallengeView, b: ChallengeView|
        challenge_grower()(a, x) && any_record::<ChallengeView>()(
            b,
        ) implies #[trigger] challenge_grower()(a, challenge_joiner()(x, b)) by {
        lemma_challenge_grown(a, x, b);
    }
    assert forall|i: int| 0 <= i < s.challenges.len() implies challenge_grower()(
        #[trigger] s.challenges[i],
        s.challenges[i],
    ) by {
        let a = s.challenges[i];
        assert forall|j: int| 0 <= j < a.binaries.len() implies binary_grower()(
            #[trigger] a.binaries[j],
            a.binaries[j],
        ) by {
            lemma_binary_kept_itself(a.binaries[j]);
        }
    }
    lemma_absorb_all_related(
        s.challenges,
        s.challenges,
        t.challenges,
        challenge_matcher(),
        challenge_joiner(),
        challenge_grower(),
        any_record(),
    );
    assert(unmatched_pairs(s.challenges, challenge_matcher()));
    lemma_absorb_all_distinct(
        s.challenges,
        t.challenges,
        challenge_matcher(),
        challenge_joiner(),
        challenge_key(),
    );
    assert forall|i: int| 0 <= i < s.challenges.len() implies challenge_matcher()(
        #[trigger] s.challenges[i],
        m.challenges[i],
    ) && challenge_joiner()(s.challenges[i], m.challenges[i]) == m.challenges[i] by {
        assert(challenge_grower()(s.challenges[i], m.challenges[i]));
        assert(s.challenges[i].well_formed());
        lemma_challenge_settled(s.challenges[i], m.challenges[i]);
    }
    lemma_absorb_all_settled(s.challenges, m.challenges, challenge_matcher(), challenge_joiner());
}

/// Every service of every challenge of the snapshot is unnamed, as a
/// service is that was read off a listing.
pub open spec fn services_unnamed(c: ChallengeView) -> bool {
    forall|k: int| 0 <= k < c.services.len() ==> (#[trigger] c.services[k]).name is None
}

/// `services_unnamed`, as a value.
pub open spec fn has_unnamed_services() -> spec_fn(ChallengeView) -> bool {
    |c: ChallengeView| services_unnamed(c)
}

/// Whether a service is unnamed, as a value.
pub open spec fn is_unnamed() -> spec_fn(ServiceView) -> bool {
    |v: ServiceView| v.name is None
}

/// Every service of every challenge of the snapshot is unnamed.
pub open spec fn snapshot_services_unnamed(t: CatalogView) -> bool {
    forall|i: int| 0 <= i < t.challenges.len() ==> services_unnamed(#[trigger] t.challenges[i])
}

/// Every service of the challenge has a name or an address, and no two of
/// them share a name or share an address.
pub open spec fn services_identified(c: ChallengeView) -> bool {
    &&& forall|k: int|
        0 <= k < c.services.len() ==> (#[trigger] c.services[k]).name is Some
            || c.services[k].url is Some
    &&& unmatched_pairs(c.services, service_matcher())
}

/// `services_identified` of every challenge of the catalog.
pub open spec fn catalog_services_identified(s: CatalogView) -> bool {
    forall|i: int| 0 <= i < s.challenges.len() ==> services_identified(#[trigger] s.challenges[i])
}

/// The services of `a` stand unchanged in `x`, and can be told apart in `x`
/// if they could in `a`.
pub open spec fn services_untouched(a: ChallengeView, x: ChallengeView) -> bool {
    &&& a.services.len() <= x.services.len()
    &&& forall|k: int| 0 <= k < a.services.len() ==> #[trigger] x.services[k] == a.services[k]
    &&& unmatched_pairs(a.services, service_matcher()) ==> unmatched_pairs(
        x.services,
        service_matcher(),
    )
}

/// `services_untouched`, as a value.
pub open spec fn services_untoucher() -> spec_fn(ChallengeView, ChallengeView) -> bool {
    |a: ChallengeView, x: ChallengeView| services_untouched(a, x)
}

proof fn lemma_services_untouched(a: ChallengeView, x: ChallengeView, b: ChallengeView)
    requires
        services_untouched(a, x),
        services_unnamed(b),
    ensures
        services_untouched(a, merge_challenge(x, b)),
{
    assert forall|k: int| 0 <= k < b.services.len() implies is_unnamed()(
        #[trigger] b.services[k],
    ) by {}
    assert forall|v: ServiceView, w: ServiceView|
        is_unnamed()(w) && service_matcher()(v, w) implies #[trigger] service_joiner()(v, w)
        == v by {}
    lemma_absorb_all_inert(
        x.services,
        b.services,
        service_matcher(),
        service_joiner(),
        is_unnamed(),
    );
    let m = merge_challenge(x, b);
    assert forall|k: int| 0 <= k < a.services.len() implies #[trigger] m.services[k]
        == a.services[k] by {
        assert(m.services[k] == x.services[k]);
    }
}

/// Merging is idempotent on what a listing yields: where every service of
/// the snapshot is unnamed and the services of each challenge of the
/// well-formed catalog `s` can be told apart,
/// `merge(s, merge(s, t)) == merge(s, t)`.
pub proof fn merge_absorbs_its_result_of_a_listing(s: CatalogView, t: CatalogView)
    requires
        s.well_formed(),
        catalog_services_identified(s),
        snapshot_services_unnamed(t),
    ensures
        merge_catalog(s, merge_catalog(s, t)) == merge_catalog(s, t),
{
    let m = merge_catalog(s, t);
    assert forall|a: ChallengeView, x: ChallengeView, b: ChallengeView|
        services_untoucher()(a, x) && has_unnamed_services()(b) && challenge_matcher()(
            x,
            b,
        ) implies #[trigger] services_untoucher()(a, challenge_joiner()(x, b)) by {
        lemma_services_untouched(a, x, b);
    }
    assert forall|i: int| 0 <= i < t.challenges.len() implies has_unnamed_services()(
        #[trigger] t.challenges[i],
    ) by {}
    assert forall|i: int| 0 <= i < s.challenges.len() implies services_untoucher()(
        #[trigger] s.challenges[i],
        s.challenges[i],
    ) by {}
    lemma_absorb_all_related(
        s.challenges,
        s.challenges,
        t.challenges,
        challenge_matcher(),
        challenge_joiner(),
        services_untoucher(),
        has_unnamed_services(),
    );
    assert forall|i: int| 0 <= i < s.challenges.len() && i < m.challenges.len() implies services_settled(
        (#[trigger] s.challenges[i]).services,
        m.challenges[i].services,
    ) by {
        let a = s.challenges[i];
        let x = m.challenges[i];
        assert(services_untoucher()(a, x));
        assert(services_identified(a));
        assert forall|k: int| 0 <= k < a.services.len() && k < x.services.len() implies same_service(
            #[trigger] a.services[k],
            x.services[k],
        ) by {
            assert(x.services[k] == a.services[k]);
        }
    }
    merge_absorbs_its_result(s, t);
}

/// A service as a listing yields it: unnamed, at an address.
pub open spec fn is_listed(v: ServiceView) -> bool {
    v.name is None && v.url is Some
}

/// `is_listed`, as a value.
pub open spec fn is_listed_service() -> spec_fn(ServiceView) -> bool {
    |v: ServiceView| is_listed(v)
}

/// A challenge as a listing yields it: well formed, and every one of its
/// services unnamed, at an address.
pub open spec fn is_listing(c: ChallengeView) -> bool {
    &&& c.well_formed()
    &&& forall|k: int| 0 <= k < c.services.len() ==> is_listed(#[trigger] c.services[k])
}

/// `is_listing`, as a value.
pub open spec fn is_listing_challenge() -> spec_fn(ChallengeView) -> bool {
    |c: ChallengeView| is_listing(c)
}

/// A snapshot as a listing yields it: well formed, and each of its
/// challenges as a listing yields it.
pub open spec fn snapshot_is_listing(t: CatalogView) -> bool {
    &&& t.well_formed()
    &&& forall|i: int| 0 <= i < t.challenges.len() ==> is_listing(#[trigger] t.challenges[i])
}

proof fn lemma_alternatives_again(s: Seq<AlternativeView>, ts: Seq<AlternativeView>)
    requires
        unmatched_pairs(s, alternative_matcher()),
        unmatched_pairs(ts, alternative_matcher()),
    ensures
        merge_alternatives(merge_alternatives(s, ts), ts) == merge_alternatives(s, ts),
{
    lemma_absorb_all_settles(
        s,
        ts,
        alternative_matcher(),
        alternative_joiner(),
        alternative_key(),
        any_record(),
        any_record(),
    );
    lemma_absorb_all_distinct(
        s,
        ts,
        alternative_matcher(),
        alternative_joiner(),
        alternative_key(),
    );
    lemma_absorb_all_again(
        merge_alternatives(s, ts),
        ts,
        alternative_matcher(),
        alternative_joiner(),
        alternative_key(),
    );
}

proof fn lemma_binary_twice(x: BinaryView, t: BinaryView)
    requires
        x.well_formed(),
        t.well_formed(),
    ensures
        merge_binary(merge_binary(x, t), t) == merge_binary(x, t),
{
    assert(unmatched_pairs(x.alternatives, alternative_matcher()));
    assert(unmatched_pairs(t.alternatives, alternative_matcher()));
    lemma_alternatives_again(x.alternatives, t.alternatives);
}

proof fn lemma_binary_itself(t: BinaryView)
    requires
        t.well_formed(),
    ensures
        merge_binary(t, t) == t,
{
    lemma_binary_kept_itself(t);
    lemma_binary_settled(t, t);
}

proof fn lemma_binaries_again(s: Seq<BinaryView>, ts: Seq<BinaryView>)
    requires
        unmatched_pairs(s, binary_matcher()),
        unmatched_pairs(ts, binary_matcher()),
        forall|i: int| 0 <= i < s.len() ==> (#[trigger] s[i]).well_formed(),
        forall|i: int| 0 <= i < ts.len() ==> (#[trigger] ts[i]).well_formed(),
    ensures
        merge_binaries(merge_binaries(s, ts), ts) == merge_binaries(s, ts),
{
    assert forall|x: BinaryView, b: BinaryView|
        binary_is_well_formed()(x) && binary_is_well_formed()(
            b,
        ) implies #[trigger] binary_is_well_formed()(binary_joiner()(x, b)) by {
        lemma_binary_stays_well_formed(x, b);
    }
    assert forall|x: BinaryView, t: BinaryView|
        binary_is_well_formed()(x) && binary_is_well_formed()(t) implies #[trigger] binary_joiner()(
        binary_joiner()(x, t),
        t,
    ) == binary_joiner()(x, t) by {
        lemma_binary_twice(x, t);
    }
    assert forall|t: BinaryView| binary_is_well_formed()(t) implies #[trigger] binary_joiner()(
        t,
        t,
    ) == t by {
        lemma_binary_itself(t);
    }
    assert forall|i: int| 0 <= i < s.len() implies binary_is_well_formed()(#[trigger] s[i]) by {}
    assert forall|i: int| 0 <= i < ts.len() implies binary_is_well_formed()(#[trigger] ts[i]) by {}
    lemma_absorb_all_settles(
        s,
        ts,
        binary_matcher(),
        binary_joiner(),
        binary_key(),
        binary_is_well_formed(),
        binary_is_well_formed(),
    );
    lemma_absorb_all_distinct(s, ts, binary_matcher(), binary_joiner(), binary_key());
    lemma_absorb_all_again(
        merge_binaries(s, ts),
        ts,
        binary_matcher(),
        binary_joiner(),
        binary_key(),
    );
}

proof fn lemma_services_again(s: Seq<ServiceView>, ts: Seq<ServiceView>)
    requires
        forall|k: int| 0 <= k < ts.len() ==> is_listed(#[trigger] ts[k]),
    ensures
        merge_services(merge_services(s, ts), ts) == merge_services(s, ts),
{
    assert forall|k: int| 0 <= k < ts.len() implies is_listed_service()(#[trigger] ts[k]) by {}
    lemma_absorb_all_matches(s, ts, service_matcher(), service_joiner(), is_listed_service());
    lemma_absorb_all_again_inert(
        merge_services(s, ts),
        ts,
        service_matcher(),
        service_joiner(),
        is_listed_service(),
    );
}

proof fn lemma_services_itself(ts: Seq<ServiceView>)
    requires
        forall|k: int| 0 <= k < ts.len() ==> is_listed(#[trigger] ts[k]),
    ensures
        merge_services(ts, ts) == ts,
{
    assert forall|k: int| 0 <= k < ts.len() implies is_listed_service()(#[trigger] ts[k]) by {}
    assert forall|k: int| 0 <= k < ts.len() implies crate::absorb::is_matched(
        ts,
        #[trigger] ts[k],
        service_matcher(),
    ) by {
        assert(matched_at(ts, ts[k], k, service_matcher()));
    }
    lemma_absorb_all_again_inert(
        ts,
        ts,
        service_matcher(),
        service_joiner(),
        is_listed_service(),
    );
}

proof fn lemma_challenge_twice(x: ChallengeView, t: ChallengeView)
    requires
        x.well_formed(),
        is_listing(t),
    ensures
        merge_challenge(merge_challenge(x, t), t) == merge_challenge(x, t),
{
    assert(unmatched_pairs(x.binaries, binary_matcher()));
    assert(unmatched_pairs(t.binaries, binary_matcher()));
    lemma_binaries_again(x.binaries, t.binaries);
    lemma_services_again(x.services, t.services);
    assert(merge_challenge(merge_challenge(x, t), t).description =~= merge_challenge(
        x,
        t,
    ).description);
}

proof fn lemma_challenge_itself(t: ChallengeView)
    requires
        is_listing(t),
    ensures
        merge_challenge(t, t) == t,
{
    assert(unmatched_pairs(t.binaries, binary_matcher()));
    assert forall|i: int| 0 <= i < t.binaries.len() implies binary_matcher()(
        #[trigger] t.binaries[i],
        t.binaries[i],
    ) && binary_joiner()(t.binaries[i], t.binaries[i]) == t.binaries[i] by {
        lemma_binary_itself(t.binaries[i]);
    }
    lemma_absorb_all_settled(t.binaries, t.binaries, binary_matcher(), binary_joiner());
    lemma_services_itself(t.services);
    assert(merge_challenge(t, t).description =~= t.description);
}

/// Merging the same snapshot once more changes nothing: where the catalog
/// `s` is well formed and the snapshot `t` is as a listing yields it, well
/// formed with unnamed services at their addresses,
/// `merge(merge(s, t), t) == merge(s, t)`.
pub proof fn merging_again_changes_nothing(s: CatalogView, t: CatalogView)
    requires
        s.well_formed(),
        snapshot_is_listing(t),
    ensures
        merge_catalog(merge_catalog(s, t), t) == merge_catalog(s, t),
{
    let m = merge_catalog(s, t);
    assert forall|x: ChallengeView, b: ChallengeView|
        challenge_is_well_formed()(x) && challenge_is_well_formed()(
            b,
        ) implies #[trigger] challenge_is_well_formed()(challenge_joiner()(x, b)) by {
        lemma_challenge_stays_well_formed(x, b);
    }
    assert forall|x: ChallengeView, b: ChallengeView|
        challenge_is_well_formed()(x) && is_listing_challenge()(
            b,
        ) implies #[trigger] challenge_joiner()(challenge_joiner()(x, b), b) == challenge_joiner()(
        x,
        b,
    ) by {
        lemma_challenge_twice(x, b);
    }
    assert forall|b: ChallengeView| is_listing_challenge()(b) implies #[trigger] challenge_joiner()(
        b,
        b,
    ) == b by {
        lemma_challenge_itself(b);
    }
    assert forall|i: int| 0 <= i < s.challenges.len() implies challenge_is_well_formed()(
        #[trigger] s.challenges[i],
    ) by {}
    assert forall|i: int| 0 <= i < t.challenges.len() implies is_listing_challenge()(
        #[trigger] t.challenges[i],
    ) by {}
    assert(unmatched_pairs(s.challenges, challenge_matcher()));
    assert(unmatched_pairs(t.challenges, challenge_matcher()));
    lemma_absorb_all_settles(
        s.challenges,
        t.challenges,
        challenge_matcher(),
        challenge_joiner(),
        challenge_key(),
        challenge_is_well_formed(),
        is_listing_challenge(),
    );
    lemma_absorb_all_distinct(
        s.challenges,
        t.challenges,
        challenge_matcher(),
        challenge_joiner(),
        challenge_key(),
    );
    lemma_absorb_all_again(
        m.challenges,
        t.challenges,
        challenge_matcher(),
        challenge_joiner(),
        challenge_key(),
    );
    assert(merge_catalog(m, t).name =~= m.name);
}

} // verus!
