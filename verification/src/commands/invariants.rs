//! The commands keep the catalog well formed: names stay unique, and a
//! default alternative stays one of its binary's alternatives.

use vstd::prelude::*;
use crate::commands::binary::{
    alternative_added, alternative_removed, behind_cut, binary_added, binary_without,
    default_made, first_cut, is_cut, new_binary, without, Added, FullBinaryAlternativeName,
    Removed,
};
use crate::commands::checkout::{holds, recorded, with_checksum, Key, KeyView, Outcome};
use crate::commands::Report;
use crate::ctf::{Challenge, CTF};
use crate::model::{
    is_absent, is_only, lemma_position_none, position, AlternativeView, BinaryView, CatalogView,
    ChallengeView, ChecksumView,
};
use crate::text::{after_last, before_last};

verus! {

/// Adding a remote keeps a well-formed catalog well formed.
pub proof fn adding_a_remote_keeps_well_formed(
    before: CTF,
    after: CTF,
    args: crate::commands::remote::Add,
    r: Result<Report, crate::commands::remote::RemoteError>,
)
    requires
        before@.well_formed(),
        crate::commands::remote::added(before, after, args, r),
    ensures
        after@.well_formed(),
{
    if is_absent(before@.remote_names(), args.name@) {
        assert forall|i: int, j: int| 0 <= i < j < after@.remotes.len() implies (
        #[trigger] after@.remotes[i]).name != (#[trigger] after@.remotes[j]).name by {
            if j < before@.remotes.len() {
                assert(after@.remotes[i] == before@.remotes[i]);
                assert(after@.remotes[j] == before@.remotes[j]);
            } else {
                assert(after@.remotes[i] == before@.remotes[i]);
                assert(before@.remote_names()[i] != args.name@);
            }
        }
    }
}

/// Removing a remote keeps a well-formed catalog well formed.
pub proof fn removing_a_remote_keeps_well_formed(
    before: CTF,
    after: CTF,
    args: crate::commands::remote::Rm,
    r: Result<Report, crate::commands::remote::RemoteError>,
)
    requires
        before@.well_formed(),
        crate::commands::remote::removed(before, after, args, r),
    ensures
        after@.well_formed(),
{
    if r is Ok {
        let k = choose|k: int|
            is_only(before@.remote_names(), args.name@, k) && after@ == (CatalogView {
                remotes: before@.remotes.remove(k),
                ..before@
            });
        assert forall|i: int, j: int| 0 <= i < j < after@.remotes.len() implies (
        #[trigger] after@.remotes[i]).name != (#[trigger] after@.remotes[j]).name by {
            let i0 = if i < k {
                i
            } else {
                i + 1
            };
            let j0 = if j < k {
                j
            } else {
                j + 1
            };
            assert(after@.remotes[i] == before@.remotes[i0]);
            assert(after@.remotes[j] == before@.remotes[j0]);
        }
    }
}

/// Setting the engine of a remote keeps a well-formed catalog well formed.
pub proof fn setting_an_engine_keeps_well_formed(
    before: CTF,
    after: CTF,
    args: crate::commands::remote::SetEngine,
    r: Result<Report, crate::commands::remote::RemoteError>,
)
    requires
        before@.well_formed(),
        crate::commands::remote::engine_set(before, after, args, r),
    ensures
        after@.well_formed(),
{
    lemma_position_none(before@.remote_names(), args.name@);
    if position(before@.remote_names(), args.name@) is Some {
        assert forall|i: int, j: int| 0 <= i < j < after@.remotes.len() implies (
        #[trigger] after@.remotes[i]).name != (#[trigger] after@.remotes[j]).name by {
            assert(after@.remotes[i].name == before@.remotes[i].name);
            assert(after@.remotes[j].name == before@.remotes[j].name);
        }
    }
}

/// Adding a challenge keeps a well-formed catalog well formed.
pub proof fn adding_a_challenge_keeps_well_formed(
    before: CTF,
    after: CTF,
    args: crate::commands::challenge::Add,
    has_directory: bool,
    r: Result<Report, crate::commands::challenge::ChallengeError>,
)
    requires
        before@.well_formed(),
        crate::commands::challenge::added(before, after, args, has_directory, r),
    ensures
        after@.well_formed(),
{
    if r is Ok {
        let n = before@.challenges.len() as int;
        assert forall|i: int, j: int| 0 <= i < j < after@.challenges.len() implies (
        #[trigger] after@.challenges[i]).name != (#[trigger] after@.challenges[j]).name by {
            if j < n {
                assert(after@.challenges[i] == before@.challenges[i]);
                assert(after@.challenges[j] == before@.challenges[j]);
            } else {
                assert(after@.challenges[i] == before@.challenges[i]);
                assert(before@.challenge_names()[i] != args.name@);
            }
        }
        assert forall|i: int| 0 <= i < after@.challenges.len() implies (
        #[trigger] after@.challenges[i]).well_formed() by {
            if i < n {
                assert(after@.challenges[i] == before@.challenges[i]);
            }
        }
    }
}

/// Describing a challenge keeps a well-formed catalog well formed.
pub proof fn describing_a_challenge_keeps_well_formed(
    before: CTF,
    after: CTF,
    args: crate::commands::challenge::SetDescription,
    r: Result<Report, crate::commands::challenge::ChallengeError>,
)
    requires
        before@.well_formed(),
        crate::commands::challenge::described(before, after, args, r),
    ensures
        after@.well_formed(),
{
    lemma_position_none(before@.challenge_names(), args.name@);
    if position(before@.challenge_names(), args.name@) is Some {
        let k = position(before@.challenge_names(), args.name@)->0;
        assert forall|i: int, j: int| 0 <= i < j < after@.challenges.len() implies (
        #[trigger] after@.challenges[i]).name != (#[trigger] after@.challenges[j]).name by {
            assert(after@.challenges[i].name == before@.challenges[i].name);
            assert(after@.challenges[j].name == before@.challenges[j].name);
        }
        assert forall|i: int| 0 <= i < after@.challenges.len() implies (
        #[trigger] after@.challenges[i]).well_formed() by {
            assert(before@.challenges[i].well_formed());
            if i != k {
                assert(after@.challenges[i] == before@.challenges[i]);
            }
        }
    }
}

/// Removing a challenge keeps a well-formed catalog well formed.
pub proof fn removing_a_challenge_keeps_well_formed(
    before: CTF,
    after: CTF,
    args: crate::commands::challenge::Rm,
    r: Result<Report, crate::commands::challenge::ChallengeError>,
)
    requires
        before@.well_formed(),
        crate::commands::challenge::removed(before, after, args, r),
    ensures
        after@.well_formed(),
{
    if r is Ok {
        let k = choose|k: int|
            is_only(before@.challenge_names(), args.name@, k) && after@ == (CatalogView {
                challenges: before@.challenges.remove(k),
                ..before@
            });
        assert forall|i: int, j: int| 0 <= i < j < after@.challenges.len() implies (
        #[trigger] after@.challenges[i]).name != (#[trigger] after@.challenges[j]).name by {
            let i0 = if i < k {
                i
            } else {
                i + 1
            };
            let j0 = if j < k {
                j
            } else {
                j + 1
            };
            assert(after@.challenges[i] == before@.challenges[i0]);
            assert(after@.challenges[j] == before@.challenges[j0]);
        }
        assert forall|i: int| 0 <= i < after@.challenges.len() implies (
        #[trigger] after@.challenges[i]).well_formed() by {
            let i0 = if i < k {
                i
            } else {
                i + 1
            };
            assert(after@.challenges[i] == before@.challenges[i0]);
        }
    }
}

/// A binary with one alternative more, under a name that it did not have,
/// is well formed if it was.
pub proof fn lemma_binary_with_alternative(binary: BinaryView, name: Seq<char>)
    requires
        binary.well_formed(),
        is_absent(binary.alternative_names(), name),
    ensures
        (BinaryView {
            alternatives: binary.alternatives.push(
                AlternativeView { name, url: None, checksum: None },
            ),
            ..binary
        }).well_formed(),
{
    let more = BinaryView {
        alternatives: binary.alternatives.push(AlternativeView { name, url: None, checksum: None }),
        ..binary
    };
    let n = binary.alternatives.len() as int;
    assert forall|i: int, j: int| 0 <= i < j < more.alternatives.len() implies (
    #[trigger] more.alternatives[i]).name != (#[trigger] more.alternatives[j]).name by {
        assert(more.alternatives[i] == binary.alternatives[i]);
        if j < n {
            assert(more.alternatives[j] == binary.alternatives[j]);
        } else {
            assert(binary.alternative_names()[i] != name);
        }
    }
    if binary.default_alternative is Some {
        let i = choose|i: int|
            0 <= i < binary.alternatives.len() && (#[trigger] binary.alternatives[i]).name
                == binary.default_alternative->0;
        assert(more.alternatives[i] == binary.alternatives[i]);
    }
}

/// A challenge in which one binary was replaced by a well-formed binary of
/// the same name is well formed if it was.
pub proof fn lemma_challenge_with_binary(challenge: ChallengeView, j: int, binary: BinaryView)
    requires
        challenge.well_formed(),
        0 <= j < challenge.binaries.len(),
        binary.name == challenge.binaries[j].name,
        binary.well_formed(),
    ensures
        (ChallengeView { binaries: challenge.binaries.update(j, binary), ..challenge }).well_formed(),
{
    let after = ChallengeView { binaries: challenge.binaries.update(j, binary), ..challenge };
    assert forall|a: int, b: int| 0 <= a < b < after.binaries.len() implies (
    #[trigger] after.binaries[a]).name != (#[trigger] after.binaries[b]).name by {
        assert(after.binaries[a].name == challenge.binaries[a].name);
        assert(after.binaries[b].name == challenge.binaries[b].name);
    }
    assert forall|a: int| 0 <= a < after.binaries.len() implies (
    #[trigger] after.binaries[a]).well_formed() by {
        if a != j {
            assert(after.binaries[a] == challenge.binaries[a]);
        }
    }
}

/// Registering a file as an alternative of a binary that the challenge has
/// keeps a well-formed challenge well formed.
pub proof fn adding_an_alternative_keeps_well_formed(
    before: Challenge,
    after: Challenge,
    name: Seq<char>,
    r: Option<FullBinaryAlternativeName>,
)
    requires
        before@.well_formed(),
        alternative_added(before, after, name, r),
    ensures
        after@.well_formed(),
{
    match first_cut(before@.binary_names(), name, 0) {
        None => {},
        Some(p) => {
            lemma_first_cut(before@.binary_names(), name, 0);
            lemma_position_none(before@.binary_names(), name.take(p));
            let j = position(before@.binary_names(), name.take(p))->0;
            let binary = before@.binaries[j];
            let alternative = behind_cut(name, p);
            if is_absent(binary.alternative_names(), alternative) {
                assert(binary.well_formed());
                lemma_binary_with_alternative(binary, alternative);
                lemma_challenge_with_binary(
                    before@,
                    j,
                    BinaryView {
                        alternatives: binary.alternatives.push(
                            AlternativeView { name: alternative, url: None, checksum: None },
                        ),
                        ..binary
                    },
                );
            }
        },
    }
}

/// The first cut, where there is one, is a cut from `from` on before which
/// stands the name of one of the binaries.
pub proof fn lemma_first_cut(binaries: Seq<Seq<char>>, name: Seq<char>, from: int)
    requires
        0 <= from,
    ensures
        match first_cut(binaries, name, from) {
            Some(p) => from <= p <= name.len() && !is_absent(binaries, name.take(p)),
            None => true,
        },
    decreases name.len() - from + 1,
{
    if from <= name.len() {
        lemma_first_cut(binaries, name, from + 1);
    }
}

/// A binary without one of its alternatives is well formed if it was.
pub proof fn lemma_binary_without_alternative(binary: BinaryView, i: int, name: Seq<char>)
    requires
        binary.well_formed(),
        is_only(binary.alternative_names(), name, i),
    ensures
        binary_without(binary, i, name).well_formed(),
{
    let less = binary_without(binary, i, name);
    assert forall|a: int, b: int| 0 <= a < b < less.alternatives.len() implies (
    #[trigger] less.alternatives[a]).name != (#[trigger] less.alternatives[b]).name by {
        let a0 = if a < i {
            a
        } else {
            a + 1
        };
        let b0 = if b < i {
            b
        } else {
            b + 1
        };
        assert(less.alternatives[a] == binary.alternatives[a0]);
        assert(less.alternatives[b] == binary.alternatives[b0]);
    }
    if less.default_alternative is Some {
        let d = choose|d: int|
            0 <= d < binary.alternatives.len() && (#[trigger] binary.alternatives[d]).name
                == binary.default_alternative->0;
        assert(binary.alternative_names()[i] == name);
        assert(d != i);
        let d1 = if d < i {
            d
        } else {
            d - 1
        };
        assert(less.alternatives[d1] == binary.alternatives[d]);
    }
}

/// Binaries without those of one name are well formed and distinct if they
/// were, and each of them is one of those that were there.
pub proof fn lemma_without_keeps_well_formed(binaries: Seq<BinaryView>, name: Seq<char>)
    requires
        forall|a: int, b: int|
            0 <= a < b < binaries.len() ==> (#[trigger] binaries[a]).name
                != (#[trigger] binaries[b]).name,
        forall|a: int| 0 <= a < binaries.len() ==> (#[trigger] binaries[a]).well_formed(),
    ensures
        forall|a: int, b: int|
            0 <= a < b < without(binaries, name).len() ==> (#[trigger] without(
                binaries,
                name,
            )[a]).name != (#[trigger] without(binaries, name)[b]).name,
        forall|a: int|
            0 <= a < without(binaries, name).len() ==> (#[trigger] without(
                binaries,
                name,
            )[a]).well_formed(),
        forall|a: int|
            0 <= a < without(binaries, name).len() ==> binaries.contains(
                #[trigger] without(binaries, name)[a],
            ),
    decreases binaries.len(),
{
    if binaries.len() > 0 {
        let rest = binaries.drop_last();
        assert forall|a: int, b: int| 0 <= a < b < rest.len() implies (#[trigger] rest[a]).name != (
        #[trigger] rest[b]).name by {
            assert(rest[a] == binaries[a]);
            assert(rest[b] == binaries[b]);
        }
        assert forall|a: int| 0 <= a < rest.len() implies (#[trigger] rest[a]).well_formed() by {
            assert(rest[a] == binaries[a]);
        }
        lemma_without_keeps_well_formed(rest, name);
        let w = without(binaries, name);
        let wr = without(rest, name);
        assert forall|a: int| 0 <= a < w.len() implies binaries.contains(#[trigger] w[a]) by {
            if a < wr.len() {
                assert(w[a] == wr[a]);
                assert(rest.contains(wr[a]));
                let k = choose|k: int| 0 <= k < rest.len() && rest[k] == wr[a];
                assert(binaries[k] == wr[a]);
            } else {
                assert(w[a] == binaries[binaries.len() - 1]);
            }
        }
        assert forall|a: int, b: int| 0 <= a < b < w.len() implies (#[trigger] w[a]).name != (
        #[trigger] w[b]).name by {
            if b < wr.len() {
                assert(w[a] == wr[a]);
                assert(w[b] == wr[b]);
            } else {
                assert(w[a] == wr[a]);
                assert(rest.contains(wr[a]));
                let k = choose|k: int| 0 <= k < rest.len() && rest[k] == wr[a];
                assert(binaries[k] == wr[a]);
                assert(w[b] == binaries[binaries.len() - 1]);
                assert(binaries[k].name != binaries[binaries.len() - 1].name);
            }
        }
        assert forall|a: int| 0 <= a < w.len() implies (#[trigger] w[a]).well_formed() by {
            if a < wr.len() {
                assert(w[a] == wr[a]);
            } else {
                assert(w[a] == binaries[binaries.len() - 1]);
            }
        }
    }
}

/// Removing an alternative keeps a well-formed challenge well formed.
pub proof fn removing_an_alternative_keeps_well_formed(
    before: Challenge,
    after: Challenge,
    name: Seq<char>,
    r: Result<Removed, crate::commands::binary::BinaryError>,
)
    requires
        before@.well_formed(),
        alternative_removed(before, after, name, r),
    ensures
        after@.well_formed(),
{
    if r is Ok {
        let b = before_last(name, '.');
        let a = after_last(name, '.');
        lemma_position_none(before@.binary_names(), b);
        let j = position(before@.binary_names(), b)->0;
        let binary = before@.binaries[j];
        let i = choose|i: int|
            is_only(binary.alternative_names(), a, i) && after@ == (ChallengeView {
                binaries: if binary.alternatives.len() == 1 {
                    without(before@.binaries.update(j, binary_without(binary, i, a)), b)
                } else {
                    before@.binaries.update(j, binary_without(binary, i, a))
                },
                ..before@
            });
        assert(binary.well_formed());
        lemma_binary_without_alternative(binary, i, a);
        lemma_challenge_with_binary(before@, j, binary_without(binary, i, a));
        if binary.alternatives.len() == 1 {
            lemma_without_keeps_well_formed(
                before@.binaries.update(j, binary_without(binary, i, a)),
                b,
            );
        }
    }
}

/// Making an alternative the default keeps a well-formed challenge well
/// formed.
pub proof fn making_a_default_keeps_well_formed(
    before: Challenge,
    after: Challenge,
    name: Seq<char>,
    r: Result<Report, crate::commands::binary::BinaryError>,
)
    requires
        before@.well_formed(),
        default_made(before, after, name, r),
    ensures
        after@.well_formed(),
{
    if r is Ok {
        let b = before_last(name, '.');
        let a = after_last(name, '.');
        lemma_position_none(before@.binary_names(), b);
        let j = position(before@.binary_names(), b)->0;
        let binary = before@.binaries[j];
        assert(binary.well_formed());
        let chosen = BinaryView { default_alternative: Some(a), ..binary };
        let i = choose|i: int|
            0 <= i < binary.alternative_names().len() && binary.alternative_names()[i] == a;
        assert(chosen.alternatives[i].name == a);
        lemma_challenge_with_binary(before@, j, chosen);
    }
}

/// Recording a checksum keeps a well-formed catalog well formed.
pub proof fn recording_a_checksum_keeps_well_formed(
    s: CatalogView,
    key: KeyView,
    checksum: ChecksumView,
)
    requires
        s.well_formed(),
    ensures
        with_checksum(s, key, checksum).well_formed(),
{
    if holds(s, key) {
        let after = with_checksum(s, key, checksum);
        lemma_position_none(s.challenge_names(), key.challenge);
        let k = position(s.challenge_names(), key.challenge)->0;
        let challenge = s.challenges[k];
        assert(challenge.well_formed());
        lemma_position_none(challenge.binary_names(), key.binary);
        let j = position(challenge.binary_names(), key.binary)->0;
        let binary = challenge.binaries[j];
        assert(binary.well_formed());
        lemma_position_none(binary.alternative_names(), key.alternative);
        let i = position(binary.alternative_names(), key.alternative)->0;
        let alternative = AlternativeView { checksum: Some(checksum), ..binary.alternatives[i] };
        let summed = BinaryView { alternatives: binary.alternatives.update(i, alternative), ..binary };
        assert forall|a: int, b: int| 0 <= a < b < summed.alternatives.len() implies (
        #[trigger] summed.alternatives[a]).name != (#[trigger] summed.alternatives[b]).name by {
            assert(summed.alternatives[a].name == binary.alternatives[a].name);
            assert(summed.alternatives[b].name == binary.alternatives[b].name);
        }
        if binary.default_alternative is Some {
            let d = choose|d: int|
                0 <= d < binary.alternatives.len() && (#[trigger] binary.alternatives[d]).name
                    == binary.default_alternative->0;
            assert(summed.alternatives[d].name == binary.alternatives[d].name);
        }
        lemma_challenge_with_binary(challenge, j, summed);
        let changed = ChallengeView { binaries: challenge.binaries.update(j, summed), ..challenge };
        assert forall|a: int, b: int| 0 <= a < b < after.challenges.len() implies (
        #[trigger] after.challenges[a]).name != (#[trigger] after.challenges[b]).name by {
            assert(after.challenges[a].name == s.challenges[a].name);
            assert(after.challenges[b].name == s.challenges[b].name);
        }
        assert forall|a: int| 0 <= a < after.challenges.len() implies (
        #[trigger] after.challenges[a]).well_formed() by {
            if a != k {
                assert(after.challenges[a] == s.challenges[a]);
            }
        }
    }
}

/// Recording the outcomes of a checkout keeps a well-formed catalog well
/// formed.
pub proof fn recording_keeps_well_formed(s: CatalogView, results: Seq<(Key, Outcome)>)
    requires
        s.well_formed(),
    ensures
        recorded(s, results).well_formed(),
    decreases results.len(),
{
    if results.len() > 0 {
        recording_keeps_well_formed(s, results.drop_last());
        match results.last().1 {
            Ok(Some(checksum)) => {
                recording_a_checksum_keeps_well_formed(
                    recorded(s, results.drop_last()),
                    results.last().0@,
                    checksum@,
                );
            },
            _ => {},
        }
    }
}

/// Where a name has no first cut, no cut of it from `from` on has the name
/// of a binary before it.
pub proof fn lemma_no_first_cut(binaries: Seq<Seq<char>>, name: Seq<char>, from: int, p: int)
    requires
        0 <= from <= p <= name.len(),
        first_cut(binaries, name, from) is None,
        is_cut(name, p),
    ensures
        is_absent(binaries, name.take(p)),
    decreases p - from,
{
    if from < p {
        lemma_no_first_cut(binaries, name, from + 1, p);
    }
}

/// Registering a file keeps a well-formed challenge well formed, provided
/// that the file's name is not empty and does not end with a dot. (A name
/// that ends with a dot is never taken for the name of a binary that the
/// challenge has, so that a second binary of that name can come to stand
/// beside the first.)
pub proof fn registering_a_file_keeps_well_formed(
    before: Challenge,
    after: Challenge,
    name: Seq<char>,
    r: Added,
)
    requires
        before@.well_formed(),
        binary_added(before, after, name, r),
        name.len() > 0,
        name[name.len() - 1] != '.',
    ensures
        after@.well_formed(),
{
    if first_cut(before@.binary_names(), name, 0) is Some {
        adding_an_alternative_keeps_well_formed(before, after, name, Some(r.name));
    } else {
        lemma_no_first_cut(before@.binary_names(), name, 0, name.len() as int);
        assert(name.take(name.len() as int) == name);
        let fresh = new_binary(name);
        assert(fresh.alternatives[0].name == fresh.default_alternative->0);
        let n = before@.binaries.len() as int;
        assert forall|a: int, b: int| 0 <= a < b < after@.binaries.len() implies (
        #[trigger] after@.binaries[a]).name != (#[trigger] after@.binaries[b]).name by {
            assert(after@.binaries[a] == before@.binaries[a]);
            if b < n {
                assert(after@.binaries[b] == before@.binaries[b]);
            } else {
                assert(before@.binary_names()[a] != name);
            }
        }
        assert forall|a: int| 0 <= a < after@.binaries.len() implies (
        #[trigger] after@.binaries[a]).well_formed() by {
            if a < n {
                assert(after@.binaries[a] == before@.binaries[a]);
            }
        }
    }
}

} // verus!
