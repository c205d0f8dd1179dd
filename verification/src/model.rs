//! The mathematical model of the catalog: what each record is, as sequences
//! of characters and sequences of records.

use vstd::prelude::*;

verus! {

/// A checksum: an algorithm's name and a digest in hexadecimal.
pub struct ChecksumView {
    pub algorithm: Seq<char>,
    pub value: Seq<char>,
}

/// One variant of a binary, with its address and checksum as far as they
/// are known.
pub struct AlternativeView {
    pub name: Seq<char>,
    pub url: Option<Seq<char>>,
    pub checksum: Option<ChecksumView>,
}

/// A file of a challenge, in its alternatives.
pub struct BinaryView {
    pub name: Seq<char>,
    pub alternatives: Seq<AlternativeView>,
    pub default_alternative: Option<Seq<char>>,
}

/// Where a challenge is served.
pub struct ServiceView {
    pub name: Option<Seq<char>>,
    pub url: Option<Seq<char>>,
}

/// A challenge.
pub struct ChallengeView {
    pub name: Seq<char>,
    pub description: Seq<char>,
    pub binaries: Seq<BinaryView>,
    pub services: Seq<ServiceView>,
}

/// A substitution on addresses.
pub struct RewriteRuleView {
    pub regex: Seq<char>,
    pub rep: Seq<char>,
}

/// A platform that the catalog is mirrored from.
pub struct RemoteView {
    pub name: Seq<char>,
    pub url: Seq<char>,
    pub engine: Seq<char>,
    pub rewrite_rules: Seq<RewriteRuleView>,
}

/// The catalog of a workspace.
pub struct CatalogView {
    pub name: Seq<char>,
    pub remotes: Seq<RemoteView>,
    pub challenges: Seq<ChallengeView>,
}

/// The cookies that are kept for a remote.
pub struct RemoteCredentialsView {
    pub name: Seq<char>,
    pub cookies: Seq<char>,
}

impl BinaryView {
    /// No two alternatives share a name, and the default alternative, where
    /// one is set, is one of them.
    pub open spec fn well_formed(self) -> bool {
        &&& forall|i: int, j: int|
            0 <= i < j < self.alternatives.len() ==> (#[trigger] self.alternatives[i]).name
                != (#[trigger] self.alternatives[j]).name
        &&& self.default_alternative is Some ==> exists|i: int|
            0 <= i < self.alternatives.len() && (#[trigger] self.alternatives[i]).name
                == self.default_alternative->0
    }
}

impl ChallengeView {
    /// No two binaries share a name, and each binary is well formed.
    pub open spec fn well_formed(self) -> bool {
        &&& forall|i: int, j: int|
            0 <= i < j < self.binaries.len() ==> (#[trigger] self.binaries[i]).name
                != (#[trigger] self.binaries[j]).name
        &&& forall|i: int|
            0 <= i < self.binaries.len() ==> (#[trigger] self.binaries[i]).well_formed()
    }
}

impl CatalogView {
    /// No two remotes and no two challenges share a name, and each challenge
    /// is well formed.
    pub open spec fn well_formed(self) -> bool {
        &&& forall|i: int, j: int|
            0 <= i < j < self.remotes.len() ==> (#[trigger] self.remotes[i]).name
                != (#[trigger] self.remotes[j]).name
        &&& forall|i: int, j: int|
            0 <= i < j < self.challenges.len() ==> (#[trigger] self.challenges[i]).name
                != (#[trigger] self.challenges[j]).name
        &&& forall|i: int|
            0 <= i < self.challenges.len() ==> (#[trigger] self.challenges[i]).well_formed()
    }
}

/// `k` is the first position of `names` that holds `name`.
pub open spec fn is_first<T>(names: Seq<T>, name: T, k: int) -> bool {
    &&& 0 <= k < names.len()
    &&& names[k] == name
    &&& forall|j: int| 0 <= j < k ==> names[j] != name
}

/// No position of `names` holds `name`.
pub open spec fn is_absent<T>(names: Seq<T>, name: T) -> bool {
    forall|j: int| 0 <= j < names.len() ==> names[j] != name
}

/// The first position of `names` that holds `name`, if any does.
pub open spec fn position<T>(names: Seq<T>, name: T) -> Option<int> {
    if is_absent(names, name) {
        None
    } else {
        Some(choose|k: int| is_first(names, name, k))
    }
}

/// The first position is the only first position.
pub proof fn lemma_position<T>(names: Seq<T>, name: T, k: int)
    requires
        is_first(names, name, k),
    ensures
        position(names, name) == Some(k),
{
    let c = choose|c: int| is_first(names, name, c);
    if c < k {
        assert(names[c] != name);
    } else if k < c {
        assert(names[k] != name);
    }
}

/// Where nothing is found, every position holds another name.
pub proof fn lemma_position_none<T>(names: Seq<T>, name: T)
    ensures
        position(names, name) is None <==> is_absent(names, name),
        position(names, name) is Some ==> is_first(names, name, position(names, name)->0),
{
    if !is_absent(names, name) {
        let j = choose|j: int| 0 <= j < names.len() && names[j] == name;
        lemma_some_first(names, name, j);
    }
}

/// A name that occurs has a first occurrence.
pub proof fn lemma_some_first<T>(names: Seq<T>, name: T, j: int)
    requires
        0 <= j < names.len(),
        names[j] == name,
    ensures
        exists|k: int| is_first(names, name, k),
    decreases j,
{
    if exists|i: int| 0 <= i < j && names[i] == name {
        let i = choose|i: int| 0 <= i < j && names[i] == name;
        lemma_some_first(names, name, i);
    } else {
        assert(is_first(names, name, j));
    }
}

/// `k` is the one position of `names` that holds `name`.
pub open spec fn is_only<T>(names: Seq<T>, name: T, k: int) -> bool {
    &&& 0 <= k < names.len()
    &&& names[k] == name
    &&& forall|j: int| 0 <= j < names.len() && j != k ==> names[j] != name
}

/// Exactly one position of `names` holds `name`.
pub open spec fn occurs_once<T>(names: Seq<T>, name: T) -> bool {
    exists|k: int| is_only(names, name, k)
}

impl BinaryView {
    /// The names of the alternatives, in their order.
    pub open spec fn alternative_names(self) -> Seq<Seq<char>> {
        self.alternatives.map_values(|a: AlternativeView| a.name)
    }
}

impl ChallengeView {
    /// The names of the binaries, in their order.
    pub open spec fn binary_names(self) -> Seq<Seq<char>> {
        self.binaries.map_values(|b: BinaryView| b.name)
    }
}

impl CatalogView {
    /// The names of the challenges, in their order.
    pub open spec fn challenge_names(self) -> Seq<Seq<char>> {
        self.challenges.map_values(|c: ChallengeView| c.name)
    }

    /// The names of the remotes, in their order.
    pub open spec fn remote_names(self) -> Seq<Seq<char>> {
        self.remotes.map_values(|r: RemoteView| r.name)
    }
}

} // verus!
