//! Checking out binaries: for every alternative, the file in the workspace
//! is made to match the recorded checksum, fetching only what is missing or
//! stale. Each alternative is a unit of its own: what is hashed, fetched
//! and installed for it is decided here, step by step, from what the steps
//! before it yielded.

use vstd::prelude::*;
use crate::ctf::{
    alternative_position, binary_position, challenge_position, BinaryAlternative, Challenge,
    Checksum, LookupError, LookupErrorView, CTF,
};
use crate::digest::SHA256;
use crate::model::{
    is_absent, is_first, lemma_position, lemma_position_none, position, AlternativeView,
    BinaryView, CatalogView, ChallengeView, ChecksumView,
};
use crate::text::strings_view;

verus! {

/// What to check out.
#[derive(Clone, Debug, PartialEq, Eq)]
pub struct Checkout {
    /// The challenges to check out; all of them where none is named.
    pub specs: Vec<String>,
}

/// Which of an alternative's two files is meant.
#[derive(Clone, Copy, Debug, PartialEq, Eq, Structural)]
pub enum Place {
    /// The file under the alternative's own name.
    Canonical,
    /// The file beside it that a download is written to.
    Temporary,
}

/// What was downloaded does not hash to the recorded checksum.
#[derive(Clone, Debug, PartialEq, Eq)]
pub struct ChecksumMismatchError {
    pub algorithm: String,
    pub expected: String,
    pub actual: String,
}

/// Why an alternative could not be checked out.
#[derive(Clone, Debug, PartialEq, Eq)]
pub enum CheckoutFailure {
    Mismatch(ChecksumMismatchError),
    /// The download could not be hashed; with the reason.
    Hash(String),
    /// The download failed; with the reason.
    Download(String),
    /// The download could not be moved into place; with the reason.
    Install(String),
    /// An event came that the stage does not wait for.
    Unexpected,
    /// The catalog does not hold the alternative that a checksum is for.
    NotInCatalog,
}

/// How far the checkout of one alternative has come.
#[derive(Clone, Debug, PartialEq, Eq)]
pub enum Stage {
    Start,
    /// The file in place is being hashed.
    Verifying,
    /// The download is under way.
    Downloading,
    /// The download is being hashed.
    Checking,
    /// The download is being moved into place; with the checksum to record
    /// once it is there.
    Installing(Option<Checksum>),
    Finished,
}

/// What the work outside has yielded.
#[derive(Clone, Debug, PartialEq, Eq)]
pub enum Event {
    Begin,
    /// The file hashes to this value.
    Hashed(String),
    HashFailed(String),
    Downloaded,
    DownloadFailed(String),
    Installed,
    InstallFailed(String),
}

/// What to do next.
#[derive(Clone, Debug, PartialEq, Eq)]
pub enum Action {
    /// Hash the file at this place with this algorithm.
    Hash(String, Place),
    /// Write what this address serves to the temporary file.
    Download(String),
    /// Move the temporary file over the canonical one.
    Install,
    /// Nothing is left to do; with the checksum to record, if any.
    Finish(Option<Checksum>),
    Fail(CheckoutFailure),
}

/// The action hashes the file at `place` with `algorithm`.
pub open spec fn hashes(action: Action, algorithm: Seq<char>, place: Place) -> bool {
    action is Hash && action->Hash_0@ == algorithm && action->Hash_1 == place
}

/// What follows when the file in place is not known to be the recorded one:
/// it is fetched where the alternative has an address, and else left as it
/// is.
pub open spec fn fetches(alternative: BinaryAlternative, next: Stage, action: Action) -> bool {
    match alternative.url {
        Some(url) => next is Downloading && action is Download && action->Download_0@ == url@,
        None => next is Finished && action == Action::Finish(None),
    }
}

/// The algorithm that a download is hashed with: the recorded one, or
/// `sha256` where no checksum is recorded.
pub open spec fn algorithm_for(alternative: BinaryAlternative) -> Seq<char> {
    match alternative.checksum {
        Some(c) => c.algorithm@,
        None => SHA256@,
    }
}

/// The failure reports that `actual` is not the recorded value.
pub open spec fn reports_mismatch(action: Action, recorded: Checksum, actual: Seq<char>) -> bool {
    &&& action is Fail
    &&& action->Fail_0 is Mismatch
    &&& action->Fail_0->Mismatch_0.algorithm@ == recorded.algorithm@
    &&& action->Fail_0->Mismatch_0.expected@ == recorded.value@
    &&& action->Fail_0->Mismatch_0.actual@ == actual
}

/// What `step` decides.
///
/// At the start, a recorded checksum has the file in place hashed; without
/// one the file is fetched. A file in place that hashes to the recorded
/// value ends the checkout; any other outcome of that hash has the file
/// fetched. A download is hashed. Where a checksum is recorded, a download
/// that hashes to another value is a failure and nothing is installed;
/// where none is recorded, the value becomes the checksum to record. Only
/// then the download is moved into place.
pub open spec fn stepped(
    alternative: BinaryAlternative,
    stage: Stage,
    event: Event,
    next: Stage,
    action: Action,
) -> bool {
    match (stage, event) {
        (Stage::Start, Event::Begin) => match alternative.checksum {
            Some(c) => next is Verifying && hashes(action, c.algorithm@, Place::Canonical),
            None => fetches(alternative, next, action),
        },
        (Stage::Verifying, Event::Hashed(value)) => if alternative.checksum is Some && value@
            == alternative.checksum->0.value@ {
            next is Finished && action == Action::Finish(None)
        } else {
            fetches(alternative, next, action)
        },
        (Stage::Verifying, Event::HashFailed(_)) => fetches(alternative, next, action),
        (Stage::Downloading, Event::Downloaded) => next is Checking && hashes(
            action,
            algorithm_for(alternative),
            Place::Temporary,
        ),
        (Stage::Downloading, Event::DownloadFailed(reason)) => next is Finished && action
            == Action::Fail(CheckoutFailure::Download(reason)),
        (Stage::Checking, Event::Hashed(value)) => match alternative.checksum {
            Some(c) => if value@ == c.value@ {
                next == Stage::Installing(None) && action is Install
            } else {
                next is Finished && reports_mismatch(action, c, value@)
            },
            None => next is Installing && next->Installing_0 is Some && next->Installing_0->0@
                == (ChecksumView { algorithm: SHA256@, value: value@ }) && action is Install,
        },
        (Stage::Checking, Event::HashFailed(reason)) => next is Finished && action == Action::Fail(
            CheckoutFailure::Hash(reason),
        ),
        (Stage::Installing(pending), Event::Installed) => next is Finished && action
            == Action::Finish(pending),
        (Stage::Installing(_), Event::InstallFailed(reason)) => next is Finished && action
            == Action::Fail(CheckoutFailure::Install(reason)),
        _ => next is Finished && action == Action::Fail(CheckoutFailure::Unexpected),
    }
}

/// What follows when the file in place is not known to be the recorded one.
fn fetch(alternative: &BinaryAlternative) -> (r: (Stage, Action))
    ensures
        fetches(*alternative, r.0, r.1),
{
    match &alternative.url {
        Some(url) => (Stage::Downloading, Action::Download(url.clone())),
        None => (Stage::Finished, Action::Finish(None)),
    }
}

/// Decides the next step in the checkout of `alternative`, which is at
/// `stage`, after `event`.
pub fn step(alternative: &BinaryAlternative, stage: Stage, event: Event) -> (r: (Stage, Action))
    ensures
        stepped(*alternative, stage, event, r.0, r.1),
{
    match (stage, event) {
        (Stage::Start, Event::Begin) => match &alternative.checksum {
            Some(c) => (Stage::Verifying, Action::Hash(c.algorithm.clone(), Place::Canonical)),
            None => fetch(alternative),
        },
        (Stage::Verifying, Event::Hashed(value)) => {
            let current = match &alternative.checksum {
                Some(c) => value.as_str().eq(c.value.as_str()),
                None => false,
            };
            if current {
                (Stage::Finished, Action::Finish(None))
            } else {
                fetch(alternative)
            }
        },
        (Stage::Verifying, Event::HashFailed(_)) => fetch(alternative),
        (Stage::Downloading, Event::Downloaded) => {
            let algorithm = match &alternative.checksum {
                Some(c) => c.algorithm.clone(),
                None => SHA256.to_owned(),
            };
            (Stage::Checking, Action::Hash(algorithm, Place::Temporary))
        },
        (Stage::Downloading, Event::DownloadFailed(reason)) => (
            Stage::Finished,
            Action::Fail(CheckoutFailure::Download(reason)),
        ),
        (Stage::Checking, Event::Hashed(value)) => match &alternative.checksum {
            Some(c) => {
                if value.as_str().eq(c.value.as_str()) {
                    (Stage::Installing(None), Action::Install)
                } else {
                    (
                        Stage::Finished,
                        Action::Fail(
                            CheckoutFailure::Mismatch(
                                ChecksumMismatchError {
                                    algorithm: c.algorithm.clone(),
                                    expected: c.value.clone(),
                                    actual: value,
                                },
                            ),
                        ),
                    )
                }
            },
            None => (
                Stage::Installing(Some(Checksum { algorithm: SHA256.to_owned(), value })),
                Action::Install,
            ),
        },
        (Stage::Checking, Event::HashFailed(reason)) => (
            Stage::Finished,
            Action::Fail(CheckoutFailure::Hash(reason)),
        ),
        (Stage::Installing(pending), Event::Installed) => (
            Stage::Finished,
            Action::Finish(pending),
        ),
        (Stage::Installing(_), Event::InstallFailed(reason)) => (
            Stage::Finished,
            Action::Fail(CheckoutFailure::Install(reason)),
        ),
        _ => (Stage::Finished, Action::Fail(CheckoutFailure::Unexpected)),
    }
}

/// A file that hashes to its recorded checksum is not fetched: the checkout
/// of its alternative is one hash of the file in place, and then it is
/// finished with nothing to record. No step of it is a download.
pub proof fn current_file_is_not_fetched(
    alternative: BinaryAlternative,
    value: String,
    first: (Stage, Action),
    second: (Stage, Action),
)
    requires
        alternative.checksum is Some,
        value@ == alternative.checksum->0.value@,
        stepped(alternative, Stage::Start, Event::Begin, first.0, first.1),
        stepped(alternative, first.0, Event::Hashed(value), second.0, second.1),
    ensures
        hashes(first.1, alternative.checksum->0.algorithm@, Place::Canonical),
        second.0 is Finished,
        second.1 == Action::Finish(None),
        !(first.1 is Download) && !(second.1 is Download),
{
}

/// A stale file with a recorded checksum and an address is fetched, and the
/// download is hashed with the recorded algorithm. A download that hashes
/// to the recorded value is installed and leaves nothing to record. One
/// that does not is reported as a mismatch, and in that checkout no step is
/// an install: the file in place is never written.
pub proof fn stale_file_is_replaced_or_reported(
    alternative: BinaryAlternative,
    found: String,
    fetched: String,
    first: (Stage, Action),
    second: (Stage, Action),
    third: (Stage, Action),
    fourth: (Stage, Action),
    fifth: (Stage, Action),
)
    requires
        alternative.checksum is Some,
        alternative.url is Some,
        found@ != alternative.checksum->0.value@,
        stepped(alternative, Stage::Start, Event::Begin, first.0, first.1),
        stepped(alternative, first.0, Event::Hashed(found), second.0, second.1),
        stepped(alternative, second.0, Event::Downloaded, third.0, third.1),
        stepped(alternative, third.0, Event::Hashed(fetched), fourth.0, fourth.1),
        stepped(alternative, fourth.0, Event::Installed, fifth.0, fifth.1),
    ensures
        hashes(first.1, alternative.checksum->0.algorithm@, Place::Canonical),
        second.1 is Download && second.1->Download_0@ == alternative.url->0@,
        hashes(third.1, alternative.checksum->0.algorithm@, Place::Temporary),
        fetched@ == alternative.checksum->0.value@ ==> fourth.1 is Install && fifth.1
            == Action::Finish(None),
        fetched@ != alternative.checksum->0.value@ ==> reports_mismatch(
            fourth.1,
            alternative.checksum->0,
            fetched@,
        ) && fourth.0 is Finished && !(first.1 is Install) && !(second.1 is Install) && !(third.1
            is Install) && !(fourth.1 is Install) && !(fifth.1 is Install),
{
}

/// Which alternative a unit of work is for.
#[derive(Clone, Debug, PartialEq, Eq)]
pub struct Key {
    pub challenge: String,
    pub binary: String,
    pub alternative: String,
}

/// A key, as plain values.
pub struct KeyView {
    pub challenge: Seq<char>,
    pub binary: Seq<char>,
    pub alternative: Seq<char>,
}

impl View for Key {
    type V = KeyView;

    open spec fn view(&self) -> KeyView {
        KeyView { challenge: self.challenge@, binary: self.binary@, alternative: self.alternative@ }
    }
}

/// One unit of work: an alternative to check out, as it was recorded when
/// the work was planned.
#[derive(Clone, Debug, PartialEq, Eq)]
pub struct Task {
    pub key: Key,
    pub alternative: BinaryAlternative,
}

/// A task, as plain values.
pub struct TaskView {
    pub key: KeyView,
    pub alternative: AlternativeView,
}

impl View for Task {
    type V = TaskView;

    open spec fn view(&self) -> TaskView {
        TaskView { key: self.key@, alternative: self.alternative@ }
    }
}

/// Tasks, as plain values.
pub open spec fn tasks_view(tasks: Seq<Task>) -> Seq<TaskView> {
    tasks.map_values(|t: Task| t@)
}

/// One task for each alternative of a binary, in their order.
pub open spec fn binary_tasks(challenge: Seq<char>, binary: BinaryView) -> Seq<TaskView> {
    binary.alternatives.map_values(
        |a: AlternativeView|
            TaskView {
                key: KeyView { challenge, binary: binary.name, alternative: a.name },
                alternative: a,
            },
    )
}

/// The tasks of the binaries, one binary after another.
pub open spec fn binaries_tasks(challenge: Seq<char>, binaries: Seq<BinaryView>) -> Seq<TaskView>
    decreases binaries.len(),
{
    if binaries.len() == 0 {
        Seq::empty()
    } else {
        binaries_tasks(challenge, binaries.drop_last()) + binary_tasks(challenge, binaries.last())
    }
}

/// The tasks of a challenge: one for each alternative of each of its
/// binaries.
pub open spec fn challenge_tasks(challenge: ChallengeView) -> Seq<TaskView> {
    binaries_tasks(challenge.name, challenge.binaries)
}

/// The tasks of the challenges, one challenge after another.
pub open spec fn challenges_tasks(challenges: Seq<ChallengeView>) -> Seq<TaskView>
    decreases challenges.len(),
{
    if challenges.len() == 0 {
        Seq::empty()
    } else {
        challenges_tasks(challenges.drop_last()) + challenge_tasks(challenges.last())
    }
}

/// Plans the checkout of a challenge: one task for each alternative of each
/// of its binaries.
pub fn checkout_challenge(challenge: &Challenge) -> (r: Vec<Task>)
    ensures
        tasks_view(r@) == challenge_tasks(challenge@),
{
    let mut tasks: Vec<Task> = Vec::new();
    let mut i: usize = 0;
    while i < challenge.binaries.len()
        invariant
            i <= challenge.binaries.len(),
            tasks_view(tasks@) == binaries_tasks(challenge.name@, challenge@.binaries.take(i as int)),
        decreases challenge.binaries.len() - i,
    {
        let binary = &challenge.binaries[i];
        let ghost done = tasks_view(tasks@);
        proof {
            assert(challenge@.binaries.take(i + 1).drop_last() == challenge@.binaries.take(
                i as int,
            ));
            assert(challenge@.binaries.take(i + 1).last() == binary@);
        }
        let mut j: usize = 0;
        while j < binary.alternatives.len()
            invariant
                j <= binary.alternatives.len(),
                tasks_view(tasks@) == done + binary_tasks(challenge.name@, binary@).take(j as int),
            decreases binary.alternatives.len() - j,
        {
            let alternative = &binary.alternatives[j];
            let ghost before = tasks_view(tasks@);
            let task = Task {
                key: Key {
                    challenge: challenge.name.clone(),
                    binary: binary.name.clone(),
                    alternative: alternative.name.clone(),
                },
                alternative: alternative.duplicate(),
            };
            proof {
                assert(binary@.alternatives[j as int] == alternative@);
                assert(binary_tasks(challenge.name@, binary@)[j as int] == task@);
            }
            tasks.push(task);
            proof {
                assert(tasks_view(tasks@) =~= before.push(task@));
                assert(binary_tasks(challenge.name@, binary@).take(j + 1) =~= binary_tasks(
                    challenge.name@,
                    binary@,
                ).take(j as int).push(task@));
                assert(tasks_view(tasks@) =~= done + binary_tasks(challenge.name@, binary@).take(
                    j + 1,
                ));
            }
            j += 1;
        }
        proof {
            assert(binary_tasks(challenge.name@, binary@).take(binary.alternatives.len() as int)
                =~= binary_tasks(challenge.name@, binary@));
        }
        i += 1;
    }
    assert(challenge@.binaries.take(challenge.binaries.len() as int) == challenge@.binaries);
    tasks
}

/// What is said where challenges are named from inside a challenge.
pub const ARGUMENTS_IN_CHALLENGE: &'static str =
    "ctf checkout does not take arguments when called from challenge directory";

/// What is said where the command is called from below a challenge.
pub const TOO_DEEP: &'static str = "ctf checkout must be called from top or challenge directory";

/// Why the work could not be planned.
#[derive(Clone, Debug, PartialEq, Eq)]
pub enum SelectError {
    /// A challenge that was asked for is not in the catalog.
    NoSuchChallenge(LookupError),
    /// Challenges were named from inside a challenge's directory.
    ArgumentsInChallenge,
    /// The command was called from below a challenge's directory.
    TooDeep,
}

impl SelectError {
    /// The error in words.
    pub fn message(&self) -> (r: String)
        ensures
            r@ == match self {
                SelectError::NoSuchChallenge(e) => e.text(),
                SelectError::ArgumentsInChallenge => ARGUMENTS_IN_CHALLENGE@,
                SelectError::TooDeep => TOO_DEEP@,
            },
    {
        match self {
            SelectError::NoSuchChallenge(e) => e.message(),
            SelectError::ArgumentsInChallenge => ARGUMENTS_IN_CHALLENGE.to_owned(),
            SelectError::TooDeep => TOO_DEEP.to_owned(),
        }
    }
}

/// The tasks of the challenges called `names`, one name after another;
/// `None` where the catalog lacks one of them.
pub open spec fn named_tasks(ctf: CatalogView, names: Seq<Seq<char>>) -> Option<Seq<TaskView>>
    decreases names.len(),
{
    if names.len() == 0 {
        Some(Seq::empty())
    } else {
        match (named_tasks(ctf, names.drop_last()), position(ctf.challenge_names(), names.last())) {
            (Some(tasks), Some(k)) => Some(tasks + challenge_tasks(ctf.challenges[k])),
            _ => None,
        }
    }
}

/// What a checkout covers, called from the directory `path` below the
/// workspace's root with the arguments `specs`: from the root every
/// challenge, or those that are named; from a challenge's directory that
/// challenge, and then nothing may be named; from below, nothing.
pub open spec fn selected(ctf: CatalogView, path: Seq<Seq<char>>, specs: Seq<Seq<char>>) -> Option<
    Seq<TaskView>,
> {
    if path.len() == 0 {
        if specs.len() == 0 {
            Some(challenges_tasks(ctf.challenges))
        } else {
            named_tasks(ctf, specs)
        }
    } else if path.len() == 1 {
        if specs.len() == 0 {
            named_tasks(ctf, path)
        } else {
            None
        }
    } else {
        None
    }
}

/// The error names the first of `names` that no challenge goes by.
pub open spec fn names_first_missing(ctf: CatalogView, names: Seq<Seq<char>>, e: SelectError) -> bool {
    exists|k: int|
        {
            &&& 0 <= k < names.len()
            &&& is_absent(ctf.challenge_names(), #[trigger] names[k])
            &&& forall|j: int| 0 <= j < k ==> !is_absent(ctf.challenge_names(), #[trigger] names[j])
            &&& e is NoSuchChallenge
            &&& e->NoSuchChallenge_0@ == LookupErrorView::NoSuchChallenge(names[k])
        }
}

/// The tasks of the challenges called `names`.
fn tasks_of_named(ctf: &CTF, names: &[String]) -> (r: Result<Vec<Task>, SelectError>)
    ensures
        match r {
            Ok(tasks) => named_tasks(ctf@, strings_view(names@)) == Some(tasks_view(tasks@)),
            Err(e) => named_tasks(ctf@, strings_view(names@)) is None && names_first_missing(
                ctf@,
                strings_view(names@),
                e,
            ),
        },
{
    let ghost all = strings_view(names@);
    let mut tasks: Vec<Task> = Vec::new();
    let mut i: usize = 0;
    while i < names.len()
        invariant
            i <= names.len(),
            all == strings_view(names@),
            named_tasks(ctf@, all.take(i as int)) == Some(tasks_view(tasks@)),
            forall|j: int| 0 <= j < i ==> !is_absent(ctf@.challenge_names(), #[trigger] all[j]),
        decreases names.len() - i,
    {
        proof {
            assert(all.take(i + 1).drop_last() == all.take(i as int));
            assert(all.take(i + 1).last() == names[i as int]@);
        }
        let k = challenge_position(&ctf.challenges, names[i].as_str());
        if k >= ctf.challenges.len() {
            proof {
                assert(is_absent(ctf@.challenge_names(), names[i as int]@));
                lemma_named_tasks_fail(ctf@, all, i as int);
            }
            let e = SelectError::NoSuchChallenge(LookupError::NoSuchChallenge(names[i].clone()));
            assert(all[i as int] == names[i as int]@);
            assert(names_first_missing(ctf@, all, e));
            return Err(e);
        }
        assert(all[i as int] == names[i as int]@);
        assert(ctf@.challenge_names()[k as int] == names[i as int]@);
        proof {
            assert(is_first(ctf@.challenge_names(), names[i as int]@, k as int));
            lemma_position(ctf@.challenge_names(), names[i as int]@, k as int);
            assert(ctf@.challenges[k as int] == ctf.challenges[k as int]@);
        }
        let ghost before = tasks_view(tasks@);
        let mut more = checkout_challenge(&ctf.challenges[k]);
        let ghost added = tasks_view(more@);
        tasks.append(&mut more);
        assert(tasks_view(tasks@) =~= before + added);
        i += 1;
    }
    assert(all.take(names.len() as int) == all);
    Ok(tasks)
}

/// Where one name is missing, the whole list fails.
proof fn lemma_named_tasks_fail(ctf: CatalogView, names: Seq<Seq<char>>, i: int)
    requires
        0 <= i < names.len(),
        is_absent(ctf.challenge_names(), names[i]),
    ensures
        named_tasks(ctf, names) is None,
    decreases names.len(),
{
    if i < names.len() - 1 {
        assert(names.drop_last()[i] == names[i]);
        lemma_named_tasks_fail(ctf, names.drop_last(), i);
    }
}

/// Plans a checkout: the tasks that it covers, or why there are none.
pub fn select(ctf: &CTF, path: &[String], specs: &[String]) -> (r: Result<Vec<Task>, SelectError>)
    ensures
        match r {
            Ok(tasks) => selected(ctf@, strings_view(path@), strings_view(specs@)) == Some(
                tasks_view(tasks@),
            ),
            Err(e) => selected(ctf@, strings_view(path@), strings_view(specs@)) is None
                && if path@.len() > 1 {
                e is TooDeep
            } else if path@.len() == 1 {
                if specs@.len() > 0 {
                    e is ArgumentsInChallenge
                } else {
                    names_first_missing(ctf@, strings_view(path@), e)
                }
            } else {
                names_first_missing(ctf@, strings_view(specs@), e)
            },
        },
{
    if path.len() == 0 {
        if specs.len() == 0 {
            let mut tasks: Vec<Task> = Vec::new();
            let mut i: usize = 0;
            while i < ctf.challenges.len()
                invariant
                    i <= ctf.challenges.len(),
                    tasks_view(tasks@) == challenges_tasks(ctf@.challenges.take(i as int)),
                decreases ctf.challenges.len() - i,
            {
                proof {
                    assert(ctf@.challenges.take(i + 1).drop_last() == ctf@.challenges.take(
                        i as int,
                    ));
                    assert(ctf@.challenges.take(i + 1).last() == ctf.challenges[i as int]@);
                }
                let ghost before = tasks_view(tasks@);
                let mut more = checkout_challenge(&ctf.challenges[i]);
                let ghost added = tasks_view(more@);
                tasks.append(&mut more);
                assert(tasks_view(tasks@) =~= before + added);
                i += 1;
            }
            assert(ctf@.challenges.take(ctf.challenges.len() as int) == ctf@.challenges);
            Ok(tasks)
        } else {
            tasks_of_named(ctf, specs)
        }
    } else if path.len() == 1 {
        if specs.len() == 0 {
            tasks_of_named(ctf, path)
        } else {
            Err(SelectError::ArgumentsInChallenge)
        }
    } else {
        Err(SelectError::TooDeep)
    }
}

/// Whether the catalog holds the alternative that the key names.
pub open spec fn holds(s: CatalogView, key: KeyView) -> bool {
    match position(s.challenge_names(), key.challenge) {
        Some(k) => match position(s.challenges[k].binary_names(), key.binary) {
            Some(j) => position(
                s.challenges[k].binaries[j].alternative_names(),
                key.alternative,
            ) is Some,
            None => false,
        },
        None => false,
    }
}

/// The catalog with `checksum` recorded for the alternative that the key
/// names: the first alternative of that name in the first binary of that
/// name in the first challenge of that name. A catalog that holds no such
/// alternative stays as it is.
pub open spec fn with_checksum(s: CatalogView, key: KeyView, checksum: ChecksumView) -> CatalogView {
    if holds(s, key) {
        let k = position(s.challenge_names(), key.challenge)->0;
        let challenge = s.challenges[k];
        let j = position(challenge.binary_names(), key.binary)->0;
        let binary = challenge.binaries[j];
        let i = position(binary.alternative_names(), key.alternative)->0;
        let alternative = AlternativeView { checksum: Some(checksum), ..binary.alternatives[i] };
        let binary = BinaryView { alternatives: binary.alternatives.update(i, alternative), ..binary };
        let challenge = ChallengeView {
            binaries: challenge.binaries.update(j, binary),
            ..challenge
        };
        CatalogView { challenges: s.challenges.update(k, challenge), ..s }
    } else {
        s
    }
}

/// Records `checksum` for the alternative that the key names; tells whether
/// the catalog holds it.
pub fn set_checksum(ctf: &mut CTF, key: &Key, checksum: Checksum) -> (r: bool)
    ensures
        r == holds(old(ctf)@, key@),
        final(ctf)@ == with_checksum(old(ctf)@, key@, checksum@),
{
    proof {
        lemma_position_none(ctf@.challenge_names(), key.challenge@);
    }
    let k = challenge_position(&ctf.challenges, key.challenge.as_str());
    if k >= ctf.challenges.len() {
        assert(is_absent(ctf@.challenge_names(), key.challenge@));
        return false;
    }
    proof {
        assert(is_first(ctf@.challenge_names(), key.challenge@, k as int));
        lemma_position(ctf@.challenge_names(), key.challenge@, k as int);
        lemma_position_none(ctf@.challenges[k as int].binary_names(), key.binary@);
        assert(ctf@.challenges[k as int] == ctf.challenges[k as int]@);
    }
    let j = binary_position(&ctf.challenges[k].binaries, key.binary.as_str());
    if j >= ctf.challenges[k].binaries.len() {
        assert(is_absent(ctf@.challenges[k as int].binary_names(), key.binary@));
        return false;
    }
    proof {
        let c = ctf@.challenges[k as int];
        assert(is_first(c.binary_names(), key.binary@, j as int));
        lemma_position(c.binary_names(), key.binary@, j as int);
        assert(c.binaries[j as int] == ctf.challenges[k as int].binaries[j as int]@);
        lemma_position_none(c.binaries[j as int].alternative_names(), key.alternative@);
    }
    let i = alternative_position(
        &ctf.challenges[k].binaries[j].alternatives,
        key.alternative.as_str(),
    );
    if i >= ctf.challenges[k].binaries[j].alternatives.len() {
        assert(is_absent(
            ctf@.challenges[k as int].binaries[j as int].alternative_names(),
            key.alternative@,
        ));
        return false;
    }
    proof {
        let b = ctf@.challenges[k as int].binaries[j as int];
        assert(is_first(b.alternative_names(), key.alternative@, i as int));
        lemma_position(b.alternative_names(), key.alternative@, i as int);
        let found = ctf.challenges[k as int].binaries[j as int].alternatives[i as int];
        assert(b.alternatives[i as int] == found@);
    }
    let ghost before = ctf@;
    ctf.challenges[k].binaries[j].alternatives[i].checksum = Some(checksum);
    proof {
        let after = with_checksum(before, key@, checksum@);
        let changed = ctf@.challenges[k as int].binaries[j as int];
        assert(changed.alternatives =~= after.challenges[k as int].binaries[j as int].alternatives);
        assert(ctf@.challenges[k as int].binaries =~= after.challenges[k as int].binaries);
        assert(ctf@.challenges =~= after.challenges);
        assert(ctf@.remotes =~= before.remotes);
    }
    true
}

/// How the checkout of one alternative ended: with a checksum to record,
/// with nothing to record, or with a failure.
pub type Outcome = Result<Option<Checksum>, CheckoutFailure>;

/// The catalog after the checksums among `results` were recorded, one
/// result after another.
pub open spec fn recorded(s: CatalogView, results: Seq<(Key, Outcome)>) -> CatalogView
    decreases results.len(),
{
    if results.len() == 0 {
        s
    } else {
        let before = recorded(s, results.drop_last());
        match results.last().1 {
            Ok(Some(checksum)) => with_checksum(before, results.last().0@, checksum@),
            _ => before,
        }
    }
}

/// What went wrong among `results`, in their order: every failure, and
/// every checksum for an alternative that the catalog does not hold.
pub open spec fn failures(s: CatalogView, results: Seq<(Key, Outcome)>) -> Seq<
    (Key, CheckoutFailure),
>
    decreases results.len(),
{
    if results.len() == 0 {
        Seq::empty()
    } else {
        let before = failures(s, results.drop_last());
        match results.last().1 {
            Ok(Some(_)) => if holds(recorded(s, results.drop_last()), results.last().0@) {
                before
            } else {
                before.push((results.last().0, CheckoutFailure::NotInCatalog))
            },
            Ok(None) => before,
            Err(failure) => before.push((results.last().0, failure)),
        }
    }
}

/// Some alternatives could not be checked out; with each of them and why.
/// The others were, and their checksums are recorded.
#[derive(Clone, Debug, PartialEq, Eq)]
pub struct PartialCheckoutError {
    pub failures: Vec<(Key, CheckoutFailure)>,
}

/// Updates the catalog after every unit of work has ended: each new
/// checksum is recorded with its alternative, whatever became of the other
/// units. The failures, where there are any, come back as one error.
pub fn record(ctf: &mut CTF, results: Vec<(Key, Outcome)>) -> (r: Result<(), PartialCheckoutError>)
    ensures
        final(ctf)@ == recorded(old(ctf)@, results@),
        old(ctf)@.well_formed() ==> final(ctf)@.well_formed(),
        match r {
            Ok(()) => failures(old(ctf)@, results@).len() == 0,
            Err(e) => e.failures@ == failures(old(ctf)@, results@) && e.failures@.len() > 0,
        },
{
    proof {
        if ctf@.well_formed() {
            crate::commands::invariants::recording_keeps_well_formed(ctf@, results@);
        }
    }
    let mut failed: Vec<(Key, CheckoutFailure)> = Vec::new();
    for result in it: results
        invariant
            ctf@ == recorded(old(ctf)@, results@.take(it.index() as int)),
            failed@ == failures(old(ctf)@, results@.take(it.index() as int)),
    {
        let ghost i = it.index() as int;
        proof {
            assert(results@.take(i + 1).drop_last() == results@.take(i));
            assert(results@.take(i + 1).last() == result);
        }
        let (key, outcome) = result;
        match outcome {
            Ok(Some(checksum)) => {
                if !set_checksum(ctf, &key, checksum) {
                    failed.push((key, CheckoutFailure::NotInCatalog));
                }
            },
            Ok(None) => {},
            Err(failure) => {
                failed.push((key, failure));
            },
        }
    }
    assert(results@.take(results@.len() as int) == results@);
    if failed.len() == 0 {
        Ok(())
    } else {
        Err(PartialCheckoutError { failures: failed })
    }
}

} // verus!
