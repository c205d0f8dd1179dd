//! The platforms that a catalog can be mirrored from: a closed set of
//! adapters, found by name or by the page that a remote serves.

use vstd::prelude::*;
use crate::engines::auth::status_words;
use crate::http::is_failure;
use crate::text::{contains, join2, occurs};

pub mod auth;
pub mod ctfd;
pub mod insomnihack;
pub mod watevr;

verus! {

/// An adapter for one kind of platform.
pub trait Engine {
    /// The name that a remote's `engine` field holds for this adapter.
    spec fn id_spec(&self) -> Seq<char>;

    /// A text that only the main page of this kind of platform holds.
    spec fn fingerprint_spec(&self) -> Seq<char>;

    fn id(&self) -> (r: &'static str)
        ensures
            r@ == self.id_spec(),
    ;

    fn fingerprint(&self) -> (r: &'static str)
        ensures
            r@ == self.fingerprint_spec(),
    ;

    /// Whether `main_page` is the main page of this kind of platform: it is
    /// where it holds the fingerprint.
    fn detect(&self, main_page: &str) -> (r: Result<(), DetectFailure>)
        ensures
            r is Ok <==> occurs(main_page@, self.fingerprint_spec()),
            r is Err ==> r->Err_0.engine@ == self.id_spec() && r->Err_0.fingerprint@
                == self.fingerprint_spec(),
    ;
}

/// Why one adapter did not take a page for its own: the page does not hold
/// the adapter's fingerprint.
#[derive(Clone, Debug, PartialEq, Eq)]
pub struct DetectFailure {
    pub engine: String,
    pub fingerprint: String,
}

impl DetectFailure {
    /// The failure in words.
    pub fn message(&self) -> (r: String)
        ensures
            r@ == self.engine@ + ": the main page does not contain \""@ + self.fingerprint@
                + "\""@,
    {
        let mut r = join2(self.engine.as_str(), ": the main page does not contain \"");
        r.append(self.fingerprint.as_str());
        r.append("\"");
        r
    }
}

/// Whether `main_page` holds `needle`: the check that every adapter's
/// `detect` makes, with its own fingerprint.
pub fn detect_needle(engine: &str, main_page: &str, needle: &str) -> (r: Result<
    (),
    DetectFailure,
>)
    ensures
        r is Ok <==> occurs(main_page@, needle@),
        r is Err ==> r->Err_0.engine@ == engine@ && r->Err_0.fingerprint@ == needle@,
{
    if contains(main_page, needle) {
        Ok(())
    } else {
        Err(DetectFailure { engine: engine.to_owned(), fingerprint: needle.to_owned() })
    }
}

/// One of the adapters.
#[derive(Clone, Copy, Debug, PartialEq, Eq)]
pub enum AnyEngine {
    Ctfd(ctfd::CtfdEngine),
    InsomniHack(insomnihack::InsomniHackEngine),
    Watevr(watevr::WatevrEngine),
}

/// How many adapters there are.
pub const ENGINES: usize = 3;

/// The name of the adapter at position `k` of the registry.
pub open spec fn engine_id(k: int) -> Seq<char> {
    if k == 0 {
        ctfd::ID@
    } else if k == 1 {
        insomnihack::ID@
    } else {
        watevr::ID@
    }
}

/// The fingerprint of the adapter at position `k` of the registry.
pub open spec fn engine_fingerprint(k: int) -> Seq<char> {
    if k == 0 {
        ctfd::FINGERPRINT@
    } else if k == 1 {
        insomnihack::FINGERPRINT@
    } else {
        watevr::FINGERPRINT@
    }
}

impl Engine for AnyEngine {
    open spec fn id_spec(&self) -> Seq<char> {
        match self {
            AnyEngine::Ctfd(e) => e.id_spec(),
            AnyEngine::InsomniHack(e) => e.id_spec(),
            AnyEngine::Watevr(e) => e.id_spec(),
        }
    }

    open spec fn fingerprint_spec(&self) -> Seq<char> {
        match self {
            AnyEngine::Ctfd(e) => e.fingerprint_spec(),
            AnyEngine::InsomniHack(e) => e.fingerprint_spec(),
            AnyEngine::Watevr(e) => e.fingerprint_spec(),
        }
    }

    fn id(&self) -> (r: &'static str) {
        match self {
            AnyEngine::Ctfd(e) => e.id(),
            AnyEngine::InsomniHack(e) => e.id(),
            AnyEngine::Watevr(e) => e.id(),
        }
    }

    fn fingerprint(&self) -> (r: &'static str) {
        match self {
            AnyEngine::Ctfd(e) => e.fingerprint(),
            AnyEngine::InsomniHack(e) => e.fingerprint(),
            AnyEngine::Watevr(e) => e.fingerprint(),
        }
    }

    fn detect(&self, main_page: &str) -> (r: Result<(), DetectFailure>) {
        match self {
            AnyEngine::Ctfd(e) => e.detect(main_page),
            AnyEngine::InsomniHack(e) => e.detect(main_page),
            AnyEngine::Watevr(e) => e.detect(main_page),
        }
    }
}

/// No adapter goes by the name.
#[derive(Clone, Debug, PartialEq, Eq)]
pub struct UnsupportedEngine {
    pub name: String,
}

impl UnsupportedEngine {
    /// The error in words.
    pub fn message(&self) -> (r: String)
        ensures
            r@ == "Unsupported engine: "@ + self.name@,
    {
        join2("Unsupported engine: ", self.name.as_str())
    }
}

/// Every adapter there is, in the order of the registry.
pub open spec fn all_adapters() -> Seq<AnyEngine> {
    seq![
        AnyEngine::Ctfd(ctfd::CtfdEngine {  }),
        AnyEngine::InsomniHack(insomnihack::InsomniHackEngine {  }),
        AnyEngine::Watevr(watevr::WatevrEngine {  }),
    ]
}

/// The adapters, in the order in which they are asked about a page. It is
/// built once and handed to whatever looks an adapter up.
pub struct Registry {
    engines: Vec<AnyEngine>,
}

impl Registry {
    #[verifier::type_invariant]
    spec fn complete(&self) -> bool {
        &&& self.engines@.len() == ENGINES
        &&& forall|k: int|
            0 <= k < ENGINES ==> (#[trigger] self.engines@[k]).id_spec() == engine_id(k)
                && self.engines@[k].fingerprint_spec() == engine_fingerprint(k)
    }

    /// The adapters that the registry holds, in the order in which they are
    /// asked about a page.
    pub closed spec fn adapters(&self) -> Seq<AnyEngine> {
        self.engines@
    }

    /// The registry of all adapters: the one for CTFd, the one for
    /// Insomni'hack and the one for watevrCTF, in this order.
    pub fn new() -> (r: Registry)
        ensures
            r.adapters() == all_adapters(),
    {
        let mut engines: Vec<AnyEngine> = Vec::new();
        engines.push(AnyEngine::Ctfd(ctfd::CtfdEngine {  }));
        engines.push(AnyEngine::InsomniHack(insomnihack::InsomniHackEngine {  }));
        engines.push(AnyEngine::Watevr(watevr::WatevrEngine {  }));
        assert(engines@ =~= all_adapters());
        Registry { engines }
    }

    /// The adapter called `name`.
    pub fn get_engine(&self, name: &str) -> (r: Result<AnyEngine, UnsupportedEngine>)
        ensures
            found_by_name(name@, r),
    {
        proof {
            use_type_invariant(self);
        }
        let mut k: usize = 0;
        while k < self.engines.len()
            invariant
                k <= ENGINES,
                self.engines@.len() == ENGINES,
                forall|j: int|
                    0 <= j < ENGINES ==> (#[trigger] self.engines@[j]).id_spec() == engine_id(j),
                forall|j: int| 0 <= j < k ==> #[trigger] engine_id(j) != name@,
            decreases ENGINES - k,
        {
            let e = self.engines[k];
            if e.id().eq(name) {
                return Ok(e);
            }
            k += 1;
        }
        Err(UnsupportedEngine { name: name.to_owned() })
    }

    /// Finds the adapter for the platform that serves `main_page`: the
    /// first of the registry whose fingerprint the page holds. Where the
    /// page holds none, the error names every adapter with its reason. A
    /// page that holds the fingerprint of one adapter only is that
    /// adapter's.
    pub fn detect(&self, main_page: &str) -> (r: Result<String, DetectionError>)
        ensures
            detected(main_page@, r),
            forall|k: int|
                0 <= k < ENGINES && occurs(main_page@, #[trigger] engine_fingerprint(k))
                    && (forall|j: int|
                    0 <= j < ENGINES && j != k ==> !occurs(
                        main_page@,
                        #[trigger] engine_fingerprint(j),
                    )) ==> r is Ok && r->Ok_0@ == engine_id(k),
    {
        proof {
            use_type_invariant(self);
        }
        let mut failures: Vec<DetectFailure> = Vec::new();
        let mut k: usize = 0;
        while k < self.engines.len()
            invariant
                k <= ENGINES,
                self.engines@.len() == ENGINES,
                forall|j: int|
                    0 <= j < ENGINES ==> (#[trigger] self.engines@[j]).id_spec() == engine_id(j)
                        && self.engines@[j].fingerprint_spec() == engine_fingerprint(j),
                all_failed(failures@, k as int),
                forall|j: int| 0 <= j < k ==> !occurs(main_page@, #[trigger] engine_fingerprint(j)),
            decreases ENGINES - k,
        {
            let e = self.engines[k];
            match e.detect(main_page) {
                Ok(()) => {
                    assert(occurs(main_page@, engine_fingerprint(k as int)));
                    return Ok(e.id().to_owned());
                },
                Err(failure) => {
                    assert(!occurs(main_page@, engine_fingerprint(k as int)));
                    failures.push(failure);
                },
            }
            k += 1;
        }
        Err(DetectionError::NoMatch(failures))
    }

    /// Finds the adapter for the platform behind a remote, from the
    /// response to the request for its main page. A response that reports
    /// a failure is a failure of the transport.
    pub fn detect_response(&self, status: u16, main_page: &str) -> (r: Result<
        String,
        DetectionError,
    >)
        ensures
            if is_failure(status) {
                r is Err && r->Err_0 is Transport && r->Err_0->Transport_0@ == status_words(status)
            } else {
                detected(main_page@, r)
            },
    {
        if status >= 400 && status < 600 {
            Err(
                DetectionError::Transport(
                    join2("HTTP status ", crate::text::i32_to_string(status as i32).as_str()),
                ),
            )
        } else {
            self.detect(main_page)
        }
    }
}

/// What looking an adapter up by name comes to: the adapter of that name,
/// or an error where none goes by it.
pub open spec fn found_by_name(name: Seq<char>, r: Result<AnyEngine, UnsupportedEngine>) -> bool {
    match r {
        Ok(e) => e.id_spec() == name,
        Err(e) => e.name@ == name && forall|k: int|
            0 <= k < ENGINES ==> #[trigger] engine_id(k) != name,
    }
}

/// The adapter called `name`.
pub fn get_engine(name: &str) -> (r: Result<AnyEngine, UnsupportedEngine>)
    ensures
        found_by_name(name@, r),
{
    Registry::new().get_engine(name)
}

/// Why the platform behind a remote was not recognized.
#[derive(Clone, Debug, PartialEq, Eq)]
pub enum DetectionError {
    /// The main page could not be fetched; with the reason.
    Transport(String),
    /// No adapter took the page for its own; with each adapter's reason, in
    /// the order of the registry.
    NoMatch(Vec<DetectFailure>),
}

/// `failures` holds the reason of each of the first `n` adapters.
pub open spec fn all_failed(failures: Seq<DetectFailure>, n: int) -> bool {
    &&& failures.len() == n
    &&& forall|k: int|
        0 <= k < n ==> (#[trigger] failures[k]).engine@ == engine_id(k) && failures[k].fingerprint@
            == engine_fingerprint(k)
}

/// What detection comes to, for a main page: the first adapter of the
/// registry whose fingerprint the page holds, or else an error that names
/// every adapter with its reason.
pub open spec fn detected(main_page: Seq<char>, r: Result<String, DetectionError>) -> bool {
    match r {
        Ok(id) => exists|k: int|
            0 <= k < ENGINES && id@ == engine_id(k) && occurs(
                main_page,
                #[trigger] engine_fingerprint(k),
            ) && forall|j: int| 0 <= j < k ==> !occurs(main_page, #[trigger] engine_fingerprint(j)),
        Err(e) => e is NoMatch && all_failed(e->NoMatch_0@, ENGINES as int) && forall|k: int|
            0 <= k < ENGINES ==> !occurs(main_page, #[trigger] engine_fingerprint(k)),
    }
}

/// Finds the adapter for the platform that serves `main_page`, among all
/// adapters.
pub fn detect(main_page: &str) -> (r: Result<String, DetectionError>)
    ensures
        detected(main_page@, r),
        forall|k: int|
            0 <= k < ENGINES && occurs(main_page@, #[trigger] engine_fingerprint(k)) && (forall|
                j: int,
            |
                0 <= j < ENGINES && j != k ==> !occurs(main_page@, #[trigger] engine_fingerprint(j)))
                ==> r is Ok && r->Ok_0@ == engine_id(k),
{
    Registry::new().detect(main_page)
}

/// Finds the adapter for the platform behind a remote, among all adapters,
/// from the response to the request for its main page.
pub fn detect_response(status: u16, main_page: &str) -> (r: Result<String, DetectionError>)
    ensures
        if is_failure(status) {
            r is Err && r->Err_0 is Transport && r->Err_0->Transport_0@ == status_words(status)
        } else {
            detected(main_page@, r)
        },
{
    Registry::new().detect_response(status, main_page)
}

/// Why a listing could not be fetched.
#[derive(Clone, Debug, PartialEq, Eq)]
pub enum FetchError {
    /// A response reports a failure.
    Status(u16),
    /// A response is not of the shape that the adapter expects; with what
    /// is wrong.
    Schema(String),
    /// The platform answers that it cannot serve the request; with what
    /// was asked for.
    Unsuccessful(String),
    /// An address could not be built.
    Url(crate::address::UrlError),
    /// A pattern does not compile.
    Pattern(crate::pattern::PatternError),
    /// A request failed; with the reason.
    Transport(String),
}

/// Whether a response can be read on: one that reports a failure cannot.
pub fn check_status(status: u16) -> (r: Result<(), FetchError>)
    ensures
        match r {
            Ok(()) => !is_failure(status),
            Err(e) => is_failure(status) && e == FetchError::Status(status),
        },
{
    if status >= 400 && status < 600 {
        Err(FetchError::Status(status))
    } else {
        Ok(())
    }
}

} // verus!
