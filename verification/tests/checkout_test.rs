use ctftool::commands::checkout::{
    checkout_challenge, record, select, set_checksum, step, Action, CheckoutFailure,
    ChecksumMismatchError, Event, Key, Outcome, Place, SelectError, Stage, Task,
};
use ctftool::ctf::{Binary, BinaryAlternative, Challenge, Checksum, LookupError, CTF};
use ctftool::digest::{hexdigest, Hasher};

const EMPTY_SHA256: &str = "e3b0c44298fc1c149afbf4c8996fb92427ae41e4649b934ca495991b7852b855";
const ABC_SHA256: &str = "ba7816bf8f01cfea414140de5dae2223b00361a396177a9cb410ff61f20015ad";

fn checksum(value: &str) -> Checksum {
    Checksum { algorithm: "sha256".to_string(), value: value.to_string() }
}

fn alternative(name: &str, url: Option<&str>, sum: Option<&str>) -> BinaryAlternative {
    BinaryAlternative {
        name: name.to_string(),
        url: url.map(|u| u.to_string()),
        checksum: sum.map(checksum),
    }
}

fn key(challenge: &str, binary: &str, alternative: &str) -> Key {
    Key {
        challenge: challenge.to_string(),
        binary: binary.to_string(),
        alternative: alternative.to_string(),
    }
}

fn catalog() -> CTF {
    CTF {
        name: "event".to_string(),
        remotes: vec![],
        challenges: vec![
            Challenge {
                name: "pwn-a".to_string(),
                description: String::new(),
                binaries: vec![
                    Binary {
                        name: "exe".to_string(),
                        alternatives: vec![
                            alternative("orig", Some("http://files/exe"), None),
                            alternative("patched", None, None),
                        ],
                        default_alternative: None,
                    },
                    Binary {
                        name: "lib".to_string(),
                        alternatives: vec![alternative("orig", None, Some(ABC_SHA256))],
                        default_alternative: None,
                    },
                ],
                services: vec![],
            },
            Challenge {
                name: "web-b".to_string(),
                description: String::new(),
                binaries: vec![Binary {
                    name: "src".to_string(),
                    alternatives: vec![alternative("orig", Some("http://files/src"), None)],
                    default_alternative: None,
                }],
                services: vec![],
            },
        ],
    }
}

#[test]
fn hexdigest_of_known_contents() {
    assert_eq!(hexdigest("sha256", &vec![]), Ok(EMPTY_SHA256.to_string()));
    assert_eq!(hexdigest("sha256", &vec![b"abc".to_vec()]), Ok(ABC_SHA256.to_string()));
    assert_eq!(
        hexdigest("sha256", &vec![b"a".to_vec(), vec![], b"bc".to_vec()]),
        Ok(ABC_SHA256.to_string())
    );
    let error = hexdigest("md5", &vec![b"abc".to_vec()]).unwrap_err();
    assert_eq!(error.message(), "Unsupported checksum algorithm: md5");
}

#[test]
fn hasher_takes_chunks() {
    let mut hasher = Hasher::new("sha256").unwrap();
    hasher.update(b"ab");
    hasher.update(b"c");
    assert_eq!(hasher.finish(), ABC_SHA256);
    assert!(Hasher::new("SHA256").is_err());
}

#[test]
fn current_file_needs_no_download() {
    let a = alternative("orig", Some("http://files/exe"), Some(ABC_SHA256));
    let (stage, action) = step(&a, Stage::Start, Event::Begin);
    assert_eq!(action, Action::Hash("sha256".to_string(), Place::Canonical));
    let (stage, action) = step(&a, stage, Event::Hashed(ABC_SHA256.to_string()));
    assert_eq!(stage, Stage::Finished);
    assert_eq!(action, Action::Finish(None));
}

#[test]
fn missing_file_is_fetched_and_recorded() {
    let a = alternative("orig", Some("http://files/exe"), None);
    let (stage, action) = step(&a, Stage::Start, Event::Begin);
    assert_eq!(action, Action::Download("http://files/exe".to_string()));
    let (stage, action) = step(&a, stage, Event::Downloaded);
    assert_eq!(action, Action::Hash("sha256".to_string(), Place::Temporary));
    let (stage, action) = step(&a, stage, Event::Hashed(ABC_SHA256.to_string()));
    assert_eq!(action, Action::Install);
    let (stage, action) = step(&a, stage, Event::Installed);
    assert_eq!(stage, Stage::Finished);
    assert_eq!(action, Action::Finish(Some(checksum(ABC_SHA256))));
}

#[test]
fn stale_file_is_replaced() {
    let a = alternative("orig", Some("http://files/exe"), Some(ABC_SHA256));
    let (stage, _) = step(&a, Stage::Start, Event::Begin);
    let (stage, action) = step(&a, stage, Event::Hashed(EMPTY_SHA256.to_string()));
    assert_eq!(action, Action::Download("http://files/exe".to_string()));
    let (stage, action) = step(&a, stage, Event::Downloaded);
    assert_eq!(action, Action::Hash("sha256".to_string(), Place::Temporary));
    let (stage, action) = step(&a, stage, Event::Hashed(ABC_SHA256.to_string()));
    assert_eq!(stage, Stage::Installing(None));
    assert_eq!(action, Action::Install);
    assert_eq!(step(&a, stage, Event::Installed), (Stage::Finished, Action::Finish(None)));
}

#[test]
fn mismatch_installs_nothing() {
    let a = alternative("orig", Some("http://files/exe"), Some(ABC_SHA256));
    let (stage, _) = step(&a, Stage::Start, Event::Begin);
    let (stage, _) = step(&a, stage, Event::HashFailed("no such file".to_string()));
    let (stage, _) = step(&a, stage, Event::Downloaded);
    let (stage, action) = step(&a, stage, Event::Hashed(EMPTY_SHA256.to_string()));
    assert_eq!(stage, Stage::Finished);
    assert_eq!(
        action,
        Action::Fail(CheckoutFailure::Mismatch(ChecksumMismatchError {
            algorithm: "sha256".to_string(),
            expected: ABC_SHA256.to_string(),
            actual: EMPTY_SHA256.to_string(),
        }))
    );
}

#[test]
fn nothing_to_do_without_checksum_and_address() {
    let a = alternative("orig", None, None);
    assert_eq!(step(&a, Stage::Start, Event::Begin), (Stage::Finished, Action::Finish(None)));
    let b = alternative("orig", None, Some(ABC_SHA256));
    let (stage, _) = step(&b, Stage::Start, Event::Begin);
    assert_eq!(
        step(&b, stage, Event::Hashed(EMPTY_SHA256.to_string())),
        (Stage::Finished, Action::Finish(None))
    );
}

#[test]
fn failures_end_the_unit() {
    let a = alternative("orig", Some("http://files/exe"), None);
    assert_eq!(
        step(&a, Stage::Downloading, Event::DownloadFailed("refused".to_string())),
        (Stage::Finished, Action::Fail(CheckoutFailure::Download("refused".to_string())))
    );
    assert_eq!(
        step(&a, Stage::Checking, Event::HashFailed("gone".to_string())),
        (Stage::Finished, Action::Fail(CheckoutFailure::Hash("gone".to_string())))
    );
    assert_eq!(
        step(&a, Stage::Installing(None), Event::InstallFailed("busy".to_string())),
        (Stage::Finished, Action::Fail(CheckoutFailure::Install("busy".to_string())))
    );
    assert_eq!(
        step(&a, Stage::Start, Event::Installed),
        (Stage::Finished, Action::Fail(CheckoutFailure::Unexpected))
    );
    assert_eq!(
        step(&a, Stage::Finished, Event::Begin),
        (Stage::Finished, Action::Fail(CheckoutFailure::Unexpected))
    );
}

#[test]
fn tasks_cover_every_alternative() {
    let ctf = catalog();
    let tasks = checkout_challenge(&ctf.challenges[0]);
    assert_eq!(
        tasks,
        vec![
            Task {
                key: key("pwn-a", "exe", "orig"),
                alternative: alternative("orig", Some("http://files/exe"), None)
            },
            Task { key: key("pwn-a", "exe", "patched"), alternative: alternative("patched", None, None) },
            Task {
                key: key("pwn-a", "lib", "orig"),
                alternative: alternative("orig", None, Some(ABC_SHA256))
            },
        ]
    );
}

#[test]
fn select_by_place_and_arguments() {
    let ctf = catalog();
    let names = |tasks: Vec<Task>| -> Vec<String> {
        tasks.into_iter().map(|t| format!("{}/{}.{}", t.key.challenge, t.key.binary, t.key.alternative)).collect()
    };
    let s = |items: &[&str]| -> Vec<String> { items.iter().map(|i| i.to_string()).collect() };
    assert_eq!(
        names(select(&ctf, &[], &[]).unwrap()),
        vec!["pwn-a/exe.orig", "pwn-a/exe.patched", "pwn-a/lib.orig", "web-b/src.orig"]
    );
    assert_eq!(
        names(select(&ctf, &[], &s(&["web-b", "web-b"])).unwrap()),
        vec!["web-b/src.orig", "web-b/src.orig"]
    );
    assert_eq!(names(select(&ctf, &s(&["web-b"]), &[]).unwrap()), vec!["web-b/src.orig"]);
    assert_eq!(
        select(&ctf, &[], &s(&["web-b", "nope"])),
        Err(SelectError::NoSuchChallenge(LookupError::NoSuchChallenge("nope".to_string())))
    );
    let in_challenge = select(&ctf, &s(&["web-b"]), &s(&["pwn-a"])).unwrap_err();
    assert_eq!(in_challenge, SelectError::ArgumentsInChallenge);
    assert_eq!(
        in_challenge.message(),
        "ctf checkout does not take arguments when called from challenge directory"
    );
    let deep = select(&ctf, &s(&["web-b", "sub"]), &[]).unwrap_err();
    assert_eq!(deep, SelectError::TooDeep);
    assert_eq!(deep.message(), "ctf checkout must be called from top or challenge directory");
}

#[test]
fn record_keeps_successes_and_reports_failures() {
    let mut ctf = catalog();
    let results: Vec<(Key, Outcome)> = vec![
        (key("pwn-a", "exe", "orig"), Ok(Some(checksum(ABC_SHA256)))),
        (key("pwn-a", "exe", "patched"), Ok(None)),
        (key("pwn-a", "lib", "orig"), Err(CheckoutFailure::Download("refused".to_string()))),
        (key("web-b", "src", "orig"), Ok(Some(checksum(EMPTY_SHA256)))),
        (key("web-b", "src", "gone"), Ok(Some(checksum(EMPTY_SHA256)))),
    ];
    let error = record(&mut ctf, results).unwrap_err();
    assert_eq!(
        error.failures,
        vec![
            (key("pwn-a", "lib", "orig"), CheckoutFailure::Download("refused".to_string())),
            (key("web-b", "src", "gone"), CheckoutFailure::NotInCatalog),
        ]
    );
    let mut expected = catalog();
    expected.challenges[0].binaries[0].alternatives[0].checksum = Some(checksum(ABC_SHA256));
    expected.challenges[1].binaries[0].alternatives[0].checksum = Some(checksum(EMPTY_SHA256));
    assert_eq!(ctf, expected);
    assert_eq!(record(&mut ctf, vec![(key("pwn-a", "exe", "patched"), Ok(None))]), Ok(()));
    assert_eq!(ctf, expected);
}

#[test]
fn set_checksum_needs_the_alternative() {
    let mut ctf = catalog();
    assert!(!set_checksum(&mut ctf, &key("pwn-a", "exe", "nope"), checksum("x")));
    assert!(!set_checksum(&mut ctf, &key("pwn-a", "nope", "orig"), checksum("x")));
    assert!(!set_checksum(&mut ctf, &key("nope", "exe", "orig"), checksum("x")));
    assert_eq!(ctf, catalog());
    assert!(set_checksum(&mut ctf, &key("pwn-a", "lib", "orig"), checksum("x")));
    assert_eq!(ctf.challenges[0].binaries[1].alternatives[0].checksum, Some(checksum("x")));
}
