use ctftool::commands::checkout::{record, select, step, Action, Event, Outcome, Place, Stage, Task};
use ctftool::commands::fetch::{needs_detection, run as run_fetch, Fetch};
use ctftool::commands::init::{run as run_init, Init};
use ctftool::commands::remote::{run as run_remote, Add, Remote, SubCommand};
use ctftool::ctf::{find_remote_mut, Binary, Checksum, Service, CTF};
use ctftool::digest::hexdigest;
use ctftool::engines::{ctfd, detect, get_engine, Engine};
use ctftool::extract::hosted_files_from_description;
use ctftool::http::{Header, Reply};
use ctftool::resolve::{download_url, resolve_step, Resolution};

const CONTENT: &[u8] = b"\x7fELF not really";

/// Resolves a hosted file against a platform that redirects once and then
/// names the file.
fn resolve(id: &str) -> Binary {
    let mut hops = 0;
    let mut url = download_url(id);
    loop {
        let reply = if url.ends_with("&confirm=t") {
            Reply {
                status: 200,
                location: Header::Absent,
                content_disposition: Header::Text(
                    "attachment;filename=\"chall.bin\";filename*=UTF-8''chall.bin".to_string(),
                ),
            }
        } else {
            Reply {
                status: 302,
                location: Header::Text(format!("{}&confirm=t", url)),
                content_disposition: Header::Absent,
            }
        };
        match resolve_step(id, hops, &reply) {
            Resolution::Follow(next) => {
                url = next;
                hops += 1;
            }
            Resolution::Done(binary) => return binary,
            Resolution::Failed(e) => panic!("{:?}", e),
        }
    }
}

fn fetch_snapshot() -> CTF {
    let listing = ctfd::Listing {
        success: true,
        data: vec![
            ctfd::ListedChallenge { id: 1, name: "Echo".to_string(), category: "pwn".to_string() },
            ctfd::ListedChallenge { id: 2, name: "Crack me".to_string(), category: "rev".to_string() },
        ],
    };
    let descriptions = [
        "Say hi: nc chal.example 1337 and get the flag",
        "Download https://drive.google.com/file/d/abc123/view and reverse it",
    ];
    let mut snapshot = CTF::default();
    for (listed, description) in ctfd::listed(listing).unwrap().iter().zip(descriptions) {
        let binaries: Vec<Binary> = hosted_files_from_description(description)
            .unwrap()
            .iter()
            .map(|id| resolve(id))
            .collect();
        let details = ctfd::Details { success: true, description: description.to_string() };
        snapshot.challenges.push(ctfd::challenge_from_details(listed, details, binaries).unwrap());
    }
    snapshot
}

/// Runs every task against a store that serves `CONTENT` at every address
/// and holds the files in `files`; counts the downloads.
fn checkout(ctf: &mut CTF, files: &mut Vec<(String, Vec<u8>)>) -> usize {
    let mut downloads = 0;
    let mut results: Vec<(ctftool::commands::checkout::Key, Outcome)> = vec![];
    for Task { key, alternative } in select(ctf, &[], &[]).unwrap() {
        let path = format!("{}/{}.{}", key.challenge, key.binary, key.alternative);
        let mut temporary: Option<Vec<u8>> = None;
        let (mut stage, mut action) = step(&alternative, Stage::Start, Event::Begin);
        let outcome = loop {
            let event = match action {
                Action::Hash(algorithm, place) => {
                    let content = match place {
                        Place::Canonical => {
                            files.iter().find(|(p, _)| *p == path).map(|(_, c)| c.clone())
                        }
                        Place::Temporary => temporary.clone(),
                    };
                    match content {
                        Some(c) => Event::Hashed(hexdigest(&algorithm, &vec![c]).unwrap()),
                        None => Event::HashFailed("no such file".to_string()),
                    }
                }
                Action::Download(_) => {
                    downloads += 1;
                    temporary = Some(CONTENT.to_vec());
                    Event::Downloaded
                }
                Action::Install => {
                    files.retain(|(p, _)| *p != path);
                    files.push((path.clone(), temporary.take().unwrap()));
                    Event::Installed
                }
                Action::Finish(checksum) => break Ok(checksum),
                Action::Fail(failure) => break Err(failure),
            };
            let next = step(&alternative, stage, event);
            stage = next.0;
            action = next.1;
        };
        results.push((key, outcome));
    }
    record(ctf, results).unwrap();
    downloads
}

#[test]
fn fetch_then_checkout_twice() {
    let mut ctf = run_init(Init {}, Some("event")).unwrap();
    let add = Remote {
        subcmd: SubCommand::Add(Add {
            name: "origin".to_string(),
            url: "http://ctf.example".to_string(),
        }),
    };
    run_remote(add, &mut ctf).unwrap();
    let remote = find_remote_mut(&mut ctf, "origin").unwrap();
    assert!(needs_detection(remote));
    remote.engine = detect("<html><small>Powered by CTFd</small></html>").unwrap();
    assert_eq!(get_engine(&remote.engine).unwrap().id(), "ctfd");

    run_fetch(Fetch::default(), &mut ctf, fetch_snapshot());
    assert_eq!(ctf.challenges.len(), 2);
    assert_eq!(ctf.challenges[0].name, "pwn-Echo");
    assert_eq!(
        ctf.challenges[0].services,
        vec![Service { name: None, url: Some("nc://chal.example:1337".to_string()) }]
    );
    assert!(ctf.challenges[0].binaries.is_empty());
    assert_eq!(ctf.challenges[1].name, "rev-Crack_me");
    assert_eq!(ctf.challenges[1].binaries.len(), 1);
    let binary = &ctf.challenges[1].binaries[0];
    assert_eq!(binary.name, "chall.bin");
    assert_eq!(binary.alternatives.len(), 1);
    assert_eq!(
        binary.alternatives[0].url,
        Some("https://drive.google.com/uc?export=download&id=abc123".to_string())
    );
    assert_eq!(binary.alternatives[0].checksum, None);

    let fetched_once = ctf.clone();
    run_fetch(Fetch::default(), &mut ctf, fetch_snapshot());
    assert_eq!(ctf, fetched_once);

    let mut files = vec![];
    assert_eq!(checkout(&mut ctf, &mut files), 1);
    assert_eq!(files, vec![("rev-Crack_me/chall.bin.orig".to_string(), CONTENT.to_vec())]);
    assert_eq!(
        ctf.challenges[1].binaries[0].alternatives[0].checksum,
        Some(Checksum {
            algorithm: "sha256".to_string(),
            value: hexdigest("sha256", &vec![CONTENT.to_vec()]).unwrap(),
        })
    );
    let checked_out = ctf.clone();
    assert_eq!(checkout(&mut ctf, &mut files), 0);
    assert_eq!(ctf, checked_out);
}
