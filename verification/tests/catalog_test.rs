use ctftool::ctf::{
    alternative_path, default_alternative_path, default_engine, find_alternative,
    find_alternative_mut, find_binary, find_binary_mut, find_challenge, find_challenge_mut,
    find_remote, find_remote_mut, gitignore, ignore, set_cookies, set_default_alternative,
    try_find_alternative_mut, try_find_binary_mut, Binary, BinaryAlternative, Challenge,
    Credentials, LookupError, Remote, RemoteCredentials, CTF,
};

fn alternative(name: &str) -> BinaryAlternative {
    BinaryAlternative { name: name.to_string(), url: None, checksum: None }
}

fn sample() -> CTF {
    CTF {
        name: "event".to_string(),
        remotes: vec![Remote {
            name: "origin".to_string(),
            url: "http://localhost.test".to_string(),
            engine: "auto".to_string(),
            rewrite_rules: vec![],
        }],
        challenges: vec![
            Challenge {
                name: "pwn-a".to_string(),
                description: "first".to_string(),
                binaries: vec![
                    Binary {
                        name: "exe".to_string(),
                        alternatives: vec![alternative("orig"), alternative("patched")],
                        default_alternative: Some("orig".to_string()),
                    },
                    Binary {
                        name: "lib".to_string(),
                        alternatives: vec![alternative("orig")],
                        default_alternative: None,
                    },
                ],
                services: vec![],
            },
            Challenge {
                name: "web-b".to_string(),
                description: String::new(),
                binaries: vec![],
                services: vec![],
            },
        ],
    }
}

#[test]
fn default_engine_is_auto() {
    assert_eq!(default_engine(), "auto");
}

#[test]
fn default_catalog_is_empty() {
    let ctf = CTF::default();
    assert_eq!(ctf.name, "");
    assert!(ctf.remotes.is_empty());
    assert!(ctf.challenges.is_empty());
    assert!(Credentials::default().remotes.is_empty());
}

#[test]
fn find_challenge_by_name() {
    let ctf = sample();
    assert_eq!(find_challenge(&ctf, "web-b").unwrap().name, "web-b");
    let missing = find_challenge(&ctf, "nope").unwrap_err();
    assert_eq!(missing, LookupError::NoSuchChallenge("nope".to_string()));
    assert_eq!(missing.message(), "No such challenge: nope");
}

#[test]
fn find_challenge_mut_changes_in_place() {
    let mut ctf = sample();
    find_challenge_mut(&mut ctf, "web-b").unwrap().description = "second".to_string();
    assert_eq!(ctf.challenges[1].description, "second");
    assert_eq!(ctf.challenges[0], sample().challenges[0]);
    assert!(find_challenge_mut(&mut ctf, "nope").is_err());
}

#[test]
fn find_binary_and_alternative() {
    let mut ctf = sample();
    let challenge = &mut ctf.challenges[0];
    assert_eq!(find_binary(challenge, "lib").unwrap().name, "lib");
    assert_eq!(
        find_binary(challenge, "nope").unwrap_err().message(),
        "No such binary: nope"
    );
    assert!(try_find_binary_mut(challenge, "nope").is_none());
    assert_eq!(try_find_binary_mut(challenge, "exe").unwrap().alternatives.len(), 2);
    let binary = find_binary_mut(challenge, "exe").unwrap();
    assert_eq!(find_alternative(binary, "patched").unwrap().name, "patched");
    assert_eq!(
        find_alternative(binary, "nope").unwrap_err().message(),
        "No such alternative: nope"
    );
    assert!(try_find_alternative_mut(binary, "nope").is_none());
    try_find_alternative_mut(binary, "patched").unwrap().url = Some("http://x".to_string());
    find_alternative_mut(binary, "orig").unwrap().url = Some("http://y".to_string());
    assert_eq!(binary.alternatives[0].url, Some("http://y".to_string()));
    assert_eq!(binary.alternatives[1].url, Some("http://x".to_string()));
    assert!(find_alternative_mut(binary, "nope").is_err());
    assert!(find_binary_mut(challenge, "nope").is_err());
}

#[test]
fn find_remote_by_name() {
    let mut ctf = sample();
    assert_eq!(find_remote(&ctf, "origin").unwrap().url, "http://localhost.test");
    assert_eq!(
        find_remote(&ctf, "other").unwrap_err().message(),
        "Remote other does not exist"
    );
    find_remote_mut(&mut ctf, "origin").unwrap().engine = "ctfd".to_string();
    assert_eq!(ctf.remotes[0].engine, "ctfd");
    assert!(find_remote_mut(&mut ctf, "other").is_err());
}

#[test]
fn set_cookies_replaces_or_appends() {
    let mut credentials = Credentials::default();
    set_cookies(&mut credentials, "origin".to_string(), "a".to_string());
    set_cookies(&mut credentials, "mirror".to_string(), "b".to_string());
    set_cookies(&mut credentials, "origin".to_string(), "c".to_string());
    assert_eq!(
        credentials.remotes,
        vec![
            RemoteCredentials { name: "origin".to_string(), cookies: "c".to_string() },
            RemoteCredentials { name: "mirror".to_string(), cookies: "b".to_string() },
        ]
    );
}

#[test]
fn ignore_lists_kept_files() {
    let lines = ignore(&sample());
    assert_eq!(
        lines,
        vec![
            "/*",
            "!/.ctf",
            "!/.gitignore",
            "!/pwn-a/",
            "/pwn-a/*",
            "!/pwn-a/docker-compose.yml",
            "!/pwn-a/image/",
            "!/pwn-a/exe",
            "!/pwn-a/exe.orig",
            "!/pwn-a/exe.patched",
            "!/pwn-a/lib.orig",
            "!/web-b/",
            "/web-b/*",
            "!/web-b/docker-compose.yml",
            "!/web-b/image/",
        ]
    );
    assert_eq!(ignore(&CTF::default()), vec!["/*", "!/.ctf", "!/.gitignore"]);
    assert_eq!(gitignore(&CTF::default()), "/*\n!/.ctf\n!/.gitignore\n");
}

#[test]
fn paths_of_alternatives() {
    assert_eq!(default_alternative_path("pwn-a", "exe"), vec!["pwn-a", "exe"]);
    assert_eq!(alternative_path("pwn-a", "exe", "orig"), vec!["pwn-a", "exe.orig"]);
}

#[test]
fn set_default_alternative_needs_the_alternative() {
    let mut ctf = sample();
    let binary = &mut ctf.challenges[0].binaries[1];
    assert_eq!(
        set_default_alternative(binary, "patched"),
        Err(LookupError::NoSuchAlternative("patched".to_string()))
    );
    assert_eq!(binary.default_alternative, None);
    assert_eq!(set_default_alternative(binary, "orig"), Ok(()));
    assert_eq!(binary.default_alternative, Some("orig".to_string()));
}
