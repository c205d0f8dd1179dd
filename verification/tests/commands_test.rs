use ctftool::commands::binary::{
    add_binary, add_message, alternatives_to_string, make_default, remove_alternative,
    remove_binaries, remove_message, show as show_binaries, split, try_add_alternative, Added,
    BinaryError, FullBinaryAlternativeName, Removed, ShownAlternative,
};
use ctftool::commands::challenge::{
    run as run_challenge, Add as AddChallenge, Challenge as ChallengeCommand, ChallengeError,
    Rm as RmChallenge, SetDescription, Show as ShowChallenges, SubCommand as ChallengeSub,
};
use ctftool::commands::docker::{
    build_args, describe, down_command, exec_command, init_message, remove_image_command,
    up_command, Exec,
};
use ctftool::commands::fetch::{
    adopt_engine, cookies_for, needs_detection, run as run_fetch, Fetch,
};
use ctftool::commands::init::{run as run_init, Init};
use ctftool::commands::login::{run as run_login, Login};
use ctftool::commands::remote::{
    run as run_remote, Add as AddRemote, GetEngine, Remote as RemoteCommand, RemoteError,
    Rm as RmRemote, SetEngine, Show as ShowRemotes, SubCommand as RemoteSub,
};
use ctftool::commands::service::{
    run as run_service, Add as AddService, Rm as RmService, Service as ServiceCommand,
    ServiceError, SetUrl, Show as ShowServices, SubCommand as ServiceSub,
};
use ctftool::commands::{sole_position, Report};
use ctftool::ctf::{Binary, BinaryAlternative, Challenge, Credentials, Remote, Service, CTF};
use ctftool::distro::{get_packages, merge_packages_variants, Packages};

fn committed(message: &str) -> Report {
    Report { lines: vec![], commit: Some(message.to_string()) }
}

fn printed(lines: &[&str]) -> Report {
    Report { lines: lines.iter().map(|l| l.to_string()).collect(), commit: None }
}

fn remote(subcmd: RemoteSub) -> RemoteCommand {
    RemoteCommand { subcmd }
}

fn challenge(subcmd: ChallengeSub) -> ChallengeCommand {
    ChallengeCommand { subcmd }
}

fn service(subcmd: ServiceSub) -> ServiceCommand {
    ServiceCommand { subcmd }
}

fn full(challenge: &str, binary: &str, alternative: &str) -> FullBinaryAlternativeName {
    FullBinaryAlternativeName {
        challenge_name: challenge.to_string(),
        binary_name: binary.to_string(),
        alternative_name: alternative.to_string(),
    }
}

fn bare(name: &str) -> BinaryAlternative {
    BinaryAlternative { name: name.to_string(), url: None, checksum: None }
}

fn empty_challenge(name: &str) -> Challenge {
    Challenge { name: name.to_string(), description: String::new(), binaries: vec![], services: vec![] }
}

#[test]
fn test_init() {
    let ctf = run_init(Init {}, Some("ctf")).unwrap();
    assert_eq!(ctf, CTF { name: "ctf".to_string(), remotes: vec![], challenges: vec![] });
    let error = run_init(Init {}, None).unwrap_err();
    assert_eq!(error.message(), "Could not obtain the name of the current directory");
}

#[test]
fn test_remote() {
    let mut ctf = run_init(Init {}, Some("ctf")).unwrap();
    assert_eq!(run_remote(remote(RemoteSub::Show(ShowRemotes {})), &mut ctf), Ok(printed(&[])));
    let url = "http://localhost.test";
    let add = || {
        remote(RemoteSub::Add(AddRemote { name: "origin".to_string(), url: url.to_string() }))
    };
    assert_eq!(
        run_remote(add(), &mut ctf),
        Ok(committed("Add remote origin pointing to http://localhost.test"))
    );
    assert!(run_remote(add(), &mut ctf).is_err());
    assert_eq!(
        run_remote(remote(RemoteSub::Show(ShowRemotes {})), &mut ctf),
        Ok(printed(&["origin"]))
    );
    let rm = || remote(RemoteSub::Rm(RmRemote { name: "origin".to_string() }));
    assert_eq!(run_remote(rm(), &mut ctf), Ok(committed("Remove remote origin")));
    assert!(run_remote(rm(), &mut ctf).is_err());
    assert!(ctf.remotes.is_empty());
}

#[test]
fn remote_engine_is_kept() {
    let mut ctf = run_init(Init {}, Some("ctf")).unwrap();
    let add = remote(RemoteSub::Add(AddRemote {
        name: "origin".to_string(),
        url: "http://localhost.test".to_string(),
    }));
    run_remote(add, &mut ctf).unwrap();
    assert_eq!(
        ctf.remotes,
        vec![Remote {
            name: "origin".to_string(),
            url: "http://localhost.test".to_string(),
            engine: "auto".to_string(),
            rewrite_rules: vec![],
        }]
    );
    assert!(needs_detection(&ctf.remotes[0]));
    let mut detected = ctf.remotes[0].clone();
    adopt_engine(&mut detected, "watevr".to_string());
    assert_eq!(detected.engine, "watevr");
    assert_eq!(detected.url, "http://localhost.test");
    assert!(!needs_detection(&detected));
    let get = || remote(RemoteSub::GetEngine(GetEngine { name: "origin".to_string() }));
    assert_eq!(run_remote(get(), &mut ctf), Ok(printed(&["auto"])));
    let set = remote(RemoteSub::SetEngine(SetEngine {
        name: "origin".to_string(),
        engine: "ctfd".to_string(),
    }));
    assert_eq!(run_remote(set, &mut ctf), Ok(committed("Set remote origin engine to ctfd")));
    assert_eq!(run_remote(get(), &mut ctf), Ok(printed(&["ctfd"])));
    assert!(!needs_detection(&ctf.remotes[0]));
    let missing = remote(RemoteSub::GetEngine(GetEngine { name: "mirror".to_string() }));
    let error = run_remote(missing, &mut ctf).unwrap_err();
    assert_eq!(error, RemoteError::DoesNotExist("mirror".to_string()));
    assert_eq!(error.message(), "Remote mirror does not exist");
    assert_eq!(
        RemoteError::AlreadyExists("origin".to_string()).message(),
        "Remote origin already exists"
    );
}

#[test]
fn test_challenge() {
    let mut ctf = run_init(Init {}, Some("ctf")).unwrap();
    let show = || challenge(ChallengeSub::Show(ShowChallenges {}));
    let add = || challenge(ChallengeSub::Add(AddChallenge { name: "test".to_string() }));
    let rm = || challenge(ChallengeSub::Rm(RmChallenge { name: "test".to_string() }));
    /* No challenges yet. */
    assert_eq!(run_challenge(show(), &mut ctf, false), Ok(printed(&[])));
    /* Cannot delete non-existent challenge. */
    assert!(run_challenge(rm(), &mut ctf, false).is_err());
    /* Cannot add a challenge unless there is a directory. */
    assert!(run_challenge(add(), &mut ctf, false).is_err());
    /* Create a directory and add a challenge. */
    assert_eq!(run_challenge(add(), &mut ctf, true), Ok(committed("Add challenge test")));
    let describe = challenge(ChallengeSub::SetDescription(SetDescription {
        name: "test".to_string(),
        description: "test description".to_string(),
    }));
    assert_eq!(
        run_challenge(describe, &mut ctf, true),
        Ok(committed("Set challenge test description to test description"))
    );
    /* One challenge. */
    assert_eq!(
        run_challenge(show(), &mut ctf, true),
        Ok(printed(&["test - test description"]))
    );
    assert_eq!(
        run_challenge(add(), &mut ctf, true),
        Err(ChallengeError::AlreadyExists("test".to_string()))
    );
    /* Delete the challenge. */
    assert_eq!(run_challenge(rm(), &mut ctf, true), Ok(committed("Remove challenge test")));
    /* No challenges. */
    assert!(ctf.challenges.is_empty());
    /* Add the challenge again. */
    assert!(run_challenge(add(), &mut ctf, true).is_ok());
    assert_eq!(ctf.challenges, vec![empty_challenge("test")]);
}

#[test]
fn challenge_errors_in_words() {
    assert_eq!(
        ChallengeError::AlreadyExists("a".to_string()).message(),
        "Challenge a already exists"
    );
    assert_eq!(ChallengeError::NoDirectory("a".to_string()).message(), "Directory a does not exist");
    assert_eq!(ChallengeError::DoesNotExist("a".to_string()).message(), "Challenge a does not exist");
    assert_eq!(ChallengeError::NoSuchChallenge("a".to_string()).message(), "No such challenge: a");
    let mut ctf = run_init(Init {}, Some("ctf")).unwrap();
    let describe = challenge(ChallengeSub::SetDescription(SetDescription {
        name: "a".to_string(),
        description: "d".to_string(),
    }));
    assert_eq!(
        run_challenge(describe, &mut ctf, true),
        Err(ChallengeError::NoSuchChallenge("a".to_string()))
    );
}

#[test]
fn test_service() {
    let mut chal = empty_challenge("chal");
    let show = || service(ServiceSub::Show(ShowServices {}));
    assert_eq!(run_service(show(), &mut chal), Ok(printed(&[])));
    let add = |url: &str| {
        service(ServiceSub::Add(AddService { name: "default".to_string(), url: url.to_string() }))
    };
    assert_eq!(
        run_service(add("http://1.2.3.4:5678"), &mut chal),
        Ok(committed("Add service default to challenge chal"))
    );
    assert!(run_service(add("http://1.2.3.4:5678"), &mut chal).is_err());
    let set = service(ServiceSub::SetUrl(SetUrl {
        name: "default".to_string(),
        url: "http://9.10.11.12:1314".to_string(),
    }));
    assert_eq!(
        run_service(set, &mut chal),
        Ok(committed("Set service default URL to http://9.10.11.12:1314 in challenge chal"))
    );
    assert_eq!(
        run_service(show(), &mut chal),
        Ok(printed(&["default - http://9.10.11.12:1314"]))
    );
    let rm = || service(ServiceSub::Rm(RmService { name: "default".to_string() }));
    assert_eq!(
        run_service(rm(), &mut chal),
        Ok(committed("Remove service default from challenge chal"))
    );
    assert!(run_service(rm(), &mut chal).is_err());
}

#[test]
fn unnamed_services_are_shown_and_kept() {
    let mut chal = empty_challenge("chal");
    chal.services.push(Service { name: None, url: Some("nc://h:1".to_string()) });
    chal.services.push(Service { name: Some("web".to_string()), url: None });
    let show = service(ServiceSub::Show(ShowServices {}));
    assert_eq!(
        run_service(show, &mut chal),
        Ok(printed(&["<none> - nc://h:1", "web - <none>"]))
    );
    let set = service(ServiceSub::SetUrl(SetUrl { name: "api".to_string(), url: "u".to_string() }));
    let error = run_service(set, &mut chal).unwrap_err();
    assert_eq!(error, ServiceError::NoSuchService("api".to_string()));
    assert_eq!(error.message(), "No such service: api");
    assert_eq!(
        ServiceError::AlreadyExists("web".to_string()).message(),
        "Service web already exists"
    );
    assert_eq!(
        ServiceError::DoesNotExist("web".to_string()).message(),
        "Service web does not exist"
    );
    assert_eq!(chal.services.len(), 2);
}

#[test]
fn test_binary() {
    let mut chal = empty_challenge("chal");
    let bytes = b"GCC: (Ubuntu 11.3.0-1ubuntu1~22.04) 11.3.0";
    let added = add_binary(&mut chal, "exe".to_string());
    assert_eq!(added, Added { name: full("chal", "exe", "orig"), copy_original: true });
    let mut variants = vec![];
    for _binary in &chal.binaries {
        if let Some(packages) = get_packages(bytes).unwrap() {
            variants.push(packages);
        }
    }
    let args = build_args(&merge_packages_variants(variants));
    assert_eq!(args[1], ("distro".to_string(), "ubuntu:22.04".to_string()));
    let removed = remove_alternative(&mut chal, "exe.orig").unwrap();
    assert_eq!(removed, Removed { name: full("chal", "exe", "orig"), was_default: true });
    assert!(chal.binaries.is_empty());
    let args = build_args(&merge_packages_variants(vec![]));
    assert_eq!(args[1], ("distro".to_string(), "ubuntu:latest".to_string()));
}

#[test]
fn split_at_the_last_dot() {
    assert_eq!(split("exe.orig"), Ok(("exe".to_string(), "orig".to_string())));
    assert_eq!(split("libc.so.6.patched"), Ok(("libc.so.6".to_string(), "patched".to_string())));
    assert_eq!(split("exe."), Ok(("exe".to_string(), String::new())));
    assert_eq!(split(".hidden"), Ok((String::new(), "hidden".to_string())));
    let error = split("exe").unwrap_err();
    assert_eq!(error, BinaryError::NotInFormat("exe".to_string()));
    assert_eq!(error.message(), "Binary name exe is not in binary.alternative format");
}

#[test]
fn try_add_alternative_cuts_at_a_known_binary() {
    let mut chal = empty_challenge("chal");
    add_binary(&mut chal, "libc.so.6".to_string());
    assert_eq!(try_add_alternative(&mut chal, "libc"), None);
    assert_eq!(try_add_alternative(&mut chal, ""), None);
    assert_eq!(try_add_alternative(&mut chal, "libc.so"), None);
    assert_eq!(
        try_add_alternative(&mut chal, "libc.so.6.patched"),
        Some(full("chal", "libc.so.6", "patched"))
    );
    assert_eq!(
        try_add_alternative(&mut chal, "libc.so.6"),
        Some(full("chal", "libc.so.6", "orig"))
    );
    assert_eq!(
        try_add_alternative(&mut chal, "libc.so.6."),
        Some(full("chal", "libc.so.6", ""))
    );
    assert_eq!(
        chal.binaries,
        vec![Binary {
            name: "libc.so.6".to_string(),
            alternatives: vec![bare("orig"), bare("patched"), bare("")],
            default_alternative: Some("orig".to_string()),
        }]
    );
    assert_eq!(
        add_binary(&mut chal, "libc.so.6.patched".to_string()),
        Added { name: full("chal", "libc.so.6", "patched"), copy_original: false }
    );
    assert_eq!(chal.binaries[0].alternatives.len(), 3);
}

#[test]
fn alternatives_are_enumerated() {
    let a = full("c", "exe", "orig");
    let b = full("c", "exe", "patched");
    let c = full("c", "lib", "orig");
    let d = full("d", "x", "y");
    assert_eq!(a.to_text(), "c/exe.orig");
    assert_eq!(alternatives_to_string("Add ".to_string(), &[]), "Add ");
    assert_eq!(add_message(&[a.clone()]), "Add c/exe.orig");
    assert_eq!(add_message(&[a.clone(), b.clone()]), "Add c/exe.orig and c/exe.patched");
    assert_eq!(
        remove_message(&[a.clone(), b.clone(), c.clone()]),
        "Remove c/exe.orig, c/exe.patched, and c/lib.orig"
    );
    assert_eq!(
        add_message(&[a, b, c, d]),
        "Add c/exe.orig, c/exe.patched, c/lib.orig, and d/x.y"
    );
}

#[test]
fn binaries_are_shown_with_their_default() {
    let mut chal = empty_challenge("chal");
    add_binary(&mut chal, "exe".to_string());
    add_binary(&mut chal, "exe.patched".to_string());
    let line = |text: &str, is_default: bool| ShownAlternative { text: text.to_string(), is_default };
    assert_eq!(show_binaries(&chal), vec![line("exe.orig", true), line("exe.patched", false)]);
    assert_eq!(make_default(&mut chal, "exe.patched"), Ok(committed("Select binary exe.patched")));
    assert_eq!(show_binaries(&chal), vec![line("exe.orig", false), line("exe.patched", true)]);
    assert_eq!(
        make_default(&mut chal, "exe.nope"),
        Err(BinaryError::NoSuchAlternative("nope".to_string()))
    );
    assert_eq!(
        make_default(&mut chal, "other.orig"),
        Err(BinaryError::NoSuchBinary("other".to_string()))
    );
    assert_eq!(make_default(&mut chal, "exe"), Err(BinaryError::NotInFormat("exe".to_string())));
}

#[test]
fn removing_alternatives() {
    let mut chal = empty_challenge("chal");
    add_binary(&mut chal, "exe".to_string());
    add_binary(&mut chal, "exe.patched".to_string());
    add_binary(&mut chal, "lib".to_string());
    assert_eq!(
        remove_alternative(&mut chal, "exe.nope"),
        Err(BinaryError::DoesNotExist("exe.nope".to_string()))
    );
    assert_eq!(
        remove_alternative(&mut chal, "nope.orig"),
        Err(BinaryError::NoSuchBinary("nope".to_string()))
    );
    assert_eq!(
        remove_alternative(&mut chal, "exe.patched"),
        Ok(Removed { name: full("chal", "exe", "patched"), was_default: false })
    );
    assert_eq!(chal.binaries[0].default_alternative, Some("orig".to_string()));
    assert_eq!(
        remove_alternative(&mut chal, "exe.orig"),
        Ok(Removed { name: full("chal", "exe", "orig"), was_default: true })
    );
    assert_eq!(chal.binaries.len(), 1);
    assert_eq!(chal.binaries[0].name, "lib");
    remove_binaries(&mut chal, "lib");
    assert!(chal.binaries.is_empty());
    assert_eq!(BinaryError::DoesNotExist("a".to_string()).message(), "Binary a does not exist");
    assert_eq!(BinaryError::NoSuchBinary("a".to_string()).message(), "No such binary: a");
    assert_eq!(BinaryError::NoSuchAlternative("a".to_string()).message(), "No such alternative: a");
}

#[test]
fn sole_position_wants_exactly_one() {
    let names: Vec<String> = ["a", "b", "a", "c"].iter().map(|s| s.to_string()).collect();
    assert_eq!(sole_position(&names, "b"), Some(1));
    assert_eq!(sole_position(&names, "c"), Some(3));
    assert_eq!(sole_position(&names, "a"), None);
    assert_eq!(sole_position(&names, "d"), None);
}

#[test]
fn fetch_merges_and_commits() {
    let mut ctf = run_init(Init {}, Some("ctf")).unwrap();
    let fetched = CTF { name: String::new(), remotes: vec![], challenges: vec![empty_challenge("a")] };
    let report = run_fetch(Fetch::default(), &mut ctf, fetched);
    assert_eq!(report, committed("Fetch from origin"));
    assert_eq!(ctf.name, "ctf");
    assert_eq!(ctf.challenges, vec![empty_challenge("a")]);
}

#[test]
fn login_keeps_the_cookies() {
    let mut credentials = Credentials::default();
    assert_eq!(cookies_for(&credentials, "origin"), None);
    let report = run_login(Login::default(), &mut credentials, "[]".to_string());
    assert_eq!(report, committed("Log into origin"));
    assert_eq!(cookies_for(&credentials, "origin"), Some("[]"));
    let login = Login { name: "mirror".to_string() };
    run_login(login, &mut credentials, "[1]".to_string());
    assert_eq!(cookies_for(&credentials, "mirror"), Some("[1]"));
    assert_eq!(cookies_for(&credentials, "origin"), Some("[]"));
}

#[test]
fn docker_commands() {
    let s = |items: &[&str]| -> Vec<String> { items.iter().map(|i| i.to_string()).collect() };
    assert_eq!(
        up_command(),
        s(&["docker", "compose", "--file=docker-compose.yml", "up", "--build", "--detach"])
    );
    let exec = Exec { command: "gdb".to_string(), argv: s(&["-q", "./exe"]) };
    assert_eq!(
        exec_command(&exec),
        s(&["docker", "compose", "--file=docker-compose.yml", "exec", "main", "gdb", "-q", "./exe"])
    );
    assert_eq!(down_command(), s(&["docker", "compose", "--file=docker-compose.yml", "down"]));
    assert_eq!(
        remove_image_command(),
        s(&["docker", "compose", "--file=docker-compose.yml", "down", "--rmi=local"])
    );
    assert_eq!(init_message("chal"), "Add Dockerfile and docker-compose.yml for chal");
    let packages = Packages {
        arch: Some("arm64"),
        distro: Some("debian"),
        distro_version: None,
        libc_version: Some("2.31-13".to_string()),
    };
    let pair = |a: &str, b: &str| (a.to_string(), b.to_string());
    assert_eq!(
        build_args(&packages),
        vec![pair("arch", "arm64"), pair("distro", "debian:latest"), pair("libc_version", "2.31-13")]
    );
    assert_eq!(
        build_args(&Packages::default()),
        vec![pair("arch", "amd64"), pair("distro", "ubuntu:latest"), pair("libc_version", "*")]
    );
    assert_eq!(describe(&packages), s(&["  Arch: arm64", "  Distro: debian ?", "  Libc: 2.31-13"]));
}
