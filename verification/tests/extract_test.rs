use ctftool::address::UrlError;
use ctftool::ctf::{Binary, BinaryAlternative, Service};
use ctftool::extract::{
    binary_from_path, binary_from_url, dedup, drive_id_from_captures, extract_google_drive_id,
    fetched_binary, hosted_files_from_description, services_from_captures,
    services_from_description, BinaryUrlError,
};
use ctftool::http::{Header, Reply};
use ctftool::pattern::{check, group, search, substitute};
use ctftool::resolve::{
    binaries_from_resolutions, binary_from_attachment, download_url, resolve_step,
    DownloadResolutionError, Resolution, REDIRECT_LIMIT,
};

fn nc(url: &str) -> Service {
    Service { name: None, url: Some(url.to_string()) }
}

fn original(name: &str, url: &str) -> Binary {
    Binary {
        name: name.to_string(),
        alternatives: vec![BinaryAlternative {
            name: "orig".to_string(),
            url: Some(url.to_string()),
            checksum: None,
        }],
        default_alternative: None,
    }
}

#[test]
fn search_lists_matches_and_groups() {
    let found = search("(a)(b)?", "a ab").unwrap();
    assert_eq!(
        found,
        vec![
            vec![Some("a".to_string()), Some("a".to_string()), None],
            vec![Some("ab".to_string()), Some("a".to_string()), Some("b".to_string())],
        ]
    );
    assert_eq!(group(&found[0], 1), "a");
    assert_eq!(group(&found[0], 2), "");
    assert_eq!(group(&found[0], 7), "");
    let bad = search("(", "x").unwrap_err();
    assert_eq!(bad.pattern, "(");
    assert!(!bad.message.is_empty());
    assert!(check("a+").is_ok());
    assert!(check("(").is_err());
}

#[test]
fn substitute_replaces_every_match() {
    assert_eq!(substitute("a+", "caaandaa", "o").unwrap(), "condo");
    assert_eq!(substitute("^(\\w+) (\\w+)$", "one two", "$2 $1").unwrap(), "two one");
    assert!(substitute("[", "x", "y").is_err());
}

#[test]
fn services_from_description_finds_netcat() {
    let services =
        services_from_description("Connect: nc chal.example 1337 or nc 10.0.0.1 31337!").unwrap();
    assert_eq!(services, vec![nc("nc://chal.example:1337"), nc("nc://10.0.0.1:31337")]);
    assert!(services_from_description("no service here, nc host port").unwrap().is_empty());
}

#[test]
fn services_from_captures_uses_groups_one_and_two() {
    let found = vec![
        vec![Some("nc h 1".to_string()), Some("h".to_string()), Some("1".to_string())],
        vec![Some("whole".to_string())],
    ];
    assert_eq!(services_from_captures(&found), vec![nc("nc://h:1"), nc("nc://:")]);
}

#[test]
fn binary_from_url_takes_last_segment() {
    assert_eq!(
        binary_from_url("https://files.example/dl/chall.tar.gz?token=1"),
        Ok(original("chall.tar.gz", "https://files.example/dl/chall.tar.gz?token=1"))
    );
    assert_eq!(binary_from_url("https://files.example"), Ok(original("", "https://files.example")));
    assert_eq!(
        binary_from_url("mailto:someone@example.com"),
        Err(BinaryUrlError::CannotBeBase)
    );
    match binary_from_url("not an address") {
        Err(BinaryUrlError::Invalid(UrlError::Invalid(message))) => assert!(!message.is_empty()),
        other => panic!("{:?}", other),
    }
}

#[test]
fn binary_from_path_needs_a_rooted_path() {
    assert_eq!(binary_from_path("u", "/a/b"), Ok(original("b", "u")));
    assert_eq!(binary_from_path("u", "a/b"), Err(BinaryUrlError::CannotBeBase));
    assert_eq!(binary_from_path("u", ""), Err(BinaryUrlError::CannotBeBase));
    assert_eq!(fetched_binary("n".to_string(), "u"), original("n", "u"));
}

#[test]
fn drive_ids_from_both_shapes() {
    assert_eq!(
        extract_google_drive_id("https://drive.google.com/file/d/abc123/view").unwrap(),
        Some("abc123".to_string())
    );
    assert_eq!(
        extract_google_drive_id("https://drive.google.com/open?id=xyz").unwrap(),
        Some("xyz".to_string())
    );
    assert_eq!(extract_google_drive_id("https://example.com/file/d/abc/view").unwrap(), None);
    assert_eq!(drive_id_from_captures(&vec![], &vec![]), None);
    assert_eq!(
        drive_id_from_captures(
            &vec![],
            &vec![vec![Some("whole".to_string()), Some("id".to_string())]]
        ),
        Some("id".to_string())
    );
}

#[test]
fn hosted_files_are_sorted_and_unique() {
    let description = "Get it: https://drive.google.com/open?id=zzz and \
        <a href=\"https://drive.google.com/file/d/aaa/view\">here</a>, \
        again https://drive.google.com/open?id=zzz or https://example.com/other";
    assert_eq!(
        hosted_files_from_description(description).unwrap(),
        vec!["aaa".to_string(), "zzz".to_string()]
    );
    assert!(hosted_files_from_description("nothing").unwrap().is_empty());
}

#[test]
fn dedup_drops_adjacent_repeats() {
    let texts: Vec<String> = ["a", "a", "b", "a", "a", "a"].iter().map(|s| s.to_string()).collect();
    assert_eq!(dedup(texts), vec!["a", "b", "a"]);
    assert!(dedup(vec![]).is_empty());
}

fn reply(status: u16, location: Header, content_disposition: Header) -> Reply {
    Reply { status, location, content_disposition }
}

#[test]
fn resolve_follows_redirects() {
    let r = reply(302, Header::Text("https://next.example/x".to_string()), Header::Absent);
    assert_eq!(resolve_step("id", 0, &r), Resolution::Follow("https://next.example/x".to_string()));
    assert_eq!(
        resolve_step("id", REDIRECT_LIMIT, &r),
        Resolution::Failed(DownloadResolutionError::TooManyRedirects)
    );
    assert_eq!(
        resolve_step("id", 0, &reply(302, Header::Absent, Header::Absent)),
        Resolution::Failed(DownloadResolutionError::NoLocation)
    );
    assert_eq!(
        resolve_step("id", 0, &reply(302, Header::Unreadable, Header::Absent)),
        Resolution::Failed(DownloadResolutionError::UnreadableHeader)
    );
}

#[test]
fn resolve_names_the_binary() {
    let ok = reply(
        200,
        Header::Absent,
        Header::Text("attachment;filename=\"chall.zip\";filename*=UTF-8''chall.zip".to_string()),
    );
    assert_eq!(
        resolve_step("abc", 3, &ok),
        Resolution::Done(original(
            "chall.zip",
            "https://drive.google.com/uc?export=download&id=abc"
        ))
    );
    assert_eq!(download_url("abc"), "https://drive.google.com/uc?export=download&id=abc");
    assert_eq!(
        resolve_step("abc", 0, &reply(200, Header::Absent, Header::Text("inline".to_string()))),
        Resolution::Failed(DownloadResolutionError::NoAttachment)
    );
    assert_eq!(
        resolve_step("abc", 0, &reply(200, Header::Absent, Header::Absent)),
        Resolution::Failed(DownloadResolutionError::NoContentDisposition)
    );
    assert_eq!(
        resolve_step("abc", 0, &reply(200, Header::Absent, Header::Unreadable)),
        Resolution::Failed(DownloadResolutionError::UnreadableHeader)
    );
    assert_eq!(
        resolve_step("abc", 0, &reply(404, Header::Absent, Header::Absent)),
        Resolution::Failed(DownloadResolutionError::Status(404))
    );
    assert_eq!(
        binary_from_attachment("abc", &vec![]),
        Resolution::Failed(DownloadResolutionError::NoAttachment)
    );
}

#[test]
fn unresolved_files_are_left_out() {
    let outcomes = vec![
        Ok(original("a", "u1")),
        Err(DownloadResolutionError::NoAttachment),
        Ok(original("b", "u2")),
        Err(DownloadResolutionError::Status(404)),
    ];
    let (binaries, failures) = binaries_from_resolutions(outcomes);
    assert_eq!(binaries, vec![original("a", "u1"), original("b", "u2")]);
    assert_eq!(
        failures,
        vec![DownloadResolutionError::NoAttachment, DownloadResolutionError::Status(404)]
    );
}
