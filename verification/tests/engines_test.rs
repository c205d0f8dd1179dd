use ctftool::ctf::{Binary, BinaryAlternative, Service};
use ctftool::engines::auth::{
    after_login_page, after_login_reply, extract_token, is_login_ok, login_form, AfterPage,
    AuthError, Success,
};
use ctftool::engines::{
    check_status, ctfd, detect, detect_needle, detect_response, get_engine, insomnihack, watevr,
    AnyEngine, DetectFailure, DetectionError, Engine, FetchError, Registry,
};
use ctftool::http::Header;

#[test]
fn detect_finds_the_one_fingerprint() {
    assert_eq!(detect("<footer>Powered by CTFd</footer>"), Ok("ctfd".to_string()));
    assert_eq!(detect("Welcome to Insomni'hack teaser"), Ok("insomnihack".to_string()));
    assert_eq!(detect("<title>watevrCTF 2019</title>"), Ok("watevr".to_string()));
}

#[test]
fn detect_takes_the_first_of_several() {
    assert_eq!(detect("watevrCTF, Powered by CTFd"), Ok("ctfd".to_string()));
}

#[test]
fn detect_names_every_adapter_that_failed() {
    let error = detect("<html>hello</html>").unwrap_err();
    let failures = match error {
        DetectionError::NoMatch(failures) => failures,
        other => panic!("{:?}", other),
    };
    assert_eq!(
        failures,
        vec![
            DetectFailure { engine: "ctfd".to_string(), fingerprint: "Powered by CTFd".to_string() },
            DetectFailure {
                engine: "insomnihack".to_string(),
                fingerprint: "Insomni'hack".to_string()
            },
            DetectFailure { engine: "watevr".to_string(), fingerprint: "watevrCTF".to_string() },
        ]
    );
    assert_eq!(
        failures[0].message(),
        "ctfd: the main page does not contain \"Powered by CTFd\""
    );
}

#[test]
fn detect_needle_looks_for_a_substring() {
    assert_eq!(detect_needle("e", "haystack", "st"), Ok(()));
    assert_eq!(detect_needle("e", "haystack", ""), Ok(()));
    assert_eq!(
        detect_needle("e", "haystack", "needle"),
        Err(DetectFailure { engine: "e".to_string(), fingerprint: "needle".to_string() })
    );
}

#[test]
fn get_engine_by_name() {
    assert_eq!(get_engine("ctfd").unwrap().id(), "ctfd");
    assert_eq!(get_engine("watevr").unwrap().id(), "watevr");
    assert_eq!(get_engine("insomnihack").unwrap().fingerprint(), "Insomni'hack");
    let error = get_engine("auto").unwrap_err();
    assert_eq!(error.message(), "Unsupported engine: auto");
    assert_eq!(get_engine("ctfd"), Ok(AnyEngine::Ctfd(ctfd::CtfdEngine {})));
    assert!(get_engine("watevr").unwrap().detect("watevrCTF").is_ok());
    assert!(get_engine("watevr").unwrap().detect("Powered by CTFd").is_err());
}

const CTFD_LOGIN: &str = "<form><input type=\"hidden\" name=\"nonce\" value=\"abc123\"></form>";

#[test]
fn token_must_occur_exactly_once() {
    assert_eq!(extract_token(ctfd::NONCE_PATTERN, CTFD_LOGIN), Ok("abc123".to_string()));
    assert_eq!(extract_token(ctfd::NONCE_PATTERN, "<form></form>"), Err(AuthError::TokenNotFound));
    let twice = format!("{}{}", CTFD_LOGIN, CTFD_LOGIN);
    assert_eq!(extract_token(ctfd::NONCE_PATTERN, &twice), Err(AuthError::TokenNotFound));
    assert_eq!(extract_token("(", CTFD_LOGIN), Err(AuthError::TokenNotFound));
}

#[test]
fn login_form_has_the_adapters_fields() {
    let pair = |a: &str, b: &str| (a.to_string(), b.to_string());
    assert_eq!(
        login_form(&ctfd::login_rules(), "user", "secret", "abc"),
        vec![pair("name", "user"), pair("password", "secret"), pair("nonce", "abc")]
    );
    assert_eq!(
        login_form(&insomnihack::login_rules(), "user", "secret", "abc"),
        vec![
            pair("username", "user"),
            pair("password", "secret"),
            pair("csrfmiddlewaretoken", "abc")
        ]
    );
    assert!(insomnihack::login_rules().referer);
    assert!(!ctfd::login_rules().referer);
}

#[test]
fn login_page_leads_to_the_form() {
    let rules = ctfd::login_rules();
    match after_login_page(&rules, "user", "secret", 200, CTFD_LOGIN) {
        AfterPage::Post(form) => assert_eq!(form[2], ("nonce".to_string(), "abc123".to_string())),
        other => panic!("{:?}", other),
    }
    assert_eq!(
        after_login_page(&rules, "user", "secret", 200, "no token"),
        AfterPage::Fail(AuthError::TokenNotFound)
    );
    match after_login_page(&rules, "user", "secret", 503, CTFD_LOGIN) {
        AfterPage::Fail(AuthError::Transport(message)) => assert_eq!(message, "HTTP status 503"),
        other => panic!("{:?}", other),
    }
}

#[test]
fn login_reply_is_classified() {
    let ctfd_ok = Success::PathIs("/challenges");
    let to = |s: &str| Header::Text(s.to_string());
    assert_eq!(is_login_ok(ctfd_ok, 302, &to("http://ctf.example/challenges")), Ok(true));
    assert_eq!(is_login_ok(ctfd_ok, 302, &to("http://ctf.example/login")), Ok(false));
    assert_eq!(is_login_ok(ctfd_ok, 200, &to("http://ctf.example/challenges")), Ok(false));
    assert_eq!(is_login_ok(ctfd_ok, 302, &Header::Absent), Ok(false));
    assert!(matches!(
        is_login_ok(ctfd_ok, 302, &to("/challenges")),
        Err(AuthError::Transport(_))
    ));
    assert!(matches!(is_login_ok(ctfd_ok, 302, &Header::Unreadable), Err(AuthError::Transport(_))));
    let insomni_ok = Success::LocationIs("/challenges/");
    assert_eq!(is_login_ok(insomni_ok, 302, &to("/challenges/")), Ok(true));
    assert_eq!(is_login_ok(insomni_ok, 302, &to("/challenges")), Ok(false));

    assert_eq!(after_login_reply(ctfd_ok, 302, &to("http://ctf.example/challenges")), Ok(()));
    assert_eq!(
        after_login_reply(ctfd_ok, 200, &Header::Absent),
        Err(AuthError::Rejected)
    );
    assert!(matches!(
        after_login_reply(ctfd_ok, 500, &Header::Absent),
        Err(AuthError::Transport(_))
    ));
}

#[test]
fn ctfd_addresses() {
    assert_eq!(ctfd::login_url("http://ctf.example").unwrap(), "http://ctf.example/login");
    assert_eq!(
        ctfd::challenges_url("http://ctf.example/").unwrap(),
        "http://ctf.example/api/v1/challenges"
    );
    assert_eq!(
        ctfd::challenge_url("http://ctf.example", 42).unwrap(),
        "http://ctf.example/api/v1/challenges/42"
    );
    assert!(ctfd::login_url("not an address").is_err());
}

#[test]
fn ctfd_challenge_from_details() {
    let listed = ctfd::ListedChallenge {
        id: 7,
        name: "Baby heap".to_string(),
        category: "Pwn".to_string(),
    };
    let details = ctfd::Details {
        success: true,
        description: "Pwn me: nc chal.example 1337".to_string(),
    };
    let challenge = ctfd::challenge_from_details(&listed, details, vec![]).unwrap();
    assert_eq!(challenge.name, "pwn-Baby_heap");
    assert_eq!(challenge.description, "Pwn me: nc chal.example 1337");
    assert_eq!(
        challenge.services,
        vec![Service { name: None, url: Some("nc://chal.example:1337".to_string()) }]
    );
    assert!(challenge.binaries.is_empty());
    let failed = ctfd::Details { success: false, description: String::new() };
    assert_eq!(
        ctfd::challenge_from_details(&listed, failed, vec![]),
        Err(FetchError::Unsuccessful("Could not retrieve challenge 7".to_string()))
    );
    let listing = ctfd::Listing { success: false, data: vec![listed.clone()] };
    assert_eq!(
        ctfd::listed(listing),
        Err(FetchError::Unsuccessful("Could not retrieve challenges".to_string()))
    );
    let listing = ctfd::Listing { success: true, data: vec![listed.clone()] };
    assert_eq!(ctfd::listed(listing), Ok(vec![listed]));
}

#[test]
fn insomnihack_moment_and_addresses() {
    assert_eq!(
        insomnihack::moment("<a href=\"/challenges/list?t=1577836800\">list</a>"),
        Ok(1577836800)
    );
    assert!(matches!(insomnihack::moment("nothing"), Err(FetchError::Schema(_))));
    assert!(matches!(
        insomnihack::moment("\"/challenges/list?t=1\" \"/challenges/list?t=2\""),
        Err(FetchError::Schema(_))
    ));
    assert!(matches!(
        insomnihack::moment("\"/challenges/list?t=99999999999\""),
        Err(FetchError::Schema(_))
    ));
    assert_eq!(insomnihack::moment_query(12), "t=12");
    assert_eq!(
        insomnihack::login_url("http://ctf.example").unwrap(),
        "http://ctf.example/accounts/login/"
    );
    assert_eq!(
        insomnihack::challenges_url("http://ctf.example").unwrap(),
        "http://ctf.example/challenges/"
    );
    assert_eq!(
        insomnihack::list_url("http://ctf.example", 1577836800).unwrap(),
        "http://ctf.example/challenges/list?t=1577836800"
    );
    assert_eq!(
        insomnihack::challenge_url("http://ctf.example", "/challenges/3").unwrap(),
        "http://ctf.example/challenges/3"
    );
}

#[test]
fn insomnihack_challenge_from_details() {
    let details = insomnihack::Details {
        name: "Key gen".to_string(),
        categories: vec!["Reverse".to_string(), "Crypto".to_string()],
        description: "nc keygen.example 4000".to_string(),
        authors: vec!["alice".to_string(), "bob".to_string()],
    };
    let challenge = insomnihack::challenge_from_details(&details, vec![]).unwrap();
    assert_eq!(challenge.name, "cry-Key_gen");
    assert_eq!(
        challenge.description,
        "Categories: Reverse, Crypto\nAuthors: alice, bob\nnc keygen.example 4000"
    );
    assert_eq!(
        challenge.services,
        vec![Service { name: None, url: Some("nc://keygen.example:4000".to_string()) }]
    );
}

#[test]
fn watevr_snapshot() {
    let listed = watevr::ListedChallenge {
        categories: vec!["web".to_string()],
        authors: vec!["mateusz".to_string()],
        description: "Find the flag".to_string(),
        website_urls: vec!["http://web.example:8000".to_string()],
        netcat_ips: vec!["13.53.1.1 50000".to_string()],
        file_urls: vec![
            "https://files.example/static/cookie.zip".to_string(),
            "not an address".to_string(),
        ],
        title: "Cookie Store".to_string(),
    };
    assert_eq!(
        watevr::listing_url("http://ctf.example").unwrap(),
        "http://ctf.example/api/watsup"
    );
    let (snapshot, skipped) = watevr::snapshot(&vec![listed]);
    assert_eq!(snapshot.name, "");
    assert!(snapshot.remotes.is_empty());
    assert_eq!(snapshot.challenges.len(), 1);
    let challenge = &snapshot.challenges[0];
    assert_eq!(challenge.name, "web-Cookie_Store");
    assert_eq!(
        challenge.description,
        "Name: Cookie Store\nCategories: web\nAuthors: mateusz\nDescription: Find the flag"
    );
    assert_eq!(
        challenge.binaries,
        vec![Binary {
            name: "cookie.zip".to_string(),
            alternatives: vec![BinaryAlternative {
                name: "orig".to_string(),
                url: Some("https://files.example/static/cookie.zip".to_string()),
                checksum: None,
            }],
            default_alternative: None,
        }]
    );
    assert_eq!(
        challenge.services,
        vec![
            Service { name: None, url: Some("http://web.example:8000".to_string()) },
            Service { name: None, url: Some("nc://13.53.1.1 50000".to_string()) },
        ]
    );
    assert_eq!(skipped.len(), 1);
    assert_eq!(skipped[0].0, "not an address");
}

#[test]
fn responses_that_report_a_failure() {
    assert_eq!(check_status(200), Ok(()));
    assert_eq!(check_status(302), Ok(()));
    assert_eq!(check_status(404), Err(FetchError::Status(404)));
    assert_eq!(check_status(500), Err(FetchError::Status(500)));
    assert_eq!(detect_response(200, "Powered by CTFd"), Ok("ctfd".to_string()));
    assert_eq!(
        detect_response(502, "Powered by CTFd"),
        Err(DetectionError::Transport("HTTP status 502".to_string()))
    );
    assert!(matches!(detect_response(200, "nothing"), Err(DetectionError::NoMatch(_))));
}

#[test]
fn registry_is_built_once() {
    let registry = Registry::new();
    assert_eq!(registry.get_engine("insomnihack").unwrap().id(), "insomnihack");
    assert!(registry.get_engine("auto").is_err());
    assert_eq!(registry.detect("Insomni'hack"), Ok("insomnihack".to_string()));
    assert_eq!(registry.detect("Insomni'hack with watevrCTF"), Ok("insomnihack".to_string()));
    assert!(registry.detect("").is_err());
    assert_eq!(registry.detect_response(200, "watevrCTF"), Ok("watevr".to_string()));
    assert!(matches!(
        registry.detect_response(404, "watevrCTF"),
        Err(DetectionError::Transport(_))
    ));
}
