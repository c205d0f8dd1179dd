use ctftool::address::{build_url, build_url_with_query, normalize, path_of, set_query, UrlError};
use ctftool::ctf::RewriteRule;
use ctftool::http::{cookie_header, mk_client, persistent, rewrite, Lifetime, Reply, RewriteError, Header, WEEK};

fn rule(regex: &str, rep: &str) -> RewriteRule {
    RewriteRule { regex: regex.to_string(), rep: rep.to_string() }
}

#[test]
fn build_url_appends_segments() {
    assert_eq!(
        build_url("https://github.com/", &["servo", "rust-url", "issues", "188"]).unwrap(),
        "https://github.com/servo/rust-url/issues/188"
    );
    assert_eq!(
        build_url("http://ctf.example/base", &["a b"]).unwrap(),
        "http://ctf.example/base/a%20b"
    );
    assert_eq!(build_url("mailto:x@example.com", &["a"]), Err(UrlError::CannotBeBase));
    assert!(matches!(build_url("nonsense", &["a"]), Err(UrlError::Invalid(_))));
    let long = "a".repeat(65537);
    assert_eq!(build_url("http://ctf.example", &[long.as_str()]), Err(UrlError::TooLong));
}

#[test]
fn query_and_path() {
    assert_eq!(
        set_query("https://example.com/products", "page=2").unwrap(),
        "https://example.com/products?page=2"
    );
    assert_eq!(
        build_url_with_query("https://example.com", &["a"], "t=1").unwrap(),
        "https://example.com/a?t=1"
    );
    assert_eq!(path_of("https://example.com/api/versions?page=2").unwrap(), "/api/versions");
    assert_eq!(path_of("https://example.com").unwrap(), "/");
    assert_eq!(normalize("HTTP://Example.COM").unwrap(), "http://example.com/");
    assert!(normalize("/relative").is_err());
}

#[test]
fn rewrite_applies_rules_in_order() {
    let rules = vec![
        rule("^https://drive.google.com/", "http://localhost:8000/drive.google.com/"),
        rule("localhost", "127.0.0.1"),
    ];
    assert_eq!(
        rewrite(&rules, "https://drive.google.com/uc?id=1").unwrap(),
        "http://127.0.0.1:8000/drive.google.com/uc?id=1"
    );
    assert_eq!(rewrite(&[], "http://ctf.example").unwrap(), "http://ctf.example/");
    assert!(matches!(rewrite(&[rule("(", "x")], "http://a"), Err(RewriteError::Pattern(_))));
    assert!(matches!(
        rewrite(&[rule("^http://", "")], "http://a"),
        Err(RewriteError::Url(_))
    ));
}

#[test]
fn client_checks_rules_once() {
    let client = mk_client(&[rule("^http://a/", "http://b/")]).unwrap();
    assert_eq!(client.rewrite("http://a/x").unwrap(), "http://b/x");
    assert_eq!(client.rewrite("http://c/x").unwrap(), "http://c/x");
    assert!(client.rewrite("nonsense").is_err());
    let error = match mk_client(&[rule("a", "b"), rule("[", "c")]) {
        Err(e) => e,
        Ok(_) => panic!("a pattern that does not compile was accepted"),
    };
    assert_eq!(error.pattern, "[");
}

#[test]
fn session_cookies_get_a_week() {
    let session = Lifetime { max_age: None, expires: None };
    assert_eq!(persistent(session), Lifetime { max_age: Some(604800), expires: None });
    assert_eq!(WEEK, 7 * 24 * 60 * 60);
    let aged = Lifetime { max_age: Some(60), expires: None };
    assert_eq!(persistent(aged), aged);
    let expiring = Lifetime { max_age: None, expires: Some(1700000000) };
    assert_eq!(persistent(expiring), expiring);
}

#[test]
fn cookie_header_joins_pairs() {
    let pair = |a: &str, b: &str| (a.to_string(), b.to_string());
    assert_eq!(cookie_header(&[]), None);
    assert_eq!(cookie_header(&[pair("session", "abc")]), Some("session=abc".to_string()));
    assert_eq!(
        cookie_header(&[pair("session", "abc"), pair("theme", "dark")]),
        Some("session=abc; theme=dark".to_string())
    );
}

#[test]
fn replies_that_fail() {
    let reply = |status| Reply { status, location: Header::Absent, content_disposition: Header::Absent };
    assert!(!reply(200).fails());
    assert!(!reply(302).fails());
    assert!(!reply(399).fails());
    assert!(reply(400).fails());
    assert!(reply(599).fails());
    assert!(!reply(600).fails());
}
