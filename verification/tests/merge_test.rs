use ctftool::ctf::{merge, Binary, BinaryAlternative, Challenge, Checksum, Service, CTF};

fn catalog(name: &str, challenges: Vec<Challenge>) -> CTF {
    CTF { name: name.to_string(), remotes: vec![], challenges }
}

fn challenge(name: &str, description: &str) -> Challenge {
    Challenge {
        name: name.to_string(),
        description: description.to_string(),
        binaries: vec![],
        services: vec![],
    }
}

#[test]
fn merge_appends_unmatched_challenge() {
    let mut s = catalog("event", vec![challenge("pwn-a", "first")]);
    let t = catalog("", vec![challenge("web-b", "second")]);
    merge(&mut s, t);
    assert_eq!(s.name, "event");
    assert_eq!(s.challenges.len(), 2);
    assert_eq!(s.challenges[0], challenge("pwn-a", "first"));
    assert_eq!(s.challenges[1], challenge("web-b", "second"));
}

#[test]
fn merge_keeps_description_when_snapshot_has_none() {
    let mut s = catalog("event", vec![challenge("pwn-a", "first")]);
    let t = catalog("renamed", vec![challenge("pwn-a", "")]);
    merge(&mut s, t);
    assert_eq!(s.name, "renamed");
    assert_eq!(s.challenges, vec![challenge("pwn-a", "first")]);
}

#[test]
fn merge_refines_alternative_fields() {
    let mut local = challenge("pwn-a", "d");
    local.binaries.push(Binary {
        name: "exe".to_string(),
        alternatives: vec![BinaryAlternative {
            name: "orig".to_string(),
            url: Some("http://old".to_string()),
            checksum: Some(Checksum { algorithm: "sha256".to_string(), value: "ab".to_string() }),
        }],
        default_alternative: Some("orig".to_string()),
    });
    local.services.push(Service { name: Some("main".to_string()), url: Some("nc://h:1".to_string()) });
    let mut incoming = challenge("pwn-a", "");
    incoming.binaries.push(Binary {
        name: "exe".to_string(),
        alternatives: vec![
            BinaryAlternative { name: "orig".to_string(), url: Some("http://new".to_string()), checksum: None },
            BinaryAlternative { name: "patched".to_string(), url: None, checksum: None },
        ],
        default_alternative: None,
    });
    incoming.services.push(Service { name: None, url: Some("nc://h:1".to_string()) });
    incoming.services.push(Service { name: None, url: Some("nc://h:2".to_string()) });
    let mut s = catalog("event", vec![local]);
    merge(&mut s, catalog("", vec![incoming]));
    let c = &s.challenges[0];
    assert_eq!(c.binaries.len(), 1);
    let b = &c.binaries[0];
    assert_eq!(b.default_alternative, Some("orig".to_string()));
    assert_eq!(b.alternatives.len(), 2);
    assert_eq!(b.alternatives[0].url, Some("http://new".to_string()));
    assert_eq!(
        b.alternatives[0].checksum,
        Some(Checksum { algorithm: "sha256".to_string(), value: "ab".to_string() })
    );
    assert_eq!(b.alternatives[1].name, "patched");
    assert_eq!(
        c.services,
        vec![
            Service { name: Some("main".to_string()), url: Some("nc://h:1".to_string()) },
            Service { name: None, url: Some("nc://h:2".to_string()) },
        ]
    );
}

#[test]
fn merge_of_merged_changes_nothing() {
    let mut s = catalog("event", vec![challenge("pwn-a", "first")]);
    let before = s.clone();
    let mut t = challenge("pwn-a", "newer");
    t.services.push(Service { name: None, url: Some("nc://h:1".to_string()) });
    let t = catalog("", vec![t, challenge("web-b", "second")]);
    merge(&mut s, t);
    let merged = s.clone();
    let mut again = before;
    merge(&mut again, merged.clone());
    assert_eq!(again, merged);
}

fn rich() -> CTF {
    let mut local = challenge("pwn-a", "first");
    local.binaries.push(Binary {
        name: "exe".to_string(),
        alternatives: vec![
            BinaryAlternative {
                name: "orig".to_string(),
                url: Some("http://old".to_string()),
                checksum: Some(Checksum { algorithm: "sha256".to_string(), value: "ab".to_string() }),
            },
            BinaryAlternative { name: "patched".to_string(), url: None, checksum: None },
        ],
        default_alternative: Some("orig".to_string()),
    });
    local.services.push(Service { name: Some("main".to_string()), url: Some("nc://h:1".to_string()) });
    catalog("event", vec![local, challenge("web-b", "second")])
}

#[test]
fn merge_removes_nothing() {
    let snapshots = vec![
        CTF { name: String::new(), remotes: vec![], challenges: vec![] },
        catalog("", vec![challenge("pwn-a", "")]),
        catalog("other", vec![challenge("new", "n"), challenge("web-b", "")]),
    ];
    for snapshot in snapshots {
        let before = rich();
        let mut after = rich();
        merge(&mut after, snapshot);
        assert!(after.challenges.len() >= before.challenges.len());
        for (i, c) in before.challenges.iter().enumerate() {
            let m = &after.challenges[i];
            assert_eq!(m.name, c.name);
            assert_eq!(m.description, c.description);
            assert!(m.services.len() >= c.services.len());
            assert!(m.binaries.len() >= c.binaries.len());
            for (j, b) in c.binaries.iter().enumerate() {
                assert_eq!(m.binaries[j].name, b.name);
                assert_eq!(m.binaries[j].default_alternative, b.default_alternative);
                for (k, a) in b.alternatives.iter().enumerate() {
                    assert_eq!(m.binaries[j].alternatives[k].name, a.name);
                }
            }
        }
    }
}

#[test]
fn merge_ignores_empty_fields() {
    let mut incoming = challenge("pwn-a", "");
    incoming.binaries.push(Binary {
        name: "exe".to_string(),
        alternatives: vec![BinaryAlternative { name: "orig".to_string(), url: None, checksum: None }],
        default_alternative: None,
    });
    incoming.services.push(Service { name: Some("main".to_string()), url: None });
    let mut s = rich();
    merge(&mut s, catalog("", vec![incoming]));
    assert_eq!(s, rich());
}

#[test]
fn merging_again_changes_nothing() {
    let mut incoming = challenge("pwn-a", "newer");
    incoming.binaries.push(Binary {
        name: "exe".to_string(),
        alternatives: vec![
            BinaryAlternative { name: "orig".to_string(), url: Some("http://new".to_string()), checksum: None },
            BinaryAlternative { name: "remote".to_string(), url: Some("http://r".to_string()), checksum: None },
        ],
        default_alternative: None,
    });
    incoming.services.push(Service { name: None, url: Some("nc://h:1".to_string()) });
    incoming.services.push(Service { name: None, url: Some("nc://h:2".to_string()) });
    let snapshot = catalog("renamed", vec![incoming, challenge("misc-c", "third")]);
    let mut once = rich();
    merge(&mut once, snapshot.clone());
    let mut twice = once.clone();
    merge(&mut twice, snapshot);
    assert_eq!(twice, once);
    let mut absorbed = rich();
    merge(&mut absorbed, once.clone());
    assert_eq!(absorbed, once);
}

#[test]
fn services_without_a_key_can_split() {
    let named = |n: &str, u: &str| Service { name: Some(n.to_string()), url: Some(u.to_string()) };
    let mut local = challenge("c", "");
    local.services = vec![named("a", "u1"), named("b", "u2")];
    let mut incoming = challenge("c", "");
    incoming.services = vec![named("a", "u2")];
    let s = catalog("", vec![local]);
    let mut merged = s.clone();
    merge(&mut merged, catalog("", vec![incoming]));
    assert_eq!(merged.challenges[0].services, vec![named("a", "u2"), named("b", "u2")]);
    let mut absorbed = s;
    merge(&mut absorbed, merged.clone());
    assert_eq!(absorbed.challenges[0].services, vec![named("b", "u2"), named("b", "u2")]);
}
