use ctftool::category::{best_category, best_parsed, challenge_name, sanitize_title, Category};

fn strings(items: &[&str]) -> Vec<String> {
    items.iter().map(|s| s.to_string()).collect()
}

#[test]
fn parse_knows_short_and_long_names() {
    assert_eq!(Category::parse("cry"), Category::Crypto);
    assert_eq!(Category::parse("Crypto"), Category::Crypto);
    assert_eq!(Category::parse("WEB"), Category::Web);
    assert_eq!(Category::parse("for"), Category::Forensics);
    assert_eq!(Category::parse("Forensics"), Category::Forensics);
    assert_eq!(Category::parse("pwn"), Category::Pwn);
    assert_eq!(Category::parse("rev"), Category::Reverse);
    assert_eq!(Category::parse("REVERSE"), Category::Reverse);
    assert_eq!(Category::parse("ppc"), Category::Programming);
    assert_eq!(Category::parse("stego"), Category::Misc);
    assert_eq!(Category::parse(""), Category::Misc);
    assert_eq!(Category::of_lowercase("WEB"), Category::Misc);
}

#[test]
fn priorities_and_names() {
    let all = [
        (Category::Crypto, 0, "cry"),
        (Category::Web, 1, "web"),
        (Category::Forensics, 2, "for"),
        (Category::Pwn, 3, "pwn"),
        (Category::Reverse, 4, "rev"),
        (Category::Programming, 5, "ppc"),
        (Category::Misc, 999, "misc"),
    ];
    for (category, priority, name) in all {
        assert_eq!(category.priority(), priority);
        assert_eq!(category.name(), name);
    }
}

#[test]
fn best_category_has_lowest_priority() {
    assert_eq!(best_category(&strings(&["pwn", "web", "misc"])), "web");
    assert_eq!(best_category(&strings(&["Reverse", "Crypto"])), "cry");
    assert_eq!(best_category(&strings(&["unknown"])), "misc");
    assert_eq!(best_category(&strings(&["unknown", "ppc"])), "ppc");
    assert_eq!(best_category(&[]), "misc");
    assert_eq!(best_parsed(&vec![Category::Pwn, Category::Pwn]), Category::Pwn);
    assert_eq!(best_parsed(&vec![]), Category::Misc);
}

#[test]
fn sanitize_title_replaces_spaces() {
    assert_eq!(sanitize_title("Baby heap 2"), "Baby_heap_2");
    assert_eq!(sanitize_title("  "), "__");
    assert_eq!(sanitize_title("tab\tstays"), "tab\tstays");
    assert_eq!(sanitize_title(""), "");
}

#[test]
fn challenge_name_joins_category_and_title() {
    assert_eq!(challenge_name(&strings(&["Pwn"]), "Baby heap"), "pwn-Baby_heap");
    assert_eq!(challenge_name(&[], "x"), "misc-x");
}
