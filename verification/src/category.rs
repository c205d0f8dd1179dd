//! How a challenge is named: the category that stands for it and the title
//! made fit for a directory name.

use vstd::prelude::*;
use crate::text::{lowercase, strings_view, to_lowercase};

verus! {

/// The kinds of challenge that a name can start with.
#[derive(Clone, Copy, Debug, PartialEq, Eq, Structural)]
pub enum Category {
    Crypto,
    Web,
    Forensics,
    Pwn,
    Reverse,
    Programming,
    Misc,
}

/// The category that a lowercase word names; any other word is `Misc`.
pub open spec fn category_of(word: Seq<char>) -> Category {
    if word == "cry"@ || word == "crypto"@ {
        Category::Crypto
    } else if word == "web"@ {
        Category::Web
    } else if word == "for"@ || word == "forensics"@ {
        Category::Forensics
    } else if word == "pwn"@ {
        Category::Pwn
    } else if word == "rev"@ || word == "reverse"@ {
        Category::Reverse
    } else if word == "ppc"@ {
        Category::Programming
    } else {
        Category::Misc
    }
}

/// The rank of a category; the lowest rank names the challenge.
pub open spec fn priority_of(c: Category) -> int {
    match c {
        Category::Crypto => 0,
        Category::Web => 1,
        Category::Forensics => 2,
        Category::Pwn => 3,
        Category::Reverse => 4,
        Category::Programming => 5,
        Category::Misc => 999,
    }
}

/// The short name of a category.
pub open spec fn name_of(c: Category) -> Seq<char> {
    match c {
        Category::Crypto => "cry"@,
        Category::Web => "web"@,
        Category::Forensics => "for"@,
        Category::Pwn => "pwn"@,
        Category::Reverse => "rev"@,
        Category::Programming => "ppc"@,
        Category::Misc => "misc"@,
    }
}

/// The category of lowest rank among `cs`, the first of them where several
/// share it; `Misc` where `cs` is empty.
pub open spec fn best_of(cs: Seq<Category>) -> Category
    decreases cs.len(),
{
    if cs.len() == 0 {
        Category::Misc
    } else if cs.len() == 1 {
        cs[0]
    } else {
        let rest = best_of(cs.drop_last());
        if priority_of(cs.last()) < priority_of(rest) {
            cs.last()
        } else {
            rest
        }
    }
}

/// The categories that the words of a listing name, whatever their case.
pub open spec fn parsed(words: Seq<Seq<char>>) -> Seq<Category> {
    words.map_values(|w: Seq<char>| category_of(lowercase(w)))
}

impl Category {
    /// The category that a lowercase word names.
    pub fn of_lowercase(word: &str) -> (r: Category)
        ensures
            r == category_of(word@),
    {
        if word.eq("cry") || word.eq("crypto") {
            Category::Crypto
        } else if word.eq("web") {
            Category::Web
        } else if word.eq("for") || word.eq("forensics") {
            Category::Forensics
        } else if word.eq("pwn") {
            Category::Pwn
        } else if word.eq("rev") || word.eq("reverse") {
            Category::Reverse
        } else if word.eq("ppc") {
            Category::Programming
        } else {
            Category::Misc
        }
    }

    /// The category that a word names, whatever its case.
    pub fn parse(s: &str) -> (r: Category)
        ensures
            r == category_of(lowercase(s@)),
    {
        let lower = to_lowercase(s);
        Category::of_lowercase(lower.as_str())
    }

    /// The rank of the category; the lowest rank names the challenge.
    pub fn priority(&self) -> (r: i32)
        ensures
            r == priority_of(*self),
    {
        match self {
            Category::Crypto => 0,
            Category::Web => 1,
            Category::Forensics => 2,
            Category::Pwn => 3,
            Category::Reverse => 4,
            Category::Programming => 5,
            Category::Misc => 999,
        }
    }

    /// The short name of the category.
    pub fn name(&self) -> (r: &'static str)
        ensures
            r@ == name_of(*self),
    {
        match self {
            Category::Crypto => "cry",
            Category::Web => "web",
            Category::Forensics => "for",
            Category::Pwn => "pwn",
            Category::Reverse => "rev",
            Category::Programming => "ppc",
            Category::Misc => "misc",
        }
    }
}

/// The best of categories that were parsed already.
pub fn best_parsed(categories: &Vec<Category>) -> (r: Category)
    ensures
        r == best_of(categories@),
{
    let mut best = Category::Misc;
    let mut i: usize = 0;
    while i < categories.len()
        invariant
            i <= categories.len(),
            best == best_of(categories@.take(i as int)),
        decreases categories.len() - i,
    {
        let c = categories[i];
        proof {
            assert(categories@.take(i + 1).drop_last() == categories@.take(i as int));
            assert(categories@.take(i + 1).last() == c);
        }
        if i == 0 || c.priority() < best.priority() {
            best = c;
        }
        i += 1;
    }
    assert(categories@.take(categories.len() as int) == categories@);
    best
}

/// The short name of the category that names a challenge listed under
/// `categories`: the one of lowest rank, `misc` where none is given.
pub fn best_category(categories: &[String]) -> (r: &'static str)
    ensures
        r@ == name_of(best_of(parsed(categories@.map_values(|s: String| s@)))),
{
    let ghost words = categories@.map_values(|s: String| s@);
    let mut found: Vec<Category> = Vec::new();
    let mut i: usize = 0;
    while i < categories.len()
        invariant
            i <= categories.len(),
            words == categories@.map_values(|s: String| s@),
            found@ == parsed(words.take(i as int)),
        decreases categories.len() - i,
    {
        let c = Category::parse(categories[i].as_str());
        found.push(c);
        assert(found@ =~= parsed(words.take(i + 1)));
        i += 1;
    }
    assert(words.take(categories.len() as int) == words);
    best_parsed(&found).name()
}

/// The best of no category is `Misc`; otherwise it is one of them, and none
/// of them has a lower rank.
pub proof fn lemma_best_of(cs: Seq<Category>)
    ensures
        cs.len() == 0 ==> best_of(cs) == Category::Misc,
        cs.len() > 0 ==> cs.contains(best_of(cs)),
        forall|i: int| 0 <= i < cs.len() ==> priority_of(best_of(cs)) <= priority_of(#[trigger] cs[i]),
    decreases cs.len(),
{
    if cs.len() > 1 {
        lemma_best_of(cs.drop_last());
        let rest = best_of(cs.drop_last());
        let k = choose|k: int| 0 <= k < cs.drop_last().len() && cs.drop_last()[k] == rest;
        assert(cs[k] == rest);
        assert forall|i: int| 0 <= i < cs.len() implies priority_of(best_of(cs)) <= priority_of(
            #[trigger] cs[i],
        ) by {
            if i < cs.len() - 1 {
                assert(cs.drop_last()[i] == cs[i]);
            }
        }
    } else if cs.len() == 1 {
        assert(cs[0] == best_of(cs));
    }
}

/// The title with every space replaced by an underscore.
pub open spec fn sanitized(title: Seq<char>) -> Seq<char> {
    title.map_values(|c: char| if c == ' ' { '_' } else { c })
}

/// Makes a title fit for a directory name: every space becomes an
/// underscore, every other character stays.
pub fn sanitize_title(title: &str) -> (r: String)
    ensures
        r@ == sanitized(title@),
{
    let mut r = String::new();
    for c in it: title.chars()
        invariant
            it.seq() == title@,
            r@ == sanitized(title@.take(it.index() as int)),
    {
        if c == ' ' {
            r.push('_');
        } else {
            r.push(c);
        }
        assert(r@ =~= sanitized(title@.take(it.index() + 1)));
    }
    assert(title@.take(title@.len() as int) == title@);
    r
}

/// The name of a challenge listed under `categories` with the title
/// `title`: the short name of its best category, a hyphen, and the title
/// made fit.
pub open spec fn named(categories: Seq<Seq<char>>, title: Seq<char>) -> Seq<char> {
    name_of(best_of(parsed(categories))) + "-"@ + sanitized(title)
}

/// The name under which a listed challenge is kept.
pub fn challenge_name(categories: &[String], title: &str) -> (r: String)
    ensures
        r@ == named(strings_view(categories@), title@),
{
    let mut r = best_category(categories).to_owned();
    r.append("-");
    r.append(sanitize_title(title).as_str());
    r
}

} // verus!
