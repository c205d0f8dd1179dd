//! Managing the binaries of a challenge. A binary's file is called by the
//! binary's name; each alternative's file by that name, a dot and the
//! alternative's name.

use vstd::prelude::*;
use vstd::string::StrSliceExecFns;
use crate::commands::{committed, sole_position, Report};
use crate::ctf::{alternative_position, binary_position, BinaryAlternative, Challenge};
use crate::extract::ORIGINAL;
use crate::model::{
    is_absent, is_first, is_only, lemma_position, lemma_position_none, occurs_once, position,
    AlternativeView, BinaryView, ChallengeView,
};
use crate::text::{after_last, before_last, join2, lemma_cut_at_last, strings_view};

verus! {

/// Manages the binaries of the challenge in whose directory the command is
/// called.
#[derive(Clone, Debug, PartialEq, Eq)]
pub struct Binary {
    pub subcmd: SubCommand,
}

/// What to do about the binaries.
#[derive(Clone, Debug, PartialEq, Eq)]
pub enum SubCommand {
    /// Prints the registered binaries.
    Show(Show),
    /// Registers binaries.
    Add(Add),
    /// Removes registered binaries.
    Rm(Rm),
    /// Makes an alternative the default of its binary.
    Default(Default),
}

/// Prints the registered binaries.
#[derive(Clone, Debug, PartialEq, Eq)]
pub struct Show {}

/// Registers files.
#[derive(Clone, Debug, PartialEq, Eq)]
pub struct Add {
    /// The names of the files, as `binary.alternative`.
    pub names: Vec<String>,
}

/// Removes alternatives, by the names of their files.
#[derive(Clone, Debug, PartialEq, Eq)]
pub struct Rm {
    pub names: Vec<String>,
}

/// Makes the alternative with this file the default of its binary.
#[derive(Clone, Debug, PartialEq, Eq)]
pub struct Default {
    pub name: String,
}

/// Why a binary could not be managed.
#[derive(Clone, Debug, PartialEq, Eq)]
pub enum BinaryError {
    /// The name holds no dot.
    NotInFormat(String),
    NoSuchBinary(String),
    NoSuchAlternative(String),
    DoesNotExist(String),
}

impl BinaryError {
    /// The error in words.
    pub fn message(&self) -> (r: String)
        ensures
            r@ == match self {
                BinaryError::NotInFormat(n) => "Binary name "@ + n@
                    + " is not in binary.alternative format"@,
                BinaryError::NoSuchBinary(n) => "No such binary: "@ + n@,
                BinaryError::NoSuchAlternative(n) => "No such alternative: "@ + n@,
                BinaryError::DoesNotExist(n) => "Binary "@ + n@ + " does not exist"@,
            },
    {
        match self {
            BinaryError::NotInFormat(n) => {
                let mut r = join2("Binary name ", n.as_str());
                r.append(" is not in binary.alternative format");
                r
            },
            BinaryError::NoSuchBinary(n) => join2("No such binary: ", n.as_str()),
            BinaryError::NoSuchAlternative(n) => join2("No such alternative: ", n.as_str()),
            BinaryError::DoesNotExist(n) => {
                let mut r = join2("Binary ", n.as_str());
                r.append(" does not exist");
                r
            },
        }
    }
}

/// Splits the name of an alternative's file at its last dot, into the
/// binary's name and the alternative's.
pub fn split(name: &str) -> (r: Result<(String, String), BinaryError>)
    ensures
        match r {
            Ok((binary, alternative)) => name@.contains('.') && binary@ == before_last(name@, '.')
                && alternative@ == after_last(name@, '.'),
            Err(e) => !name@.contains('.') && e is NotInFormat && e->NotInFormat_0@ == name@,
        },
{
    let mut before = String::new();
    let mut after = String::new();
    let mut seen = false;
    for c in it: name.chars()
        invariant
            it.seq() == name@,
            seen == name@.take(it.index() as int).contains('.'),
            seen ==> before@ == before_last(name@.take(it.index() as int), '.'),
            after@ == after_last(name@.take(it.index() as int), '.'),
    {
        let ghost i = it.index() as int;
        let ghost prefix = name@.take(i);
        proof {
            assert(name@.take(i + 1).drop_last() == prefix);
            assert(name@.take(i + 1).last() == c);
            lemma_cut_at_last(prefix, '.');
        }
        if c == '.' {
            if seen {
                before.push('.');
                before.append(after.as_str());
            } else {
                before = after;
            }
            after = String::new();
            proof {
                assert(before@ =~= prefix);
                assert(name@.take(i + 1)[i] == '.');
            }
            seen = true;
        } else {
            after.push(c);
            proof {
                if seen {
                    let k = choose|k: int| 0 <= k < prefix.len() && prefix[k] == '.';
                    assert(name@.take(i + 1)[k] == '.');
                } else {
                    let longer = name@.take(i + 1);
                    if longer.contains('.') {
                        let k = choose|k: int| 0 <= k < longer.len() && longer[k] == '.';
                        assert(prefix[k] == '.');
                    }
                }
            }
        }
    }
    assert(name@.take(name@.len() as int) == name@);
    if seen {
        Ok((before, after))
    } else {
        Err(BinaryError::NotInFormat(name.to_owned()))
    }
}

/// An alternative, by its challenge, its binary and its own name.
#[derive(Clone, Debug, PartialEq, Eq)]
pub struct FullBinaryAlternativeName {
    pub challenge_name: String,
    pub binary_name: String,
    pub alternative_name: String,
}

impl FullBinaryAlternativeName {
    /// The name as a path: the challenge, a slash, the binary, a dot, the
    /// alternative.
    pub open spec fn text(&self) -> Seq<char> {
        self.challenge_name@ + "/"@ + self.binary_name@ + "."@ + self.alternative_name@
    }

    /// The name as a path.
    pub fn to_text(&self) -> (r: String)
        ensures
            r@ == self.text(),
    {
        let mut r = join2(self.challenge_name.as_str(), "/");
        r.append(self.binary_name.as_str());
        r.append(".");
        r.append(self.alternative_name.as_str());
        r
    }
}

/// Whether a name can be cut at `p` into a binary's name and an
/// alternative's: at a dot, or at the end of a name that does not end with
/// a dot.
pub open spec fn is_cut(name: Seq<char>, p: int) -> bool {
    ||| 0 <= p < name.len() && name[p] == '.'
    ||| p == name.len() && name.len() > 0 && name[name.len() - 1] != '.'
}

/// The first cut of `name`, from `from` on, before which stands the name of
/// one of the binaries.
pub open spec fn first_cut(binaries: Seq<Seq<char>>, name: Seq<char>, from: int) -> Option<int>
    decreases name.len() - from + 1,
{
    if from < 0 || from > name.len() {
        None
    } else if is_cut(name, from) && !is_absent(binaries, name.take(from)) {
        Some(from)
    } else {
        first_cut(binaries, name, from + 1)
    }
}

/// The alternative's name that stands behind the cut `p`: what follows the
/// dot, or `orig` where the cut is the end of the name.
pub open spec fn behind_cut(name: Seq<char>, p: int) -> Seq<char> {
    if p == name.len() {
        ORIGINAL@
    } else {
        name.skip(p + 1)
    }
}

/// What `try_add_alternative` comes to. The name is cut at the first place
/// where what stands before is the name of a binary; without such a place
/// nothing is added. What stands behind names the alternative: where the
/// binary has it already, the challenge stays as it is, and else the binary
/// gains an alternative of that name, without an address and a checksum.
pub open spec fn alternative_added(
    before: Challenge,
    after: Challenge,
    name: Seq<char>,
    r: Option<FullBinaryAlternativeName>,
) -> bool {
    match first_cut(before@.binary_names(), name, 0) {
        None => r is None && after == before,
        Some(p) => {
            let j = position(before@.binary_names(), name.take(p))->0;
            let binary = before@.binaries[j];
            let alternative = behind_cut(name, p);
            &&& r is Some
            &&& r->0.challenge_name@ == before.name@
            &&& r->0.binary_name@ == binary.name
            &&& r->0.alternative_name@ == alternative
            &&& if is_absent(binary.alternative_names(), alternative) {
                after@ == (ChallengeView {
                    binaries: before@.binaries.update(
                        j,
                        BinaryView {
                            alternatives: binary.alternatives.push(
                                AlternativeView { name: alternative, url: None, checksum: None },
                            ),
                            ..binary
                        },
                    ),
                    ..before@
                })
            } else {
                after == before
            }
        },
    }
}

/// Registers the file `name`, cut at `p`, as an alternative of the binary
/// at position `j`, whose name stands before the cut.
fn add_behind_cut(challenge: &mut Challenge, name: &str, p: usize, j: usize) -> (r:
    FullBinaryAlternativeName)
    requires
        p <= name@.len(),
        is_first(old(challenge)@.binary_names(), name@.take(p as int), j as int),
        first_cut(old(challenge)@.binary_names(), name@, 0) == Some(p as int),
    ensures
        alternative_added(*old(challenge), *final(challenge), name@, Some(r)),
{
    let len = name.unicode_len();
    proof {
        lemma_position(challenge@.binary_names(), name@.take(p as int), j as int);
        assert(challenge@.binaries[j as int] == challenge.binaries[j as int]@);
    }
    let alternative: String = if p == len {
        ORIGINAL.to_owned()
    } else {
        let rest = name.substring_char(p + 1, len);
        assert(rest@ =~= name@.skip(p + 1));
        rest.to_owned()
    };
    let i = alternative_position(&challenge.binaries[j].alternatives, alternative.as_str());
    let ghost binary = challenge@.binaries[j as int];
    if i == challenge.binaries[j].alternatives.len() {
        proof {
            assert(is_absent(binary.alternative_names(), alternative@));
        }
        let ghost before = challenge@;
        let added = BinaryAlternative { name: alternative.clone(), url: None, checksum: None };
        challenge.binaries[j].alternatives.push(added);
        proof {
            assert(challenge@.binaries[j as int].alternatives =~= binary.alternatives.push(
                added@,
            ));
            assert(challenge@.binaries =~= before.binaries.update(
                j as int,
                BinaryView { alternatives: binary.alternatives.push(added@), ..binary },
            ));
            assert(challenge@.services =~= before.services);
        }
    } else {
        proof {
            assert(binary.alternative_names()[i as int] == alternative@);
        }
    }
    FullBinaryAlternativeName {
        challenge_name: challenge.name.clone(),
        binary_name: challenge.binaries[j].name.clone(),
        alternative_name: alternative,
    }
}

/// Registers the file `name` as an alternative of a binary that the
/// challenge has already, if its name starts with the name of one.
pub fn try_add_alternative(challenge: &mut Challenge, name: &str) -> (r: Option<
    FullBinaryAlternativeName,
>)
    ensures
        alternative_added(*old(challenge), *final(challenge), name@, r),
{
    let len = name.unicode_len();
    let ghost names = challenge@.binary_names();
    let mut p: usize = 0;
    while p < len
        invariant
            p <= len,
            len == name@.len(),
            *challenge == *old(challenge),
            names == challenge@.binary_names(),
            first_cut(names, name@, 0) == first_cut(names, name@, p as int),
        decreases len - p,
    {
        if name.get_char(p) == '.' {
            let prefix = name.substring_char(0, p);
            assert(prefix@ =~= name@.take(p as int));
            let j = binary_position(&challenge.binaries, prefix);
            if j < challenge.binaries.len() {
                proof {
                    assert(is_first(names, prefix@, j as int));
                    assert(first_cut(names, name@, p as int) == Some(p as int));
                }
                return Some(add_behind_cut(challenge, name, p, j));
            }
            assert(is_absent(names, name@.take(p as int)));
        }
        p += 1;
    }
    if len > 0 && name.get_char(len - 1) != '.' {
        assert(name@.take(len as int) =~= name@);
        let j = binary_position(&challenge.binaries, name);
        if j < challenge.binaries.len() {
            proof {
                assert(is_first(names, name@, j as int));
                assert(first_cut(names, name@, len as int) == Some(len as int));
            }
            return Some(add_behind_cut(challenge, name, len, j));
        }
        assert(is_absent(names, name@.take(len as int)));
    }
    proof {
        assert(first_cut(names, name@, len as int + 1) is None);
        assert(first_cut(names, name@, len as int) is None);
    }
    None
}

/// The texts as an enumeration: one alone, two joined by ` and `, more
/// separated by commas with `and` before the last.
pub open spec fn enumerated(texts: Seq<Seq<char>>) -> Seq<char> {
    if texts.len() == 0 {
        Seq::empty()
    } else if texts.len() == 1 {
        texts[0]
    } else if texts.len() == 2 {
        texts[0] + " and "@ + texts[1]
    } else {
        listed(texts, texts.len() as int)
    }
}

/// The first `k` of three or more texts, each with what follows it in an
/// enumeration.
pub open spec fn listed(texts: Seq<Seq<char>>, k: int) -> Seq<char>
    decreases k,
{
    if k <= 0 {
        Seq::empty()
    } else {
        listed(texts, k - 1) + texts[k - 1] + if k - 1 == texts.len() - 2 {
            ", and "@
        } else if k - 1 != texts.len() - 1 {
            ", "@
        } else {
            Seq::empty()
        }
    }
}

/// The names as paths.
pub open spec fn full_names(alternatives: Seq<FullBinaryAlternativeName>) -> Seq<Seq<char>> {
    alternatives.map_values(|a: FullBinaryAlternativeName| a.text())
}

/// `s`, followed by the alternatives as an enumeration.
pub fn alternatives_to_string(s: String, alternatives: &[FullBinaryAlternativeName]) -> (r: String)
    ensures
        r@ == s@ + enumerated(full_names(alternatives@)),
{
    let mut s = s;
    let ghost start = s@;
    let ghost texts = full_names(alternatives@);
    let n = alternatives.len();
    if n == 1 {
        s.append(alternatives[0].to_text().as_str());
        assert(texts[0] == alternatives[0].text());
    } else if n == 2 {
        s.append(alternatives[0].to_text().as_str());
        s.append(" and ");
        s.append(alternatives[1].to_text().as_str());
        assert(texts[0] == alternatives[0].text());
        assert(texts[1] == alternatives[1].text());
        assert(s@ =~= start + (texts[0] + " and "@ + texts[1]));
    } else {
        let mut i: usize = 0;
        while i < n
            invariant
                i <= n,
                n == alternatives@.len(),
                n != 1 && n != 2,
                texts == full_names(alternatives@),
                s@ == start + listed(texts, i as int),
            decreases n - i,
        {
            let ghost before = s@;
            s.append(alternatives[i].to_text().as_str());
            assert(texts[i as int] == alternatives[i as int].text());
            if n - i == 2 {
                s.append(", and ");
            } else if n - i != 1 {
                s.append(", ");
            }
            assert(s@ =~= start + listed(texts, i + 1));
            i += 1;
        }
        proof {
            if n == 0 {
                assert(s@ =~= start + enumerated(texts));
            }
        }
    }
    s
}

/// An alternative as it is shown: the name of its file, and whether it is
/// the default of its binary.
#[derive(Clone, Debug, PartialEq, Eq)]
pub struct ShownAlternative {
    pub text: String,
    pub is_default: bool,
}

/// A shown alternative, as plain values.
pub struct ShownView {
    pub text: Seq<char>,
    pub is_default: bool,
}

impl View for ShownAlternative {
    type V = ShownView;

    open spec fn view(&self) -> ShownView {
        ShownView { text: self.text@, is_default: self.is_default }
    }
}

/// Shown alternatives, as plain values.
pub open spec fn shown_view(lines: Seq<ShownAlternative>) -> Seq<ShownView> {
    lines.map_values(|l: ShownAlternative| l@)
}

/// The alternatives of a binary as they are shown.
pub open spec fn binary_shown(binary: BinaryView) -> Seq<ShownView> {
    binary.alternatives.map_values(
        |a: AlternativeView|
            ShownView {
                text: binary.name + "."@ + a.name,
                is_default: binary.default_alternative == Some(a.name),
            },
    )
}

/// The alternatives of the binaries as they are shown, one binary after
/// another.
pub open spec fn binaries_shown(binaries: Seq<BinaryView>) -> Seq<ShownView>
    decreases binaries.len(),
{
    if binaries.len() == 0 {
        Seq::empty()
    } else {
        binaries_shown(binaries.drop_last()) + binary_shown(binaries.last())
    }
}

/// The registered binaries of a challenge: every alternative of every
/// binary by the name of its file, the default ones marked.
pub fn show(challenge: &Challenge) -> (r: Vec<ShownAlternative>)
    ensures
        shown_view(r@) == binaries_shown(challenge@.binaries),
{
    let mut lines: Vec<ShownAlternative> = Vec::new();
    let mut i: usize = 0;
    while i < challenge.binaries.len()
        invariant
            i <= challenge.binaries.len(),
            shown_view(lines@) == binaries_shown(challenge@.binaries.take(i as int)),
        decreases challenge.binaries.len() - i,
    {
        let binary = &challenge.binaries[i];
        let ghost done = shown_view(lines@);
        proof {
            assert(challenge@.binaries.take(i + 1).drop_last() == challenge@.binaries.take(
                i as int,
            ));
            assert(challenge@.binaries.take(i + 1).last() == binary@);
        }
        let mut j: usize = 0;
        while j < binary.alternatives.len()
            invariant
                j <= binary.alternatives.len(),
                shown_view(lines@) == done + binary_shown(binary@).take(j as int),
            decreases binary.alternatives.len() - j,
        {
            let alternative = &binary.alternatives[j];
            let ghost before = shown_view(lines@);
            let mut text = join2(binary.name.as_str(), ".");
            text.append(alternative.name.as_str());
            let is_default = match &binary.default_alternative {
                Some(d) => d.as_str().eq(alternative.name.as_str()),
                None => false,
            };
            let line = ShownAlternative { text, is_default };
            proof {
                assert(binary@.alternatives[j as int] == alternative@);
                assert(binary_shown(binary@)[j as int] == line@);
            }
            lines.push(line);
            proof {
                assert(shown_view(lines@) =~= before.push(line@));
                assert(binary_shown(binary@).take(j + 1) =~= binary_shown(binary@).take(
                    j as int,
                ).push(line@));
                assert(shown_view(lines@) =~= done + binary_shown(binary@).take(j + 1));
            }
            j += 1;
        }
        proof {
            assert(binary_shown(binary@).take(binary.alternatives.len() as int) =~= binary_shown(
                binary@,
            ));
        }
        i += 1;
    }
    assert(challenge@.binaries.take(challenge.binaries.len() as int) == challenge@.binaries);
    lines
}

/// What registering a file has come to.
#[derive(Clone, Debug, PartialEq, Eq)]
pub struct Added {
    pub name: FullBinaryAlternativeName,
    /// Whether the file is a new binary, to be kept also as its alternative
    /// `orig`.
    pub copy_original: bool,
}

/// The binary that a file starts as: with the one alternative `orig`, which
/// is its default.
pub open spec fn new_binary(name: Seq<char>) -> BinaryView {
    BinaryView {
        name,
        alternatives: seq![AlternativeView { name: ORIGINAL@, url: None, checksum: None }],
        default_alternative: Some(ORIGINAL@),
    }
}

/// What `add_binary` comes to: the file becomes an alternative of a binary
/// that the challenge has, as `try_add_alternative` says, or else a new
/// binary at the end.
pub open spec fn binary_added(before: Challenge, after: Challenge, name: Seq<char>, r: Added) -> bool {
    if first_cut(before@.binary_names(), name, 0) is Some {
        alternative_added(before, after, name, Some(r.name)) && !r.copy_original
    } else {
        &&& after@ == (ChallengeView { binaries: before@.binaries.push(new_binary(name)), ..before@ })
        &&& r.name.challenge_name@ == before.name@
        &&& r.name.binary_name@ == name
        &&& r.name.alternative_name@ == ORIGINAL@
        &&& r.copy_original
    }
}

/// Registers the file `name` of the challenge.
pub fn add_binary(challenge: &mut Challenge, name: String) -> (r: Added)
    ensures
        binary_added(*old(challenge), *final(challenge), name@, r),
{
    match try_add_alternative(challenge, name.as_str()) {
        Some(full) => Added { name: full, copy_original: false },
        None => {
            let ghost before = challenge@;
            let mut alternatives: Vec<BinaryAlternative> = Vec::new();
            alternatives.push(
                BinaryAlternative { name: ORIGINAL.to_owned(), url: None, checksum: None },
            );
            let full = FullBinaryAlternativeName {
                challenge_name: challenge.name.clone(),
                binary_name: name.clone(),
                alternative_name: ORIGINAL.to_owned(),
            };
            let binary = crate::ctf::Binary {
                name,
                alternatives,
                default_alternative: Some(ORIGINAL.to_owned()),
            };
            proof {
                assert(binary@.alternatives =~= new_binary(name@).alternatives);
            }
            challenge.binaries.push(binary);
            proof {
                assert(challenge@.binaries =~= before.binaries.push(new_binary(name@)));
                assert(challenge@.services =~= before.services);
            }
            Added { name: full, copy_original: true }
        },
    }
}

/// What removing an alternative has come to.
#[derive(Clone, Debug, PartialEq, Eq)]
pub struct Removed {
    pub name: FullBinaryAlternativeName,
    /// Whether the alternative was the default of its binary, whose file
    /// goes with it.
    pub was_default: bool,
}

/// The binaries without those called `name`.
pub open spec fn without(binaries: Seq<BinaryView>, name: Seq<char>) -> Seq<BinaryView>
    decreases binaries.len(),
{
    if binaries.len() == 0 {
        binaries
    } else if binaries.last().name == name {
        without(binaries.drop_last(), name)
    } else {
        without(binaries.drop_last(), name).push(binaries.last())
    }
}

/// Removes every binary called `name`.
pub fn remove_binaries(challenge: &mut Challenge, name: &str)
    ensures
        final(challenge)@ == (ChallengeView {
            binaries: without(old(challenge)@.binaries, name@),
            ..old(challenge)@
        }),
{
    let ghost all = challenge@.binaries;
    let ghost mut done: int = 0;
    let mut i: usize = 0;
    while i < challenge.binaries.len()
        invariant
            0 <= done <= all.len(),
            i <= challenge.binaries.len(),
            i == without(all.take(done), name@).len(),
            challenge@.binaries == without(all.take(done), name@) + all.skip(done),
            challenge.name == old(challenge).name,
            challenge.description == old(challenge).description,
            challenge.services == old(challenge).services,
        decreases all.len() - done,
    {
        proof {
            assert(challenge@.binaries[i as int] == all.skip(done)[0]);
            assert(done < all.len());
            assert(all.take(done + 1).drop_last() == all.take(done));
            assert(all.take(done + 1).last() == all[done]);
            assert(challenge@.binaries[i as int] == challenge.binaries[i as int]@);
        }
        let ghost before = challenge@.binaries;
        if challenge.binaries[i].name.as_str().eq(name) {
            challenge.binaries.remove(i);
            proof {
                assert(challenge@.binaries =~= before.remove(i as int));
                assert(challenge@.binaries =~= without(all.take(done + 1), name@) + all.skip(
                    done + 1,
                ));
            }
        } else {
            i += 1;
            proof {
                assert(challenge@.binaries =~= without(all.take(done + 1), name@) + all.skip(
                    done + 1,
                ));
            }
        }
        proof {
            done = done + 1;
        }
    }
    proof {
        assert(done == all.len()) by {
            if done < all.len() {
                assert(challenge@.binaries.len() == i + (all.len() - done));
            }
        }
        assert(all.take(done) == all);
        assert(challenge@.binaries =~= without(all, name@));
    }
}

/// The names of the alternatives of a binary, in their order.
pub fn alternative_names(binary: &crate::ctf::Binary) -> (r: Vec<String>)
    ensures
        strings_view(r@) == binary@.alternative_names(),
{
    let mut names: Vec<String> = Vec::new();
    let mut i: usize = 0;
    while i < binary.alternatives.len()
        invariant
            i <= binary.alternatives.len(),
            strings_view(names@) == binary@.alternative_names().take(i as int),
        decreases binary.alternatives.len() - i,
    {
        let ghost before = strings_view(names@);
        names.push(binary.alternatives[i].name.clone());
        assert(strings_view(names@) =~= before.push(binary.alternatives[i as int].name@));
        assert(strings_view(names@) =~= binary@.alternative_names().take(i + 1));
        i += 1;
    }
    assert(binary@.alternative_names().take(binary.alternatives.len() as int)
        =~= binary@.alternative_names());
    names
}

/// The binary `binary` without its alternative at position `i`, called
/// `alternative`: where that was its default, it has none left.
pub open spec fn binary_without(binary: BinaryView, i: int, alternative: Seq<char>) -> BinaryView {
    BinaryView {
        name: binary.name,
        alternatives: binary.alternatives.remove(i),
        default_alternative: if binary.default_alternative == Some(alternative) {
            None
        } else {
            binary.default_alternative
        },
    }
}

/// What `remove_alternative` comes to. The name is split at its last dot
/// into a binary's name and an alternative's. The first binary of that
/// name loses the alternative, where exactly one of its alternatives goes
/// by the name; a binary that is left without alternatives goes too.
pub open spec fn alternative_removed(
    before: Challenge,
    after: Challenge,
    name: Seq<char>,
    r: Result<Removed, BinaryError>,
) -> bool {
    if !name.contains('.') {
        after == before && r is Err && r->Err_0 is NotInFormat && r->Err_0->NotInFormat_0@ == name
    } else {
        let b = before_last(name, '.');
        let a = after_last(name, '.');
        match position(before@.binary_names(), b) {
            None => after == before && r is Err && r->Err_0 is NoSuchBinary
                && r->Err_0->NoSuchBinary_0@ == b,
            Some(j) => {
                let binary = before@.binaries[j];
                if !occurs_once(binary.alternative_names(), a) {
                    after == before && r is Err && r->Err_0 is DoesNotExist
                        && r->Err_0->DoesNotExist_0@ == name
                } else {
                    &&& r is Ok
                    &&& r->Ok_0.name.challenge_name@ == before.name@
                    &&& r->Ok_0.name.binary_name@ == b
                    &&& r->Ok_0.name.alternative_name@ == a
                    &&& r->Ok_0.was_default == (binary.default_alternative == Some(a))
                    &&& exists|i: int|
                        is_only(binary.alternative_names(), a, i) && after@ == (ChallengeView {
                            binaries: if binary.alternatives.len() == 1 {
                                without(
                                    before@.binaries.update(j, binary_without(binary, i, a)),
                                    b,
                                )
                            } else {
                                before@.binaries.update(j, binary_without(binary, i, a))
                            },
                            ..before@
                        })
                }
            },
        }
    }
}

/// Removes the alternative whose file is called `name`.
pub fn remove_alternative(challenge: &mut Challenge, name: &str) -> (r: Result<Removed, BinaryError>)
    ensures
        alternative_removed(*old(challenge), *final(challenge), name@, r),
{
    let (b, a) = match split(name) {
        Ok(parts) => parts,
        Err(e) => {
            return Err(e);
        },
    };
    proof {
        lemma_position_none(challenge@.binary_names(), b@);
    }
    let j = binary_position(&challenge.binaries, b.as_str());
    if j >= challenge.binaries.len() {
        assert(is_absent(challenge@.binary_names(), b@));
        return Err(BinaryError::NoSuchBinary(b));
    }
    proof {
        assert(is_first(challenge@.binary_names(), b@, j as int));
        lemma_position(challenge@.binary_names(), b@, j as int);
        assert(challenge@.binaries[j as int] == challenge.binaries[j as int]@);
    }
    let ghost binary = challenge@.binaries[j as int];
    let names = alternative_names(&challenge.binaries[j]);
    let i = match sole_position(&names, a.as_str()) {
        Some(i) => i,
        None => {
            return Err(BinaryError::DoesNotExist(name.to_owned()));
        },
    };
    let was_default = match &challenge.binaries[j].default_alternative {
        Some(d) => d.as_str().eq(a.as_str()),
        None => false,
    };
    let ghost before = challenge@;
    challenge.binaries[j].alternatives.remove(i);
    if was_default {
        challenge.binaries[j].default_alternative = None;
    }
    proof {
        assert(challenge@.binaries[j as int].alternatives =~= binary.alternatives.remove(i as int));
        assert(challenge@.binaries[j as int] == binary_without(binary, i as int, a@));
        assert(challenge@.binaries =~= before.binaries.update(
            j as int,
            binary_without(binary, i as int, a@),
        ));
        assert(challenge@.services =~= before.services);
    }
    if challenge.binaries[j].alternatives.len() == 0 {
        remove_binaries(challenge, b.as_str());
    }
    Ok(
        Removed {
            name: FullBinaryAlternativeName {
                challenge_name: challenge.name.clone(),
                binary_name: b,
                alternative_name: a,
            },
            was_default,
        },
    )
}

/// What `make_default` comes to. The name is split at its last dot into a
/// binary's name and an alternative's. Where the first binary of that name
/// has an alternative of that name, that alternative becomes its default.
pub open spec fn default_made(
    before: Challenge,
    after: Challenge,
    name: Seq<char>,
    r: Result<Report, BinaryError>,
) -> bool {
    if !name.contains('.') {
        after == before && r is Err && r->Err_0 is NotInFormat && r->Err_0->NotInFormat_0@ == name
    } else {
        let b = before_last(name, '.');
        let a = after_last(name, '.');
        match position(before@.binary_names(), b) {
            None => after == before && r is Err && r->Err_0 is NoSuchBinary
                && r->Err_0->NoSuchBinary_0@ == b,
            Some(j) => {
                let binary = before@.binaries[j];
                if is_absent(binary.alternative_names(), a) {
                    after == before && r is Err && r->Err_0 is NoSuchAlternative
                        && r->Err_0->NoSuchAlternative_0@ == a
                } else {
                    &&& r is Ok
                    &&& after@ == (ChallengeView {
                        binaries: before@.binaries.update(
                            j,
                            BinaryView { default_alternative: Some(a), ..binary },
                        ),
                        ..before@
                    })
                    &&& r->Ok_0.lines@.len() == 0
                    &&& r->Ok_0.commit is Some
                    &&& r->Ok_0.commit->0@ == "Select binary "@ + name
                }
            },
        }
    }
}

/// Makes the alternative whose file is called `name` the default of its
/// binary. The binary's own file is then to be a copy of that file.
pub fn make_default(challenge: &mut Challenge, name: &str) -> (r: Result<Report, BinaryError>)
    ensures
        default_made(*old(challenge), *final(challenge), name@, r),
{
    let (b, a) = match split(name) {
        Ok(parts) => parts,
        Err(e) => {
            return Err(e);
        },
    };
    proof {
        lemma_position_none(challenge@.binary_names(), b@);
    }
    let j = binary_position(&challenge.binaries, b.as_str());
    if j >= challenge.binaries.len() {
        assert(is_absent(challenge@.binary_names(), b@));
        return Err(BinaryError::NoSuchBinary(b));
    }
    proof {
        assert(is_first(challenge@.binary_names(), b@, j as int));
        lemma_position(challenge@.binary_names(), b@, j as int);
        assert(challenge@.binaries[j as int] == challenge.binaries[j as int]@);
    }
    let ghost binary = challenge@.binaries[j as int];
    let i = alternative_position(&challenge.binaries[j].alternatives, a.as_str());
    if i >= challenge.binaries[j].alternatives.len() {
        assert(is_absent(binary.alternative_names(), a@));
        return Err(BinaryError::NoSuchAlternative(a));
    }
    assert(binary.alternative_names()[i as int] == a@);
    let ghost before = challenge@;
    challenge.binaries[j].default_alternative = Some(a);
    proof {
        assert(challenge@.binaries[j as int].alternatives =~= binary.alternatives);
        assert(challenge@.binaries =~= before.binaries.update(
            j as int,
            BinaryView { default_alternative: Some(a@), ..binary },
        ));
        assert(challenge@.services =~= before.services);
    }
    Ok(committed(join2("Select binary ", name)))
}

/// The message that registered files are committed under.
pub fn add_message(alternatives: &[FullBinaryAlternativeName]) -> (r: String)
    ensures
        r@ == "Add "@ + enumerated(full_names(alternatives@)),
{
    alternatives_to_string("Add ".to_owned(), alternatives)
}

/// The message that removed files are committed under.
pub fn remove_message(alternatives: &[FullBinaryAlternativeName]) -> (r: String)
    ensures
        r@ == "Remove "@ + enumerated(full_names(alternatives@)),
{
    alternatives_to_string("Remove ".to_owned(), alternatives)
}

} // verus!
