//! Strings: the few facts about `str` and `String` that the rest of the
//! library builds on.

use vstd::prelude::*;

verus! {

/// `str`'s equality compares the two slices' contents; std documents it as
/// byte-wise equality, which for valid UTF-8 is equality of the characters.
pub assume_specification[ <str as PartialEq>::eq ](a: &str, b: &str) -> (r: bool)
    ensures
        r == (a@ == b@),
;

/// The characters of an optional string.
pub open spec fn opt_view(o: Option<String>) -> Option<Seq<char>> {
    match o {
        Some(s) => Some(s@),
        None => None,
    }
}

/// Whether two optional strings hold the same text, or both hold none.
pub fn opt_eq(a: &Option<String>, b: &Option<String>) -> (r: bool)
    ensures
        r == (opt_view(*a) == opt_view(*b)),
{
    match (a, b) {
        (Some(x), Some(y)) => x.as_str().eq(y.as_str()),
        (None, None) => true,
        _ => false,
    }
}

/// `a`, then `b`.
pub fn join2(a: &str, b: &str) -> (r: String)
    ensures
        r@ == a@ + b@,
{
    let mut r = a.to_owned();
    r.append(b);
    r
}

/// `String::push` puts one character at the end.
pub assume_specification[ String::push ](s: &mut String, c: char)
    ensures
        final(s)@ == old(s)@.push(c),
;

/// The lowercase form of a text, as Unicode defines it.
pub uninterp spec fn lowercase(s: Seq<char>) -> Seq<char>;

/// `str::to_lowercase`: the result is the lowercase form of `s`, which
/// depends on the characters of `s` alone.
#[verifier::external_body]
pub(crate) fn to_lowercase(s: &str) -> (r: String)
    ensures
        r@ == lowercase(s@),
{
    s.to_lowercase()
}

/// The characters of each string.
pub open spec fn strings_view(v: Seq<String>) -> Seq<Seq<char>> {
    v.map_values(|s: String| s@)
}

/// What follows the last `sep` of `s`; all of `s` where it holds none.
pub open spec fn after_last(s: Seq<char>, sep: char) -> Seq<char>
    decreases s.len(),
{
    if s.len() == 0 {
        s
    } else if s.last() == sep {
        Seq::empty()
    } else {
        after_last(s.drop_last(), sep).push(s.last())
    }
}

/// What stands before the last `sep` of `s`; nothing where it holds none.
pub open spec fn before_last(s: Seq<char>, sep: char) -> Seq<char>
    decreases s.len(),
{
    if s.len() == 0 {
        s
    } else if s.last() == sep {
        s.drop_last()
    } else {
        before_last(s.drop_last(), sep)
    }
}

/// A text that holds `sep` is what stands before the last `sep`, `sep`, and
/// what follows it; and what follows it holds no `sep`.
pub proof fn lemma_cut_at_last(s: Seq<char>, sep: char)
    ensures
        !after_last(s, sep).contains(sep),
        s.contains(sep) ==> s == before_last(s, sep) + seq![sep] + after_last(s, sep),
        !s.contains(sep) ==> after_last(s, sep) == s,
    decreases s.len(),
{
    if s.len() > 0 {
        let t = s.drop_last();
        lemma_cut_at_last(t, sep);
        if s.last() == sep {
            assert(s =~= t + seq![sep] + Seq::<char>::empty());
            assert(s[s.len() - 1] == sep);
        } else {
            let a = after_last(t, sep);
            assert forall|j: int| 0 <= j < a.push(s.last()).len() implies a.push(s.last())[j]
                != sep by {
                if j < a.len() {
                    assert(a.contains(a[j]));
                }
            }
            if t.contains(sep) {
                let k = choose|k: int| 0 <= k < t.len() && t[k] == sep;
                assert(s[k] == sep);
                assert(s =~= t.push(s.last()));
                assert(t == before_last(t, sep) + seq![sep] + a);
                assert(t.push(s.last()) =~= before_last(t, sep) + seq![sep] + a.push(s.last()));
            } else {
                if s.contains(sep) {
                    let k = choose|k: int| 0 <= k < s.len() && s[k] == sep;
                    assert(t[k] == sep);
                }
                assert(after_last(s, sep) =~= s);
            }
        }
    }
}

/// What follows the last `sep` of `s`.
pub fn tail_after(s: &str, sep: char) -> (r: String)
    ensures
        r@ == after_last(s@, sep),
{
    let mut r = String::new();
    for c in it: s.chars()
        invariant
            it.seq() == s@,
            r@ == after_last(s@.take(it.index() as int), sep),
    {
        let ghost i = it.index();
        proof {
            assert(s@.take(i + 1).drop_last() == s@.take(i));
            assert(s@.take(i + 1).last() == c);
        }
        if c == sep {
            r = String::new();
        } else {
            r.push(c);
        }
    }
    assert(s@.take(s@.len() as int) == s@);
    r
}

/// The parts of `s` between the occurrences of `sep`: one more part than
/// there are occurrences.
pub open spec fn split_at_each(s: Seq<char>, sep: char) -> Seq<Seq<char>>
    decreases s.len(),
{
    if s.len() == 0 {
        seq![Seq::empty()]
    } else {
        let before = split_at_each(s.drop_last(), sep);
        if s.last() == sep {
            before.push(Seq::empty())
        } else {
            before.drop_last().push(before.last().push(s.last()))
        }
    }
}

/// A split has at least one part.
pub proof fn lemma_split_nonempty(s: Seq<char>, sep: char)
    ensures
        split_at_each(s, sep).len() >= 1,
    decreases s.len(),
{
    if s.len() > 0 {
        lemma_split_nonempty(s.drop_last(), sep);
    }
}

/// The parts of `s` between the occurrences of `sep`.
pub fn split(s: &str, sep: char) -> (r: Vec<String>)
    ensures
        strings_view(r@) == split_at_each(s@, sep),
        r@.len() >= 1,
{
    proof {
        lemma_split_nonempty(s@, sep);
    }
    let mut done: Vec<String> = Vec::new();
    let mut part = String::new();
    for c in it: s.chars()
        invariant
            it.seq() == s@,
            strings_view(done@).push(part@) == split_at_each(s@.take(it.index() as int), sep),
    {
        let ghost i = it.index();
        let ghost before = split_at_each(s@.take(i), sep);
        proof {
            assert(s@.take(i + 1).drop_last() == s@.take(i));
            assert(s@.take(i + 1).last() == c);
            assert(before.drop_last() =~= strings_view(done@));
            assert(before.last() == part@);
        }
        if c == sep {
            done.push(part);
            part = String::new();
            assert(strings_view(done@).push(part@) =~= before.push(Seq::empty()));
        } else {
            part.push(c);
            assert(strings_view(done@).push(part@) =~= before.drop_last().push(
                before.last().push(c),
            ));
        }
    }
    assert(s@.take(s@.len() as int) == s@);
    done.push(part);
    assert(strings_view(done@) =~= split_at_each(s@, sep));
    done
}

/// `needle` stands somewhere in `text`.
pub open spec fn occurs(text: Seq<char>, needle: Seq<char>) -> bool {
    exists|i: int|
        0 <= i <= text.len() - needle.len() && #[trigger] text.subrange(i, i + needle.len())
            == needle
}

/// The characters of a text, one by one.
pub fn chars_of(s: &str) -> (r: Vec<char>)
    ensures
        r@ == s@,
{
    let mut r: Vec<char> = Vec::new();
    for c in it: s.chars()
        invariant
            it.seq() == s@,
            r@ == s@.take(it.index() as int),
    {
        r.push(c);
        assert(r@ =~= s@.take(it.index() + 1));
    }
    assert(s@.take(s@.len() as int) == s@);
    r
}

/// Whether `needle` stands in `text` at `at`.
fn stands_at(text: &Vec<char>, needle: &Vec<char>, at: usize) -> (r: bool)
    requires
        at + needle.len() <= text.len(),
    ensures
        r == (text@.subrange(at as int, at + needle.len()) == needle@),
{
    let mut i: usize = 0;
    while i < needle.len()
        invariant
            i <= needle.len(),
            at + needle.len() <= text.len(),
            text@.subrange(at as int, at + i) == needle@.take(i as int),
        decreases needle.len() - i,
    {
        if text[at + i] != needle[i] {
            assert(text@.subrange(at as int, at + needle.len())[i as int] != needle@[i as int]);
            return false;
        }
        assert(text@.subrange(at as int, at + i + 1) =~= text@.subrange(at as int, at + i).push(
            text@[at + i],
        ));
        assert(needle@.take(i + 1) =~= needle@.take(i as int).push(needle@[i as int]));
        i += 1;
    }
    assert(needle@.take(needle.len() as int) == needle@);
    true
}

/// Whether `needle` stands somewhere in `text`.
pub fn contains(text: &str, needle: &str) -> (r: bool)
    ensures
        r == occurs(text@, needle@),
{
    let hay = chars_of(text);
    let pin = chars_of(needle);
    if pin.len() > hay.len() {
        return false;
    }
    let last = hay.len() - pin.len();
    let mut i: usize = 0;
    while i < last
        invariant
            i <= last,
            last == hay.len() - pin.len(),
            pin.len() <= hay.len(),
            hay@ == text@,
            pin@ == needle@,
            forall|j: int| 0 <= j < i ==> #[trigger] hay@.subrange(j, j + pin.len()) != pin@,
        decreases last - i,
    {
        if stands_at(&hay, &pin, i) {
            assert(hay@.subrange(i as int, i + pin.len()) == pin@);
            return true;
        }
        i += 1;
    }
    let found = stands_at(&hay, &pin, last);
    proof {
        if found {
            assert(hay@.subrange(last as int, last + pin.len()) == pin@);
        } else if occurs(text@, needle@) {
            let k = choose|k: int|
                0 <= k <= text@.len() - needle@.len() && #[trigger] text@.subrange(
                    k,
                    k + needle@.len(),
                ) == needle@;
            assert(hay@.subrange(k, k + pin.len()) != pin@);
        }
    }
    found
}

/// The texts one after another, with `sep` between each two.
pub open spec fn joined(texts: Seq<Seq<char>>, sep: Seq<char>) -> Seq<char>
    decreases texts.len(),
{
    if texts.len() == 0 {
        Seq::empty()
    } else if texts.len() == 1 {
        texts[0]
    } else {
        joined(texts.drop_last(), sep) + sep + texts.last()
    }
}

/// The texts one after another, with `sep` between each two.
pub fn join(texts: &[String], sep: &str) -> (r: String)
    ensures
        r@ == joined(strings_view(texts@), sep@),
{
    let ghost all = strings_view(texts@);
    let mut r = String::new();
    let mut i: usize = 0;
    while i < texts.len()
        invariant
            i <= texts.len(),
            all == strings_view(texts@),
            r@ == joined(all.take(i as int), sep@),
        decreases texts.len() - i,
    {
        proof {
            assert(all.take(i + 1).drop_last() == all.take(i as int));
            assert(all.take(i + 1).last() == texts[i as int]@);
        }
        if i > 0 {
            r.append(sep);
        }
        r.append(texts[i].as_str());
        proof {
            if i == 0 {
                assert(r@ =~= texts[0]@);
            }
        }
        i += 1;
    }
    assert(all.take(texts.len() as int) == all);
    r
}

/// The decimal digit for a number below ten.
pub open spec fn digit(d: int) -> char
    recommends
        0 <= d < 10,
{
    if d == 0 {
        '0'
    } else if d == 1 {
        '1'
    } else if d == 2 {
        '2'
    } else if d == 3 {
        '3'
    } else if d == 4 {
        '4'
    } else if d == 5 {
        '5'
    } else if d == 6 {
        '6'
    } else if d == 7 {
        '7'
    } else if d == 8 {
        '8'
    } else {
        '9'
    }
}

/// A natural number in decimal, without leading zeros.
pub open spec fn decimal(n: nat) -> Seq<char>
    decreases n,
{
    if n < 10 {
        seq![digit(n as int)]
    } else {
        decimal(n / 10).push(digit((n % 10) as int))
    }
}

/// An integer in decimal, with a minus sign where it is negative.
pub open spec fn signed_decimal(n: int) -> Seq<char> {
    if n < 0 {
        seq!['-'] + decimal((-n) as nat)
    } else {
        decimal(n as nat)
    }
}

/// The decimal digit for a number below ten.
fn digit_char(d: u64) -> (r: char)
    requires
        d < 10,
    ensures
        r == digit(d as int),
{
    if d == 0 {
        '0'
    } else if d == 1 {
        '1'
    } else if d == 2 {
        '2'
    } else if d == 3 {
        '3'
    } else if d == 4 {
        '4'
    } else if d == 5 {
        '5'
    } else if d == 6 {
        '6'
    } else if d == 7 {
        '7'
    } else if d == 8 {
        '8'
    } else {
        '9'
    }
}

/// A number in decimal.
pub fn u64_to_string(n: u64) -> (r: String)
    ensures
        r@ == decimal(n as nat),
    decreases n,
{
    if n < 10 {
        let mut r = String::new();
        r.push(digit_char(n));
        assert(r@ =~= seq![digit(n as int)]);
        r
    } else {
        let mut r = u64_to_string(n / 10);
        r.push(digit_char(n % 10));
        r
    }
}

/// A number in decimal, with a minus sign where it is negative.
pub fn i32_to_string(n: i32) -> (r: String)
    ensures
        r@ == signed_decimal(n as int),
{
    if n < 0 {
        let mut r = String::new();
        r.push('-');
        let magnitude: u64 = (-(n as i64)) as u64;
        r.append(u64_to_string(magnitude).as_str());
        assert(r@ =~= seq!['-'] + decimal((-n) as nat));
        r
    } else {
        u64_to_string(n as u64)
    }
}

/// The number that the digits stand for; `None` where `s` is empty or holds
/// anything but the digits `0` to `9`.
pub open spec fn decimal_value(s: Seq<char>) -> Option<nat>
    decreases s.len(),
{
    if s.len() == 0 {
        None
    } else if !('0' <= s.last() <= '9') {
        None
    } else if s.len() == 1 {
        Some((s.last() as u32 - '0' as u32) as nat)
    } else {
        match decimal_value(s.drop_last()) {
            Some(v) => Some(v * 10 + (s.last() as u32 - '0' as u32) as nat),
            None => None,
        }
    }
}

/// The number that the digits of `s` stand for, where it fits an `i32`.
pub fn parse_decimal(s: &str) -> (r: Option<i32>)
    ensures
        match decimal_value(s@) {
            Some(v) => if v <= i32::MAX {
                r == Some(v as i32)
            } else {
                r is None
            },
            None => r is None,
        },
{
    let mut value: i32 = 0;
    let mut any = false;
    for c in it: s.chars()
        invariant
            it.seq() == s@,
            any == (it.index() > 0),
            value >= 0,
            it.index() == 0 ==> value == 0,
            it.index() > 0 ==> decimal_value(s@.take(it.index() as int)) == Some(value as nat),
    {
        let ghost i = it.index() as int;
        proof {
            assert(s@.take(i + 1).drop_last() == s@.take(i));
            assert(s@.take(i + 1).last() == c);
            assert(s@.take(i + 1).len() == i + 1);
        }
        if !('0' <= c && c <= '9') {
            proof {
                assert(decimal_value(s@.take(i + 1)) is None);
                lemma_decimal_value_prefix(s@, i + 1);
            }
            return None;
        }
        let d: u32 = c as u32 - '0' as u32;
        assert(d <= 9);
        assert(decimal_value(s@.take(i + 1)) == Some((value * 10 + d) as nat));
        if value > (i32::MAX - d as i32) / 10 {
            proof {
                assert(value * 10 + d > i32::MAX);
                lemma_decimal_value_grows(s@, i + 1);
                if decimal_value(s@) is None {
                } else {
                    assert(decimal_value(s@)->0 >= (value * 10 + d) as nat);
                }
            }
            return None;
        }
        value = value * 10 + d as i32;
        any = true;
    }
    assert(s@.take(s@.len() as int) == s@);
    if any {
        Some(value)
    } else {
        assert(s@.len() == 0);
        None
    }
}

/// Where a prefix is no number, the whole is none.
pub proof fn lemma_decimal_value_prefix(s: Seq<char>, n: int)
    requires
        0 < n <= s.len(),
        decimal_value(s.take(n)) is None,
    ensures
        decimal_value(s) is None,
    decreases s.len() - n,
{
    if n < s.len() {
        assert(s.take(n + 1).drop_last() == s.take(n));
        lemma_decimal_value_prefix(s, n + 1);
    } else {
        assert(s.take(n) == s);
    }
}

/// A number is at least the number that any prefix of it stands for.
pub proof fn lemma_decimal_value_grows(s: Seq<char>, n: int)
    requires
        0 < n <= s.len(),
    ensures
        match (decimal_value(s.take(n)), decimal_value(s)) {
            (Some(a), Some(b)) => a <= b,
            _ => true,
        },
    decreases s.len() - n,
{
    if n < s.len() {
        assert(s.take(n + 1).drop_last() == s.take(n));
        assert(s.take(n + 1).len() == n + 1);
        lemma_decimal_value_grows(s, n + 1);
        if decimal_value(s.take(n + 1)) is None {
            lemma_decimal_value_prefix(s, n + 1);
        }
    } else {
        assert(s.take(n) == s);
    }
}

/// `s` starts with `prefix`.
pub open spec fn has_prefix(s: Seq<char>, prefix: Seq<char>) -> bool {
    prefix.len() <= s.len() && s.take(prefix.len() as int) == prefix
}

/// Whether `s` starts with `prefix`.
pub fn starts_with(s: &str, prefix: &str) -> (r: bool)
    ensures
        r == has_prefix(s@, prefix@),
{
    let text = chars_of(s);
    let start = chars_of(prefix);
    if start.len() > text.len() {
        return false;
    }
    assert(text@.subrange(0, 0 + start.len()) =~= text@.take(start.len() as int));
    stands_at(&text, &start, 0)
}

/// `String::from_utf8`: the text that the bytes encode, where they are
/// valid UTF-8.
#[verifier::external_body]
pub(crate) fn from_utf8(bytes: Vec<u8>) -> (r: Option<String>)
    ensures
        r is Some <==> vstd::utf8::valid_utf8(bytes@),
        r is Some ==> r->0@ == vstd::utf8::decode_utf8(bytes@),
{
    String::from_utf8(bytes).ok()
}

} // verus!
