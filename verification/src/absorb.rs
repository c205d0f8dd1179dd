//! Facts about absorbing incoming records into a list, whatever the records
//! are: what stays in place, when keys stay distinct, and when a list is
//! absorbed without a change.

use vstd::prelude::*;
use crate::reconcile::{absorb, absorb_all, first_match, lemma_first_match, lemma_first_match_is};

verus! {

/// No record of `s` is matched by a later one.
pub open spec fn unmatched_pairs<A>(s: Seq<A>, same: spec_fn(A, A) -> bool) -> bool {
    forall|i: int, j: int| 0 <= i < j < s.len() ==> !same(#[trigger] s[i], #[trigger] s[j])
}

/// Every record of `base` has, at its position in `s`, a record that `rel`
/// relates it to.
pub open spec fn related_prefix<A>(base: Seq<A>, s: Seq<A>, rel: spec_fn(A, A) -> bool) -> bool {
    &&& base.len() <= s.len()
    &&& forall|i: int| 0 <= i < base.len() ==> rel(#[trigger] base[i], s[i])
}

/// A relation that every join with a matching, admissible incoming record
/// keeps holds between the records of `base` and what stands at their positions
/// after any number of such records was absorbed.
pub proof fn lemma_absorb_all_related<A>(
    base: Seq<A>,
    s: Seq<A>,
    bs: Seq<A>,
    same: spec_fn(A, A) -> bool,
    join: spec_fn(A, A) -> A,
    rel: spec_fn(A, A) -> bool,
    admissible: spec_fn(A) -> bool,
)
    requires
        related_prefix(base, s, rel),
        forall|i: int| 0 <= i < bs.len() ==> admissible(#[trigger] bs[i]),
        forall|a: A, x: A, b: A|
            rel(a, x) && admissible(b) && same(x, b) ==> #[trigger] rel(a, join(x, b)),
    ensures
        related_prefix(base, absorb_all(s, bs, same, join), rel),
    decreases bs.len(),
{
    if bs.len() > 0 {
        let prev = absorb_all(s, bs.drop_last(), same, join);
        let b = bs.last();
        assert forall|i: int| 0 <= i < bs.drop_last().len() implies admissible(
            #[trigger] bs.drop_last()[i],
        ) by {
            assert(bs.drop_last()[i] == bs[i]);
        }
        lemma_absorb_all_related(base, s, bs.drop_last(), same, join, rel, admissible);
        lemma_first_match(prev, b, same);
        let k = first_match(prev, b, same);
        let next = absorb(prev, b, same, join);
        assert(admissible(bs[bs.len() - 1]));
        assert forall|i: int| 0 <= i < base.len() implies rel(#[trigger] base[i], next[i]) by {
            if i == k {
                assert(rel(base[i], prev[i]));
                assert(rel(base[i], join(prev[i], b)));
            } else {
                assert(rel(base[i], prev[i]));
            }
        }
    }
}

/// A property that the incoming records have and that every join keeps
/// holds of every record after they were absorbed.
pub proof fn lemma_absorb_all_every<A>(
    s: Seq<A>,
    bs: Seq<A>,
    same: spec_fn(A, A) -> bool,
    join: spec_fn(A, A) -> A,
    good: spec_fn(A) -> bool,
)
    requires
        forall|i: int| 0 <= i < s.len() ==> good(#[trigger] s[i]),
        forall|i: int| 0 <= i < bs.len() ==> good(#[trigger] bs[i]),
        forall|x: A, b: A| good(x) && good(b) ==> #[trigger] good(join(x, b)),
    ensures
        forall|i: int|
            0 <= i < absorb_all(s, bs, same, join).len() ==> good(
                #[trigger] absorb_all(s, bs, same, join)[i],
            ),
    decreases bs.len(),
{
    if bs.len() > 0 {
        let prev = absorb_all(s, bs.drop_last(), same, join);
        let b = bs.last();
        assert forall|i: int| 0 <= i < bs.drop_last().len() implies good(
            #[trigger] bs.drop_last()[i],
        ) by {
            assert(bs.drop_last()[i] == bs[i]);
        }
        lemma_absorb_all_every(s, bs.drop_last(), same, join, good);
        lemma_first_match(prev, b, same);
        let k = first_match(prev, b, same);
        let next = absorb(prev, b, same, join);
        assert(good(bs[bs.len() - 1]));
        assert forall|i: int| 0 <= i < next.len() implies good(#[trigger] next[i]) by {
            if i == k && k < prev.len() {
                assert(good(prev[i]));
                assert(good(join(prev[i], b)));
            } else if i < prev.len() {
                assert(good(prev[i]));
            }
        }
    }
}

/// Where records match exactly when their keys are equal and a join keeps
/// the key, a list with distinct keys has distinct keys after absorbing.
pub proof fn lemma_absorb_all_distinct<A>(
    s: Seq<A>,
    bs: Seq<A>,
    same: spec_fn(A, A) -> bool,
    join: spec_fn(A, A) -> A,
    key: spec_fn(A) -> Seq<char>,
)
    requires
        unmatched_pairs(s, same),
        forall|a: A, b: A| #[trigger] same(a, b) <==> key(a) == key(b),
        forall|a: A, b: A| key(#[trigger] join(a, b)) == key(a),
    ensures
        unmatched_pairs(absorb_all(s, bs, same, join), same),
    decreases bs.len(),
{
    if bs.len() > 0 {
        let prev = absorb_all(s, bs.drop_last(), same, join);
        let b = bs.last();
        lemma_absorb_all_distinct(s, bs.drop_last(), same, join, key);
        lemma_first_match(prev, b, same);
        let k = first_match(prev, b, same);
        let next = absorb(prev, b, same, join);
        assert forall|i: int, j: int| 0 <= i < j < next.len() implies !same(
            #[trigger] next[i],
            #[trigger] next[j],
        ) by {
            if k < prev.len() {
                assert(!same(prev[i], prev[j]));
                assert(key(join(prev[k], b)) == key(prev[k]));
            } else {
                if j < prev.len() {
                    assert(!same(prev[i], prev[j]));
                } else {
                    assert(!same(prev[i], b));
                }
            }
        }
    }
}

/// Where a join with a matching, admissible record changes nothing, the
/// records of `s` stand unchanged after such records were absorbed, and
/// records that could be told apart still can.
pub proof fn lemma_absorb_all_inert<A>(
    s: Seq<A>,
    bs: Seq<A>,
    same: spec_fn(A, A) -> bool,
    join: spec_fn(A, A) -> A,
    admissible: spec_fn(A) -> bool,
)
    requires
        forall|i: int| 0 <= i < bs.len() ==> admissible(#[trigger] bs[i]),
        forall|x: A, b: A| admissible(b) && same(x, b) ==> #[trigger] join(x, b) == x,
    ensures
        s.len() <= absorb_all(s, bs, same, join).len(),
        forall|i: int| 0 <= i < s.len() ==> #[trigger] absorb_all(s, bs, same, join)[i] == s[i],
        unmatched_pairs(s, same) ==> unmatched_pairs(absorb_all(s, bs, same, join), same),
    decreases bs.len(),
{
    if bs.len() > 0 {
        let prev = absorb_all(s, bs.drop_last(), same, join);
        let b = bs.last();
        assert forall|i: int| 0 <= i < bs.drop_last().len() implies admissible(
            #[trigger] bs.drop_last()[i],
        ) by {
            assert(bs.drop_last()[i] == bs[i]);
        }
        lemma_absorb_all_inert(s, bs.drop_last(), same, join, admissible);
        lemma_first_match(prev, b, same);
        let k = first_match(prev, b, same);
        let next = absorb(prev, b, same, join);
        assert(admissible(bs[bs.len() - 1]));
        if k < prev.len() {
            assert(join(prev[k], b) == prev[k]);
            assert(next =~= prev);
        } else if unmatched_pairs(s, same) {
            assert forall|i: int, j: int| 0 <= i < j < next.len() implies !same(
                #[trigger] next[i],
                #[trigger] next[j],
            ) by {
                if j < prev.len() {
                    assert(!same(prev[i], prev[j]));
                } else {
                    assert(!same(prev[i], b));
                }
            }
        }
    }
}

/// The list that stands after the first `j` records of `m` were absorbed
/// into `s`, where each lands on its own position.
pub open spec fn landed<A>(s: Seq<A>, m: Seq<A>, j: int) -> Seq<A> {
    if j <= s.len() {
        m.take(j) + s.skip(j)
    } else {
        m.take(j)
    }
}

proof fn lemma_absorb_all_landed<A>(
    s: Seq<A>,
    m: Seq<A>,
    same: spec_fn(A, A) -> bool,
    join: spec_fn(A, A) -> A,
    j: int,
)
    requires
        0 <= j <= m.len(),
        s.len() <= m.len(),
        forall|i: int| 0 <= i < s.len() ==> same(#[trigger] s[i], m[i]),
        unmatched_pairs(m, same),
        forall|i: int| 0 <= i < s.len() ==> join(#[trigger] s[i], m[i]) == m[i],
    ensures
        absorb_all(s, m.take(j), same, join) == landed(s, m, j),
    decreases j,
{
    if j == 0 {
        assert(landed(s, m, 0) =~= s);
    } else {
        lemma_absorb_all_landed(s, m, same, join, j - 1);
        assert(m.take(j).drop_last() == m.take(j - 1));
        let b = m[j - 1];
        assert(m.take(j).last() == b);
        let prev = landed(s, m, j - 1);
        assert forall|i: int| 0 <= i < j - 1 implies !same(#[trigger] prev[i], b) by {
            assert(prev[i] == m[i]);
            assert(!same(m[i], m[j - 1]));
        }
        if j - 1 < s.len() {
            assert(prev[j - 1] == s[j - 1]);
            assert(same(s[j - 1], m[j - 1]));
            lemma_first_match_is(prev, b, same, j - 1);
            assert(join(s[j - 1], m[j - 1]) == m[j - 1]);
            assert(absorb(prev, b, same, join) =~= landed(s, m, j));
        } else {
            lemma_first_match_is(prev, b, same, j - 1);
            assert(absorb(prev, b, same, join) =~= landed(s, m, j));
        }
    }
}

/// A list `m` is absorbed into `s` without a change, that is the result is
/// `m` itself, where every record of `s` is matched by the record at its
/// position in `m` and joins with it to that record, and no record of `m`
/// is matched by a later one.
pub proof fn lemma_absorb_all_settled<A>(
    s: Seq<A>,
    m: Seq<A>,
    same: spec_fn(A, A) -> bool,
    join: spec_fn(A, A) -> A,
)
    requires
        s.len() <= m.len(),
        forall|i: int| 0 <= i < s.len() ==> same(#[trigger] s[i], m[i]),
        unmatched_pairs(m, same),
        forall|i: int| 0 <= i < s.len() ==> join(#[trigger] s[i], m[i]) == m[i],
    ensures
        absorb_all(s, m, same, join) == m,
{
    lemma_absorb_all_landed(s, m, same, join, m.len() as int);
    assert(m.take(m.len() as int) == m);
    assert(landed(s, m, m.len() as int) =~= m);
}

/// The record `t` has landed at `p`: the record there matches it, and a
/// join with `t` leaves that record as it is.
pub open spec fn settled_at<A>(
    m: Seq<A>,
    t: A,
    p: int,
    same: spec_fn(A, A) -> bool,
    join: spec_fn(A, A) -> A,
) -> bool {
    0 <= p < m.len() && same(m[p], t) && join(m[p], t) == m[p]
}

/// The record `t` has landed somewhere in `m`.
pub open spec fn has_settled<A>(
    m: Seq<A>,
    t: A,
    same: spec_fn(A, A) -> bool,
    join: spec_fn(A, A) -> A,
) -> bool {
    exists|p: int| settled_at(m, t, p, same, join)
}

/// Every record of `ts` has landed somewhere in `m`.
pub open spec fn all_settled<A>(
    m: Seq<A>,
    ts: Seq<A>,
    same: spec_fn(A, A) -> bool,
    join: spec_fn(A, A) -> A,
) -> bool {
    forall|i: int| 0 <= i < ts.len() ==> has_settled(m, #[trigger] ts[i], same, join)
}

/// After records with distinct keys were absorbed, each of them has landed:
/// provided that a join keeps the key, that joining a record twice is the
/// same as joining it once, and that a record joined with itself stays as
/// it is.
pub proof fn lemma_absorb_all_settles<A>(
    s: Seq<A>,
    ts: Seq<A>,
    same: spec_fn(A, A) -> bool,
    join: spec_fn(A, A) -> A,
    key: spec_fn(A) -> Seq<char>,
    good: spec_fn(A) -> bool,
    admissible: spec_fn(A) -> bool,
)
    requires
        forall|a: A, b: A| #[trigger] same(a, b) <==> key(a) == key(b),
        forall|a: A, b: A| key(#[trigger] join(a, b)) == key(a),
        unmatched_pairs(ts, same),
        forall|i: int| 0 <= i < s.len() ==> good(#[trigger] s[i]),
        forall|i: int| 0 <= i < ts.len() ==> admissible(#[trigger] ts[i]),
        forall|t: A| #[trigger] admissible(t) ==> good(t),
        forall|x: A, b: A| good(x) && good(b) ==> #[trigger] good(join(x, b)),
        forall|x: A, t: A| good(x) && admissible(t) ==> #[trigger] join(join(x, t), t) == join(x, t),
        forall|t: A| admissible(t) ==> #[trigger] join(t, t) == t,
    ensures
        all_settled(absorb_all(s, ts, same, join), ts, same, join),
    decreases ts.len(),
{
    if ts.len() > 0 {
        let rest = ts.drop_last();
        let prev = absorb_all(s, rest, same, join);
        let b = ts.last();
        assert(rest.len() == ts.len() - 1);
        assert forall|i: int, j: int| 0 <= i < j < rest.len() implies !same(
            #[trigger] rest[i],
            #[trigger] rest[j],
        ) by {
            assert(!same(ts[i], ts[j]));
        }
        assert forall|i: int| 0 <= i < rest.len() implies admissible(#[trigger] rest[i]) by {
            assert(rest[i] == ts[i]);
        }
        assert forall|i: int| 0 <= i < rest.len() implies good(#[trigger] rest[i]) by {
            assert(admissible(rest[i]));
        }
        lemma_absorb_all_settles(s, rest, same, join, key, good, admissible);
        lemma_absorb_all_every(s, rest, same, join, good);
        lemma_first_match(prev, b, same);
        let q = first_match(prev, b, same);
        let next = absorb(prev, b, same, join);
        assert(admissible(ts[ts.len() - 1]));
        assert(next.len() >= prev.len());
        assert forall|i: int| 0 <= i < ts.len() implies has_settled(
            next,
            #[trigger] ts[i],
            same,
            join,
        ) by {
            if i < ts.len() - 1 {
                assert(rest[i] == ts[i]);
                assert(has_settled(prev, rest[i], same, join));
                let p = choose|p: int| settled_at(prev, rest[i], p, same, join);
                assert(!same(ts[i], ts[ts.len() - 1]));
                if q < prev.len() && p == q {
                    assert(same(prev[q], b));
                    assert(same(prev[p], ts[i]));
                    assert(key(ts[i]) == key(b));
                    assert(same(ts[i], b));
                }
                assert(next[p] == prev[p]);
                assert(settled_at(next, ts[i], p, same, join));
            } else {
                if q < prev.len() {
                    assert(good(prev[q]));
                    assert(join(join(prev[q], b), b) == join(prev[q], b));
                    assert(key(join(prev[q], b)) == key(prev[q]));
                    assert(same(prev[q], b));
                    assert(next[q] == join(prev[q], b));
                    assert(same(next[q], b));
                    assert(settled_at(next, b, q, same, join));
                } else {
                    assert(join(b, b) == b);
                    assert(same(b, b));
                    assert(next[prev.len() as int] == b);
                    assert(settled_at(next, b, prev.len() as int, same, join));
                }
            }
        }
    }
}

/// Records that have all landed in a list with distinct keys are absorbed
/// by it without a change.
pub proof fn lemma_absorb_all_again<A>(
    m: Seq<A>,
    ts: Seq<A>,
    same: spec_fn(A, A) -> bool,
    join: spec_fn(A, A) -> A,
    key: spec_fn(A) -> Seq<char>,
)
    requires
        forall|a: A, b: A| #[trigger] same(a, b) <==> key(a) == key(b),
        unmatched_pairs(m, same),
        all_settled(m, ts, same, join),
    ensures
        absorb_all(m, ts, same, join) == m,
    decreases ts.len(),
{
    if ts.len() > 0 {
        let rest = ts.drop_last();
        let b = ts.last();
        assert(rest.len() == ts.len() - 1);
        assert forall|i: int| 0 <= i < rest.len() implies has_settled(
            m,
            #[trigger] rest[i],
            same,
            join,
        ) by {
            assert(rest[i] == ts[i]);
        }
        lemma_absorb_all_again(m, rest, same, join, key);
        assert(ts[ts.len() - 1] == b);
        assert(has_settled(m, b, same, join));
        let p = choose|p: int| settled_at(m, b, p, same, join);
        lemma_first_match(m, b, same);
        let q = first_match(m, b, same);
        if q < p {
            assert(same(m[q], b));
            assert(same(m[p], b));
            assert(key(m[q]) == key(m[p]));
            assert(same(m[q], m[p]));
        }
        assert(q == p);
        assert(absorb(m, b, same, join) =~= m);
    }
}

/// The record at `p` matches `t`.
pub open spec fn matched_at<A>(m: Seq<A>, t: A, p: int, same: spec_fn(A, A) -> bool) -> bool {
    0 <= p < m.len() && same(m[p], t)
}

/// Some record of `m` matches `t`.
pub open spec fn is_matched<A>(m: Seq<A>, t: A, same: spec_fn(A, A) -> bool) -> bool {
    exists|p: int| matched_at(m, t, p, same)
}

/// Every record of `ts` is matched by some record of `m`.
pub open spec fn all_matched<A>(m: Seq<A>, ts: Seq<A>, same: spec_fn(A, A) -> bool) -> bool {
    forall|i: int| 0 <= i < ts.len() ==> is_matched(m, #[trigger] ts[i], same)
}

/// Where a join with a matching, admissible record changes nothing and
/// every admissible record matches itself, each of the records that were
/// absorbed is matched afterwards.
pub proof fn lemma_absorb_all_matches<A>(
    s: Seq<A>,
    ts: Seq<A>,
    same: spec_fn(A, A) -> bool,
    join: spec_fn(A, A) -> A,
    admissible: spec_fn(A) -> bool,
)
    requires
        forall|i: int| 0 <= i < ts.len() ==> admissible(#[trigger] ts[i]),
        forall|x: A, b: A| admissible(b) && same(x, b) ==> #[trigger] join(x, b) == x,
        forall|t: A| admissible(t) ==> #[trigger] same(t, t),
    ensures
        all_matched(absorb_all(s, ts, same, join), ts, same),
    decreases ts.len(),
{
    if ts.len() > 0 {
        let rest = ts.drop_last();
        let prev = absorb_all(s, rest, same, join);
        let b = ts.last();
        assert(rest.len() == ts.len() - 1);
        assert forall|i: int| 0 <= i < rest.len() implies admissible(#[trigger] rest[i]) by {
            assert(rest[i] == ts[i]);
        }
        lemma_absorb_all_matches(s, rest, same, join, admissible);
        lemma_first_match(prev, b, same);
        let q = first_match(prev, b, same);
        let next = absorb(prev, b, same, join);
        assert(admissible(ts[ts.len() - 1]));
        if q < prev.len() {
            assert(join(prev[q], b) == prev[q]);
            assert(next =~= prev);
        }
        assert(next.len() >= prev.len());
        assert forall|i: int| 0 <= i < ts.len() implies is_matched(next, #[trigger] ts[i], same) by {
            if i < ts.len() - 1 {
                assert(rest[i] == ts[i]);
                assert(is_matched(prev, rest[i], same));
                let p = choose|p: int| matched_at(prev, rest[i], p, same);
                assert(next[p] == prev[p]);
                assert(matched_at(next, ts[i], p, same));
            } else {
                if q < prev.len() {
                    assert(matched_at(next, b, q, same));
                } else {
                    assert(same(b, b));
                    assert(next[prev.len() as int] == b);
                    assert(matched_at(next, b, prev.len() as int, same));
                }
            }
        }
    }
}

/// Admissible records that are all matched in a list are absorbed by it
/// without a change, where a join with a matching, admissible record
/// changes nothing.
pub proof fn lemma_absorb_all_again_inert<A>(
    m: Seq<A>,
    ts: Seq<A>,
    same: spec_fn(A, A) -> bool,
    join: spec_fn(A, A) -> A,
    admissible: spec_fn(A) -> bool,
)
    requires
        forall|i: int| 0 <= i < ts.len() ==> admissible(#[trigger] ts[i]),
        forall|x: A, b: A| admissible(b) && same(x, b) ==> #[trigger] join(x, b) == x,
        all_matched(m, ts, same),
    ensures
        absorb_all(m, ts, same, join) == m,
    decreases ts.len(),
{
    if ts.len() > 0 {
        let rest = ts.drop_last();
        let b = ts.last();
        assert(rest.len() == ts.len() - 1);
        assert forall|i: int| 0 <= i < rest.len() implies admissible(#[trigger] rest[i]) by {
            assert(rest[i] == ts[i]);
        }
        assert forall|i: int| 0 <= i < rest.len() implies is_matched(
            m,
            #[trigger] rest[i],
            same,
        ) by {
            assert(rest[i] == ts[i]);
        }
        lemma_absorb_all_again_inert(m, rest, same, join, admissible);
        assert(ts[ts.len() - 1] == b);
        assert(is_matched(m, b, same));
        let p = choose|p: int| matched_at(m, b, p, same);
        lemma_first_match(m, b, same);
        let q = first_match(m, b, same);
        assert(q <= p);
        assert(admissible(ts[ts.len() - 1]));
        assert(join(m[q], b) == m[q]);
        assert(absorb(m, b, same, join) =~= m);
    }
}

} // verus!
