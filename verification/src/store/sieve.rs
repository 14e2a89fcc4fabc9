//! Dropping the entries of a list that fail a test.
use vstd::prelude::*;

verus! {

/// Keeps the entries of `v` whose mark in `keep` is set, in their order. The marks
/// say, entry by entry, whether the entry passes `pred`.
pub(crate) fn retain_marked<T>(v: &mut Vec<T>, keep: &Vec<bool>, Ghost(pred): Ghost<spec_fn(T) -> bool>)
    requires
        keep.len() == old(v).len(),
        forall|k: int| 0 <= k < keep.len() ==> keep[k] == pred(#[trigger] old(v)[k]),
    ensures
        final(v)@ == old(v)@.filter(pred),
{
    let ghost before = v@;
    let mut i: usize = 0;
    let mut j: usize = 0;
    proof {
        reveal(Seq::filter);
        assert(before.take(0) =~= Seq::<T>::empty());
        assert(before.skip(0) =~= before);
    }
    while i < keep.len()
        invariant
            i <= keep.len(),
            keep.len() == before.len(),
            forall|k: int| 0 <= k < keep.len() ==> keep[k] == pred(#[trigger] before[k]),
            j == before.take(i as int).filter(pred).len(),
            v@ == before.take(i as int).filter(pred) + before.skip(i as int),
        decreases keep.len() - i,
    {
        proof {
            reveal(Seq::filter);
            assert(before.take(i + 1).drop_last() =~= before.take(i as int));
            assert(before.take(i + 1).last() == before[i as int]);
            assert(before.skip(i as int) =~= seq![before[i as int]] + before.skip(i + 1));
        }
        if keep[i] {
            proof {
                assert(before.take(i + 1).filter(pred) =~= before.take(i as int).filter(pred).push(
                    before[i as int],
                ));
                assert(v@ =~= before.take(i + 1).filter(pred) + before.skip(i + 1));
            }
            j += 1;
        } else {
            v.remove(j);
            proof {
                assert(v@ =~= before.take(i + 1).filter(pred) + before.skip(i + 1));
            }
        }
        i += 1;
    }
    proof {
        assert(before.take(i as int) =~= before);
        assert(before.skip(i as int) =~= Seq::<T>::empty());
        assert(v@ =~= before.filter(pred));
    }
}

/// Filtering a list without repetitions leaves none.
pub proof fn lemma_filter_distinct<T>(s: Seq<T>, pred: spec_fn(T) -> bool)
    requires
        s.no_duplicates(),
    ensures
        s.filter(pred).no_duplicates(),
    decreases s.len(),
{
    reveal(Seq::filter);
    if s.len() > 0 {
        let rest = s.drop_last();
        lemma_filter_distinct(rest, pred);
        if pred(s.last()) {
            if rest.filter(pred).contains(s.last()) {
                rest.lemma_filter_contains_rev(pred, s.last());
                let j: int = rest.index_of(s.last());
                assert(s[j] == s[s.len() - 1]);
            }
        }
    }
}

/// Filters that agree on every entry give the same list.
pub proof fn lemma_filter_agree<T>(s: Seq<T>, p: spec_fn(T) -> bool, q: spec_fn(T) -> bool)
    requires
        forall|i: int| 0 <= i < s.len() ==> p(#[trigger] s[i]) == q(s[i]),
    ensures
        s.filter(p) == s.filter(q),
    decreases s.len(),
{
    reveal(Seq::filter);
    if s.len() > 0 {
        assert(p(s[s.len() - 1]) == q(s[s.len() - 1]));
        assert forall|i: int| 0 <= i < s.drop_last().len() implies p(#[trigger] s.drop_last()[i])
            == q(s.drop_last()[i]) by {
            assert(s.drop_last()[i] == s[i]);
        }
        lemma_filter_agree(s.drop_last(), p, q);
    }
}

/// A filter that every entry passes changes nothing.
pub proof fn lemma_filter_all<T>(s: Seq<T>, p: spec_fn(T) -> bool)
    requires
        forall|i: int| 0 <= i < s.len() ==> p(#[trigger] s[i]),
    ensures
        s.filter(p) == s,
    decreases s.len(),
{
    reveal(Seq::filter);
    if s.len() > 0 {
        assert(p(s[s.len() - 1]));
        assert forall|i: int| 0 <= i < s.drop_last().len() implies p(
            #[trigger] s.drop_last()[i],
        ) by {
            assert(s.drop_last()[i] == s[i]);
        }
        lemma_filter_all(s.drop_last(), p);
        assert(s.drop_last().push(s.last()) =~= s);
    }
}

/// Filtering twice is filtering by both tests.
pub proof fn lemma_filter_twice<T>(
    s: Seq<T>,
    p: spec_fn(T) -> bool,
    q: spec_fn(T) -> bool,
    both: spec_fn(T) -> bool,
)
    requires
        forall|i: int| 0 <= i < s.len() ==> both(#[trigger] s[i]) == (p(s[i]) && q(s[i])),
    ensures
        s.filter(p).filter(q) == s.filter(both),
    decreases s.len(),
{
    reveal(Seq::filter);
    if s.len() > 0 {
        let rest = s.drop_last();
        assert(both(s[s.len() - 1]) == (p(s[s.len() - 1]) && q(s[s.len() - 1])));
        assert forall|i: int| 0 <= i < rest.len() implies both(#[trigger] rest[i]) == (p(rest[i])
            && q(rest[i])) by {
            assert(rest[i] == s[i]);
        }
        lemma_filter_twice(rest, p, q, both);
        if p(s.last()) {
            assert(s.filter(p) == rest.filter(p).push(s.last()));
            assert(rest.filter(p).push(s.last()).drop_last() =~= rest.filter(p));
        }
    }
}

/// In a list without repetitions, taking an entry out is filtering it away.
pub proof fn lemma_remove_is_filter<T>(s: Seq<T>, k: int, p: spec_fn(T) -> bool)
    requires
        s.no_duplicates(),
        0 <= k < s.len(),
        forall|x: T| #[trigger] p(x) == (x != s[k]),
    ensures
        s.remove(k) == s.filter(p),
    decreases s.len(),
{
    reveal(Seq::filter);
    let rest = s.drop_last();
    if k == s.len() - 1 {
        assert(s.remove(k) =~= rest);
        assert forall|i: int| 0 <= i < rest.len() implies p(#[trigger] rest[i]) by {
            assert(s[i] != s[k]);
        }
        lemma_filter_all(rest, p);
    } else {
        assert(rest[k] == s[k]);
        lemma_remove_is_filter(rest, k, p);
        assert(s[s.len() - 1] != s[k]);
        assert(s.remove(k) =~= rest.remove(k).push(s.last()));
    }
}

/// A filtered list keeps the order of the list: two entries of it come from two
/// entries of the list that stand in the same order.
pub proof fn lemma_filter_order<T>(s: Seq<T>, pred: spec_fn(T) -> bool, i: int, j: int) -> (from: (
    int,
    int,
))
    requires
        0 <= i < j < s.filter(pred).len(),
    ensures
        0 <= from.0 < from.1 < s.len(),
        s[from.0] == s.filter(pred)[i],
        s[from.1] == s.filter(pred)[j],
    decreases s.len(),
{
    reveal(Seq::filter);
    let rest = s.drop_last();
    if pred(s.last()) && j == rest.filter(pred).len() {
        let a: int = lemma_filter_source(rest, pred, i);
        (a, s.len() - 1)
    } else {
        lemma_filter_order(rest, pred, i, j)
    }
}

/// Every entry of a filtered list comes from an entry of the list.
pub proof fn lemma_filter_source<T>(s: Seq<T>, pred: spec_fn(T) -> bool, i: int) -> (from: int)
    requires
        0 <= i < s.filter(pred).len(),
    ensures
        0 <= from < s.len(),
        s[from] == s.filter(pred)[i],
        pred(s[from]),
    decreases s.len(),
{
    reveal(Seq::filter);
    let rest = s.drop_last();
    if pred(s.last()) && i == rest.filter(pred).len() {
        s.len() - 1
    } else {
        lemma_filter_source(rest, pred, i)
    }
}

/// Every entry of a list that passes the test is in the filtered list.
pub proof fn lemma_filter_target<T>(s: Seq<T>, pred: spec_fn(T) -> bool, k: int) -> (to: int)
    requires
        0 <= k < s.len(),
        pred(s[k]),
    ensures
        0 <= to < s.filter(pred).len(),
        s.filter(pred)[to] == s[k],
    decreases s.len(),
{
    reveal(Seq::filter);
    let rest = s.drop_last();
    if k == s.len() - 1 {
        rest.filter(pred).len() as int
    } else {
        lemma_filter_target(rest, pred, k)
    }
}

} // verus!
