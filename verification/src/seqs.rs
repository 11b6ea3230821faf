//! General facts about sequence filtering and subsequences that the search
//! functions and the library's laws rest on.

use vstd::prelude::*;

verus! {

/// `a` occurs inside `b` as a subsequence: `a` can be matched into `b` from
/// the back, taking equal elements together and skipping the rest of `b`.
pub open spec fn subsequence_of<A>(a: Seq<A>, b: Seq<A>) -> bool
    decreases a.len() + b.len(),
{
    if a.len() == 0 {
        true
    } else if b.len() == 0 {
        false
    } else if a.last() == b.last() {
        subsequence_of(a.drop_last(), b.drop_last())
    } else {
        subsequence_of(a, b.drop_last())
    }
}

/// Filtering a sequence extended by one element keeps the old filtered part
/// and appends the element exactly when it satisfies the predicate.
pub proof fn lemma_filter_push<A>(s: Seq<A>, x: A, pred: spec_fn(A) -> bool)
    ensures
        s.push(x).filter(pred) == if pred(x) {
            s.filter(pred).push(x)
        } else {
            s.filter(pred)
        },
{
    reveal_with_fuel(Seq::filter, 2);
    assert(s.push(x).drop_last() =~= s);
    assert(s.push(x).last() == x);
}

/// A filter whose predicate holds of every element returns the sequence
/// unchanged.
pub proof fn lemma_filter_all_true<A>(s: Seq<A>, pred: spec_fn(A) -> bool)
    requires
        forall|i: int| 0 <= i < s.len() ==> pred(s[i]),
    ensures
        s.filter(pred) == s,
    decreases s.len(),
{
    reveal_with_fuel(Seq::filter, 2);
    if s.len() > 0 {
        lemma_filter_all_true(s.drop_last(), pred);
        assert(s.drop_last().push(s.last()) =~= s);
    }
}

/// Whatever the predicate, a filtered sequence is a subsequence of the
/// original, in the original order.
pub proof fn lemma_filter_subsequence<A>(s: Seq<A>, pred: spec_fn(A) -> bool)
    ensures
        subsequence_of(s.filter(pred), s),
    decreases s.len(),
{
    reveal_with_fuel(Seq::filter, 2);
    if s.len() > 0 {
        lemma_filter_subsequence(s.drop_last(), pred);
        s.drop_last().lemma_filter_len(pred);
        if pred(s.last()) {
            assert(s.filter(pred) == s.drop_last().filter(pred).push(s.last()));
            assert(s.filter(pred).drop_last() =~= s.drop_last().filter(pred));
        } else {
            assert(s.filter(pred) == s.drop_last().filter(pred));
            let f = s.filter(pred);
            if f.len() > 0 && f.last() == s.last() {
                s.drop_last().lemma_filter_pred(pred, f.len() - 1);
                assert(false);
            }
        }
    }
}

/// Weakening the predicate pointwise over the sequence's elements keeps the
/// stronger filter inside the weaker one, in order.
pub proof fn lemma_filter_monotone<A>(s: Seq<A>, p: spec_fn(A) -> bool, q: spec_fn(A) -> bool)
    requires
        forall|i: int| 0 <= i < s.len() ==> (p(s[i]) ==> q(s[i])),
    ensures
        subsequence_of(s.filter(p), s.filter(q)),
    decreases s.len(),
{
    reveal_with_fuel(Seq::filter, 2);
    if s.len() == 0 {
    } else {
        assert forall|i: int| 0 <= i < s.drop_last().len() && p(s.drop_last()[i]) implies q(
            s.drop_last()[i],
        ) by {
            assert(s.drop_last()[i] == s[i]);
        }
        lemma_filter_monotone(s.drop_last(), p, q);
        let fp = s.drop_last().filter(p);
        let fq = s.drop_last().filter(q);
        if p(s.last()) {
            assert(q(s.last()));
            assert(s.filter(p) == fp.push(s.last()));
            assert(s.filter(q) == fq.push(s.last()));
            assert(s.filter(p).drop_last() =~= fp);
            assert(s.filter(q).drop_last() =~= fq);
        } else if q(s.last()) {
            assert(s.filter(p) == fp);
            assert(s.filter(q) == fq.push(s.last()));
            assert(s.filter(q).drop_last() =~= fq);
            if fp.len() > 0 && fp.last() == s.last() {
                s.drop_last().lemma_filter_pred(p, fp.len() - 1);
                assert(false);
            }
        } else {
            assert(s.filter(p) == fp);
            assert(s.filter(q) == fq);
        }
    }
}

} // verus!
