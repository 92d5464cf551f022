//! Searching and filtering sequences.
use vstd::prelude::*;

verus! {

/// The index of the first element of `s` that satisfies `p`, or -1.
pub open spec fn first_index<T>(s: Seq<T>, p: spec_fn(T) -> bool) -> int
    decreases s.len(),
{
    if s.len() == 0 {
        -1
    } else if first_index(s.drop_last(), p) >= 0 {
        first_index(s.drop_last(), p)
    } else if p(s.last()) {
        s.len() - 1
    } else {
        -1
    }
}

pub proof fn lemma_first_index<T>(s: Seq<T>, p: spec_fn(T) -> bool)
    ensures
        -1 <= first_index(s, p) < s.len(),
        first_index(s, p) >= 0 ==> p(s[first_index(s, p)]),
        forall|j: int|
            0 <= j < s.len() && (first_index(s, p) < 0 || j < first_index(s, p)) ==> !p(
                #[trigger] s[j],
            ),
    decreases s.len(),
{
    if s.len() > 0 {
        lemma_first_index(s.drop_last(), p);
        assert forall|j: int|
            0 <= j < s.len() && (first_index(s, p) < 0 || j < first_index(s, p)) implies !p(
            #[trigger] s[j],
        ) by {
            if j < s.len() - 1 {
                assert(s[j] == s.drop_last()[j]);
            }
        }
    }
}

/// The first index satisfying `p` is `i` when `p` holds at `i` and nowhere
/// before it.
pub proof fn lemma_first_index_is<T>(s: Seq<T>, p: spec_fn(T) -> bool, i: int)
    requires
        0 <= i < s.len(),
        p(s[i]),
        forall|j: int| 0 <= j < i ==> !p(#[trigger] s[j]),
    ensures
        first_index(s, p) == i,
{
    lemma_first_index(s, p);
}

/// There is no index satisfying `p` when `p` holds nowhere.
pub proof fn lemma_first_index_none<T>(s: Seq<T>, p: spec_fn(T) -> bool)
    requires
        forall|j: int| 0 <= j < s.len() ==> !p(#[trigger] s[j]),
    ensures
        first_index(s, p) == -1,
{
    lemma_first_index(s, p);
}

/// The elements of `s` that satisfy `p`, in order.
pub open spec fn keep<T>(s: Seq<T>, p: spec_fn(T) -> bool) -> Seq<T>
    decreases s.len(),
{
    if s.len() == 0 {
        Seq::empty()
    } else if p(s.last()) {
        keep(s.drop_last(), p).push(s.last())
    } else {
        keep(s.drop_last(), p)
    }
}

/// Keeping from one more element.
pub proof fn lemma_keep_take<T>(s: Seq<T>, p: spec_fn(T) -> bool, i: int)
    requires
        0 <= i < s.len(),
    ensures
        keep(s.take(i + 1), p) == if p(s[i]) {
            keep(s.take(i), p).push(s[i])
        } else {
            keep(s.take(i), p)
        },
{
    assert(s.take(i + 1).drop_last() =~= s.take(i));
}

/// Everything kept satisfies `p` and comes from `s`.
pub proof fn lemma_keep_members<T>(s: Seq<T>, p: spec_fn(T) -> bool)
    ensures
        keep(s, p).len() <= s.len(),
        forall|k: int| 0 <= k < keep(s, p).len() ==> p(#[trigger] keep(s, p)[k]) && s.contains(
            keep(s, p)[k],
        ),
    decreases s.len(),
{
    if s.len() > 0 {
        lemma_keep_members(s.drop_last(), p);
        assert forall|k: int| 0 <= k < keep(s, p).len() implies p(#[trigger] keep(s, p)[k])
            && s.contains(keep(s, p)[k]) by {
            let r = keep(s.drop_last(), p);
            if k < r.len() {
                assert(keep(s, p)[k] == r[k]);
                let w = choose|w: int| 0 <= w < s.drop_last().len() && s.drop_last()[w] == r[k];
                assert(s[w] == r[k]);
            } else {
                assert(s[s.len() - 1] == s.last());
            }
        }
    }
}

/// Every element of `s` that satisfies `p` is kept.
pub proof fn lemma_keep_complete<T>(s: Seq<T>, p: spec_fn(T) -> bool, j: int)
    requires
        0 <= j < s.len(),
        p(s[j]),
    ensures
        keep(s, p).contains(s[j]),
    decreases s.len(),
{
    if j < s.len() - 1 {
        lemma_keep_complete(s.drop_last(), p, j);
        let r = keep(s.drop_last(), p);
        let w = choose|w: int| 0 <= w < r.len() && r[w] == s.drop_last()[j];
        if p(s.last()) {
            assert(keep(s, p)[w] == r[w]);
        }
    } else {
        assert(keep(s, p).last() == s.last());
    }
}

} // verus!
