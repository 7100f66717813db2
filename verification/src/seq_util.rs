//! Lookups in sequences.

use vstd::prelude::*;

verus! {

/// Position of the first element of `s` satisfying `p`.
pub open spec fn first_index<A>(s: Seq<A>, p: spec_fn(A) -> bool) -> Option<int>
    decreases s.len(),
{
    if s.len() == 0 {
        None
    } else if p(s[0]) {
        Some(0)
    } else {
        match first_index(s.drop_first(), p) {
            Some(i) => Some(i + 1),
            None => None,
        }
    }
}

/// The first index is characterized by its position: its element satisfies
/// `p` and no element before it does.
pub proof fn lemma_first_index<A>(s: Seq<A>, p: spec_fn(A) -> bool, i: int)
    requires
        0 <= i <= s.len(),
        forall|j: int| 0 <= j < i ==> !p(#[trigger] s[j]),
    ensures
        i < s.len() && p(s[i]) ==> first_index(s, p) == Some(i),
        i == s.len() ==> first_index(s, p) is None,
    decreases s.len(),
{
    if s.len() > 0 && i > 0 {
        let tail = s.drop_first();
        assert forall|j: int| 0 <= j < i - 1 implies !p(#[trigger] tail[j]) by {
            assert(tail[j] == s[j + 1]);
        }
        lemma_first_index(tail, p, i - 1);
    }
}

/// The first index exists exactly when some element satisfies `p`.
pub proof fn lemma_first_index_some<A>(s: Seq<A>, p: spec_fn(A) -> bool)
    ensures
        match first_index(s, p) {
            Some(i) => 0 <= i < s.len() && p(s[i]) && forall|j: int| 0 <= j < i ==> !p(#[trigger] s[j]),
            None => forall|j: int| 0 <= j < s.len() ==> !p(#[trigger] s[j]),
        },
    decreases s.len(),
{
    if s.len() > 0 {
        let tail = s.drop_first();
        lemma_first_index_some(tail, p);
        if !p(s[0]) {
            match first_index(tail, p) {
                Some(i) => {
                    assert forall|j: int| 0 <= j < i + 1 implies !p(#[trigger] s[j]) by {
                        if j > 0 {
                            assert(s[j] == tail[j - 1]);
                        }
                    }
                },
                None => {
                    assert forall|j: int| 0 <= j < s.len() implies !p(#[trigger] s[j]) by {
                        if j > 0 {
                            assert(s[j] == tail[j - 1]);
                        }
                    }
                },
            }
        }
    }
}

/// The first index depends only on which elements satisfy the predicates:
/// two sequences of one length whose elements at each position satisfy `p`
/// and `q` alike have the same first index.
pub proof fn lemma_first_index_same<A, B>(s: Seq<A>, p: spec_fn(A) -> bool, t: Seq<B>, q: spec_fn(B) -> bool)
    requires
        s.len() == t.len(),
        forall|j: int| 0 <= j < s.len() ==> p(#[trigger] s[j]) == q(t[j]),
    ensures
        first_index(s, p) == first_index(t, q),
{
    lemma_first_index_some(s, p);
    lemma_first_index_some(t, q);
    match first_index(s, p) {
        Some(i) => {
            assert forall|j: int| 0 <= j < i implies !q(#[trigger] t[j]) by {
                assert(p(s[j]) == q(t[j]));
            }
            assert(p(s[i]) == q(t[i]));
            lemma_first_index(t, q, i);
        },
        None => {
            assert forall|j: int| 0 <= j < t.len() implies !q(#[trigger] t[j]) by {
                assert(p(s[j]) == q(t[j]));
            }
            lemma_first_index(t, q, t.len() as int);
        },
    }
}

/// Number of the elements of `s` before position `k` that satisfy `p`.
pub open spec fn count_before<A>(s: Seq<A>, p: spec_fn(A) -> bool, k: int) -> int
    decreases k,
{
    if k <= 0 {
        0
    } else {
        count_before(s, p, k - 1) + if p(s[k - 1]) {
            1int
        } else {
            0int
        }
    }
}

/// Whether the element at `i` of `s` is the one numbered `n`, from zero,
/// among those satisfying `p`.
pub open spec fn is_nth<A>(s: Seq<A>, p: spec_fn(A) -> bool, n: int, i: int) -> bool {
    0 <= i < s.len() && p(s[i]) && count_before(s, p, i) == n
}

/// Position of the element numbered `n`, from zero, among those of `s`
/// satisfying `p`, if there are that many.
pub open spec fn nth_index<A>(s: Seq<A>, p: spec_fn(A) -> bool, n: int) -> Option<int> {
    if exists|i: int| #[trigger] is_nth(s, p, n, i) {
        Some(choose|i: int| #[trigger] is_nth(s, p, n, i))
    } else {
        None
    }
}

/// The count grows by one past each element satisfying `p`, and never
/// falls.
pub proof fn lemma_count_grows<A>(s: Seq<A>, p: spec_fn(A) -> bool, i: int, j: int)
    requires
        0 <= i < j,
        p(s[i]),
    ensures
        count_before(s, p, j) >= count_before(s, p, i) + 1,
    decreases j - i,
{
    if j > i + 1 {
        lemma_count_grows(s, p, i, j - 1);
    }
}

/// The count is at most the number of elements looked at.
pub proof fn lemma_count_bounded<A>(s: Seq<A>, p: spec_fn(A) -> bool, k: int)
    requires
        0 <= k,
    ensures
        0 <= count_before(s, p, k) <= k,
    decreases k,
{
    if k > 0 {
        lemma_count_bounded(s, p, k - 1);
    }
}

/// Two sequences whose elements before `k` satisfy their predicates alike
/// have the same counts before `k`.
pub proof fn lemma_count_same<A, B>(s: Seq<A>, p: spec_fn(A) -> bool, t: Seq<B>, q: spec_fn(B) -> bool, k: int)
    requires
        0 <= k,
        forall|j: int| 0 <= j < k ==> p(#[trigger] s[j]) == q(t[j]),
    ensures
        count_before(s, p, k) == count_before(t, q, k),
    decreases k,
{
    if k > 0 {
        lemma_count_same(s, p, t, q, k - 1);
        assert(p(s[k - 1]) == q(t[k - 1]));
    }
}

/// The element at `i` that satisfies `p` is the one numbered by the count
/// before it, and it is the only one so numbered.
pub proof fn lemma_nth_index<A>(s: Seq<A>, p: spec_fn(A) -> bool, i: int)
    requires
        0 <= i < s.len(),
        p(s[i]),
    ensures
        nth_index(s, p, count_before(s, p, i)) == Some(i),
{
    let n = count_before(s, p, i);
    assert(is_nth(s, p, n, i));
    let j = choose|j: int| #[trigger] is_nth(s, p, n, j);
    if j < i {
        lemma_count_grows(s, p, j, i);
    } else if i < j {
        lemma_count_grows(s, p, i, j);
    }
}

} // verus!
