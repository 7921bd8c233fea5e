//! Searching a sequence for the first element with a property.

use vstd::prelude::*;

verus! {

/// Index of the first element of `s` that satisfies `p`, or `s.len()` when
/// none does.
pub open spec fn first_where<A>(s: Seq<A>, p: spec_fn(A) -> bool) -> int
    decreases s.len(),
{
    if s.len() == 0 {
        0
    } else if p(s[0]) {
        0
    } else {
        1 + first_where(s.drop_first(), p)
    }
}

/// Whether some element of `s` satisfies `p`.
pub open spec fn any_where<A>(s: Seq<A>, p: spec_fn(A) -> bool) -> bool {
    first_where(s, p) < s.len()
}

/// `first_where` stays in range, lands on a satisfying element, and passes
/// over none.
pub proof fn lemma_first_where<A>(s: Seq<A>, p: spec_fn(A) -> bool)
    ensures
        0 <= first_where(s, p) <= s.len(),
        first_where(s, p) < s.len() ==> p(s[first_where(s, p)]),
        forall|j: int| 0 <= j < first_where(s, p) ==> !p(#[trigger] s[j]),
    decreases s.len(),
{
    if s.len() > 0 && !p(s[0]) {
        let t = s.drop_first();
        lemma_first_where(t, p);
        assert forall|j: int| 0 <= j < first_where(s, p) implies !p(#[trigger] s[j]) by {
            if j > 0 {
                assert(s[j] == t[j - 1]);
            }
        }
        if first_where(s, p) < s.len() {
            assert(s[first_where(s, p)] == t[first_where(t, p)]);
        }
    }
}

/// An index that nothing satisfying precedes, and that satisfies itself or
/// is the length, is the one `first_where` finds.
pub proof fn lemma_first_where_is<A>(s: Seq<A>, p: spec_fn(A) -> bool, i: int)
    requires
        0 <= i <= s.len(),
        forall|j: int| 0 <= j < i ==> !p(#[trigger] s[j]),
        i < s.len() ==> p(s[i]),
    ensures
        first_where(s, p) == i,
    decreases s.len(),
{
    if i > 0 {
        let t = s.drop_first();
        assert(!p(s[0]));
        assert forall|j: int| 0 <= j < i - 1 implies !p(#[trigger] t[j]) by {
            assert(t[j] == s[j + 1]);
        }
        if i < s.len() {
            assert(t[i - 1] == s[i]);
        }
        lemma_first_where_is(t, p, i - 1);
    }
}

/// Some element satisfies `p` exactly when `any_where` says so.
pub proof fn lemma_any_where<A>(s: Seq<A>, p: spec_fn(A) -> bool)
    ensures
        any_where(s, p) <==> exists|j: int| 0 <= j < s.len() && p(#[trigger] s[j]),
{
    lemma_first_where(s, p);
    if any_where(s, p) {
        assert(p(s[first_where(s, p)]));
    }
}

/// Replacing an element by one that `p` judges alike moves nothing.
pub proof fn lemma_first_where_update<A>(s: Seq<A>, p: spec_fn(A) -> bool, i: int, x: A)
    requires
        0 <= i < s.len(),
        p(s[i]) == p(x),
    ensures
        first_where(s.update(i, x), p) == first_where(s, p),
{
    lemma_first_where(s, p);
    let k = first_where(s, p);
    let u = s.update(i, x);
    assert forall|j: int| 0 <= j < k implies !p(#[trigger] u[j]) by {
        assert(!p(s[j]));
    }
    lemma_first_where_is(u, p, k);
}

/// Inserting a satisfying element where nothing satisfied puts the first
/// match at the point of insertion.
pub proof fn lemma_first_where_insert_new<A>(s: Seq<A>, p: spec_fn(A) -> bool, at: int, x: A)
    requires
        0 <= at <= s.len(),
        !any_where(s, p),
        p(x),
    ensures
        first_where(s.insert(at, x), p) == at,
{
    lemma_first_where(s, p);
    let u = s.insert(at, x);
    assert forall|j: int| 0 <= j < at implies !p(#[trigger] u[j]) by {
        assert(u[j] == s[j]);
    }
    lemma_first_where_is(u, p, at);
}

/// Inserting an element that does not satisfy `p` only shifts the first
/// match when it stands at or behind the point of insertion.
pub proof fn lemma_first_where_insert_other<A>(s: Seq<A>, p: spec_fn(A) -> bool, at: int, x: A)
    requires
        0 <= at <= s.len(),
        !p(x),
    ensures
        first_where(s.insert(at, x), p) == if first_where(s, p) < at {
            first_where(s, p)
        } else {
            first_where(s, p) + 1
        },
        first_where(s, p) < s.len() ==> s.insert(at, x)[first_where(s.insert(at, x), p)]
            == s[first_where(s, p)],
{
    lemma_first_where(s, p);
    let k = first_where(s, p);
    let u = s.insert(at, x);
    let k2 = if k < at {
        k
    } else {
        k + 1
    };
    assert forall|j: int| 0 <= j < k2 implies !p(#[trigger] u[j]) by {
        if j < at {
            assert(u[j] == s[j]);
        } else if j == at {
            assert(u[j] == x);
        } else {
            assert(u[j] == s[j - 1]);
        }
    }
    if k < s.len() {
        assert(u[k2] == s[k]);
    }
    lemma_first_where_is(u, p, k2);
}

/// Filtering keeps a sequence whole when every element passes.
pub proof fn lemma_filter_keeps_all<A>(s: Seq<A>, p: spec_fn(A) -> bool)
    requires
        forall|i: int| 0 <= i < s.len() ==> p(#[trigger] s[i]),
    ensures
        s.filter(p) == s,
    decreases s.len(),
{
    reveal(Seq::filter);
    if s.len() > 0 {
        let t = s.drop_last();
        assert forall|i: int| 0 <= i < t.len() implies p(#[trigger] t[i]) by {
            assert(t[i] == s[i]);
        }
        lemma_filter_keeps_all(t, p);
        assert(t.push(s.last()) =~= s);
    }
}

} // verus!
