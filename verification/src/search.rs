//! First-match search over sequences, with the lemmas that relate it to
//! membership, appending and in-place update. The ledger stores each key
//! space as a vector and uses these to reason about lookups.

use vstd::prelude::*;

verus! {

/// The first element of `s` satisfying `p`, if any.
pub open spec fn find_first<T>(s: Seq<T>, p: spec_fn(T) -> bool) -> Option<T>
    decreases s.len(),
{
    if s.len() == 0 {
        None
    } else if p(s[0]) {
        Some(s[0])
    } else {
        find_first(s.subrange(1, s.len() as int), p)
    }
}

/// If no element satisfies `p`, the search misses.
pub proof fn lemma_find_first_none<T>(s: Seq<T>, p: spec_fn(T) -> bool)
    requires
        forall|j: int| 0 <= j < s.len() ==> !p(#[trigger] s[j]),
    ensures
        find_first(s, p) is None,
    decreases s.len(),
{
    if s.len() > 0 {
        let rest = s.subrange(1, s.len() as int);
        assert(forall|j: int| 0 <= j < rest.len() ==> rest[j] == s[j + 1]);
        lemma_find_first_none(rest, p);
    }
}

/// If `s[i]` satisfies `p` and no earlier element does, the search returns
/// `s[i]`.
pub proof fn lemma_find_first_found<T>(s: Seq<T>, p: spec_fn(T) -> bool, i: int)
    requires
        0 <= i < s.len(),
        p(s[i]),
        forall|j: int| 0 <= j < i ==> !p(#[trigger] s[j]),
    ensures
        find_first(s, p) == Some(s[i]),
    decreases i,
{
    if i > 0 {
        let rest = s.subrange(1, s.len() as int);
        assert(forall|j: int| 0 <= j < rest.len() ==> rest[j] == s[j + 1]);
        lemma_find_first_found(rest, p, i - 1);
    }
}

/// A hit is an element of the sequence that satisfies `p`, and a hit exists
/// iff some element satisfies `p`.
pub proof fn lemma_find_first_characterizes<T>(s: Seq<T>, p: spec_fn(T) -> bool)
    ensures
        (find_first(s, p) is Some) <==> exists|j: int| 0 <= j < s.len() && p(#[trigger] s[j]),
        find_first(s, p) matches Some(x) ==> p(x) && exists|j: int|
            0 <= j < s.len() && #[trigger] s[j] == x,
    decreases s.len(),
{
    if s.len() > 0 {
        let rest = s.subrange(1, s.len() as int);
        assert(forall|j: int| 0 <= j < rest.len() ==> rest[j] == s[j + 1]);
        lemma_find_first_characterizes(rest, p);
        if p(s[0]) {
            assert(0 <= 0 < s.len() && p(s[0]));
        } else {
            if exists|j: int| 0 <= j < rest.len() && p(#[trigger] rest[j]) {
                let j = choose|j: int| 0 <= j < rest.len() && p(#[trigger] rest[j]);
                assert(s[j + 1] == rest[j]);
            }
            if exists|j: int| 0 <= j < s.len() && p(#[trigger] s[j]) {
                let j = choose|j: int| 0 <= j < s.len() && p(#[trigger] s[j]);
                assert(j >= 1);
                assert(rest[j - 1] == s[j]);
            }
            if find_first(rest, p) is Some {
                let x = find_first(rest, p)->0;
                let j = choose|j: int| 0 <= j < rest.len() && #[trigger] rest[j] == x;
                assert(s[j + 1] == x);
            }
        }
    }
}

/// Appending an element leaves an existing hit in place; otherwise the new
/// element itself is the only candidate.
pub proof fn lemma_find_first_push<T>(s: Seq<T>, p: spec_fn(T) -> bool, v: T)
    ensures
        find_first(s.push(v), p) == (if find_first(s, p) is Some {
            find_first(s, p)
        } else if p(v) {
            Some(v)
        } else {
            None::<T>
        }),
    decreases s.len(),
{
    let sv = s.push(v);
    if s.len() == 0 {
        assert(sv[0] == v);
        assert(sv.subrange(1, sv.len() as int) =~= Seq::<T>::empty());
        assert(find_first(Seq::<T>::empty(), p) is None);
    } else {
        assert(sv[0] == s[0]);
        let rest = s.subrange(1, s.len() as int);
        assert(sv.subrange(1, sv.len() as int) =~= rest.push(v));
        lemma_find_first_push(rest, p, v);
    }
}

/// Replacing an element that misses `p` with another miss does not change
/// the search result.
pub proof fn lemma_find_first_update_miss<T>(s: Seq<T>, p: spec_fn(T) -> bool, i: int, v: T)
    requires
        0 <= i < s.len(),
        !p(v),
        !p(s[i]),
    ensures
        find_first(s.update(i, v), p) == find_first(s, p),
    decreases s.len(),
{
    let su = s.update(i, v);
    if i == 0 {
        assert(su.subrange(1, su.len() as int) =~= s.subrange(1, s.len() as int));
    } else {
        assert(su[0] == s[0]);
        let rest = s.subrange(1, s.len() as int);
        assert(su.subrange(1, su.len() as int) =~= rest.update(i - 1, v));
        lemma_find_first_update_miss(rest, p, i - 1, v);
    }
}

} // verus!
