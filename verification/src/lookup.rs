use vstd::prelude::*;

verus! {

/// The first element of `s` satisfying `p`, scanning front to back.
pub open spec fn first_match<T>(s: Seq<T>, p: spec_fn(T) -> bool) -> Option<T>
    decreases s.len(),
{
    if s.len() == 0 {
        None
    } else if p(s[0]) {
        Some(s[0])
    } else {
        first_match(s.drop_first(), p)
    }
}

/// If `s[i]` satisfies `p` and nothing before it does, the scan returns `s[i]`.
pub proof fn lemma_first_match_at<T>(s: Seq<T>, p: spec_fn(T) -> bool, i: int)
    requires
        0 <= i < s.len(),
        p(s[i]),
        forall|j: int| 0 <= j < i ==> !p(s[j]),
    ensures
        first_match(s, p) == Some(s[i]),
    decreases i,
{
    if i > 0 {
        assert(s.drop_first()[i - 1] == s[i]);
        assert(forall|j: int| 0 <= j < i - 1 ==> !p(#[trigger] s.drop_first()[j]));
        lemma_first_match_at(s.drop_first(), p, i - 1);
    }
}

/// If no element satisfies `p`, the scan comes up empty.
pub proof fn lemma_first_match_none<T>(s: Seq<T>, p: spec_fn(T) -> bool)
    requires
        forall|j: int| 0 <= j < s.len() ==> !p(s[j]),
    ensures
        first_match(s, p) is None,
    decreases s.len(),
{
    if s.len() > 0 {
        assert(forall|j: int| 0 <= j < s.len() - 1 ==> !p(#[trigger] s.drop_first()[j]));
        lemma_first_match_none(s.drop_first(), p);
    }
}

/// Replacing an element that does not satisfy `p` with another that does not
/// leaves the scan's result unchanged.
pub proof fn lemma_first_match_update_other<T>(s: Seq<T>, i: int, x: T, p: spec_fn(T) -> bool)
    requires
        0 <= i < s.len(),
        !p(s[i]),
        !p(x),
    ensures
        first_match(s.update(i, x), p) == first_match(s, p),
    decreases s.len(),
{
    let t = s.update(i, x);
    if i == 0 {
        assert(t.drop_first() =~= s.drop_first());
    } else {
        assert(t[0] == s[0]);
        if !p(s[0]) {
            assert(t.drop_first() =~= s.drop_first().update(i - 1, x));
            lemma_first_match_update_other(s.drop_first(), i - 1, x, p);
        }
    }
}

/// Appending an element that does not satisfy `p` leaves the scan's result
/// unchanged.
pub proof fn lemma_first_match_push_other<T>(s: Seq<T>, x: T, p: spec_fn(T) -> bool)
    requires
        !p(x),
    ensures
        first_match(s.push(x), p) == first_match(s, p),
    decreases s.len(),
{
    let t = s.push(x);
    if s.len() == 0 {
        assert(t[0] == x);
        assert(t.drop_first() =~= Seq::<T>::empty());
        lemma_first_match_none(t.drop_first(), p);
    } else {
        assert(t[0] == s[0]);
        if !p(s[0]) {
            assert(t.drop_first() =~= s.drop_first().push(x));
            lemma_first_match_push_other(s.drop_first(), x, p);
        }
    }
}

/// Removing an element that does not satisfy `p` leaves the scan's result
/// unchanged.
pub proof fn lemma_first_match_remove_other<T>(s: Seq<T>, i: int, p: spec_fn(T) -> bool)
    requires
        0 <= i < s.len(),
        !p(s[i]),
    ensures
        first_match(s.remove(i), p) == first_match(s, p),
    decreases s.len(),
{
    let t = s.remove(i);
    s.remove_ensures(i);
    if i == 0 {
        assert(t =~= s.drop_first());
    } else {
        assert(t[0] == s[0]);
        if !p(s[0]) {
            assert(t.drop_first() =~= s.drop_first().remove(i - 1));
            lemma_first_match_remove_other(s.drop_first(), i - 1, p);
        }
    }
}

/// Removing the only element satisfying `p` makes the scan come up empty.
pub proof fn lemma_first_match_remove_only<T>(s: Seq<T>, i: int, p: spec_fn(T) -> bool)
    requires
        0 <= i < s.len(),
        forall|j: int| 0 <= j < s.len() && j != i ==> !p(s[j]),
    ensures
        first_match(s.remove(i), p) is None,
{
    let t = s.remove(i);
    s.remove_ensures(i);
    assert forall|k: int| 0 <= k < t.len() implies !p(t[k]) by {
        if k < i {
            assert(t[k] == s[k]);
        } else {
            assert(t[k] == s[k + 1]);
        }
    }
    lemma_first_match_none(t, p);
}

} // verus!
