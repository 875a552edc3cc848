//! Searching and counting in sequences: the first element that meets a condition, and how many do.

use vstd::prelude::*;

verus! {

/// The index of the first element that meets the condition, if one does.
pub open spec fn first_index<T>(s: Seq<T>, p: spec_fn(T) -> bool) -> Option<int>
    decreases s.len(),
{
    if s.len() == 0 {
        None
    } else if p(s[0]) {
        Some(0)
    } else {
        match first_index(s.skip(1), p) {
            Some(i) => Some(i + 1),
            None => None,
        }
    }
}

/// `first_index` finds the first element that meets the condition, and none only if none does.
pub proof fn lemma_first_index<T>(s: Seq<T>, p: spec_fn(T) -> bool)
    ensures
        match first_index(s, p) {
            Some(i) => 0 <= i < s.len() && p(s[i]) && forall|j: int| 0 <= j < i ==> !p(s[j]),
            None => forall|j: int| 0 <= j < s.len() ==> !p(s[j]),
        },
    decreases s.len(),
{
    if s.len() > 0 && !p(s[0]) {
        lemma_first_index(s.skip(1), p);
        match first_index(s.skip(1), p) {
            Some(i) => {
                assert forall|j: int| 0 <= j < i + 1 implies !p(s[j]) by {
                    if j > 0 {
                        assert(s[j] == s.skip(1)[j - 1]);
                    }
                }
            },
            None => {
                assert forall|j: int| 0 <= j < s.len() implies !p(s[j]) by {
                    if j > 0 {
                        assert(s[j] == s.skip(1)[j - 1]);
                    }
                }
            },
        }
    }
}

/// An element that meets the condition, with none before it that does, is the first.
pub proof fn lemma_first_index_is<T>(s: Seq<T>, p: spec_fn(T) -> bool, i: int)
    requires
        0 <= i < s.len(),
        p(s[i]),
        forall|j: int| 0 <= j < i ==> !p(s[j]),
    ensures
        first_index(s, p) == Some(i),
{
    lemma_first_index(s, p);
}

/// Where no element meets the condition, none is found.
pub proof fn lemma_first_index_none<T>(s: Seq<T>, p: spec_fn(T) -> bool)
    requires
        forall|j: int| 0 <= j < s.len() ==> !p(s[j]),
    ensures
        first_index(s, p) is None,
{
    lemma_first_index(s, p);
}

/// How many elements meet the condition.
pub open spec fn count_where<T>(s: Seq<T>, p: spec_fn(T) -> bool) -> nat
    decreases s.len(),
{
    if s.len() == 0 {
        0
    } else {
        count_where(s.drop_last(), p) + if p(s.last()) {
            1nat
        } else {
            0nat
        }
    }
}

/// Counting one element further.
pub proof fn lemma_count_where_step<T>(s: Seq<T>, p: spec_fn(T) -> bool, i: int)
    requires
        0 <= i < s.len(),
    ensures
        count_where(s.take(i + 1), p) == count_where(s.take(i), p) + if p(s[i]) {
            1nat
        } else {
            0nat
        },
{
    assert(s.take(i + 1).drop_last() =~= s.take(i));
}

/// Filtering one element further.
pub proof fn lemma_filter_step<T>(s: Seq<T>, p: spec_fn(T) -> bool, i: int)
    requires
        0 <= i < s.len(),
    ensures
        s.take(i + 1).filter(p) == if p(s[i]) {
            s.take(i).filter(p).push(s[i])
        } else {
            s.take(i).filter(p)
        },
{
    reveal(Seq::filter);
    assert(s.take(i + 1).drop_last() =~= s.take(i));
}

/// As many elements meet the condition as the filter keeps.
pub proof fn lemma_count_is_filter_len<T>(s: Seq<T>, p: spec_fn(T) -> bool)
    ensures
        count_where(s, p) == s.filter(p).len(),
    decreases s.len(),
{
    reveal(Seq::filter);
    if s.len() > 0 {
        lemma_count_is_filter_len(s.drop_last(), p);
    }
}

/// The sequence with an element put in the place of the first element that meets the condition,
/// or at the end where none does.
pub open spec fn put<T>(s: Seq<T>, p: spec_fn(T) -> bool, x: T) -> Seq<T> {
    match first_index(s, p) {
        Some(i) => s.update(i, x),
        None => s.push(x),
    }
}

/// An element that meets the condition is, once put, the first that meets it.
pub proof fn lemma_put_found<T>(s: Seq<T>, p: spec_fn(T) -> bool, x: T)
    requires
        p(x),
    ensures
        first_index(put(s, p, x), p) is Some,
        put(s, p, x)[first_index(put(s, p, x), p)->Some_0] == x,
{
    lemma_first_index(s, p);
    let end = put(s, p, x);
    match first_index(s, p) {
        Some(i) => {
            assert forall|j: int| 0 <= j < i implies !p(end[j]) by {
                assert(end[j] == s[j]);
            }
            lemma_first_index_is(end, p, i);
        },
        None => {
            assert forall|j: int| 0 <= j < s.len() implies !p(end[j]) by {
                assert(end[j] == s[j]);
            }
            lemma_first_index_is(end, p, s.len() as int);
        },
    }
}

/// Putting an element leaves what is found under another condition as it was, where the element
/// does not meet that condition and nothing that it replaces does.
pub proof fn lemma_put_elsewhere<T>(s: Seq<T>, p: spec_fn(T) -> bool, x: T, q: spec_fn(T) -> bool)
    requires
        !q(x),
        forall|y: T| p(y) ==> !#[trigger] q(y),
    ensures
        first_index(put(s, p, x), q) == first_index(s, q),
        first_index(s, q) is Some ==> put(s, p, x)[first_index(s, q)->Some_0] == s[first_index(
            s,
            q,
        )->Some_0],
{
    lemma_first_index(s, p);
    lemma_first_index(s, q);
    let end = put(s, p, x);
    match first_index(s, q) {
        Some(k) => {
            assert(end[k] == s[k]);
            assert forall|j: int| 0 <= j < k implies !q(end[j]) by {
                if end[j] != s[j] {
                    assert(end[j] == x);
                }
            }
            lemma_first_index_is(end, q, k);
        },
        None => {
            assert forall|j: int| 0 <= j < end.len() implies !q(end[j]) by {
                if j < s.len() && end[j] == s[j] {
                } else {
                    assert(end[j] == x);
                }
            }
            lemma_first_index_none(end, q);
        },
    }
}

/// Counting from the front: the first element counts if it meets the condition, and the rest
/// are counted after it.
pub proof fn lemma_count_where_front<T>(s: Seq<T>, p: spec_fn(T) -> bool)
    requires
        s.len() > 0,
    ensures
        count_where(s, p) == count_where(s.skip(1), p) + if p(s[0]) {
            1nat
        } else {
            0nat
        },
    decreases s.len(),
{
    if s.len() == 1 {
        assert(s.drop_last() =~= Seq::<T>::empty());
        assert(s.skip(1) =~= Seq::<T>::empty());
    } else {
        lemma_count_where_front(s.drop_last(), p);
        assert(s.drop_last().skip(1) =~= s.skip(1).drop_last());
        assert(s.skip(1).last() == s.last());
        assert(s.drop_last()[0] == s[0]);
    }
}

} // verus!
