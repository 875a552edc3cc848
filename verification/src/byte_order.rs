//! The lexicographic order of byte strings, by which addresses are sorted.

use vstd::multiset::Multiset;
use vstd::prelude::*;
use vstd::seq_lib::*;

verus! {

/// Lexicographic "strictly less" on byte strings: at the first place where the two differ the
/// smaller byte decides, and a proper prefix is less than the whole.
pub open spec fn lex_less(a: Seq<u8>, b: Seq<u8>) -> bool
    decreases a.len(),
{
    if b.len() == 0 {
        false
    } else if a.len() == 0 {
        true
    } else if a[0] != b[0] {
        a[0] < b[0]
    } else {
        lex_less(a.skip(1), b.skip(1))
    }
}

/// No byte string is less than itself.
pub proof fn lemma_lex_irreflexive(a: Seq<u8>)
    ensures
        !lex_less(a, a),
    decreases a.len(),
{
    if a.len() > 0 {
        lemma_lex_irreflexive(a.skip(1));
    }
}

/// The order is transitive.
pub proof fn lemma_lex_transitive(a: Seq<u8>, b: Seq<u8>, c: Seq<u8>)
    requires
        lex_less(a, b),
        lex_less(b, c),
    ensures
        lex_less(a, c),
    decreases a.len(),
{
    if a.len() > 0 && a[0] == b[0] && b[0] == c[0] {
        lemma_lex_transitive(a.skip(1), b.skip(1), c.skip(1));
    }
}

/// Of two different byte strings one is less than the other.
pub proof fn lemma_lex_total(a: Seq<u8>, b: Seq<u8>)
    ensures
        a == b || lex_less(a, b) || lex_less(b, a),
    decreases a.len(),
{
    if a.len() == 0 || b.len() == 0 {
        if a.len() == 0 && b.len() == 0 {
            assert(a =~= b);
        }
    } else if a[0] == b[0] {
        lemma_lex_total(a.skip(1), b.skip(1));
        if a.skip(1) == b.skip(1) {
            assert(a =~= seq![a[0]] + a.skip(1));
            assert(b =~= seq![b[0]] + b.skip(1));
        }
    }
}

/// Whether the two byte strings are the same.
pub fn bytes_eq(a: &Vec<u8>, b: &Vec<u8>) -> (r: bool)
    ensures
        r == (a@ == b@),
{
    let r = *a == *b;
    proof {
        if r {
            assert(a@ =~= b@);
        }
    }
    r
}

/// Whether `a` comes before `b` in the lexicographic order.
pub fn bytes_less(a: &Vec<u8>, b: &Vec<u8>) -> (r: bool)
    ensures
        r == lex_less(a@, b@),
{
    let mut i: usize = 0;
    proof {
        assert(a@.skip(0) =~= a@);
        assert(b@.skip(0) =~= b@);
    }
    loop
        invariant
            i <= a.len(),
            i <= b.len(),
            lex_less(a@, b@) == lex_less(a@.skip(i as int), b@.skip(i as int)),
        decreases a.len() - i,
    {
        if i == b.len() {
            return false;
        }
        if i == a.len() {
            return true;
        }
        if a[i] != b[i] {
            return a[i] < b[i];
        }
        proof {
            assert(a@.skip(i as int).skip(1) =~= a@.skip(i + 1));
            assert(b@.skip(i as int).skip(1) =~= b@.skip(i + 1));
        }
        i += 1;
    }
}

/// A value that is ordered by an address which it holds.
pub trait Addressed {
    /// The address by which the value is ordered.
    spec fn address_key(&self) -> Seq<u8>;

    /// The address by which the value is ordered.
    fn address_ref(&self) -> (r: &Vec<u8>)
        ensures
            r@ == self.address_key(),
    ;
}

/// The values stand in ascending order of address: none is followed by one of a lesser address.
pub open spec fn ascending<T: Addressed>(s: Seq<T>) -> bool {
    forall|i: int, j: int|
        0 <= i < j < s.len() ==> !lex_less(#[trigger] s[j].address_key(),
            #[trigger] s[i].address_key())
}

/// The place of a new address in a list: before the first value whose address is not less than
/// the new one, and at the end if every address is less.
pub open spec fn place_of<T: Addressed>(s: Seq<T>, key: Seq<u8>) -> int
    decreases s.len(),
{
    if s.len() == 0 {
        0
    } else if !lex_less(s[0].address_key(), key) {
        0
    } else {
        1 + place_of(s.skip(1), key)
    }
}

/// The place of a new address is within the list or at its end, every value before it has a
/// lesser address, and the value at it has not.
pub proof fn lemma_place_of<T: Addressed>(s: Seq<T>, key: Seq<u8>)
    ensures
        0 <= place_of(s, key) <= s.len(),
        forall|k: int| 0 <= k < place_of(s, key) ==> lex_less(#[trigger] s[k].address_key(), key),
        place_of(s, key) < s.len() ==> !lex_less(s[place_of(s, key)].address_key(), key),
    decreases s.len(),
{
    if s.len() > 0 && lex_less(s[0].address_key(), key) {
        lemma_place_of(s.skip(1), key);
        assert forall|k: int| 0 <= k < place_of(s, key) implies lex_less(
            #[trigger] s[k].address_key(),
            key,
        ) by {
            if k > 0 {
                assert(s[k] == s.skip(1)[k - 1]);
            }
        }
        if place_of(s, key) < s.len() {
            assert(s[place_of(s, key)] == s.skip(1)[place_of(s, key) - 1]);
        }
    }
}

/// An index up to which every address is less than the new one, and at which the address is not
/// less or the list ends, is the place of the new address.
pub proof fn lemma_place_of_is<T: Addressed>(s: Seq<T>, key: Seq<u8>, p: int)
    requires
        0 <= p <= s.len(),
        forall|k: int| 0 <= k < p ==> lex_less(#[trigger] s[k].address_key(), key),
        p < s.len() ==> !lex_less(s[p].address_key(), key),
    ensures
        place_of(s, key) == p,
{
    lemma_place_of(s, key);
    let q = place_of(s, key);
    if q < p {
        assert(lex_less(s[q].address_key(), key));
    } else if p < q {
        assert(lex_less(s[p].address_key(), key));
    }
}

/// The values sorted by address, ascending: each value, from the last to the first, is put at the
/// place of its address among the values behind it.
pub open spec fn sorted<T: Addressed>(s: Seq<T>) -> Seq<T>
    decreases s.len(),
{
    if s.len() == 0 {
        Seq::empty()
    } else {
        let rest = sorted(s.skip(1));
        rest.insert(place_of(rest, s[0].address_key()), s[0])
    }
}

/// Sorting neither adds nor drops a value.
pub proof fn lemma_sorted_len<T: Addressed>(s: Seq<T>)
    ensures
        sorted(s).len() == s.len(),
    decreases s.len(),
{
    if s.len() > 0 {
        lemma_sorted_len(s.skip(1));
        lemma_place_of(sorted(s.skip(1)), s[0].address_key());
    }
}

/// Sorts the values by address, ascending.
pub fn sort_by_address<T: Addressed>(list: Vec<T>) -> (r: Vec<T>)
    ensures
        r@ == sorted(list@),
        ascending(r@),
        r@.to_multiset() == list@.to_multiset(),
{
    let mut input = list;
    let mut out: Vec<T> = Vec::new();
    proof {
        broadcast use group_to_multiset_ensures;
        assert(out@.to_multiset() =~= Multiset::<T>::empty());
        assert(out@.to_multiset().add(input@.to_multiset()) =~= list@.to_multiset());
    }
    proof {
        assert(list@.skip(list@.len() as int) =~= Seq::<T>::empty());
    }
    while input.len() > 0
        invariant
            ascending(out@),
            out@.to_multiset().add(input@.to_multiset()) == list@.to_multiset(),
            input@.len() <= list@.len(),
            input@ == list@.take(input@.len() as int),
            out@ == sorted(list@.skip(input@.len() as int)),
        decreases input.len(),
    {
        let ghost before = input@;
        let x = input.pop().unwrap();
        let mut p: usize = 0;
        while p < out.len() && bytes_less(out[p].address_ref(), x.address_ref())
            invariant
                p <= out.len(),
                forall|k: int| 0 <= k < p ==> lex_less(#[trigger] out[k].address_key(),
                    x.address_key()),
            decreases out.len() - p,
        {
            p += 1;
        }
        let ghost prev = out@;
        out.insert(p, x);
        proof {
            let n = input@.len() as int;
            assert(input@ =~= list@.take(n));
            assert(x == list@[n]);
            assert(list@.skip(n)[0] == x);
            assert(list@.skip(n).skip(1) =~= list@.skip(n + 1));
            lemma_place_of_is(prev, x.address_key(), p as int);
            broadcast use group_to_multiset_ensures;
            to_multiset_insert(prev, p as int, x);
            assert(before =~= input@.push(x));
            assert(out@.to_multiset().add(input@.to_multiset()) =~= list@.to_multiset());
            assert forall|i: int, j: int| 0 <= i < j < out@.len() implies !lex_less(
                #[trigger] out@[j].address_key(),
                #[trigger] out@[i].address_key(),
            ) by {
                if j == p {
                    // the new value behind an earlier one, which is less than it
                    assert(lex_less(prev[i].address_key(), x.address_key()));
                    if lex_less(x.address_key(), prev[i].address_key()) {
                        lemma_lex_transitive(x.address_key(), prev[i].address_key(),
                            x.address_key());
                        lemma_lex_irreflexive(x.address_key());
                    }
                } else if i == p {
                    // a later value behind the new one: the value at the new one's place was not less
                    let a = prev[j - 1].address_key();
                    let b = prev[p as int].address_key();
                    if lex_less(a, x.address_key()) {
                        lemma_lex_total(a, b);
                        if j - 1 > p && lex_less(b, a) {
                            lemma_lex_transitive(b, a, x.address_key());
                        }
                    }
                } else {
                    let i0 = if i < p { i } else { i - 1 };
                    let j0 = if j < p { j } else { j - 1 };
                    assert(out@[i] == prev[i0]);
                    assert(out@[j] == prev[j0]);
                }
            }
        }
    }
    proof {
        assert(list@.skip(0) =~= list@);
        assert(input@.to_multiset() =~= Multiset::<T>::empty()) by {
            broadcast use group_to_multiset_ensures;
            assert(input@ =~= Seq::<T>::empty());
        }
        assert(out@.to_multiset() =~= list@.to_multiset());
    }
    out
}

} // verus!
