//! A map from byte strings to values, kept as a list of distinct keys with their values.

use vstd::prelude::*;
use crate::byte_order::bytes_eq;

verus! {

/// A map keyed by byte strings, such as block hashes.
#[derive(Debug)]
pub struct ByteMap<V> {
    keys: Vec<Vec<u8>>,
    vals: Vec<V>,
}

impl<V> ByteMap<V> {
    /// The keys are distinct and each has its value.
    pub closed spec fn wf(&self) -> bool {
        &&& self.keys.len() == self.vals.len()
        &&& forall|i: int, j: int|
            0 <= i < j < self.keys.len() ==> self.keys[i]@ != self.keys[j]@
    }

    /// The place of a key in the list.
    closed spec fn slot(&self, key: Seq<u8>) -> int {
        choose|i: int| 0 <= i < self.keys.len() && self.keys[i]@ == key
    }

    /// The map that the list stands for.
    pub closed spec fn view(&self) -> Map<Seq<u8>, V> {
        Map::new(
            |k: Seq<u8>| exists|i: int| 0 <= i < self.keys.len() && self.keys[i]@ == k,
            |k: Seq<u8>| self.vals[self.slot(k)],
        )
    }

    /// The empty map.
    pub fn new() -> (r: Self)
        ensures
            r.wf(),
            r@ == Map::<Seq<u8>, V>::empty(),
    {
        let r = ByteMap { keys: Vec::new(), vals: Vec::new() };
        assert(r@ =~= Map::<Seq<u8>, V>::empty());
        r
    }

    /// The place of the key in the list, if it is there.
    fn find(&self, key: &Vec<u8>) -> (r: Option<usize>)
        requires
            self.wf(),
        ensures
            match r {
                Some(i) => i < self.keys.len() && self.keys[i as int]@
                    == key@ && self@.dom().contains(
                    key@,
                ) && self.slot(key@) == i,
                None => !self@.dom().contains(key@),
            },
    {
        let mut i: usize = 0;
        while i < self.keys.len()
            invariant
                self.wf(),
                i <= self.keys.len(),
                forall|k: int| 0 <= k < i ==> self.keys[k]@ != key@,
            decreases self.keys.len() - i,
        {
            if bytes_eq(&self.keys[i], key) {
                proof {
                    assert(self.keys[i as int]@ == key@);
                    let s = self.slot(key@);
                    assert(0 <= s < self.keys.len() && self.keys[s]@ == key@);
                    assert(s == i);
                }
                return Some(i);
            }
            i += 1;
        }
        None
    }

    /// Whether the map has the key.
    pub fn contains_key(&self, key: &Vec<u8>) -> (r: bool)
        requires
            self.wf(),
        ensures
            r == self@.dom().contains(key@),
    {
        self.find(key).is_some()
    }

    /// The value of the key, if the map has the key.
    pub fn get(&self, key: &Vec<u8>) -> (r: Option<&V>)
        requires
            self.wf(),
        ensures
            match r {
                Some(v) => self@.dom().contains(key@) && *v == self@[key@],
                None => !self@.dom().contains(key@),
            },
    {
        match self.find(key) {
            Some(i) => Some(&self.vals[i]),
            None => None,
        }
    }

    /// Gives the key the value, whether the map had the key or not.
    pub fn insert(&mut self, key: Vec<u8>, value: V)
        requires
            old(self).wf(),
        ensures
            final(self).wf(),
            final(self)@ == old(self)@.insert(key@, value),
    {
        match self.find(&key) {
            Some(i) => {
                self.vals[i] = value;
                proof {
                    assert forall|k: Seq<u8>| self@.dom().contains(k) implies #[trigger] self@[k]
                        == old(self)@.insert(key@, value)[k] by {
                        let s = self.slot(k);
                        assert(old(self).slot(k) == s);
                    }
                    assert(self@ =~= old(self)@.insert(key@, value));
                }
            },
            None => {
                let ghost n = self.keys.len() as int;
                self.keys.push(key);
                self.vals.push(value);
                proof {
                    assert(self.keys[n]@ == key@);
                    assert forall|k: Seq<u8>| #[trigger]
                        old(self)@.insert(key@,
                            value).dom().contains(k) implies self@.dom().contains(
                        k,
                    ) && self@[k] == old(self)@.insert(key@, value)[k] by {
                        if k == key@ {
                            assert(self.slot(k) == n);
                        } else {
                            let s = old(self).slot(k);
                            assert(self.keys[s]@ == k);
                            assert(self.slot(k) == s);
                        }
                    }
                    assert forall|k: Seq<u8>| #[trigger] self@.dom().contains(k) implies old(
                        self,
                    )@.insert(key@, value).dom().contains(k) by {
                        let s = self.slot(k);
                        if s < n {
                            assert(old(self).keys[s]@ == k);
                        }
                    }
                    assert(self@ =~= old(self)@.insert(key@, value));
                }
            },
        }
    }

    /// Gives the key the value unless the map has the key already.
    pub fn insert_if_absent(&mut self, key: Vec<u8>, value: V)
        requires
            old(self).wf(),
        ensures
            final(self).wf(),
            final(self)@ == if old(self)@.dom().contains(key@) {
                old(self)@
            } else {
                old(self)@.insert(key@, value)
            },
    {
        if !self.contains_key(&key) {
            self.insert(key, value);
        }
    }

    /// Forgets every key.
    pub fn clear(&mut self)
        requires
            old(self).wf(),
        ensures
            final(self).wf(),
            final(self)@ == Map::<Seq<u8>, V>::empty(),
    {
        self.keys.clear();
        self.vals.clear();
        assert(self@ =~= Map::<Seq<u8>, V>::empty());
    }
}

} // verus!
