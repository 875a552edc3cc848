//! The authority list: who may propose and vote, and with what weight.

use vstd::prelude::*;
use crate::byte_order::{
    ascending, bytes_eq, lemma_lex_total, lex_less, place_of, sort_by_address, sorted, Addressed,
};
use crate::error::ConsensusError;
use crate::types::{clone_nodes, node_views, Address, Node};

verus! {

/// No two nodes of the list have the same address.
pub open spec fn distinct_addresses(nodes: Seq<Node>) -> bool {
    forall|i: int, j: int|
        0 <= i < j < nodes.len() ==> #[trigger] nodes[i].address@ != #[trigger] nodes[j].address@
}

/// The sum of the vote weights of the nodes.
pub open spec fn weight_sum(nodes: Seq<Node>) -> nat
    decreases nodes.len(),
{
    if nodes.len() == 0 {
        0
    } else {
        weight_sum(nodes.drop_last()) + nodes.last().vote_weight as nat
    }
}

/// The place of the first node with the address, if there is one.
pub open spec fn position(nodes: Seq<Node>, addr: Seq<u8>) -> Option<int>
    decreases nodes.len(),
{
    if nodes.len() == 0 {
        None
    } else if nodes[0].address@ == addr {
        Some(0)
    } else {
        match position(nodes.skip(1), addr) {
            Some(i) => Some(i + 1),
            None => None,
        }
    }
}

/// What `position` finds is the first node with the address; it finds none only where there is none.
pub proof fn lemma_position(nodes: Seq<Node>, addr: Seq<u8>)
    ensures
        match position(nodes, addr) {
            Some(i) => {
                &&& 0 <= i < nodes.len()
                &&& nodes[i].address@ == addr
                &&& forall|j: int| 0 <= j < i ==> nodes[j].address@ != addr
            },
            None => forall|j: int| 0 <= j < nodes.len() ==> nodes[j].address@ != addr,
        },
    decreases nodes.len(),
{
    if nodes.len() > 0 && nodes[0].address@ != addr {
        lemma_position(nodes.skip(1), addr);
        match position(nodes.skip(1), addr) {
            Some(i) => {
                assert forall|j: int| 0 <= j < i + 1 implies nodes[j].address@ != addr by {
                    if j > 0 {
                        assert(nodes.skip(1)[j - 1].address@ != addr);
                    }
                }
            },
            None => {
                assert forall|j: int| 0 <= j < nodes.len() implies nodes[j].address@ != addr by {
                    if j > 0 {
                        assert(nodes.skip(1)[j - 1].address@ != addr);
                    }
                }
            },
        }
    }
}

/// The sum of the weights is at most the number of nodes times the largest weight.
pub proof fn lemma_weight_sum_bound(nodes: Seq<Node>)
    ensures
        weight_sum(nodes) <= nodes.len() * 0xffff_ffff,
    decreases nodes.len(),
{
    if nodes.len() > 0 {
        lemma_weight_sum_bound(nodes.drop_last());
    }
}

/// The place of an address among nodes depends on the addresses of the nodes alone.
pub proof fn lemma_place_of_copies(a: Seq<Node>, b: Seq<Node>, key: Seq<u8>)
    requires
        node_views(a) == node_views(b),
    ensures
        place_of(a, key) == place_of(b, key),
    decreases a.len(),
{
    assert(a.len() == node_views(a).len() && b.len() == node_views(b).len());
    if a.len() > 0 {
        assert(a[0]@ == node_views(a)[0] && b[0]@ == node_views(b)[0]);
        assert(node_views(a.skip(1)) =~= node_views(b.skip(1))) by {
            assert forall|i: int| 0 <= i < a.len() - 1 implies a.skip(1)[i]@ == b.skip(1)[i]@ by {
                assert(a[i + 1]@ == node_views(a)[i + 1] && b[i + 1]@ == node_views(b)[i + 1]);
            }
        }
        lemma_place_of_copies(a.skip(1), b.skip(1), key);
    }
}

/// Copies of nodes are sorted as the nodes are.
pub proof fn lemma_sorted_copies(a: Seq<Node>, b: Seq<Node>)
    requires
        node_views(a) == node_views(b),
    ensures
        node_views(sorted(a)) == node_views(sorted(b)),
    decreases a.len(),
{
    assert(a.len() == node_views(a).len() && b.len() == node_views(b).len());
    if a.len() > 0 {
        assert(a[0]@ == node_views(a)[0] && b[0]@ == node_views(b)[0]);
        assert(node_views(a.skip(1)) =~= node_views(b.skip(1))) by {
            assert forall|i: int| 0 <= i < a.len() - 1 implies a.skip(1)[i]@ == b.skip(1)[i]@ by {
                assert(a[i + 1]@ == node_views(a)[i + 1] && b[i + 1]@ == node_views(b)[i + 1]);
            }
        }
        lemma_sorted_copies(a.skip(1), b.skip(1));
        let ra = sorted(a.skip(1));
        let rb = sorted(b.skip(1));
        lemma_place_of_copies(ra, rb, a[0].address_key());
        crate::byte_order::lemma_place_of(ra, a[0].address_key());
        let p = place_of(ra, a[0].address_key());
        assert(ra.len() == node_views(ra).len() && rb.len() == node_views(rb).len());
        assert forall|i: int| 0 <= i < ra.len()
            + 1 implies ra.insert(p, a[0])[i]@ == rb.insert(p, b[0])[i]@ by {
            if i < p {
                assert(ra[i]@ == node_views(ra)[i] && rb[i]@ == node_views(rb)[i]);
            } else if i > p {
                assert(ra[i - 1]@ == node_views(ra)[i - 1] && rb[i - 1]@ == node_views(rb)[i - 1]);
            }
        }
        assert(node_views(sorted(a)) =~= node_views(sorted(b)));
    } else {
        assert(node_views(sorted(a)) =~= node_views(sorted(b)));
    }
}

/// The proposer of a height and round by a list of nodes: the nodes take turns in ascending order
/// of address.
pub open spec fn leader_in(list: Seq<Node>, height: u64, round: u64) -> Seq<u8>
    recommends
        list.len() > 0,
{
    sorted(list)[(height + round) % (list.len() as int)].address@
}

/// The address of the proposer of the height and round by the list of nodes. A list without
/// nodes has none.
pub fn leader_of(list: &Vec<Node>, height: u64, round: u64) -> (r: Result<Address, ConsensusError>)
    ensures
        list@.len() > 0 ==> r is Ok && r->Ok_0@ == leader_in(list@, height, round),
        list@.len() == 0 ==> r matches Err(ConsensusError::Other(_)),
{
    let mut next = AuthorityManage::new();
    let copy = clone_nodes(list);
    proof {
        lemma_sorted_copies(copy@, list@);
        assert(copy@.len() == node_views(copy@).len() && list@.len() == node_views(list@).len());
    }
    next.update(copy);
    proof {
        if list@.len() > 0 {
            let i = (height + round) % (list@.len() as int);
            crate::byte_order::lemma_sorted_len(copy@);
            crate::byte_order::lemma_sorted_len(list@);
            assert(sorted(copy@).len() == node_views(sorted(copy@)).len());
            assert(sorted(list@).len() == node_views(sorted(list@)).len());
            assert(sorted(copy@)[i]@ == node_views(sorted(copy@))[i]);
            assert(sorted(list@)[i]@ == node_views(sorted(list@))[i]);
        }
    }
    next.get_proposer(height, round)
}

/// The authority list of the current height, and the list that it replaced.
#[derive(Debug)]
pub struct AuthorityManage {
    /// The nodes of the current height, in ascending order of address.
    pub current: Vec<Node>,
    /// The nodes of the list that the current one replaced.
    pub last: Vec<Node>,
    /// The sum of the vote weights of the current nodes.
    pub vote_weight_sum: u128,
}

impl AuthorityManage {
    /// The current list is sorted and its weights are summed up.
    pub open spec fn wf(&self) -> bool {
        &&& ascending(self.current@)
        &&& self.vote_weight_sum == weight_sum(self.current@)
    }

    /// The addresses of the current list are distinct.
    pub open spec fn distinct(&self) -> bool {
        distinct_addresses(self.current@)
    }

    /// Whether a node of the current list has the address.
    pub open spec fn has(&self, addr: Seq<u8>) -> bool {
        position(self.current@, addr) is Some
    }

    /// Whether a node of the replaced list has the address.
    pub open spec fn had(&self, addr: Seq<u8>) -> bool {
        position(self.last@, addr) is Some
    }

    /// The vote weight of the address in the current list.
    pub open spec fn weight_of(&self, addr: Seq<u8>) -> Option<u32> {
        match position(self.current@, addr) {
            Some(i) => Some(self.current[i].vote_weight),
            None => None,
        }
    }

    /// The proposer of a height and round: the nodes take turns in ascending order of address.
    pub open spec fn proposer(&self, height: u64, round: u64) -> Seq<u8>
        recommends
            self.current.len() > 0,
    {
        self.current[(height + round) % (self.current.len() as int)].address@
    }

    /// An authority list without nodes.
    pub fn new() -> (r: Self)
        ensures
            r.wf(),
            r.current@.len() == 0,
            r.last@.len() == 0,
    {
        AuthorityManage { current: Vec::new(), last: Vec::new(), vote_weight_sum: 0 }
    }

    /// Installs a new list: the current list becomes the replaced one, and the new list, sorted by
    /// address, the current one.
    pub fn update(&mut self, new_list: Vec<Node>)
        ensures
            final(self).wf(),
            final(self).last == old(self).current,
            final(self).current@ == sorted(new_list@),
            final(self).current@.to_multiset() == new_list@.to_multiset(),
    {
        let sorted = sort_by_address(new_list);
        let mut sum: u128 = 0;
        let mut i: usize = 0;
        while i < sorted.len()
            invariant
                i <= sorted.len(),
                sum == weight_sum(sorted@.take(i as int)),
            decreases sorted.len() - i,
        {
            proof {
                lemma_weight_sum_bound(sorted@.take(i as int));
                assert(i * 0xffff_ffff <= 0xffff_ffff_ffff_ffff * 0xffff_ffff) by (nonlinear_arith)
                    requires
                        i <= 0xffff_ffff_ffff_ffff,
                ;
                assert(sorted@.take(i + 1).drop_last() =~= sorted@.take(i as int));
            }
            sum = sum + sorted[i].vote_weight as u128;
            i += 1;
        }
        assert(sorted@.take(sorted.len() as int) =~= sorted@);
        let mut previous = sorted;
        std::mem::swap(&mut self.current, &mut previous);
        self.last = previous;
        self.vote_weight_sum = sum;
    }

    /// Whether the addresses of the current list are distinct.
    pub fn has_distinct_addresses(&self) -> (r: bool)
        requires
            self.wf(),
        ensures
            r == self.distinct(),
    {
        let mut i: usize = 1;
        while i < self.current.len()
            invariant
                1 <= i,
                ascending(self.current@),
                forall|k: int|
                    0 < k < i && k < self.current@.len() ==> (#[trigger] self.current@[k]).address@
                        != self.current@[k - 1].address@,
            decreases self.current.len() - i,
        {
            if bytes_eq(&self.current[i - 1].address, &self.current[i].address) {
                return false;
            }
            i += 1;
        }
        proof {
            let nodes = self.current@;
            assert forall|a: int,
                b: int| 0 <= a < b < nodes.len() implies #[trigger] nodes[a].address@
                != #[trigger] nodes[b].address@ by {
                if nodes[a].address@ == nodes[b].address@ {
                    // the node behind the first lies between the two, so it has their address
                    let x = nodes[a].address_key();
                    let y = nodes[a + 1].address_key();
                    assert(nodes[a + 1].address@ != nodes[a].address@);
                    assert(!lex_less(y, x));
                    if a + 1 < b {
                        assert(!lex_less(nodes[b].address_key(), y));
                    }
                    lemma_lex_total(x, y);
                }
            }
        }
        true
    }

    /// The number of nodes of the current list.
    pub fn len(&self) -> (r: usize)
        ensures
            r == self.current@.len(),
    {
        self.current.len()
    }

    /// The sum of the vote weights of the current list.
    pub fn get_vote_weight_sum(&self) -> (r: u128)
        requires
            self.wf(),
        ensures
            r == weight_sum(self.current@),
    {
        self.vote_weight_sum
    }

    /// The place of the address in a list of nodes.
    fn find(nodes: &Vec<Node>, addr: &Address) -> (r: Option<usize>)
        ensures
            match r {
                Some(i) => position(nodes@, addr@) == Some(i as int),
                None => position(nodes@, addr@) is None,
            },
    {
        let mut i: usize = 0;
        proof {
            assert(nodes@.skip(0) =~= nodes@);
        }
        while i < nodes.len()
            invariant
                i <= nodes.len(),
                position(nodes@, addr@) == match position(nodes@.skip(i as int), addr@) {
                    Some(k) => Some(k + i),
                    None => None,
                },
            decreases nodes.len() - i,
        {
            assert(nodes@.skip(i as int)[0] == nodes@[i as int]);
            if bytes_eq(&nodes[i].address, addr) {
                assert(position(nodes@.skip(i as int), addr@) == Some(0int));
                return Some(i);
            }
            proof {
                assert(nodes@.skip(i as int).skip(1) =~= nodes@.skip(i + 1));
            }
            i += 1;
        }
        None
    }

    /// Whether a node of the current list has the address.
    pub fn contains(&self, addr: &Address) -> (r: bool)
        ensures
            r == self.has(addr@),
    {
        Self::find(&self.current, addr).is_some()
    }

    /// Whether a node of the replaced list has the address.
    pub fn contains_last(&self, addr: &Address) -> (r: bool)
        ensures
            r == self.had(addr@),
    {
        Self::find(&self.last, addr).is_some()
    }

    /// The vote weight of the address; an address that no current node has is invalid.
    pub fn get_vote_weight(&self, addr: &Address) -> (r: Result<u32, ConsensusError>)
        ensures
            match self.weight_of(addr@) {
                Some(w) => r == Ok::<u32, ConsensusError>(w),
                None => r matches Err(ConsensusError::InvalidAddress),
            },
    {
        match Self::find(&self.current, addr) {
            Some(i) => {
                proof {
                    lemma_position(self.current@, addr@);
                }
                Ok(self.current[i].vote_weight)
            },
            None => Err(ConsensusError::InvalidAddress),
        }
    }

    /// The address of the proposer of the height and round. A list without nodes has none.
    pub fn get_proposer(&self, height: u64, round: u64) -> (r: Result<Address, ConsensusError>)
        ensures
            self.current@.len() > 0 ==> r is Ok && r->Ok_0@ == self.proposer(height, round),
            self.current@.len() == 0 ==> r matches Err(ConsensusError::Other(_)),
    {
        let len = self.current.len();
        if len == 0 {
            return Err(ConsensusError::Other("no authority".to_string()));
        }
        let index = ((height as u128 + round as u128) % (len as u128)) as usize;
        Ok(self.current[index].address.clone())
    }
}

} // verus!
