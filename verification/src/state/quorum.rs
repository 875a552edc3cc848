//! Counting vote weight, and what the voter bitmap of a certificate says of it.

use vstd::prelude::*;
use crate::byte_order::lex_less;
use crate::types::{Address, Node, SignedVote};
use crate::utils::auth_manage::{
    distinct_addresses, lemma_position, lemma_weight_sum_bound, position, weight_sum,
    AuthorityManage,
};
use crate::utils::bitmap::{bit_at, bit_is_set};
use crate::utils::seq_find::{count_where, lemma_count_where_front};

verus! {

/// The sum of the vote weights of the voters of those votes that meet the condition; `None` where
/// one of these voters is not in the list of nodes.
pub open spec fn tally(votes: Seq<SignedVote>, p: spec_fn(SignedVote) -> bool, nodes: Seq<Node>)
    -> Option<
    nat,
>
    decreases votes.len(),
{
    if votes.len() == 0 {
        Some(0)
    } else if !p(votes[0]) {
        tally(votes.skip(1), p, nodes)
    } else {
        match (position(nodes, votes[0].voter@), tally(votes.skip(1), p, nodes)) {
            (Some(i), Some(rest)) => Some(nodes[i].vote_weight as nat + rest),
            _ => None,
        }
    }
}

/// The weight is more than two thirds of the weight of all nodes.
pub open spec fn is_quorum(weight: nat, nodes: Seq<Node>) -> bool {
    weight * 3 > weight_sum(nodes) * 2
}

/// The address has cast one of the votes that meet the condition.
pub open spec fn voted(votes: Seq<SignedVote>, p: spec_fn(SignedVote) -> bool, address: Seq<u8>)
    -> bool {
    exists|j: int| 0 <= j < votes.len() && p(#[trigger] votes[j]) && votes[j].voter@ == address
}

/// No two of the votes that meet the condition are of the same voter.
pub open spec fn one_vote_each(votes: Seq<SignedVote>, p: spec_fn(SignedVote) -> bool) -> bool {
    forall|i: int, j: int|
        0 <= i < j < votes.len() && p(#[trigger] votes[i])
            && p(#[trigger] votes[j]) ==> votes[i].voter@
            != votes[j].voter@
}

/// The sum of the vote weights of the nodes whose index the mask picks.
pub open spec fn masked_weight(nodes: Seq<Node>, mask: spec_fn(int) -> bool) -> nat
    decreases nodes.len(),
{
    if nodes.len() == 0 {
        0
    } else {
        masked_weight(nodes.drop_last(), mask) + if mask(nodes.len() - 1) {
            nodes.last().vote_weight as nat
        } else {
            0nat
        }
    }
}

/// The sum of the vote weights of the nodes whose bit is set in the bitmap, the bits counted in
/// the order of the nodes.
pub open spec fn bitmap_weight(bitmap: Seq<u8>, nodes: Seq<Node>) -> nat {
    masked_weight(nodes, |i: int| bit_at(bitmap, i))
}

/// Two masks that pick the same nodes give the same weight.
pub proof fn lemma_masked_same(nodes: Seq<Node>, f: spec_fn(int) -> bool, g: spec_fn(int) -> bool)
    requires
        forall|i: int| 0 <= i < nodes.len() ==> #[trigger] f(i) == g(i),
    ensures
        masked_weight(nodes, f) == masked_weight(nodes, g),
    decreases nodes.len(),
{
    if nodes.len() > 0 {
        lemma_masked_same(nodes.drop_last(), f, g);
    }
}

/// A mask that picks no node gives no weight.
pub proof fn lemma_masked_none(nodes: Seq<Node>, f: spec_fn(int) -> bool)
    requires
        forall|i: int| 0 <= i < nodes.len() ==> !#[trigger] f(i),
    ensures
        masked_weight(nodes, f) == 0,
    decreases nodes.len(),
{
    if nodes.len() > 0 {
        lemma_masked_none(nodes.drop_last(), f);
    }
}

/// A mask that picks one node more gives that node's weight more.
pub proof fn lemma_masked_one_more(
    nodes: Seq<Node>,
    f: spec_fn(int) -> bool,
    g: spec_fn(int) -> bool,
    q: int,
)
    requires
        0 <= q < nodes.len(),
        !f(q),
        g(q),
        forall|i: int| 0 <= i < nodes.len() && i != q ==> #[trigger] f(i) == g(i),
    ensures
        masked_weight(nodes, g) == masked_weight(nodes, f) + nodes[q].vote_weight,
    decreases nodes.len(),
{
    if q == nodes.len() - 1 {
        lemma_masked_same(nodes.drop_last(), f, g);
    } else {
        lemma_masked_one_more(nodes.drop_last(), f, g, q);
    }
}

/// Where every voter is a node, no voter votes twice and no two nodes share an address, the
/// weight of the nodes that have voted is the tally of the votes.
pub proof fn lemma_tally_is_weight_of_voters(
    votes: Seq<SignedVote>,
    p: spec_fn(SignedVote) -> bool,
    nodes: Seq<Node>,
)
    requires
        distinct_addresses(nodes),
        one_vote_each(votes, p),
        tally(votes, p, nodes) is Some,
    ensures
        masked_weight(nodes, |i: int| voted(votes, p, nodes[i].address@))
            == tally(votes, p, nodes)->Some_0,
    decreases votes.len(),
{
    let all = |i: int| voted(votes, p, nodes[i].address@);
    if votes.len() == 0 {
        lemma_masked_none(nodes, all);
    } else {
        let rest = votes.skip(1);
        let fewer = |i: int| voted(rest, p, nodes[i].address@);
        assert forall|i: int, j: int| 0 <= i < j < rest.len() && p(#[trigger] rest[i]) && p(
            #[trigger] rest[j],
        ) implies rest[i].voter@ != rest[j].voter@ by {
            assert(rest[i] == votes[i + 1] && rest[j] == votes[j + 1]);
        }
        lemma_tally_is_weight_of_voters(rest, p, nodes);
        assert forall|a: Seq<u8>| voted(rest, p, a) implies voted(votes, p, a) by {
            let j = choose|j: int| 0 <= j < rest.len() && p(#[trigger] rest[j])
                && rest[j].voter@ == a;
            assert(votes[j + 1] == rest[j]);
        }
        assert forall|a: Seq<u8>| voted(votes, p, a) implies voted(rest, p, a) || (p(votes[0])
            && votes[0].voter@ == a) by {
            let j = choose|j: int| 0 <= j < votes.len() && p(#[trigger] votes[j])
                && votes[j].voter@ == a;
            if j > 0 {
                assert(rest[j - 1] == votes[j]);
            }
        }
        if !p(votes[0]) {
            lemma_masked_same(nodes, all, fewer);
        } else {
            lemma_position(nodes, votes[0].voter@);
            let q = position(nodes, votes[0].voter@)->Some_0;
            assert(all(q));
            if fewer(q) {
                let j = choose|j: int|
                    0 <= j < rest.len() && p(#[trigger] rest[j]) && rest[j].voter@
                        == nodes[q].address@;
                assert(rest[j] == votes[j + 1]);
                assert(false);
            }
            assert forall|i: int| 0 <= i < nodes.len() && i != q implies #[trigger] fewer(i)
                == all(i) by {
                if i < q {
                    assert(nodes[i].address@ != nodes[q].address@);
                } else {
                    assert(nodes[q].address@ != nodes[i].address@);
                }
            }
            lemma_masked_one_more(nodes, fewer, all, q);
        }
    }
}

/// A bitmap that has the bits of exactly those nodes set that have cast one of the votes carries
/// the tally of the votes: the weight of the nodes that it marks is the weight that was counted.
/// So the bitmap of a certificate made from votes that reach a quorum shows the quorum.
pub proof fn lemma_bitmap_carries_tally(
    votes: Seq<SignedVote>,
    p: spec_fn(SignedVote) -> bool,
    nodes: Seq<Node>,
    bitmap: Seq<u8>,
)
    requires
        distinct_addresses(nodes),
        one_vote_each(votes, p),
        tally(votes, p, nodes) is Some,
        forall|i: int|
            0 <= i < nodes.len() ==> #[trigger] bit_at(bitmap, i)
                == voted(votes, p, nodes[i].address@),
    ensures
        bitmap_weight(bitmap, nodes) == tally(votes, p, nodes)->Some_0,
        is_quorum(tally(votes, p, nodes)->Some_0, nodes) ==> is_quorum(
            bitmap_weight(bitmap, nodes),
            nodes,
        ),
{
    lemma_tally_is_weight_of_voters(votes, p, nodes);
    lemma_masked_same(
        nodes,
        |i: int| bit_at(bitmap, i),
        |i: int| voted(votes, p, nodes[i].address@),
    );
}

/// Where no vote meets the condition, the tally is zero.
pub proof fn lemma_tally_of_none(votes: Seq<SignedVote>, p: spec_fn(SignedVote)
    -> bool, nodes: Seq<Node>)
    requires
        forall|j: int| 0 <= j < votes.len() ==> !p(#[trigger] votes[j]),
    ensures
        tally(votes, p, nodes) == Some(0nat),
    decreases votes.len(),
{
    if votes.len() > 0 {
        assert(!p(votes[0]));
        assert forall|j: int| 0 <= j < votes.skip(1).len() implies !p(#[trigger] votes.skip(1)[j]) by {
            assert(votes.skip(1)[j] == votes[j + 1]);
        }
        lemma_tally_of_none(votes.skip(1), p, nodes);
    }
}

/// A quorum is made of votes: where the tally is a quorum, some vote meets the condition.
pub proof fn lemma_quorum_has_votes(
    votes: Seq<SignedVote>,
    p: spec_fn(SignedVote) -> bool,
    nodes: Seq<Node>,
)
    requires
        tally(votes, p, nodes) is Some,
        is_quorum(tally(votes, p, nodes)->Some_0, nodes),
    ensures
        votes.filter(p).len() > 0,
{
    if forall|j: int| 0 <= j < votes.len() ==> !p(#[trigger] votes[j]) {
        lemma_tally_of_none(votes, p, nodes);
    } else {
        let j = choose|j: int| 0 <= j < votes.len() && p(#[trigger] votes[j]);
        broadcast use vstd::seq_lib::group_filter_ensures;
        assert(votes.filter(p).contains(votes[j]));
    }
}

/// Where every node has the vote weight one, the weight of the list is the number of its nodes.
pub proof fn lemma_unit_weight_sum(nodes: Seq<Node>)
    requires
        forall|i: int| 0 <= i < nodes.len() ==> (#[trigger] nodes[i]).vote_weight == 1,
    ensures
        weight_sum(nodes) == nodes.len(),
    decreases nodes.len(),
{
    if nodes.len() > 0 {
        assert forall|i: int| 0 <= i < nodes.drop_last().len() implies (#[trigger] nodes.drop_last()[i]).vote_weight
            == 1 by {
            assert(nodes.drop_last()[i] == nodes[i]);
        }
        lemma_unit_weight_sum(nodes.drop_last());
        assert(nodes.last() == nodes[nodes.len() - 1]);
    }
}

/// Where every node has the vote weight one and every voter is a node, the tally is the number of
/// the votes that meet the condition: with six such nodes four votes are no quorum, and five are.
pub proof fn lemma_unit_tally(votes: Seq<SignedVote>, p: spec_fn(SignedVote)
    -> bool, nodes: Seq<Node>)
    requires
        forall|i: int| 0 <= i < nodes.len() ==> (#[trigger] nodes[i]).vote_weight == 1,
        forall|j: int|
            0 <= j < votes.len()
                && p(#[trigger] votes[j]) ==> position(nodes, votes[j].voter@) is Some,
    ensures
        tally(votes, p, nodes) == Some(count_where(votes, p)),
        is_quorum(count_where(votes, p), nodes) <==> count_where(votes, p) * 3 > nodes.len() * 2,
    decreases votes.len(),
{
    lemma_unit_weight_sum(nodes);
    if votes.len() > 0 {
        let rest = votes.skip(1);
        assert forall|j: int| 0 <= j < rest.len() && p(#[trigger] rest[j]) implies position(
            nodes,
            rest[j].voter@,
        ) is Some by {
            assert(rest[j] == votes[j + 1]);
        }
        lemma_unit_tally(rest, p, nodes);
        lemma_count_where_front(votes, p);
        if p(votes[0]) {
            lemma_position(nodes, votes[0].voter@);
        }
    }
}

/// The byte strings stand in ascending order.
pub open spec fn ascending_bytes(s: Seq<Seq<u8>>) -> bool {
    forall|i: int, j: int| 0 <= i < j < s.len() ==> !lex_less(#[trigger] s[j], #[trigger] s[i])
}

/// One of the votes is of the voter and has the signature.
pub open spec fn vote_with(votes: Seq<SignedVote>, voter: Seq<u8>, signature: Seq<u8>) -> bool {
    exists|j: int|
        0 <= j < votes.len() && (#[trigger] votes[j]).voter@ == voter && votes[j].signature@
            == signature
}

/// The voter and the signature stand at the same place of the two lists.
pub open spec fn listed(voters: Seq<Seq<u8>>, signatures: Seq<Seq<u8>>, voter: Seq<u8>,
    signature: Seq<u8>) -> bool {
    exists|i: int|
        0 <= i < voters.len() && i < signatures.len() && #[trigger] voters[i]
            == voter && signatures[i]
            == signature
}

/// The voters and the signatures are those of the votes: as many as there are votes, each voter
/// with the signature of its vote at the same place, and no vote left out.
pub open spec fn drawn_from(
    voters: Seq<Seq<u8>>,
    signatures: Seq<Seq<u8>>,
    votes: Seq<SignedVote>,
) -> bool {
    &&& voters.len() == votes.len()
    &&& signatures.len() == votes.len()
    &&& forall|i: int|
        0 <= i < voters.len() ==> #[trigger] vote_with(votes, voters[i], signatures[i])
    &&& forall|j: int|
        0 <= j < votes.len() ==> #[trigger] listed(
            voters,
            signatures,
            votes[j].voter@,
            votes[j].signature@,
        )
}

/// Two masks that pick no node in common pick no more weight together than all nodes have.
pub proof fn lemma_masked_apart(nodes: Seq<Node>, f: spec_fn(int) -> bool, g: spec_fn(int) -> bool)
    requires
        forall|i: int| 0 <= i < nodes.len() ==> !(#[trigger] f(i) && g(i)),
    ensures
        masked_weight(nodes, f) + masked_weight(nodes, g) <= weight_sum(nodes),
    decreases nodes.len(),
{
    if nodes.len() > 0 {
        lemma_masked_apart(nodes.drop_last(), f, g);
        assert(!(f(nodes.len() - 1) && g(nodes.len() - 1)));
    }
}

/// Two quorums meet: where the nodes that each of two masks picks weigh more than two thirds of
/// all nodes, some node is picked by both.
pub proof fn lemma_quorums_meet(nodes: Seq<Node>, f: spec_fn(int) -> bool, g: spec_fn(int) -> bool)
    requires
        is_quorum(masked_weight(nodes, f), nodes),
        is_quorum(masked_weight(nodes, g), nodes),
    ensures
        exists|i: int| 0 <= i < nodes.len() && #[trigger] f(i) && g(i),
{
    if forall|i: int| 0 <= i < nodes.len() ==> !(#[trigger] f(i) && g(i)) {
        lemma_masked_apart(nodes, f, g);
    }
}

/// The bitmaps of two quorum certificates over one authority list mark a common node: where the
/// nodes that each bitmap marks weigh more than two thirds of the list, some node is marked in
/// both.
pub proof fn lemma_quorum_bitmaps_meet(nodes: Seq<Node>, first: Seq<u8>, second: Seq<u8>)
    requires
        is_quorum(bitmap_weight(first, nodes), nodes),
        is_quorum(bitmap_weight(second, nodes), nodes),
    ensures
        exists|i: int| 0 <= i < nodes.len() && #[trigger] bit_at(first, i) && bit_at(second, i),
{
    let f = |i: int| bit_at(first, i);
    let g = |i: int| bit_at(second, i);
    lemma_quorums_meet(nodes, f, g);
    let i = choose|i: int| 0 <= i < nodes.len() && #[trigger] f(i) && g(i);
    assert(bit_at(first, i) && bit_at(second, i));
}

/// The addresses of the nodes whose index the mask picks, in the order of the nodes.
pub open spec fn masked_addresses(nodes: Seq<Node>, mask: spec_fn(int) -> bool) -> Seq<Seq<u8>>
    decreases nodes.len(),
{
    if nodes.len() == 0 {
        Seq::empty()
    } else if mask(nodes.len() - 1) {
        masked_addresses(nodes.drop_last(), mask).push(nodes.last().address@)
    } else {
        masked_addresses(nodes.drop_last(), mask)
    }
}

/// The voters that a bitmap marks: the addresses of the nodes whose bit is set, in the order of
/// the nodes.
pub open spec fn bitmap_voters(bitmap: Seq<u8>, nodes: Seq<Node>) -> Seq<Seq<u8>> {
    masked_addresses(nodes, |i: int| bit_at(bitmap, i))
}

impl AuthorityManage {
    /// The voters that the bitmap of a certificate marks in the current list.
    pub fn get_voters(&self, bitmap: &Vec<u8>) -> (r: Vec<Address>)
        ensures
            r.deep_view() == bitmap_voters(bitmap@, self.current@),
    {
        let ghost mask = |i: int| bit_at(bitmap@, i);
        let mut voters: Vec<Address> = Vec::new();
        let mut i: usize = 0;
        proof {
            assert(self.current@.take(0) =~= Seq::<Node>::empty());
            assert(voters.deep_view() =~= Seq::<Seq<u8>>::empty());
        }
        while i < self.current.len()
            invariant
                i <= self.current.len(),
                mask == |i: int| bit_at(bitmap@, i),
                voters.deep_view() == masked_addresses(self.current@.take(i as int), mask),
            decreases self.current.len() - i,
        {
            proof {
                assert(self.current@.take(i + 1).drop_last() =~= self.current@.take(i as int));
            }
            if bit_is_set(bitmap, i) {
                let ghost held = voters;
                voters.push(self.current[i].address.clone());
                proof {
                    crate::types::lemma_byte_strings_view(held);
                    crate::types::lemma_byte_strings_view(voters);
                    assert(voters.deep_view() =~= held.deep_view().push(self.current@[i as int].address@));
                }
            }
            i += 1;
        }
        proof {
            assert(self.current@.take(i as int) =~= self.current@);
        }
        voters
    }

    /// Whether the nodes that the bitmap of a certificate marks in the current list weigh more
    /// than two thirds of the list.
    pub fn is_above_threshold(&self, bitmap: &Vec<u8>) -> (r: bool)
        requires
            self.wf(),
        ensures
            r == is_quorum(bitmap_weight(bitmap@, self.current@), self.current@),
    {
        let ghost mask = |i: int| bit_at(bitmap@, i);
        let mut acc: u128 = 0;
        let mut i: usize = 0;
        proof {
            assert(self.current@.take(0) =~= Seq::<Node>::empty());
        }
        while i < self.current.len()
            invariant
                i <= self.current.len(),
                mask == |i: int| bit_at(bitmap@, i),
                acc == masked_weight(self.current@.take(i as int), mask),
                acc <= i * 0xffff_ffff,
            decreases self.current.len() - i,
        {
            proof {
                assert(self.current@.take(i + 1).drop_last() =~= self.current@.take(i as int));
                assert(i * 0xffff_ffff <= 0xffff_ffff_ffff_ffff * 0xffff_ffff) by (nonlinear_arith)
                    requires
                        i <= 0xffff_ffff_ffff_ffff,
                ;
            }
            if bit_is_set(bitmap, i) {
                acc = acc + self.current[i].vote_weight as u128;
            }
            i += 1;
        }
        let nodes = self.current.len();
        proof {
            assert(self.current@.take(i as int) =~= self.current@);
            lemma_weight_sum_bound(self.current@);
            assert(nodes * 0xffff_ffff <= 0xffff_ffff_ffff_ffff * 0xffff_ffff) by (nonlinear_arith)
                requires
                    nodes <= 0xffff_ffff_ffff_ffff,
            ;
        }
        acc * 3 > self.vote_weight_sum * 2
    }
}

} // verus!
