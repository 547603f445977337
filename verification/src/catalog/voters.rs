//! Sets of node numbers.

use vstd::prelude::*;

verus! {

/// The list holds nodes in increasing order, none of them twice.
pub open spec fn is_voter_order(nodes: Seq<u128>) -> bool {
    forall|i: int, j: int|
        #![trigger nodes[i], nodes[j]]
        0 <= i < j < nodes.len() ==> nodes[i] < nodes[j]
}

/// Finite set of node numbers.
#[derive(Debug, PartialEq, Eq)]
pub struct VoterSet {
    nodes: Vec<u128>,
}

impl View for VoterSet {
    type V = Set<u128>;

    closed spec fn view(&self) -> Set<u128> {
        self.nodes@.to_set()
    }
}

impl Clone for VoterSet {
    fn clone(&self) -> (out: Self)
        ensures
            out@ == self@,
    {
        proof { use_type_invariant(self); }
        let mut nodes: Vec<u128> = Vec::new();
        let mut i: usize = 0;
        while i < self.nodes.len()
            invariant
                i <= self.nodes.len(),
                nodes@ == self.nodes@.take(i as int),
            decreases self.nodes.len() - i,
        {
            nodes.push(self.nodes[i]);
            i += 1;
        }
        proof { assert(nodes@ =~= self.nodes@); }
        VoterSet { nodes }
    }
}

impl VoterSet {
    #[verifier::type_invariant]
    spec fn is_sorted(self) -> bool {
        is_voter_order(self.nodes@)
    }

    /// Returns the empty set.
    pub fn new() -> (out: Self)
        ensures
            out@ == Set::<u128>::empty(),
    {
        let out = VoterSet { nodes: Vec::new() };
        proof { assert(out@ =~= Set::<u128>::empty()); }
        out
    }

    /// Returns the set of the listed nodes.
    pub fn of(nodes: &[u128]) -> (out: Self)
        ensures
            out@ == nodes@.to_set(),
    {
        let mut out = VoterSet::new();
        let mut i: usize = 0;
        while i < nodes.len()
            invariant
                i <= nodes@.len(),
                out@ == nodes@.take(i as int).to_set(),
            decreases nodes@.len() - i,
        {
            let ghost before = out@;
            out.insert(nodes[i]);
            proof {
                let longer = nodes@.take(i + 1);
                assert(longer =~= nodes@.take(i as int).push(nodes@[i as int]));
                assert(longer.to_set() =~= before.insert(nodes@[i as int])) by {
                    assert forall|node: u128| #[trigger]
                        longer.to_set().contains(node) <==> before.insert(
                            nodes@[i as int],
                        ).contains(node) by {
                        if before.contains(node) {
                            let k = nodes@.take(i as int).index_of(node);
                            assert(longer[k] == node);
                        }
                        if longer.contains(node) && node != nodes@[i as int] {
                            let k = longer.index_of(node);
                            assert(nodes@.take(i as int)[k] == node);
                        }
                        assert(longer[i as int] == nodes@[i as int]);
                    }
                }
            }
            i += 1;
        }
        proof { assert(nodes@.take(nodes@.len() as int) =~= nodes@); }
        out
    }

    /// Returns the nodes in increasing order.
    pub fn nodes(&self) -> (out: &Vec<u128>)
        ensures
            is_voter_order(out@),
            out@.to_set() == self@,
    {
        proof { use_type_invariant(self); }
        &self.nodes
    }

    /// Returns the number of nodes.
    pub fn len(&self) -> (out: usize)
        ensures
            self@.finite(),
            out == self@.len(),
    {
        proof {
            use_type_invariant(self);
            lemma_order_is_unique(self.nodes@);
            self.nodes@.unique_seq_to_set();
        }
        self.nodes.len()
    }

    /// Returns whether the node is in the set.
    pub fn contains(&self, node: &u128) -> (out: bool)
        ensures
            out == self@.contains(*node),
    {
        let mut i: usize = 0;
        while i < self.nodes.len()
            invariant
                i <= self.nodes.len(),
                forall|k: int| 0 <= k < i ==> self.nodes@[k] != *node,
            decreases self.nodes.len() - i,
        {
            if self.nodes[i] == *node {
                return true;
            }
            i += 1;
        }
        false
    }

    /// Returns whether every node is in the other set too.
    pub fn is_subset(&self, other: &VoterSet) -> (out: bool)
        ensures
            out == self@.subset_of(other@),
    {
        let mut i: usize = 0;
        while i < self.nodes.len()
            invariant
                i <= self.nodes.len(),
                forall|k: int| #![trigger self.nodes@[k]] 0 <= k < i ==> other@.contains(self.nodes@[k]),
            decreases self.nodes.len() - i,
        {
            if !other.contains(&self.nodes[i]) {
                proof { assert(self@.contains(self.nodes@[i as int])); }
                return false;
            }
            i += 1;
        }
        proof {
            assert forall|node: u128| #[trigger] self@.contains(node) implies other@.contains(
                node,
            ) by {
                let k = self.nodes@.index_of(node);
                assert(other@.contains(self.nodes@[k]));
            }
        }
        true
    }

    /// Returns whether both sets hold the same nodes.
    pub fn same(&self, other: &VoterSet) -> (out: bool)
        ensures
            out == (self@ == other@),
    {
        let out = self.is_subset(other) && other.is_subset(self);
        proof {
            if out {
                assert(self@ =~= other@);
            }
        }
        out
    }

    /// Adds a node and returns whether it was not there before.
    pub fn insert(&mut self, node: u128) -> (out: bool)
        ensures
            final(self)@ == old(self)@.insert(node),
            out == !old(self)@.contains(node),
    {
        proof { use_type_invariant(&*self); }
        if self.contains(&node) {
            proof { assert(self@ =~= self@.insert(node)); }
            return false;
        }
        let ghost before = self.nodes@;
        let mut nodes: Vec<u128> = Vec::new();
        let mut i: usize = 0;
        while i < self.nodes.len() && self.nodes[i] < node
            invariant
                i <= self.nodes.len(),
                self.nodes@ == before,
                is_voter_order(before),
                nodes@ == before.take(i as int),
                forall|k: int|
                    #![trigger before[k]]
                    0 <= k < i ==> before[k] < node,
            decreases self.nodes.len() - i,
        {
            nodes.push(self.nodes[i]);
            i += 1;
        }
        let ghost at = i as int;
        nodes.push(node);
        proof {
            if at < before.len() {
                assert(before.contains(before[at]));
            }
        }
        while i < self.nodes.len()
            invariant
                0 <= at <= i <= self.nodes.len(),
                self.nodes@ == before,
                is_voter_order(before),
                nodes@ == before.take(at).push(node) + before.subrange(at, i as int),
            decreases self.nodes.len() - i,
        {
            nodes.push(self.nodes[i]);
            i += 1;
        }
        proof {
            assert(nodes@ =~= before.insert(at, node));
            assert forall|a: int, b: int|
                #![trigger nodes@[a], nodes@[b]]
                0 <= a < b < nodes@.len() implies nodes@[a] < nodes@[b] by {
                let x = if a < at { a } else { a - 1 };
                let y = if b < at { b } else { b - 1 };
                if a != at {
                    assert(nodes@[a] == before[x]);
                }
                if b != at {
                    assert(nodes@[b] == before[y]);
                }
                if a == at && at < before.len() {
                    assert(before[at] <= before[y]);
                }
            }
            assert(nodes@.to_set() =~= before.to_set().insert(node)) by {
                assert forall|n: u128| #[trigger] nodes@.contains(n) <==> before.contains(n)
                    || n == node by {
                    if before.contains(n) {
                        let k = before.index_of(n);
                        assert(nodes@[if k < at { k } else { k + 1 }] == n);
                    }
                    assert(nodes@[at] == node);
                    if nodes@.contains(n) && n != node {
                        let k = nodes@.index_of(n);
                        assert(before[if k < at { k } else { k - 1 }] == n);
                    }
                }
            }
        }
        self.nodes = nodes;
        true
    }
}

/// Nodes in increasing order are distinct.
pub proof fn lemma_order_is_unique(nodes: Seq<u128>)
    requires
        is_voter_order(nodes),
    ensures
        nodes.no_duplicates(),
{
    assert forall|i: int, j: int| 0 <= i < nodes.len() && 0 <= j < nodes.len() && i != j implies
        nodes[i] != nodes[j] by {
        if i < j {
            assert(nodes[i] < nodes[j]);
        } else {
            assert(nodes[j] < nodes[i]);
        }
    }
}

} // verus!
