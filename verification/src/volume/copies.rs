//! Sets of nodes that hold copies.

use vstd::prelude::*;

use super::identity::VolumeNodeId;

verus! {

/// The list holds nodes in increasing order, none of them twice.
pub open spec fn is_node_order(nodes: Seq<VolumeNodeId>) -> bool {
    forall|i: int, j: int|
        #![trigger nodes[i], nodes[j]]
        0 <= i < j < nodes.len() ==> nodes[i].value() < nodes[j].value()
}

/// Finite set of nodes.
#[derive(Debug, PartialEq, Eq)]
pub struct CopySet {
    nodes: Vec<VolumeNodeId>,
}

impl View for CopySet {
    type V = Set<VolumeNodeId>;

    closed spec fn view(&self) -> Set<VolumeNodeId> {
        self.nodes@.to_set()
    }
}

impl Clone for CopySet {
    fn clone(&self) -> (out: Self)
        ensures
            out@ == self@,
    {
        proof { use_type_invariant(self); }
        let mut nodes: Vec<VolumeNodeId> = Vec::new();
        let mut i: usize = 0;
        while i < self.nodes.len()
            invariant
                i <= self.nodes.len(),
                nodes@ == self.nodes@.take(i as int),
            decreases self.nodes.len() - i,
        {
            nodes.push(self.nodes[i]);
            i += 1;
        }
        proof { assert(nodes@ =~= self.nodes@); }
        CopySet { nodes }
    }
}

impl CopySet {
    #[verifier::type_invariant]
    spec fn is_sorted(self) -> bool {
        is_node_order(self.nodes@)
    }

    /// Returns the empty set.
    pub fn new() -> (out: Self)
        ensures
            out@ == Set::<VolumeNodeId>::empty(),
    {
        let out = CopySet { nodes: Vec::new() };
        proof { assert(out@ =~= Set::<VolumeNodeId>::empty()); }
        out
    }

    /// Returns the set of the listed nodes.
    pub fn of(nodes: &[VolumeNodeId]) -> (out: Self)
        ensures
            out@ == nodes@.to_set(),
    {
        let mut out = CopySet::new();
        let mut i: usize = 0;
        while i < nodes.len()
            invariant
                i <= nodes@.len(),
                out@ == nodes@.take(i as int).to_set(),
            decreases nodes@.len() - i,
        {
            let ghost before = out@;
            out.insert(nodes[i]);
            proof {
                let longer = nodes@.take(i + 1);
                assert(longer =~= nodes@.take(i as int).push(nodes@[i as int]));
                assert(longer.to_set() =~= before.insert(nodes@[i as int])) by {
                    assert forall|node: VolumeNodeId| #[trigger]
                        longer.to_set().contains(node) <==> before.insert(
                            nodes@[i as int],
                        ).contains(node) by {
                        if before.contains(node) {
                            let k = nodes@.take(i as int).index_of(node);
                            assert(longer[k] == node);
                        }
                        if longer.contains(node) && node != nodes@[i as int] {
                            let k = longer.index_of(node);
                            assert(nodes@.take(i as int)[k] == node);
                        }
                        assert(longer[i as int] == nodes@[i as int]);
                    }
                }
            }
            i += 1;
        }
        proof { assert(nodes@.take(nodes@.len() as int) =~= nodes@); }
        out
    }

    /// Returns the nodes in increasing order.
    pub fn nodes(&self) -> (out: &Vec<VolumeNodeId>)
        ensures
            is_node_order(out@),
            out@.to_set() == self@,
    {
        proof { use_type_invariant(self); }
        &self.nodes
    }

    /// Returns the number of nodes.
    pub fn len(&self) -> (out: usize)
        ensures
            self@.finite(),
            out == self@.len(),
    {
        proof {
            use_type_invariant(self);
            lemma_order_is_unique(self.nodes@);
            self.nodes@.unique_seq_to_set();
        }
        self.nodes.len()
    }

    /// Returns whether the node is in the set.
    pub fn contains(&self, node: &VolumeNodeId) -> (out: bool)
        ensures
            out == self@.contains(*node),
    {
        let mut i: usize = 0;
        while i < self.nodes.len()
            invariant
                i <= self.nodes.len(),
                forall|k: int| 0 <= k < i ==> self.nodes@[k] != *node,
            decreases self.nodes.len() - i,
        {
            if self.nodes[i] == *node {
                return true;
            }
            i += 1;
        }
        false
    }

    /// Returns whether every node is in the other set too.
    pub fn is_subset(&self, other: &CopySet) -> (out: bool)
        ensures
            out == self@.subset_of(other@),
    {
        let mut i: usize = 0;
        while i < self.nodes.len()
            invariant
                i <= self.nodes.len(),
                forall|k: int| #![trigger self.nodes@[k]] 0 <= k < i ==> other@.contains(self.nodes@[k]),
            decreases self.nodes.len() - i,
        {
            if !other.contains(&self.nodes[i]) {
                proof { assert(self@.contains(self.nodes@[i as int])); }
                return false;
            }
            i += 1;
        }
        proof {
            assert forall|node: VolumeNodeId| #[trigger] self@.contains(node) implies other@.contains(
                node,
            ) by {
                let k = self.nodes@.index_of(node);
                assert(other@.contains(self.nodes@[k]));
            }
        }
        true
    }

    /// Returns whether both sets hold the same nodes.
    pub fn same(&self, other: &CopySet) -> (out: bool)
        ensures
            out == (self@ == other@),
    {
        let out = self.is_subset(other) && other.is_subset(self);
        proof {
            if out {
                assert(self@ =~= other@);
            }
        }
        out
    }

    /// Adds a node.
    pub fn insert(&mut self, node: VolumeNodeId)
        ensures
            final(self)@ == old(self)@.insert(node),
    {
        proof { use_type_invariant(&*self); }
        if self.contains(&node) {
            proof { assert(self@ =~= self@.insert(node)); }
            return;
        }
        let ghost before = self.nodes@;
        let mut nodes: Vec<VolumeNodeId> = Vec::new();
        let mut i: usize = 0;
        while i < self.nodes.len() && self.nodes[i].as_u128() < node.as_u128()
            invariant
                i <= self.nodes.len(),
                self.nodes@ == before,
                is_node_order(before),
                nodes@ == before.take(i as int),
                forall|k: int|
                    #![trigger before[k]]
                    0 <= k < i ==> before[k].value() < node.value(),
            decreases self.nodes.len() - i,
        {
            nodes.push(self.nodes[i]);
            i += 1;
        }
        let ghost at = i as int;
        nodes.push(node);
        proof {
            if at < before.len() {
                VolumeNodeId::lemma_value(before[at], node);
                assert(before.contains(before[at]));
            }
        }
        while i < self.nodes.len()
            invariant
                0 <= at <= i <= self.nodes.len(),
                self.nodes@ == before,
                is_node_order(before),
                nodes@ == before.take(at).push(node) + before.subrange(at, i as int),
            decreases self.nodes.len() - i,
        {
            nodes.push(self.nodes[i]);
            i += 1;
        }
        proof {
            assert(nodes@ =~= before.insert(at, node));
            assert forall|a: int, b: int|
                #![trigger nodes@[a], nodes@[b]]
                0 <= a < b < nodes@.len() implies nodes@[a].value() < nodes@[b].value() by {
                let x = if a < at { a } else { a - 1 };
                let y = if b < at { b } else { b - 1 };
                if a != at {
                    assert(nodes@[a] == before[x]);
                }
                if b != at {
                    assert(nodes@[b] == before[y]);
                }
                if a == at && at < before.len() {
                    assert(before[at].value() <= before[y].value());
                }
            }
            assert(nodes@.to_set() =~= before.to_set().insert(node)) by {
                assert forall|n: VolumeNodeId| #[trigger] nodes@.contains(n) <==> before.contains(n)
                    || n == node by {
                    if before.contains(n) {
                        let k = before.index_of(n);
                        assert(nodes@[if k < at { k } else { k + 1 }] == n);
                    }
                    assert(nodes@[at] == node);
                    if nodes@.contains(n) && n != node {
                        let k = nodes@.index_of(n);
                        assert(before[if k < at { k } else { k - 1 }] == n);
                    }
                }
            }
        }
        self.nodes = nodes;
    }

    /// Removes a node.
    pub fn remove(&mut self, node: &VolumeNodeId)
        ensures
            final(self)@ == old(self)@.remove(*node),
    {
        proof { use_type_invariant(&*self); }
        let ghost before = self.nodes@;
        let mut nodes: Vec<VolumeNodeId> = Vec::new();
        let mut i: usize = 0;
        while i < self.nodes.len()
            invariant
                i <= self.nodes.len(),
                self.nodes@ == before,
                is_node_order(before),
                is_node_order(nodes@),
                forall|k: int|
                    #![trigger nodes@[k]]
                    0 <= k < nodes@.len() ==> exists|j: int|
                        #![trigger before[j]]
                        0 <= j < i && before[j] == nodes@[k],
                forall|n: VolumeNodeId| #[trigger]
                    nodes@.contains(n) <==> before.take(i as int).contains(n) && n != *node,
            decreases self.nodes.len() - i,
        {
            let next = self.nodes[i];
            let ghost kept = nodes@;
            proof {
                assert(before.take(i + 1) =~= before.take(i as int).push(next));
                lemma_push_nodes(before.take(i as int), next);
                lemma_push_nodes(kept, next);
            }
            if next != *node {
                nodes.push(next);
                proof {
                    assert forall|a: int, b: int|
                        #![trigger nodes@[a], nodes@[b]]
                        0 <= a < b < nodes@.len() implies nodes@[a].value() < nodes@[b].value() by {
                        assert(nodes@[a] == kept[a]);
                        if b < kept.len() {
                            assert(nodes@[b] == kept[b]);
                        } else {
                            let j = choose|j: int|
                                #![trigger before[j]]
                                0 <= j < i && before[j] == kept[a];
                            assert(before[j].value() < before[i as int].value());
                        }
                    }
                    assert forall|k: int| #![trigger nodes@[k]] 0 <= k < nodes@.len() implies exists|
                        j: int,
                    |
                        #![trigger before[j]]
                        0 <= j < i + 1 && before[j] == nodes@[k] by {
                        if k < kept.len() {
                            assert(nodes@[k] == kept[k]);
                            let j = choose|j: int|
                                #![trigger before[j]]
                                0 <= j < i && before[j] == kept[k];
                            assert(before[j] == nodes@[k]);
                        } else {
                            assert(before[i as int] == nodes@[k]);
                        }
                    }
                }
            }
            i += 1;
        }
        proof {
            assert(before.take(before.len() as int) =~= before);
            assert(nodes@.to_set() =~= before.to_set().remove(*node));
        }
        self.nodes = nodes;
    }
}

/// Nodes in increasing order are distinct.
proof fn lemma_order_is_unique(nodes: Seq<VolumeNodeId>)
    requires
        is_node_order(nodes),
    ensures
        nodes.no_duplicates(),
{
    assert forall|i: int, j: int| 0 <= i < nodes.len() && 0 <= j < nodes.len() && i != j implies
        nodes[i] != nodes[j] by {
        if i < j {
            assert(nodes[i].value() < nodes[j].value());
        } else {
            assert(nodes[j].value() < nodes[i].value());
        }
    }
}

/// A longer list holds its new node and what it held before.
proof fn lemma_push_nodes(nodes: Seq<VolumeNodeId>, node: VolumeNodeId)
    ensures
        forall|n: VolumeNodeId| #[trigger]
            nodes.push(node).contains(n) <==> nodes.contains(n) || n == node,
{
    assert forall|n: VolumeNodeId| #[trigger] nodes.push(node).contains(n) <==> nodes.contains(n)
        || n == node by {
        if nodes.contains(n) {
            let k = nodes.index_of(n);
            assert(nodes.push(node)[k] == n);
        }
        if n == node {
            assert(nodes.push(node)[nodes.len() as int] == n);
        }
        if nodes.push(node).contains(n) && n != node {
            let k = nodes.push(node).index_of(n);
            assert(nodes[k] == n);
        }
    }
}

} // verus!
