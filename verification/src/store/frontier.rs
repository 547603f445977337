//! Prune frontiers: per origin actor, the highest delete generation that this
//! node has deliberately forgotten.

use vstd::prelude::*;

use crate::bytes::{
    bytes_less, copy_bytes, is_bytes_less, lemma_bytes_order, lemma_bytes_transitive, same_bytes,
};

verus! {

/// Forgotten generation of one actor; zero where nothing was forgotten.
pub open spec fn frontier(frontiers: Map<Seq<u8>, u64>, actor: Seq<u8>) -> u64 {
    if frontiers.contains_key(actor) { frontiers[actor] } else { 0 }
}

/// Frontiers with one of them raised to at least the given generation.
pub open spec fn advanced(
    frontiers: Map<Seq<u8>, u64>,
    actor: Seq<u8>,
    sequence: u64,
) -> Map<Seq<u8>, u64> {
    if sequence > frontier(frontiers, actor) {
        frontiers.insert(actor, sequence)
    } else {
        frontiers
    }
}

/// Rows of a frontier table as a map.
pub open spec fn frontier_rows(rows: Seq<(Vec<u8>, u64)>) -> Map<Seq<u8>, u64>
    decreases rows.len(),
{
    if rows.len() == 0 {
        Map::empty()
    } else {
        frontier_rows(rows.drop_last()).insert(rows.last().0@, rows.last().1)
    }
}

/// The rows are in increasing actor order and none is zero.
pub open spec fn frontier_order(rows: Seq<(Vec<u8>, u64)>) -> bool {
    &&& forall|i: int, j: int|
        #![trigger rows[i], rows[j]]
        0 <= i < j < rows.len() ==> bytes_less(rows[i].0@, rows[j].0@)
    &&& forall|i: int| #![trigger rows[i]] 0 <= i < rows.len() ==> rows[i].1 > 0
}

/// Each row of an ordered table is the map's entry for its actor, and there are
/// no other entries.
pub proof fn lemma_frontier_rows(rows: Seq<(Vec<u8>, u64)>)
    requires
        frontier_order(rows),
    ensures
        forall|i: int|
            #![trigger rows[i]]
            0 <= i < rows.len() ==> frontier_rows(rows).contains_key(rows[i].0@) && frontier_rows(
                rows,
            )[rows[i].0@] == rows[i].1,
        forall|actor: Seq<u8>| #[trigger]
            frontier_rows(rows).contains_key(actor) ==> exists|i: int|
                #![trigger rows[i]]
                0 <= i < rows.len() && rows[i].0@ == actor,
    decreases rows.len(),
{
    if rows.len() > 0 {
        let rest = rows.drop_last();
        let end = rows.len() - 1;
        assert forall|i: int, j: int|
            #![trigger rest[i], rest[j]]
            0 <= i < j < rest.len() implies bytes_less(rest[i].0@, rest[j].0@) by {
            assert(rest[i] == rows[i] && rest[j] == rows[j]);
        }
        assert forall|i: int| #![trigger rest[i]] 0 <= i < rest.len() implies rest[i].1 > 0 by {
            assert(rest[i] == rows[i]);
        }
        lemma_frontier_rows(rest);
        assert forall|i: int| #![trigger rows[i]] 0 <= i < rows.len() implies frontier_rows(
            rows,
        ).contains_key(rows[i].0@) && frontier_rows(rows)[rows[i].0@] == rows[i].1 by {
            if i < end {
                assert(rest[i] == rows[i]);
                assert(bytes_less(rows[i].0@, rows[end].0@));
                lemma_bytes_order(rows[i].0@, rows[end].0@);
            }
        }
        assert forall|actor: Seq<u8>| #[trigger]
            frontier_rows(rows).contains_key(actor) implies exists|i: int|
            #![trigger rows[i]]
            0 <= i < rows.len() && rows[i].0@ == actor by {
            if actor == rows[end].0@ {
                assert(rows[end].0@ == actor);
            } else {
                assert(frontier_rows(rest).contains_key(actor));
                let i = choose|i: int| #![trigger rest[i]] 0 <= i < rest.len() && rest[i].0@ == actor;
                assert(rows[i].0@ == actor);
            }
        }
    }
}

/// Ordered table of prune frontiers.
#[derive(Debug, PartialEq, Eq)]
pub struct FrontierTable {
    rows: Vec<(Vec<u8>, u64)>,
}

impl View for FrontierTable {
    type V = Map<Seq<u8>, u64>;

    closed spec fn view(&self) -> Map<Seq<u8>, u64> {
        frontier_rows(self.rows@)
    }
}

impl FrontierTable {
    /// The rows are ordered and none is zero.
    #[verifier::type_invariant]
    spec fn well_formed(&self) -> bool {
        frontier_order(self.rows@)
    }

    /// Makes a table without frontiers.
    pub fn new() -> (out: Self)
        ensures
            out@ == Map::<Seq<u8>, u64>::empty(),
    {
        FrontierTable { rows: Vec::new() }
    }

    /// Finds the first row that does not stand before the actor.
    fn find(&self, actor: &[u8]) -> (at: usize)
        ensures
            at <= self.rows@.len(),
            forall|k: int|
                #![trigger self.rows@[k]]
                0 <= k < at ==> bytes_less(self.rows@[k].0@, actor@),
            at < self.rows@.len() ==> !bytes_less(self.rows@[at as int].0@, actor@),
    {
        let mut at: usize = 0;
        while at < self.rows.len() && is_bytes_less(&self.rows[at].0, actor)
            invariant
                at <= self.rows@.len(),
                forall|k: int|
                    #![trigger self.rows@[k]]
                    0 <= k < at ==> bytes_less(self.rows@[k].0@, actor@),
            decreases self.rows.len() - at,
        {
            at += 1;
        }
        at
    }

    /// Returns the frontier of one actor, zero where there is none.
    pub fn get(&self, actor: &[u8]) -> (out: u64)
        ensures
            out == frontier(self@, actor@),
    {
        proof { use_type_invariant(self); }
        let at = self.find(actor);
        proof { lemma_frontier_rows(self.rows@); }
        if at < self.rows.len() && same_bytes(&self.rows[at].0, actor) {
            return self.rows[at].1;
        }
        proof {
            if self@.contains_key(actor@) {
                let i = choose|i: int|
                    #![trigger self.rows@[i]]
                    0 <= i < self.rows@.len() && self.rows@[i].0@ == actor@;
                lemma_bytes_order(actor@, actor@);
                if i > at {
                    lemma_bytes_order(self.rows@[at as int].0@, actor@);
                }
            }
        }
        0
    }

    /// Raises one frontier; a frontier never goes back.
    pub fn advance(&mut self, actor: &[u8], sequence: u64)
        ensures
            final(self)@ == advanced(old(self)@, actor@, sequence),
    {
        proof { use_type_invariant(&*self); }
        if sequence <= self.get(actor) {
            return;
        }
        let at = self.find(actor);
        let ghost before = self.rows@;
        proof { lemma_frontier_rows(before); }
        let mut rows: Vec<(Vec<u8>, u64)> = Vec::new();
        std::mem::swap(&mut rows, &mut self.rows);
        if at < rows.len() && same_bytes(&rows[at].0, actor) {
            let row = rows.remove(at);
            proof { assert(row.0@ == actor@); }
            rows.insert(at, (row.0, sequence));
            proof { assert(rows@ =~= before.update(at as int, (row.0, sequence))); }
            let ghost after = rows@;
            proof {
                assert forall|i: int, j: int|
                    #![trigger after[i], after[j]]
                    0 <= i < j < after.len() implies bytes_less(after[i].0@, after[j].0@) by {
                    assert(after[i].0@ == before[i].0@);
                    assert(after[j].0@ == before[j].0@);
                    assert(bytes_less(before[i].0@, before[j].0@));
                }
                assert forall|i: int| #![trigger after[i]] 0 <= i < after.len() implies after[i].1
                    > 0 by {
                    if i != at {
                        assert(after[i] == before[i]);
                    }
                }
                lemma_equal_frontiers(before, after, actor@, sequence, at as int);
            }
        } else {
            rows.insert(at, (copy_bytes(actor), sequence));
            let ghost after = rows@;
            proof {
                assert forall|k: int| #![trigger before[k]] at <= k < before.len() implies
                    bytes_less(actor@, before[k].0@) by {
                    lemma_bytes_order(before[at as int].0@, actor@);
                    if k > at {
                        lemma_bytes_transitive(actor@, before[at as int].0@, before[k].0@);
                    }
                }
                assert forall|i: int, j: int|
                    #![trigger after[i], after[j]]
                    0 <= i < j < after.len() implies bytes_less(after[i].0@, after[j].0@) by {
                    let from = if i < at { i } else { i - 1 };
                    let to = if j < at { j } else { j - 1 };
                    if i == at {
                        assert(after[j] == before[to]);
                    } else if j == at {
                        assert(after[i] == before[from]);
                    } else {
                        assert(after[i] == before[from] && after[j] == before[to]);
                    }
                }
                assert forall|i: int| #![trigger after[i]] 0 <= i < after.len() implies after[i].1
                    > 0 by {
                    if i != at {
                        let from = if i < at { i } else { i - 1 };
                        assert(after[i] == before[from]);
                    }
                }
                lemma_more_frontiers(before, after, actor@, sequence, at as int);
            }
        }
        self.rows = rows;
    }

    /// Returns all frontiers in increasing actor order.
    pub fn rows(&self) -> (out: Vec<(Vec<u8>, u64)>)
        ensures
            frontier_order(out@),
            frontier_rows(out@) == self@,
    {
        proof { use_type_invariant(self); }
        let mut out: Vec<(Vec<u8>, u64)> = Vec::new();
        let mut i: usize = 0;
        proof { assert(frontier_rows(self.rows@.take(0)) =~= frontier_rows(out@)); }
        while i < self.rows.len()
            invariant
                self.well_formed(),
                i <= self.rows.len(),
                out@.len() == i,
                forall|k: int|
                    #![trigger out@[k]]
                    0 <= k < i ==> out@[k].0@ == self.rows@[k].0@ && out@[k].1 == self.rows@[k].1,
                frontier_rows(out@) == frontier_rows(self.rows@.take(i as int)),
            decreases self.rows.len() - i,
        {
            let ghost before = out@;
            out.push((copy_bytes(&self.rows[i].0), self.rows[i].1));
            proof {
                assert(out@.drop_last() =~= before);
                assert(self.rows@.take(i + 1).drop_last() =~= self.rows@.take(i as int));
            }
            i += 1;
        }
        proof {
            assert(self.rows@.take(self.rows@.len() as int) =~= self.rows@);
            assert forall|i: int, j: int|
                #![trigger out@[i], out@[j]]
                0 <= i < j < out@.len() implies bytes_less(out@[i].0@, out@[j].0@) by {
                assert(bytes_less(self.rows@[i].0@, self.rows@[j].0@));
            }
        }
        out
    }
}

/// One more row adds one entry to the map.
proof fn lemma_more_frontiers(
    before: Seq<(Vec<u8>, u64)>,
    after: Seq<(Vec<u8>, u64)>,
    actor: Seq<u8>,
    sequence: u64,
    at: int,
)
    requires
        frontier_order(before),
        frontier_order(after),
        0 <= at <= before.len(),
        after.len() == before.len() + 1,
        after[at].0@ == actor,
        after[at].1 == sequence,
        forall|i: int| #![trigger before[i]] 0 <= i < at ==> after[i] == before[i],
        forall|i: int| #![trigger before[i]] at <= i < before.len() ==> after[i + 1] == before[i],
    ensures
        frontier_rows(after) == frontier_rows(before).insert(actor, sequence),
{
    let (m, n) = (frontier_rows(before), frontier_rows(after));
    lemma_frontier_rows(before);
    lemma_frontier_rows(after);
    assert(n.contains_key(actor) && n[actor] == sequence) by {
        assert(after[at].0@ == actor);
    }
    assert forall|a: Seq<u8>| a != actor && #[trigger] m.contains_key(a) implies n.contains_key(a)
        && n[a] == m[a] by {
        let i = choose|i: int| #![trigger before[i]] 0 <= i < before.len() && before[i].0@ == a;
        let to = if i < at { i } else { i + 1 };
        assert(after[to] == before[i]);
    }
    assert forall|a: Seq<u8>| a != actor && #[trigger] n.contains_key(a) implies m.contains_key(
        a,
    ) by {
        let i = choose|i: int| #![trigger after[i]] 0 <= i < after.len() && after[i].0@ == a;
        let from = if i < at { i } else { i - 1 };
        assert(after[i] == before[from]);
    }
    assert(n =~= m.insert(actor, sequence));
}

/// Tables that differ in one number have maps that differ in one entry.
proof fn lemma_equal_frontiers(
    before: Seq<(Vec<u8>, u64)>,
    after: Seq<(Vec<u8>, u64)>,
    actor: Seq<u8>,
    sequence: u64,
    at: int,
)
    requires
        frontier_order(before),
        frontier_order(after),
        0 <= at < before.len(),
        before.len() == after.len(),
        before[at].0@ == actor,
        after[at].0@ == actor,
        after[at].1 == sequence,
        forall|i: int| #![trigger after[i]] 0 <= i < after.len() && i != at ==> after[i] == before[i],
    ensures
        frontier_rows(after) == frontier_rows(before).insert(actor, sequence),
{
    let (m, n) = (frontier_rows(before), frontier_rows(after));
    lemma_frontier_rows(before);
    lemma_frontier_rows(after);
    assert(n.contains_key(actor) && n[actor] == sequence) by {
        assert(after[at].0@ == actor);
    }
    assert forall|a: Seq<u8>| a != actor && #[trigger] m.contains_key(a) implies n.contains_key(a)
        && n[a] == m[a] by {
        let i = choose|i: int| #![trigger before[i]] 0 <= i < before.len() && before[i].0@ == a;
        assert(after[i] == before[i]);
    }
    assert forall|a: Seq<u8>| a != actor && #[trigger] n.contains_key(a) implies m.contains_key(
        a,
    ) by {
        let i = choose|i: int| #![trigger after[i]] 0 <= i < after.len() && after[i].0@ == a;
        assert(after[i] == before[i]);
    }
    assert(n =~= m.insert(actor, sequence));
}

/// A frontier never goes back, and raising one leaves the others alone.
pub proof fn law_frontier_is_monotonic(
    frontiers: Map<Seq<u8>, u64>,
    actor: Seq<u8>,
    sequence: u64,
    other: Seq<u8>,
)
    ensures
        frontier(advanced(frontiers, actor, sequence), actor) >= frontier(frontiers, actor),
        frontier(advanced(frontiers, actor, sequence), actor) >= sequence,
        other != actor ==> frontier(advanced(frontiers, actor, sequence), other) == frontier(
            frontiers,
            other,
        ),
{
}

} // verus!
