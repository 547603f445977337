//! What holds across several operations of a store.

use vstd::prelude::*;

use super::delta::{
    after_regs, after_tombs, carries, is_old_news, live_keys, received,
};
use super::maintenance::{adopted, is_forgotten, pruned};
use super::{is_active_leaf, is_current, is_leaf, is_pruned, marked, stored, with_tomb, RegAdapter};
use crate::bytes::lemma_bytes_order;
use crate::store::frontier::{advanced, frontier};
use crate::store::merkle::index_root;
use crate::store::tables::TablesView;
use crate::store::tombstone::TombstoneView;

verus! {

/// A marker that pruning has forgotten stays forgotten when frontiers advance further.
pub proof fn law_forgotten_stays_forgotten<R>(
    rows: TablesView<R>,
    record: TombstoneView,
    actor: Seq<u8>,
    sequence: u64,
)
    requires
        is_pruned(rows, record),
    ensures
        is_pruned(
            TablesView { frontiers: advanced(rows.frontiers, actor, sequence), ..rows },
            record,
        ),
{
}

/// Every marker that a garbage-collection pass removes is forgotten for good: the pass
/// leaves a frontier behind that covers it. A marker with sequence zero leaves none.
pub proof fn law_pruning_leaves_a_frontier<R>(
    rows: TablesView<R>,
    batch: Seq<(u64, u128)>,
    n: int,
    i: int,
)
    requires
        0 <= i < n <= batch.len(),
        rows.tombs[batch[i].1].sequence > 0,
    ensures
        is_pruned(pruned(rows, batch, n), rows.tombs[batch[i].1]),
    decreases n,
{
    if i < n - 1 {
        law_pruning_leaves_a_frontier(rows, batch, n - 1, i);
    }
}

/// A chunk whose markers are all forgotten does not bring any of them back.
pub proof fn law_forgotten_markers_do_not_return<R>(
    rows: TablesView<R>,
    tombs: Seq<(u128, TombstoneView)>,
    now_unix_ms: u64,
    n: int,
)
    requires
        0 <= n <= tombs.len(),
        forall|i: int| #![trigger tombs[i]] 0 <= i < n ==> is_pruned(rows, tombs[i].1),
    ensures
        after_tombs(rows, tombs, now_unix_ms, n) == rows,
    decreases n,
{
    if n > 0 {
        law_forgotten_markers_do_not_return(rows, tombs, now_unix_ms, n - 1);
        assert(is_pruned(rows, tombs[n - 1].1));
    }
}

/// A marker that was received once is old news ever after, whenever it comes again.
pub proof fn law_received_marker_is_old_news<R>(
    rows: TablesView<R>,
    key: u128,
    record: TombstoneView,
    first_unix_ms: u64,
    later_unix_ms: u64,
)
    ensures
        is_old_news(
            with_tomb(rows, key, received(rows, key, record, first_unix_ms)),
            key,
            record,
            later_unix_ms,
        ),
{
    lemma_bytes_order(record.origin_actor, record.origin_actor);
    if let Some(held) = marked(rows, key) {
        lemma_bytes_order(record.origin_actor, held.origin_actor);
    }
}

/// Where local markers are kept, no register of a chunk revives a deleted key unless the
/// chunk carries a marker for it too.
pub proof fn law_local_markers_are_kept<R>(
    rows: TablesView<R>,
    regs: Seq<(u128, R)>,
    outcomes: Seq<R>,
    tombs: Seq<(u128, TombstoneView)>,
    n: int,
    key: u128,
)
    requires
        rows.tombs.contains_key(key),
        !carries(tombs, key),
    ensures
        marked(after_regs(rows, regs, outcomes, true, tombs, n), key) == marked(rows, key),
        stored(after_regs(rows, regs, outcomes, true, tombs, n), key) == stored(rows, key),
        !live_keys(rows, regs, outcomes, true, tombs, n).contains(key),
    decreases n,
{
    if n > 0 {
        law_local_markers_are_kept(rows, regs, outcomes, tombs, n - 1, key);
        super::lemma_push_contains(
            live_keys(rows, regs, outcomes, true, tombs, n - 1),
            regs[n - 1].0,
        );
    }
}

/// Adopted frontiers never fall behind the store's own nor behind any given one.
pub proof fn law_adoption_is_monotonic(
    frontiers: Map<Seq<u8>, u64>,
    given: Seq<(Vec<u8>, u64)>,
    n: int,
    actor: Seq<u8>,
)
    requires
        0 <= n <= given.len(),
    ensures
        frontier(adopted(frontiers, given, n), actor) >= frontier(frontiers, actor),
        forall|i: int|
            #![trigger given[i]]
            0 <= i < n && given[i].0@ == actor ==> frontier(adopted(frontiers, given, n), actor)
                >= given[i].1,
        frontier(adopted(frontiers, given, n), actor) == frontier(frontiers, actor) || exists|
            i: int,
        |
            #![trigger given[i]]
            0 <= i < n && given[i].0@ == actor && frontier(adopted(frontiers, given, n), actor)
                == given[i].1,
    decreases n,
{
    if n > 0 {
        law_adoption_is_monotonic(frontiers, given, n - 1, actor);
        if given[n - 1].0@ == actor {
            assert(given[n - 1].0@ == actor);
        }
    }
}

/// Once a peer's frontiers were applied, the markers they made obsolete are forgotten.
pub proof fn law_adopted_frontiers_forget<R>(
    rows: TablesView<R>,
    given: Seq<(Vec<u8>, u64)>,
    record: TombstoneView,
)
    requires
        is_forgotten(given, record),
    ensures
        is_pruned(
            TablesView {
                frontiers: adopted(rows.frontiers, given, given.len() as int),
                ..rows
            },
            record,
        ),
{
    let n = given.len() as int;
    let none = Map::<Seq<u8>, u64>::empty();
    law_adoption_is_monotonic(none, given, n, record.origin_actor);
    law_adoption_is_monotonic(rows.frontiers, given, n, record.origin_actor);
    let i = choose|i: int|
        #![trigger given[i]]
        0 <= i < n && given[i].0@ == record.origin_actor && frontier(
            adopted(none, given, n),
            record.origin_actor,
        ) == given[i].1;
    assert(given[i].0@ == record.origin_actor);
}

/// The adapter shows each of these registers in one way only.
pub open spec fn shows_one_way<C: RegAdapter>(values: Map<u128, C::Reg>, version: u32) -> bool {
    forall|key: u128, a: Seq<u8>, b: Seq<u8>|
        #![trigger is_active_leaf::<C>(values[key], version, a), is_active_leaf::<C>(values[key], version, b)]
        values.contains_key(key) && is_active_leaf::<C>(values[key], version, a)
            && is_active_leaf::<C>(values[key], version, b) ==> a == b
}

/// Two replicas with the same registers and the same delete generations have the same
/// root, whenever each of them first observed the deletes.
pub proof fn law_equal_rows_have_equal_roots<C: RegAdapter>(
    left: TablesView<C::Reg>,
    right: TablesView<C::Reg>,
    version: u32,
    left_leaves: Map<u128, Seq<u8>>,
    right_leaves: Map<u128, Seq<u8>>,
)
    requires
        is_current::<C>(left, version, left_leaves),
        is_current::<C>(right, version, right_leaves),
        shows_one_way::<C>(left.values, version),
        left.values == right.values,
        left.tombs.dom() == right.tombs.dom(),
        forall|key: u128| #[trigger]
            left.tombs.contains_key(key) ==> left.tombs[key].sequence == right.tombs[key].sequence
                && left.tombs[key].origin_actor == right.tombs[key].origin_actor,
    ensures
        left_leaves == right_leaves,
        index_root(left_leaves) == index_root(right_leaves),
{
    assert forall|key: u128| #[trigger] left_leaves.contains_key(key) == right_leaves.contains_key(
        key,
    ) by {
        assert(left.tombs.dom().contains(key) == right.tombs.dom().contains(key));
    }
    assert forall|key: u128| #[trigger] left_leaves.contains_key(key) implies left_leaves[key]
        == right_leaves[key] by {
        assert(right_leaves.contains_key(key));
        assert(is_leaf::<C>(left, version, key, left_leaves[key]));
        assert(is_leaf::<C>(right, version, key, right_leaves[key]));
        assert(left.tombs.dom().contains(key) == right.tombs.dom().contains(key));
    }
    assert(left_leaves =~= right_leaves);
}

} // verus!
