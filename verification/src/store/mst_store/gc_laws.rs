//! What maintenance of a store may forget and may rewrite.

use vstd::prelude::*;

use super::laws::law_adoption_is_monotonic;
use super::maintenance::{
    adopted, compaction_is_off, compaction_relates, forgotten_keys, is_batch, prune_cutoff, pruned,
    rewrites, rewritten,
};
use super::RegAdapter;
use crate::store::frontier::{advanced, frontier};
use crate::store::gc::{GcBarrier, StoreGcPolicy, StoreGcReport};
use crate::store::tables::{age_index, lists_rows, TablesView};
use crate::store::tombstone::TombstoneView;

verus! {

/// The forgotten generation of an actor is its entry in the table, zero where it has none,
/// and raising it leaves the larger one of the two and every other actor's alone.
pub proof fn law_frontier_is_the_larger_one(
    frontiers: Map<Seq<u8>, u64>,
    actor: Seq<u8>,
    sequence: u64,
    other: Seq<u8>,
)
    ensures
        frontiers.contains_key(actor) ==> frontier(frontiers, actor) == frontiers[actor],
        !frontiers.contains_key(actor) ==> frontier(frontiers, actor) == 0,
        ({
            let after = advanced(frontiers, actor, sequence);
            let held: int = if frontiers.contains_key(actor) { frontiers[actor] as int } else { 0 };
            &&& held < sequence ==> after.contains_key(actor) && after[actor] == sequence
            &&& held >= sequence ==> after == frontiers
            &&& other != actor ==> after.contains_key(other) == frontiers.contains_key(other)
            &&& other != actor && frontiers.contains_key(other) ==> after[other]
                == frontiers[other]
        }),
{
}

/// Pruning removes the markers of its rows, leaves the others alone, and raises frontiers
/// to the sequences of the removed markers.
proof fn lemma_pruned<R>(
    rows: TablesView<R>,
    batch: Seq<(u64, u128)>,
    n: int,
    key: u128,
    actor: Seq<u8>,
)
    requires
        0 <= n <= batch.len(),
    ensures
        ({
            let after = pruned(rows, batch, n);
            &&& after.values == rows.values
            &&& after.tomb_seq == rows.tomb_seq
            &&& after.tombs.contains_key(key) <==> rows.tombs.contains_key(key) && forall|k: int|
                #![trigger batch[k]]
                0 <= k < n ==> batch[k].1 != key
            &&& after.tombs.contains_key(key) ==> after.tombs[key] == rows.tombs[key]
            &&& frontier(after.frontiers, actor) >= frontier(rows.frontiers, actor)
            &&& forall|k: int|
                #![trigger batch[k]]
                0 <= k < n && rows.tombs[batch[k].1].origin_actor == actor ==> frontier(
                    after.frontiers,
                    actor,
                ) >= rows.tombs[batch[k].1].sequence
            &&& frontier(after.frontiers, actor) == frontier(rows.frontiers, actor) || exists|
                k: int,
            |
                #![trigger batch[k]]
                0 <= k < n && rows.tombs[batch[k].1].origin_actor == actor && frontier(
                    after.frontiers,
                    actor,
                ) == rows.tombs[batch[k].1].sequence
        }),
    decreases n,
{
    if n > 0 {
        lemma_pruned(rows, batch, n - 1, key, actor);
        let after = pruned(rows, batch, n);
        if forall|k: int| #![trigger batch[k]] 0 <= k < n ==> batch[k].1 != key {
            assert(batch[n - 1].1 != key);
        }
        let record = rows.tombs[batch[n - 1].1];
        if frontier(after.frontiers, actor) != frontier(
            pruned(rows, batch, n - 1).frontiers,
            actor,
        ) {
            assert(rows.tombs[batch[n - 1].1].origin_actor == actor);
        }
    }
}

/// A garbage-collection pass removes no marker before the policy's retention has passed
/// since it was observed, and none that was not observed before the barrier's safe moment.
/// It removes at most as many as the limit, the oldest first, and all of them where the
/// limit is not reached. It changes no register, and what it removes stays forgotten.
pub proof fn law_pruning_waits_for_retention_and_barrier<R>(
    before: TablesView<R>,
    after: TablesView<R>,
    policy: StoreGcPolicy,
    barrier: GcBarrier,
    now_unix_ms: u64,
    batch: Seq<(u64, u128)>,
    n: int,
    key: u128,
    other: u128,
)
    requires
        lists_rows(batch, age_index(before.tombs)),
        is_batch(
            batch,
            prune_cutoff(policy, barrier, now_unix_ms),
            policy.tombstone_batch_limit,
            n,
        ),
        after == pruned(before, batch, n),
    ensures
        after.values == before.values,
        after.tomb_seq == before.tomb_seq,
        n <= policy.tombstone_batch_limit,
        after.tombs.contains_key(key) ==> before.tombs.contains_key(key) && after.tombs[key]
            == before.tombs[key],
        before.tombs.contains_key(key) && !after.tombs.contains_key(key) ==> {
            &&& before.tombs[key].observed_at_unix_ms + policy.tombstone_min_retention_ms
                < now_unix_ms
            &&& before.tombs[key].observed_at_unix_ms < barrier.safe_observed_before_unix_ms
            &&& before.tombs[key].sequence > 0 ==> after.frontiers.contains_key(
                before.tombs[key].origin_actor,
            ) && after.frontiers[before.tombs[key].origin_actor] >= before.tombs[key].sequence
        },
        before.tombs.contains_key(key) && n < policy.tombstone_batch_limit
            && before.tombs[key].observed_at_unix_ms + policy.tombstone_min_retention_ms
            < now_unix_ms && before.tombs[key].observed_at_unix_ms
            < barrier.safe_observed_before_unix_ms ==> !after.tombs.contains_key(key),
        before.tombs.contains_key(key) && !after.tombs.contains_key(key)
            && after.tombs.contains_key(other) ==> before.tombs[key].observed_at_unix_ms
            <= before.tombs[other].observed_at_unix_ms,
{
    let origin = before.tombs[key].origin_actor;
    lemma_pruned(before, batch, n, key, origin);
    lemma_pruned(before, batch, n, other, origin);
    assert forall|k: int|
        #![trigger batch[k]]
        0 <= k < batch.len() implies before.tombs.contains_key(batch[k].1)
        && before.tombs[batch[k].1].observed_at_unix_ms == batch[k].0 by {
        assert(age_index(before.tombs).contains(batch[k]));
    }
    if before.tombs.contains_key(key) {
        let row = (before.tombs[key].observed_at_unix_ms, key);
        assert(age_index(before.tombs).contains(row));
        let i = choose|i: int| 0 <= i < batch.len() && batch[i] == row;
        if !after.tombs.contains_key(key) {
            let k = choose|k: int| #![trigger batch[k]] 0 <= k < n && batch[k].1 == key;
            assert(batch[k].0 == row.0);
            if after.tombs.contains_key(other) {
                let last = (before.tombs[other].observed_at_unix_ms, other);
                assert(age_index(before.tombs).contains(last));
                let j = choose|j: int| 0 <= j < batch.len() && batch[j] == last;
                assert(batch[j].1 == other);
                assert(j >= n);
                assert(crate::store::tables::older(batch[k], batch[j]));
            }
        } else if n < policy.tombstone_batch_limit {
            assert(batch[i].1 == key);
            assert(i >= n);
            if i > n {
                assert(crate::store::tables::older(batch[n], batch[i]));
            }
        }
    }
}

/// A pass raises the forgotten generation of an actor only to that of a marker of this
/// actor which it removed.
pub proof fn law_pruning_forgets_only_what_it_removed<R>(
    before: TablesView<R>,
    batch: Seq<(u64, u128)>,
    n: int,
    actor: Seq<u8>,
)
    requires
        lists_rows(batch, age_index(before.tombs)),
        0 <= n <= batch.len(),
    ensures
        ({
            let after = pruned(before, batch, n);
            frontier(after.frontiers, actor) == frontier(before.frontiers, actor) || exists|
                key: u128,
            | #[trigger]
                before.tombs.contains_key(key) && !after.tombs.contains_key(key)
                    && before.tombs[key].origin_actor == actor && before.tombs[key].sequence
                    == frontier(after.frontiers, actor)
        }),
{
    let after = pruned(before, batch, n);
    lemma_pruned(before, batch, n, 0, actor);
    if frontier(after.frontiers, actor) != frontier(before.frontiers, actor) {
        let k = choose|k: int|
            #![trigger batch[k]]
            0 <= k < n && before.tombs[batch[k].1].origin_actor == actor && frontier(
                after.frontiers,
                actor,
            ) == before.tombs[batch[k].1].sequence;
        let key = batch[k].1;
        assert(age_index(before.tombs).contains(batch[k]));
        lemma_pruned(before, batch, n, key, actor);
        assert(before.tombs.contains_key(key) && !after.tombs.contains_key(key));
    }
}

/// A peer's frontiers make exactly those markers obsolete whose origin has forgotten their
/// generation or a later one.
pub proof fn law_peer_frontiers_drop_exactly(
    tombs: Map<u128, TombstoneView>,
    given: Seq<(Vec<u8>, u64)>,
    key: u128,
)
    ensures
        forgotten_keys(tombs, given).contains(key) <==> tombs.contains_key(key) && exists|i: int|
            #![trigger given[i]]
            0 <= i < given.len() && given[i].0@ == tombs[key].origin_actor && given[i].1 > 0
                && tombs[key].sequence <= given[i].1,
{
    let n = given.len() as int;
    let none = Map::<Seq<u8>, u64>::empty();
    let origin = tombs[key].origin_actor;
    law_adoption_is_monotonic(none, given, n, origin);
    let limit = frontier(adopted(none, given, n), origin);
    if limit > 0 {
        let i = choose|i: int|
            #![trigger given[i]]
            0 <= i < n && given[i].0@ == origin && limit == given[i].1;
        assert(given[i].0@ == origin);
    }
}

/// Rewriting changes the values under its keys to what compaction returned.
proof fn lemma_rewritten<R>(
    values: Map<u128, R>,
    keys: Seq<u128>,
    outcomes: Seq<Option<R>>,
    n: int,
    key: u128,
)
    requires
        0 <= n <= outcomes.len() <= keys.len(),
        forall|i: int, j: int|
            #![trigger keys[i], keys[j]]
            0 <= i < j < keys.len() ==> keys[i] < keys[j],
        forall|i: int| #![trigger keys[i]] 0 <= i < keys.len() ==> values.contains_key(keys[i]),
    ensures
        ({
            let after = rewritten(values, keys, outcomes, n);
            &&& after.contains_key(key) == values.contains_key(key)
            &&& (forall|i: int| #![trigger keys[i]] 0 <= i < n ==> keys[i] != key)
                && values.contains_key(key) ==> after[key] == values[key]
            &&& forall|i: int|
                #![trigger keys[i]]
                0 <= i < n && keys[i] == key ==> after[key] == (match outcomes[i] {
                    Some(reg) => reg,
                    None => values[key],
                })
        }),
    decreases n,
{
    if n > 0 {
        lemma_rewritten(values, keys, outcomes, n - 1, key);
        let after = rewritten(values, keys, outcomes, n);
        assert(values.contains_key(keys[n - 1]));
        if forall|i: int| #![trigger keys[i]] 0 <= i < n ==> keys[i] != key {
            assert(keys[n - 1] != key);
        }
        assert forall|i: int| #![trigger keys[i]] 0 <= i < n && keys[i] == key implies after[key]
            == (match outcomes[i] {
            Some(reg) => reg,
            None => values[key],
        }) by {
            if i < n - 1 {
                assert(keys[i] < keys[n - 1]);
            } else {
                assert forall|j: int| #![trigger keys[j]] 0 <= j < n - 1 implies keys[j] != key by {
                    assert(keys[j] < keys[n - 1]);
                }
            }
        }
    }
}

/// Rewrites are counted one by one.
proof fn lemma_rewrites<R>(outcomes: Seq<Option<R>>, n: int)
    requires
        0 <= n <= outcomes.len(),
    ensures
        rewrites(outcomes, n) <= n,
        rewrites(outcomes, n) == 0 <==> forall|i: int|
            #![trigger outcomes[i]]
            0 <= i < n ==> outcomes[i] is None,
    decreases n,
{
    if n > 0 {
        lemma_rewrites(outcomes, n - 1);
        if outcomes[n - 1] is Some {
            assert(!(outcomes[n - 1] is None));
        }
    }
}

/// A compaction pass adds and removes no key, touches no marker, and each register that it
/// inspects is afterwards what the adapter made of it. It inspects the smallest keys, as
/// many as the limit allows, and a register that it did not inspect stays.
pub proof fn law_compaction_rewrites_what_the_adapter_says<C: RegAdapter>(
    before: TablesView<C::Reg>,
    after: TablesView<C::Reg>,
    keys: Seq<u128>,
    outcomes: Seq<Option<C::Reg>>,
    max_values: usize,
    limit: usize,
    report: StoreGcReport,
    i: int,
)
    requires
        compaction_relates::<C>(before, after, keys, outcomes, max_values, limit, report),
        0 <= i < keys.len(),
    ensures
        after.tombs == before.tombs,
        after.frontiers == before.frontiers,
        after.tomb_seq == before.tomb_seq,
        forall|key: u128| #[trigger]
            after.values.contains_key(key) <==> before.values.contains_key(key),
        before.values.contains_key(keys[i]),
        forall|key: u128| #[trigger] before.values.contains_key(key) ==> keys.contains(key),
        i > 0 ==> keys[i - 1] < keys[i],
        i < limit ==> (call_ensures(
            C::compact_reg,
            (&before.values[keys[i]], max_values),
            Ok(None),
        ) && after.values[keys[i]] == before.values[keys[i]]) || call_ensures(
            C::compact_reg,
            (&before.values[keys[i]], max_values),
            Ok(Some(after.values[keys[i]])),
        ),
        i >= limit ==> after.values[keys[i]] == before.values[keys[i]],
        report.registers_scanned <= limit,
        report.registers_scanned == keys.len() || report.registers_scanned == limit,
        report.registers_compacted <= report.registers_scanned,
        report.registers_compacted == 0 ==> after.values == before.values,
        report.tombstones_scanned == 0,
        report.tombstones_pruned == 0,
{
    let n = outcomes.len() as int;
    lemma_rewrites(outcomes, n);
    assert forall|key: u128| #[trigger]
        after.values.contains_key(key) <==> before.values.contains_key(key) by {
        lemma_rewritten(before.values, keys, outcomes, n, key);
    }
    assert(before.values.dom().contains(keys[i]));
    lemma_rewritten(before.values, keys, outcomes, n, keys[i]);
    if i >= n {
        assert forall|j: int| #![trigger keys[j]] 0 <= j < n implies keys[j] != keys[i] by {
            assert(keys[j] < keys[i]);
        }
    }
    if i > 0 {
        assert(keys[i - 1] < keys[i]);
    }
    assert forall|key: u128| #[trigger] before.values.contains_key(key) implies keys.contains(
        key,
    ) by {
        assert(before.values.dom().contains(key));
    }
    if i < n {
        assert(call_ensures(C::compact_reg, (&before.values[keys[i]], max_values), Ok(outcomes[i])));
    }
    if report.registers_compacted == 0 {
        assert forall|key: u128| #[trigger] after.values.contains_key(key) implies after.values[key]
            == before.values[key] by {
            assert(keys.contains(key));
            let j = choose|j: int| 0 <= j < keys.len() && keys[j] == key;
            lemma_rewritten(before.values, keys, outcomes, n, key);
            if j < n {
                assert(outcomes[j] is None);
            } else {
                assert forall|m: int| #![trigger keys[m]] 0 <= m < n implies keys[m] != key by {
                    assert(keys[m] < keys[j]);
                }
            }
        }
        assert(after.values =~= before.values);
    }
}

/// A policy with a positive number of values and a positive limit compacts, any other does
/// not.
pub proof fn law_compaction_is_opt_in(policy: StoreGcPolicy)
    ensures
        !compaction_is_off(policy) <==> policy.mvreg_max_values is Some
            && policy.mvreg_max_values->0 > 0 && policy.mvreg_batch_limit > 0,
{
}

} // verus!
