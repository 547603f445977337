//! Forgetting delete markers and shrinking registers.

use vstd::prelude::*;

use super::{bumped, lemma_push_contains, CrdtMstStore, RegAdapter};
use crate::store::mst_store::delta::lemma_refreshed_is_current;
use crate::store::error::StoreError;
use crate::store::frontier::{advanced, frontier, FrontierTable};
use crate::store::gc::{GcBarrier, StoreGcPolicy, StoreGcReport};
use crate::store::tables::{age_index, lists_keys, lists_rows, TablesView};
use crate::store::tombstone::{TombstoneRecord, TombstoneView};

verus! {

/// Frontiers after the first `n` of the given ones were adopted.
pub open spec fn adopted(
    frontiers: Map<Seq<u8>, u64>,
    given: Seq<(Vec<u8>, u64)>,
    n: int,
) -> Map<Seq<u8>, u64>
    decreases n,
{
    if n <= 0 {
        frontiers
    } else {
        advanced(adopted(frontiers, given, n - 1), given[n - 1].0@, given[n - 1].1)
    }
}

/// Some given frontier says that the delete generation was forgotten.
pub open spec fn is_forgotten(given: Seq<(Vec<u8>, u64)>, record: TombstoneView) -> bool {
    let limit = frontier(adopted(Map::empty(), given, given.len() as int), record.origin_actor);
    limit > 0 && record.sequence <= limit
}

/// Keys whose delete markers the given frontiers make obsolete.
pub open spec fn forgotten_keys(
    tombs: Map<u128, TombstoneView>,
    given: Seq<(Vec<u8>, u64)>,
) -> Set<u128> {
    tombs.dom().filter(|key: u128| is_forgotten(given, tombs[key]))
}

/// First moment that a pass may not prune at.
pub open spec fn prune_cutoff(policy: StoreGcPolicy, barrier: GcBarrier, now_unix_ms: u64) -> u64 {
    let retained_since = if now_unix_ms >= policy.tombstone_min_retention_ms {
        (now_unix_ms - policy.tombstone_min_retention_ms) as u64
    } else {
        0
    };
    if barrier.safe_observed_before_unix_ms <= retained_since {
        barrier.safe_observed_before_unix_ms
    } else {
        retained_since
    }
}

/// A batch of `n` rows off the age index is all that lies before the cutoff, as far as
/// the limit allows.
pub open spec fn is_batch(rows: Seq<(u64, u128)>, cutoff: u64, limit: usize, n: int) -> bool {
    &&& 0 <= n <= rows.len()
    &&& n <= limit
    &&& forall|i: int| #![trigger rows[i]] 0 <= i < n ==> rows[i].0 < cutoff
    &&& n == limit || n == rows.len() || rows[n].0 >= cutoff
}

/// Rows after the delete markers of the first `n` age-index rows were pruned.
pub open spec fn pruned<R>(
    rows: TablesView<R>,
    batch: Seq<(u64, u128)>,
    n: int,
) -> TablesView<R>
    decreases n,
{
    if n <= 0 {
        rows
    } else {
        let before = pruned(rows, batch, n - 1);
        let record = rows.tombs[batch[n - 1].1];
        TablesView {
            tombs: before.tombs.remove(batch[n - 1].1),
            frontiers: advanced(before.frontiers, record.origin_actor, record.sequence),
            ..before
        }
    }
}

/// Values after the first `n` keys were rewritten where compaction says so.
pub open spec fn rewritten<R>(
    values: Map<u128, R>,
    keys: Seq<u128>,
    outcomes: Seq<Option<R>>,
    n: int,
) -> Map<u128, R>
    decreases n,
{
    if n <= 0 {
        values
    } else {
        let before = rewritten(values, keys, outcomes, n - 1);
        match outcomes[n - 1] {
            Some(reg) => before.insert(keys[n - 1], reg),
            None => before,
        }
    }
}

/// Number of rewrites among the first `n` outcomes.
pub open spec fn rewrites<R>(outcomes: Seq<Option<R>>, n: int) -> nat
    decreases n,
{
    if n <= 0 {
        0
    } else {
        rewrites(outcomes, n - 1) + if outcomes[n - 1] is Some { 1nat } else { 0 }
    }
}

/// The outcomes are what the adapter said of the registers under the first keys.
pub open spec fn are_compactions<C: RegAdapter>(
    values: Map<u128, C::Reg>,
    keys: Seq<u128>,
    max_values: usize,
    outcomes: Seq<Option<C::Reg>>,
) -> bool {
    &&& outcomes.len() <= keys.len()
    &&& forall|i: int|
        #![trigger outcomes[i]]
        0 <= i < outcomes.len() ==> call_ensures(
            C::compact_reg,
            (&values[keys[i]], max_values),
            Ok(outcomes[i]),
        )
}

/// Number of rows that a compaction pass inspects.
pub open spec fn inspected(keys: Seq<u128>, limit: usize) -> int {
    if keys.len() < limit { keys.len() as int } else { limit as int }
}

impl<C: RegAdapter> CrdtMstStore<C> {
    /// Applies peer prune frontiers and drops local tombstones proven obsolete by them.
    ///
    /// A peer only advertises a frontier after its own barrier allowed pruning, so adopting
    /// that frontier lets nodes that missed the equal-root pruning window catch up without
    /// reintroducing already-forgotten delete markers.
    pub fn apply_tombstone_prune_frontiers(&mut self, frontiers: Vec<(Vec<u8>, u64)>) -> (out:
        usize)
        ensures
            final(self).rows() == (TablesView {
                tombs: old(self).rows().tombs.remove_keys(
                    forgotten_keys(old(self).rows().tombs, frontiers@),
                ),
                frontiers: adopted(
                    old(self).rows().frontiers,
                    frontiers@,
                    frontiers@.len() as int,
                ),
                ..old(self).rows()
            }),
            forgotten_keys(old(self).rows().tombs, frontiers@).finite(),
            out == forgotten_keys(old(self).rows().tombs, frontiers@).len(),
            out > 0 ==> final(self).index_is_current() && final(self).clock() == bumped(
                old(self).clock(),
            ),
            out == 0 ==> final(self).leaves() == old(self).leaves() && final(self).clock() == old(self).clock(),
            final(self).same_settings(old(self)),
    {
        let ghost before = self.rows();
        let ghost obsolete = forgotten_keys(before.tombs, frontiers@);
        let mut limits = FrontierTable::new();
        let mut i: usize = 0;
        while i < frontiers.len()
            invariant
                i <= frontiers.len(),
                limits@ == adopted(Map::empty(), frontiers@, i as int),
            decreases frontiers.len() - i,
        {
            limits.advance(&frontiers[i].0, frontiers[i].1);
            i += 1;
        }
        let keys = self.tables.tomb_keys();
        let ghost mut dropped: Seq<u128> = Seq::empty();
        let mut count: usize = 0;
        proof { assert(before.tombs.remove_keys(dropped.to_set()) =~= before.tombs); }
        i = 0;
        while i < keys.len()
            invariant
                i <= keys.len(),
                limits@ == adopted(Map::empty(), frontiers@, frontiers@.len() as int),
                lists_keys(keys@, before.tombs.dom()),
                obsolete == forgotten_keys(before.tombs, frontiers@),
                count == dropped.len(),
                count <= i,
                dropped.no_duplicates(),
                forall|key: u128| #[trigger]
                    dropped.contains(key) <==> obsolete.contains(key) && keys@.take(
                        i as int,
                    ).contains(key),
                self.rows() == (TablesView {
                    tombs: before.tombs.remove_keys(dropped.to_set()),
                    ..before
                }),
                self.leaves() == old(self).leaves(),
                self.clock() == old(self).clock(),
                self.same_settings(old(self)),
            decreases keys.len() - i,
        {
            let key = keys[i];
            let ghost listed = dropped;
            proof {
                assert(before.tombs.dom().contains(keys@[i as int]));
                assert(keys@.take(i + 1) =~= keys@.take(i as int).push(key));
                lemma_push_contains(keys@.take(i as int), key);
                lemma_push_contains(dropped, key);
                assert(!keys@.take(i as int).contains(key));
            }
            let obsolete_row = match self.tables.tomb(key) {
                Some(record) => {
                    let limit: u64 = limits.get(&record.origin_actor);
                    limit > 0 && record.sequence <= limit
                },
                None => false,
            };
            proof { assert(obsolete_row == obsolete.contains(key)); }
            if obsolete_row {
                self.tables.drop_tomb(key);
                count += 1;
                proof {
                    dropped = dropped.push(key);
                    assert(before.tombs.remove_keys(listed.to_set()).remove(key)
                        =~= before.tombs.remove_keys(dropped.to_set()));
                }
            }
            i += 1;
        }
        proof {
            assert(keys@.take(keys@.len() as int) =~= keys@);
            assert(dropped.to_set() =~= obsolete);
            dropped.unique_seq_to_set();
            assert(before.tombs.remove_keys(dropped.to_set()) =~= before.tombs.remove_keys(
                obsolete,
            ));
        }
        i = 0;
        while i < frontiers.len()
            invariant
                i <= frontiers.len(),
                self.rows() == (TablesView {
                    tombs: before.tombs.remove_keys(obsolete),
                    frontiers: adopted(before.frontiers, frontiers@, i as int),
                    ..before
                }),
                self.leaves() == old(self).leaves(),
                self.clock() == old(self).clock(),
                self.same_settings(old(self)),
            decreases frontiers.len() - i,
        {
            self.tables.advance_frontier(&frontiers[i].0, frontiers[i].1);
            i += 1;
        }
        if count > 0 {
            self.rebuild_mst_from_disk();
            self.bump_change_clock();
        }
        count
    }

    /// Garbage-collects tombstones proven safe by an external sync barrier.
    ///
    /// The store owns only the local mechanics: scanning the age index, removing
    /// eligible primary/index rows, advancing the per-origin prune frontier, and
    /// refreshing the Merkle index. The caller is responsible for passing a
    /// barrier built from active peer/root-equality state.
    pub fn garbage_collect_tombstones(
        &mut self,
        policy: &StoreGcPolicy,
        barrier: GcBarrier,
        now_unix_ms: u64,
    ) -> (out: Result<StoreGcReport, StoreError>)
        ensures
            final(self).same_settings(old(self)),
            match out {
                Err(error) => {
                    &&& policy.tombstone_batch_limit > 0
                    &&& barrier.root_schema_version != old(self).version()
                    &&& error == (StoreError::RootSchemaMismatch {
                        barrier: barrier.root_schema_version,
                        current: old(self).version(),
                    })
                    &&& final(self).unchanged_from(old(self))
                },
                Ok(report) => {
                    &&& policy.tombstone_batch_limit == 0 || barrier.root_schema_version == old(self).version()
                    &&& report.registers_scanned == 0 && report.registers_compacted == 0
                    &&& report.tombstones_scanned == report.tombstones_pruned
                    &&& exists|batch: Seq<(u64, u128)>|
                        {
                            &&& #[trigger] lists_rows(batch, age_index(old(self).rows().tombs))
                            &&& is_batch(
                                batch,
                                prune_cutoff(*policy, barrier, now_unix_ms),
                                policy.tombstone_batch_limit,
                                report.tombstones_pruned as int,
                            )
                            &&& final(self).rows() == pruned(
                                old(self).rows(),
                                batch,
                                report.tombstones_pruned as int,
                            )
                        }
                    &&& report.tombstones_pruned > 0 ==> final(self).index_is_current() && final(self).clock() == bumped(old(self).clock())
                    &&& report.tombstones_pruned == 0 ==> final(self).unchanged_from(old(self))
                },
            },
    {
        let mut report: StoreGcReport = StoreGcReport::default();
        let batch = self.tables.age_rows();
        let ghost before = self.rows();
        if policy.tombstone_batch_limit == 0 {
            return Ok(report);
        }
        if barrier.root_schema_version != self.root_schema_version {
            return Err(
                StoreError::RootSchemaMismatch {
                    barrier: barrier.root_schema_version,
                    current: self.root_schema_version,
                },
            );
        }
        let retained_since: u64 = now_unix_ms.saturating_sub(policy.tombstone_min_retention_ms);
        let cutoff: u64 = if barrier.safe_observed_before_unix_ms <= retained_since {
            barrier.safe_observed_before_unix_ms
        } else {
            retained_since
        };
        let mut i: usize = 0;
        while i < policy.tombstone_batch_limit && i < batch.len() && batch[i].0 < cutoff
            invariant
                i <= batch.len(),
                i <= policy.tombstone_batch_limit,
                lists_rows(batch@, age_index(before.tombs)),
                forall|k: int| #![trigger batch@[k]] 0 <= k < i ==> batch@[k].0 < cutoff,
                self.rows() == pruned(before, batch@, i as int),
                self.leaves() == old(self).leaves(),
                self.clock() == old(self).clock(),
                self.same_settings(old(self)),
            decreases batch.len() - i,
        {
            let key = batch[i].1;
            proof {
                lemma_pruned_tombs(before, batch@, i as int);
                assert(age_index(before.tombs).contains(batch@[i as int]));
            }
            let record: Option<TombstoneRecord> = match self.tables.tomb(key) {
                Some(record) => Some(record.clone()),
                None => None,
            };
            if let Some(record) = record {
                self.tables.drop_tomb(key);
                self.tables.advance_frontier(&record.origin_actor, record.sequence);
            }
            i += 1;
        }
        report.tombstones_scanned = i;
        report.tombstones_pruned = i;
        if i > 0 {
            self.rebuild_mst_from_disk();
            self.bump_change_clock();
        }
        Ok(report)
    }
}

/// One compaction pass inspected rows in key order and rewrote what the adapter asked for.
pub open spec fn compaction_relates<C: RegAdapter>(
    before: TablesView<C::Reg>,
    after: TablesView<C::Reg>,
    keys: Seq<u128>,
    outcomes: Seq<Option<C::Reg>>,
    max_values: usize,
    limit: usize,
    report: StoreGcReport,
) -> bool {
    &&& lists_keys(keys, before.values.dom())
    &&& are_compactions::<C>(before.values, keys, max_values, outcomes)
    &&& outcomes.len() == inspected(keys, limit)
    &&& after == (TablesView {
        values: rewritten(before.values, keys, outcomes, outcomes.len() as int),
        ..before
    })
    &&& report.registers_scanned == outcomes.len()
    &&& report.registers_compacted == rewrites(outcomes, outcomes.len() as int)
    &&& report.tombstones_scanned == 0
    &&& report.tombstones_pruned == 0
}

/// The adapter refused a register within the limit and accepted those before it.
pub open spec fn compaction_refused<C: RegAdapter>(
    before: TablesView<C::Reg>,
    keys: Seq<u128>,
    outcomes: Seq<Option<C::Reg>>,
    max_values: usize,
    limit: usize,
    error: StoreError,
) -> bool {
    &&& lists_keys(keys, before.values.dom())
    &&& are_compactions::<C>(before.values, keys, max_values, outcomes)
    &&& outcomes.len() < inspected(keys, limit)
    &&& call_ensures(
        C::compact_reg,
        (&before.values[keys[outcomes.len() as int]], max_values),
        Err(error),
    )
}

/// Compaction is switched off.
pub open spec fn compaction_is_off(policy: StoreGcPolicy) -> bool {
    policy.mvreg_max_values is None || policy.mvreg_max_values == Some(0usize)
        || policy.mvreg_batch_limit == 0
}

impl<C: RegAdapter> CrdtMstStore<C> {
    /// Compacts register rows according to the adapter's opt-in policy.
    ///
    /// This pass owns only the generic mechanics: scan value rows, ask the adapter
    /// whether each register should be rewritten, make the bounded rewrites, and update
    /// the leaves of the Merkle index. Domain-specific decisions about which values can
    /// be dropped belong in `RegAdapter::compact_reg`.
    ///
    /// The batch limit bounds rows inspected, not just rows rewritten. This keeps
    /// a pass predictable even when most registers are already within policy.
    pub fn compact_registers(&mut self, policy: &StoreGcPolicy) -> (out: Result<
        StoreGcReport,
        StoreError,
    >)
        ensures
            final(self).same_settings(old(self)),
            match out {
                Err(error) => {
                    &&& !compaction_is_off(*policy)
                    &&& final(self).unchanged_from(old(self))
                    &&& exists|keys: Seq<u128>, outcomes: Seq<Option<C::Reg>>| #[trigger]
                        compaction_refused::<C>(
                            old(self).rows(),
                            keys,
                            outcomes,
                            policy.mvreg_max_values->0,
                            policy.mvreg_batch_limit,
                            error,
                        )
                },
                Ok(report) => {
                    &&& compaction_is_off(*policy) ==> {
                        &&& final(self).unchanged_from(old(self))
                        &&& report.registers_scanned == 0
                        &&& report.registers_compacted == 0
                        &&& report.tombstones_scanned == 0
                        &&& report.tombstones_pruned == 0
                    }
                    &&& !compaction_is_off(*policy) ==> exists|
                        keys: Seq<u128>,
                        outcomes: Seq<Option<C::Reg>>,
                    | #[trigger]
                        compaction_relates::<C>(
                            old(self).rows(),
                            final(self).rows(),
                            keys,
                            outcomes,
                            policy.mvreg_max_values->0,
                            policy.mvreg_batch_limit,
                            report,
                        )
                    &&& report.registers_compacted == 0 ==> final(self).unchanged_from(old(self))
                    &&& report.registers_compacted > 0 ==> final(self).clock() == bumped(
                        old(self).clock(),
                    )
                    &&& old(self).index_is_current() ==> final(self).index_is_current()
                },
            },
    {
        let mut report: StoreGcReport = StoreGcReport::default();
        let max_values: usize = match policy.mvreg_max_values {
            Some(max_values) => max_values,
            None => {
                return Ok(report);
            },
        };
        if max_values == 0 || policy.mvreg_batch_limit == 0 {
            return Ok(report);
        }
        let ghost before = self.rows();
        proof {
            use_type_invariant(&self.tables);
            self.tables.lemma_in_sync();
        }
        let keys = self.tables.value_keys();
        let mut candidates: Vec<Option<C::Reg>> = Vec::new();
        let mut i: usize = 0;
        while i < keys.len() && i < policy.mvreg_batch_limit
            invariant
                i <= keys.len(),
                i <= policy.mvreg_batch_limit,
                self.rows() == before,
                self.leaves() == old(self).leaves(),
                self.clock() == old(self).clock(),
                self.same_settings(old(self)),
                before == old(self).rows(),
                !compaction_is_off(*policy),
                policy.mvreg_max_values == Some(max_values),
                lists_keys(keys@, before.values.dom()),
                are_compactions::<C>(before.values, keys@, max_values, candidates@),
                candidates@.len() == i,
            decreases keys.len() - i,
        {
            let key = keys[i];
            proof { assert(before.values.dom().contains(keys@[i as int])); }
            if let Some(reg) = self.tables.value(key) {
                match C::compact_reg(reg, max_values) {
                    Ok(outcome) => {
                        let ghost earlier = candidates@;
                        candidates.push(outcome);
                        proof {
                            assert forall|k: int|
                                #![trigger candidates@[k]]
                                0 <= k < candidates@.len() implies call_ensures(
                                C::compact_reg,
                                (&before.values[keys@[k]], max_values),
                                Ok(candidates@[k]),
                            ) by {
                                if k < i {
                                    assert(candidates@[k] == earlier[k]);
                                }
                            }
                        }
                    },
                    Err(error) => {
                        proof {
                            assert(compaction_refused::<C>(
                                before,
                                keys@,
                                candidates@,
                                max_values,
                                policy.mvreg_batch_limit,
                                error,
                            ));
                        }
                        let refused: Result<StoreGcReport, StoreError> = Err(error);
                        assert(refused->Err_0 == error);
                        assert(policy.mvreg_max_values->0 == max_values);
                        return refused;
                    },
                }
            }
            i += 1;
        }
        let ghost outcomes = candidates@;
        let mut touched: Vec<u128> = Vec::new();
        let ghost n = outcomes.len() as int;
        let total: usize = keys.len();
        i = 0;
        for candidate in it: candidates
            invariant
                total == keys@.len(),
                it.seq() == outcomes,
                i == it.index(),
                n == outcomes.len(),
                n <= keys@.len(),
                self.leaves() == old(self).leaves(),
                self.clock() == old(self).clock(),
                self.same_settings(old(self)),
                lists_keys(keys@, before.values.dom()),
                forall|key: u128| #[trigger]
                    before.values.contains_key(key) ==> !before.tombs.contains_key(key),
                self.rows().values == rewritten(before.values, keys@, outcomes, i as int),
                self.rows() == (TablesView { values: self.rows().values, ..before }),
                self.rows().values.dom() == before.values.dom(),
                touched@.len() == rewrites(outcomes, i as int),
                touched@.len() <= i,
                forall|key: u128| #[trigger]
                    touched@.contains(key) ==> before.values.contains_key(key),
                forall|key: u128| #[trigger]
                    self.rows().values.contains_key(key) && !touched@.contains(key)
                        ==> self.rows().values[key] == before.values[key],
        {
            let key = keys[i];
            let ghost step = self.rows();
            let ghost listed = touched@;
            proof {
                assert(before.values.dom().contains(keys@[i as int]));
                lemma_push_contains(touched@, key);
            }
            if let Some(reg) = candidate {
                self.tables.set_value(key, reg);
                touched.push(key);
                proof {
                    assert(before.values.contains_key(key));
                    assert(before.tombs.remove(key) =~= before.tombs);
                    assert(self.rows().values.dom() =~= before.values.dom());
                    assert forall|k: u128| #[trigger]
                        self.rows().values.contains_key(k) && !touched@.contains(
                            k,
                        ) implies self.rows().values[k] == before.values[k] by {
                        assert(step.values.contains_key(k));
                        assert(!listed.contains(k));
                    }
                }
            }
            i += 1;
        }
        report.registers_scanned = i;
        report.registers_compacted = touched.len();
        proof {
            assert(compaction_relates::<C>(
                before,
                self.rows(),
                keys@,
                outcomes,
                max_values,
                policy.mvreg_batch_limit,
                report,
            ));
        }
        if touched.len() > 0 {
            let ghost rows = self.rows();
            let none: Vec<u128> = Vec::new();
            self.refresh_leaves(&touched, &none);
            self.bump_change_clock();
            proof {
                assert(compaction_relates::<C>(
                    before,
                    self.rows(),
                    keys@,
                    outcomes,
                    max_values,
                    policy.mvreg_batch_limit,
                    report,
                ));
                lemma_refreshed_is_current::<C>(
                    before,
                    rows,
                    self.version(),
                    old(self).leaves(),
                    self.leaves(),
                    touched@,
                    none@,
                );
            }
        } else {
            proof {
                assert forall|key: u128| #[trigger]
                    self.rows().values.contains_key(key) implies self.rows().values[key]
                    == before.values[key] by {
                    assert(!touched@.contains(key));
                }
                assert(self.rows().values =~= before.values);
            }
        }
        let done: Result<StoreGcReport, StoreError> = Ok(report);
        assert(done->Ok_0 == report);
        assert(policy.mvreg_max_values->0 == max_values);
        done
    }
}

/// Pruning removes the markers of its own keys and no others.
proof fn lemma_pruned_tombs<R>(rows: TablesView<R>, batch: Seq<(u64, u128)>, n: int)
    requires
        0 <= n <= batch.len(),
        lists_rows(batch, age_index(rows.tombs)),
    ensures
        pruned(rows, batch, n).values == rows.values,
        forall|k: int|
            #![trigger batch[k]]
            n <= k < batch.len() ==> {
                &&& pruned(rows, batch, n).tombs.contains_key(batch[k].1)
                &&& pruned(rows, batch, n).tombs[batch[k].1] == rows.tombs[batch[k].1]
            },
    decreases n,
{
    assert forall|k: int|
        #![trigger batch[k]]
        0 <= k < batch.len() implies rows.tombs.contains_key(batch[k].1)
        && rows.tombs[batch[k].1].observed_at_unix_ms == batch[k].0 by {
        assert(age_index(rows.tombs).contains(batch[k]));
    }
    if n > 0 {
        lemma_pruned_tombs(rows, batch, n - 1);
        assert forall|k: int| #![trigger batch[k]] n <= k < batch.len() implies {
            &&& pruned(rows, batch, n).tombs.contains_key(batch[k].1)
            &&& pruned(rows, batch, n).tombs[batch[k].1] == rows.tombs[batch[k].1]
        } by {
            assert(crate::store::tables::older(batch[n - 1], batch[k]));
        }
    }
}

} // verus!
