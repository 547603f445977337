//! Applying what another replica sent: registers first, then tombstones.

use vstd::prelude::*;

use super::{
    bumped, is_current, is_leaf, is_pruned, lemma_push_contains, marked, stored, with_tomb, with_value,
    CrdtMstStore, RegAdapter,
};
use crate::store::merkle::entry_leaf;
use crate::store::tables::TablesView;
use crate::store::tombstone::{
    merge_tombstone_records, normalize_incoming_tombstone, stamped, winning, TombstoneRecord,
    TombstoneView,
};

verus! {

/// Views of the tombstones of a chunk.
pub open spec fn chunk_views(tombs: Seq<(u128, TombstoneRecord)>) -> Seq<(u128, TombstoneView)> {
    tombs.map_values(|row: (u128, TombstoneRecord)| (row.0, row.1@))
}

/// The chunk carries a tombstone for the key.
pub open spec fn carries(tombs: Seq<(u128, TombstoneView)>, key: u128) -> bool {
    exists|i: int| #![trigger tombs[i]] 0 <= i < tombs.len() && tombs[i].0 == key
}

/// An incoming register may not clear the local tombstone of its key.
pub open spec fn is_held_back<R>(
    rows: TablesView<R>,
    keeps: bool,
    tombs: Seq<(u128, TombstoneView)>,
    key: u128,
) -> bool {
    keeps && !carries(tombs, key) && rows.tombs.contains_key(key)
}

/// Rows after the first `n` registers of a chunk, whose merges had these outcomes.
pub open spec fn after_regs<R>(
    rows: TablesView<R>,
    regs: Seq<(u128, R)>,
    outcomes: Seq<R>,
    keeps: bool,
    tombs: Seq<(u128, TombstoneView)>,
    n: int,
) -> TablesView<R>
    decreases n,
{
    if n <= 0 {
        rows
    } else {
        let before = after_regs(rows, regs, outcomes, keeps, tombs, n - 1);
        let key = regs[n - 1].0;
        if is_held_back(before, keeps, tombs, key) {
            before
        } else {
            with_value(before, key, outcomes[n - 1])
        }
    }
}

/// Keys that the first `n` registers of a chunk made live, in order.
pub open spec fn live_keys<R>(
    rows: TablesView<R>,
    regs: Seq<(u128, R)>,
    outcomes: Seq<R>,
    keeps: bool,
    tombs: Seq<(u128, TombstoneView)>,
    n: int,
) -> Seq<u128>
    decreases n,
{
    if n <= 0 {
        Seq::empty()
    } else {
        let before = after_regs(rows, regs, outcomes, keeps, tombs, n - 1);
        let keys = live_keys(rows, regs, outcomes, keeps, tombs, n - 1);
        if is_held_back(before, keeps, tombs, regs[n - 1].0) {
            keys
        } else {
            keys.push(regs[n - 1].0)
        }
    }
}

/// The outcomes are what the adapter made of the stored and the incoming registers.
pub open spec fn are_merges<C: RegAdapter>(
    rows: TablesView<C::Reg>,
    regs: Seq<(u128, C::Reg)>,
    outcomes: Seq<C::Reg>,
    keeps: bool,
    tombs: Seq<(u128, TombstoneView)>,
    n: int,
) -> bool {
    forall|i: int|
        #![trigger regs[i]]
        0 <= i < n && !is_held_back(
            after_regs(rows, regs, outcomes, keeps, tombs, i),
            keeps,
            tombs,
            regs[i].0,
        ) ==> call_ensures(
            C::merge_regs,
            (stored(after_regs(rows, regs, outcomes, keeps, tombs, i), regs[i].0), regs[i].1),
            outcomes[i],
        )
}

/// Tombstone that a key has after one came in.
pub open spec fn received<R>(
    rows: TablesView<R>,
    key: u128,
    record: TombstoneView,
    now_unix_ms: u64,
) -> TombstoneView {
    winning(marked(rows, key), stamped(record, now_unix_ms))
}

/// Rows after the first `n` tombstones of a chunk.
pub open spec fn after_tombs<R>(
    rows: TablesView<R>,
    tombs: Seq<(u128, TombstoneView)>,
    now_unix_ms: u64,
    n: int,
) -> TablesView<R>
    decreases n,
{
    if n <= 0 {
        rows
    } else {
        let before = after_tombs(rows, tombs, now_unix_ms, n - 1);
        let (key, record) = tombs[n - 1];
        if is_pruned(before, record) {
            before
        } else {
            with_tomb(before, key, received(before, key, record, now_unix_ms))
        }
    }
}

/// An incoming tombstone changes nothing that is stored.
pub open spec fn is_old_news<R>(
    rows: TablesView<R>,
    key: u128,
    record: TombstoneView,
    now_unix_ms: u64,
) -> bool {
    marked(rows, key) == Some(received(rows, key, record, now_unix_ms))
        && !rows.values.contains_key(key)
}

/// Keys whose tombstones the first `n` tombstones of a chunk wrote, in order; where
/// `refresh` is set those that were already stored count too.
pub open spec fn deleted_keys<R>(
    rows: TablesView<R>,
    tombs: Seq<(u128, TombstoneView)>,
    now_unix_ms: u64,
    refresh: bool,
    n: int,
) -> Seq<u128>
    decreases n,
{
    if n <= 0 {
        Seq::empty()
    } else {
        let before = after_tombs(rows, tombs, now_unix_ms, n - 1);
        let keys = deleted_keys(rows, tombs, now_unix_ms, refresh, n - 1);
        let (key, record) = tombs[n - 1];
        if is_pruned(before, record) || (is_old_news(before, key, record, now_unix_ms) && !refresh) {
            keys
        } else {
            keys.push(key)
        }
    }
}

/// What one chunk does to the rows, given the outcomes of its merges.
pub open spec fn chunk_applied<R>(
    rows: TablesView<R>,
    regs: Seq<(u128, R)>,
    outcomes: Seq<R>,
    keeps: bool,
    tombs: Seq<(u128, TombstoneView)>,
    now_unix_ms: u64,
) -> TablesView<R> {
    after_tombs(
        after_regs(rows, regs, outcomes, keeps, tombs, regs.len() as int),
        tombs,
        now_unix_ms,
        tombs.len() as int,
    )
}

/// A chunk with these merge outcomes turned the rows into the given ones and touched
/// the given keys.
pub open spec fn chunk_relates<C: RegAdapter>(
    before: TablesView<C::Reg>,
    after: TablesView<C::Reg>,
    regs: Seq<(u128, C::Reg)>,
    outcomes: Seq<C::Reg>,
    keeps: bool,
    tombs: Seq<(u128, TombstoneView)>,
    now_unix_ms: u64,
    refresh: bool,
    live: Seq<u128>,
    deleted: Seq<u128>,
) -> bool {
    let middle = after_regs(before, regs, outcomes, keeps, tombs, regs.len() as int);
    &&& outcomes.len() == regs.len()
    &&& are_merges::<C>(before, regs, outcomes, keeps, tombs, regs.len() as int)
    &&& after == chunk_applied(before, regs, outcomes, keeps, tombs, now_unix_ms)
    &&& live == live_keys(before, regs, outcomes, keeps, tombs, regs.len() as int)
    &&& deleted == deleted_keys(middle, tombs, now_unix_ms, refresh, tombs.len() as int)
}

/// Returns whether the chunk carries a tombstone for the key.
fn chunk_carries(tombs: &Vec<(u128, TombstoneRecord)>, key: u128) -> (out: bool)
    ensures
        out == carries(chunk_views(tombs@), key),
{
    let ghost all = chunk_views(tombs@);
    let mut i: usize = 0;
    while i < tombs.len()
        invariant
            i <= tombs.len(),
            all == chunk_views(tombs@),
            forall|k: int| #![trigger all[k]] 0 <= k < i ==> all[k].0 != key,
        decreases tombs.len() - i,
    {
        proof { assert(all[i as int].0 == tombs@[i as int].0); }
        if tombs[i].0 == key {
            return true;
        }
        i += 1;
    }
    false
}

impl<C: RegAdapter> CrdtMstStore<C> {
    /// Merges and writes one inbound delta chunk against the latest rows.
    ///
    /// Returns the keys that the chunk made live and those whose tombstones it wrote.
    pub fn write_delta_chunk_merged_latest(
        &mut self,
        regs: Vec<(u128, C::Reg)>,
        tombs: Vec<(u128, TombstoneRecord)>,
        refresh_existing_tombs_for_mst: bool,
        now_unix_ms: u64,
    ) -> (out: (Vec<u128>, Vec<u128>))
        ensures
            exists|outcomes: Seq<C::Reg>| #[trigger]
                chunk_relates::<C>(
                    old(self).rows(),
                    final(self).rows(),
                    regs@,
                    outcomes,
                    old(self).keeps_local_tombs(),
                    chunk_views(tombs@),
                    now_unix_ms,
                    refresh_existing_tombs_for_mst,
                    out.0@,
                    out.1@,
                ),
            final(self).leaves() == old(self).leaves(),
            final(self).clock() == old(self).clock(),
            final(self).same_settings(old(self)),
    {
        let ghost rows = self.rows();
        let ghost keeps = self.keeps_local_tombs();
        let ghost views = chunk_views(tombs@);
        let ghost incoming_regs = regs@;
        let ghost mut outcomes: Seq<C::Reg> = Seq::empty();
        let mut live: Vec<u128> = Vec::new();
        for entry in it: regs
            invariant
                self.leaves() == old(self).leaves(),
                self.clock() == old(self).clock(),
                self.same_settings(old(self)),
                keeps == self.keeps_local_tombs(),
                views == chunk_views(tombs@),
                incoming_regs == it.seq(),
                outcomes.len() == it.index(),
                self.rows() == after_regs(
                    rows,
                    incoming_regs,
                    outcomes,
                    keeps,
                    views,
                    it.index() as int,
                ),
                live@ == live_keys(
                    rows,
                    incoming_regs,
                    outcomes,
                    keeps,
                    views,
                    it.index() as int,
                ),
                are_merges::<C>(
                    rows,
                    incoming_regs,
                    outcomes,
                    keeps,
                    views,
                    it.index() as int,
                ),
        {
            let ghost n = it.index() as int;
            let ghost before = self.rows();
            let ghost earlier = outcomes;
            let (key, incoming) = entry;
            let held_back = self.preserve_local_tombs && !chunk_carries(&tombs, key)
                && self.tables.tomb(key).is_some();
            if held_back {
                proof {
                    outcomes = outcomes.push(incoming);
                    lemma_outcomes_prefix::<C>(rows, incoming_regs, earlier, outcomes, keeps, views, n);
                }
            } else {
                let current = self.tables.take_value(key);
                let merged = C::merge_regs(current, incoming);
                proof {
                    outcomes = outcomes.push(merged);
                    lemma_outcomes_prefix::<C>(rows, incoming_regs, earlier, outcomes, keeps, views, n);
                    assert(call_ensures(
                        C::merge_regs,
                        (stored(before, key), incoming_regs[n].1),
                        outcomes[n],
                    ));
                }
                self.tables.set_value(key, merged);
                live.push(key);
                proof {
                    assert(self.rows().values =~= before.values.insert(key, merged));
                }
            }
        }
        let ghost middle = self.rows();
        let ghost all = tombs@;
        let mut deleted: Vec<u128> = Vec::new();
        for entry in it: tombs
            invariant
                self.leaves() == old(self).leaves(),
                self.clock() == old(self).clock(),
                self.same_settings(old(self)),
                all == it.seq(),
                views == chunk_views(all),
                self.rows() == after_tombs(middle, views, now_unix_ms, it.index() as int),
                deleted@ == deleted_keys(
                    middle,
                    views,
                    now_unix_ms,
                    refresh_existing_tombs_for_mst,
                    it.index() as int,
                ),
        {
            let ghost n = it.index() as int;
            let ghost before = self.rows();
            let (key, incoming) = entry;
            proof { assert(views[n] == (key, incoming@)); }
            let pruned: u64 = self.tables.frontier(&incoming.origin_actor);
            if !(pruned > 0 && incoming.sequence <= pruned) {
                let current: Option<TombstoneRecord> = match self.tables.tomb(key) {
                    Some(record) => Some(record.clone()),
                    None => None,
                };
                let value_exists = self.tables.value(key).is_some();
                let stamped_record = normalize_incoming_tombstone(incoming, now_unix_ms);
                let next = merge_tombstone_records(current, stamped_record);
                let kept = match self.tables.tomb(key) {
                    Some(record) => record.same(&next),
                    None => false,
                };
                proof { assert(next@ == received(before, key, views[n].1, now_unix_ms)); }
                if kept && !value_exists && !refresh_existing_tombs_for_mst {
                    proof {
                        assert(with_tomb(before, key, next@).values =~= before.values);
                        assert(with_tomb(before, key, next@).tombs =~= before.tombs);
                    }
                } else {
                    self.tables.set_tomb(key, next);
                    deleted.push(key);
                }
            }
        }
        proof {
            assert(chunk_relates::<C>(
                rows,
                self.rows(),
                incoming_regs,
                outcomes,
                keeps,
                views,
                now_unix_ms,
                refresh_existing_tombs_for_mst,
                live@,
                deleted@,
            ));
        }
        let touched = (live, deleted);
        assert(touched.0@ == live@ && touched.1@ == deleted@);
        touched
    }
}

impl<C: RegAdapter> CrdtMstStore<C> {
    /// Apply one streamed delta chunk without touching the Merkle index.
    ///
    /// This is used by `DeltaApplySession`, whose `commit` rebuilds the index. Callers that
    /// need one-shot delta application should use `apply_delta_chunk_update_mst` instead.
    pub fn apply_delta_chunk(
        &mut self,
        regs: Vec<(u128, C::Reg)>,
        tombs: Vec<(u128, TombstoneRecord)>,
        now_unix_ms: u64,
    )
        ensures
            exists|outcomes: Seq<C::Reg>, live: Seq<u128>, deleted: Seq<u128>|
                {
                    &&& #[trigger] chunk_relates::<C>(
                        old(self).rows(),
                        final(self).rows(),
                        regs@,
                        outcomes,
                        old(self).keeps_local_tombs(),
                        chunk_views(tombs@),
                        now_unix_ms,
                        false,
                        live,
                        deleted,
                    )
                    &&& final(self).clock() == clock_after(old(self).clock(), live, deleted)
                },
            final(self).leaves() == old(self).leaves(),
            final(self).same_settings(old(self)),
    {
        let ghost views = chunk_views(tombs@);
        let (live, deleted) = self.write_delta_chunk_merged_latest(
            regs,
            tombs,
            false,
            now_unix_ms,
        );
        let ghost live_list = live@;
        let ghost deleted_list = deleted@;
        let ghost outcomes = choose|outcomes: Seq<C::Reg>| #[trigger]
            chunk_relates::<C>(
                old(self).rows(),
                self.rows(),
                regs@,
                outcomes,
                old(self).keeps_local_tombs(),
                views,
                now_unix_ms,
                false,
                live_list,
                deleted_list,
            );
        if live.len() > 0 || deleted.len() > 0 {
            self.bump_change_clock();
        }
        proof {
            assert(chunk_relates::<C>(
                old(self).rows(),
                self.rows(),
                regs@,
                outcomes,
                old(self).keeps_local_tombs(),
                views,
                now_unix_ms,
                false,
                live_list,
                deleted_list,
            ));
        }
    }

    /// Apply one streamed delta chunk and update the Merkle index incrementally.
    ///
    /// This avoids a full rebuild at the end of the stream when chunks are small.
    pub fn apply_delta_chunk_update_mst(
        &mut self,
        regs: Vec<(u128, C::Reg)>,
        tombs: Vec<(u128, TombstoneRecord)>,
        now_unix_ms: u64,
    )
        ensures
            exists|outcomes: Seq<C::Reg>, live: Seq<u128>, deleted: Seq<u128>|
                {
                    &&& #[trigger] chunk_relates::<C>(
                        old(self).rows(),
                        final(self).rows(),
                        regs@,
                        outcomes,
                        old(self).keeps_local_tombs(),
                        chunk_views(tombs@),
                        now_unix_ms,
                        true,
                        live,
                        deleted,
                    )
                    &&& final(self).clock() == clock_after(old(self).clock(), live, deleted)
                    &&& leaves_refreshed::<C>(
                        old(self).leaves(),
                        final(self).leaves(),
                        final(self).rows(),
                        final(self).version(),
                        live,
                        deleted,
                    )
                },
            old(self).index_is_current() ==> final(self).index_is_current(),
            final(self).same_settings(old(self)),
    {
        let ghost views = chunk_views(tombs@);
        let ghost leaves = self.leaves();
        let (live, deleted) = self.write_delta_chunk_merged_latest(
            regs,
            tombs,
            true,
            now_unix_ms,
        );
        let ghost live_list = live@;
        let ghost deleted_list = deleted@;
        let ghost outcomes = choose|outcomes: Seq<C::Reg>| #[trigger]
            chunk_relates::<C>(
                old(self).rows(),
                self.rows(),
                regs@,
                outcomes,
                old(self).keeps_local_tombs(),
                views,
                now_unix_ms,
                true,
                live_list,
                deleted_list,
            );
        proof {
            lemma_chunk_keys::<C>(
                old(self).rows(),
                regs@,
                outcomes,
                old(self).keeps_local_tombs(),
                views,
                now_unix_ms,
            );
        }
        self.refresh_leaves(&live, &deleted);
        if live.len() > 0 || deleted.len() > 0 {
            self.bump_change_clock();
        }
        proof {
            assert(chunk_relates::<C>(
                old(self).rows(),
                self.rows(),
                regs@,
                outcomes,
                old(self).keeps_local_tombs(),
                views,
                now_unix_ms,
                true,
                live_list,
                deleted_list,
            ));
            lemma_refreshed_is_current::<C>(
                old(self).rows(),
                self.rows(),
                self.version(),
                leaves,
                self.leaves(),
                live_list,
                deleted_list,
            );
        }
    }

    /// Writes the leaves of the touched keys as the rows show them.
    pub(super) fn refresh_leaves(&mut self, live: &Vec<u128>, deleted: &Vec<u128>)
        requires
            forall|key: u128| #[trigger]
                live@.contains(key) ==> old(self).rows().values.contains_key(key)
                    || deleted@.contains(key),
            forall|key: u128| #[trigger]
                deleted@.contains(key) ==> old(self).rows().tombs.contains_key(key),
        ensures
            final(self).rows() == old(self).rows(),
            final(self).clock() == old(self).clock(),
            final(self).same_settings(old(self)),
            leaves_refreshed::<C>(
                old(self).leaves(),
                final(self).leaves(),
                final(self).rows(),
                final(self).version(),
                live@,
                deleted@,
            ),
    {
        let ghost rows = self.rows();
        let ghost leaves = self.leaves();
        proof {
            use_type_invariant(&self.tables);
            self.tables.lemma_in_sync();
        }
        let mut i: usize = 0;
        while i < live.len()
            invariant
                i <= live.len(),
                self.rows() == rows,
                self.clock() == old(self).clock(),
                self.same_settings(old(self)),
                forall|key: u128| #[trigger]
                    rows.values.contains_key(key) ==> !rows.tombs.contains_key(key),
                forall|key: u128| #[trigger]
                    self.leaves().contains_key(key) <==> leaves.contains_key(key) || (
                    rows.values.contains_key(key) && live@.take(i as int).contains(key)),
                forall|key: u128| #[trigger]
                    self.leaves().contains_key(key) ==> if rows.values.contains_key(key)
                        && live@.take(i as int).contains(key) {
                        is_leaf::<C>(rows, self.version(), key, self.leaves()[key])
                    } else {
                        self.leaves()[key] == leaves[key]
                    },
            decreases live.len() - i,
        {
            let key = live[i];
            proof {
                assert(live@.take(i + 1) =~= live@.take(i as int).push(key));
                lemma_push_contains(live@.take(i as int), key);
            }
            let ghost before = self.leaves();
            if let Some(reg) = self.tables.value(key) {
                let entry = Self::active_entry(reg, self.root_schema_version);
                self.mst.upsert(key, &entry);
                proof { assert(self.leaves() == before.insert(key, entry_leaf(entry))); }
            }
            proof {
                assert forall|k: u128| #[trigger] self.leaves().contains_key(k) <==> leaves
                    .contains_key(k) || (rows.values.contains_key(k) && live@.take(
                    i + 1,
                ).contains(k)) by {
                    assert(before.contains_key(k) <==> leaves.contains_key(k) || (
                    rows.values.contains_key(k) && live@.take(i as int).contains(k)));
                }
                assert forall|k: u128| #[trigger]
                    self.leaves().contains_key(k) implies if rows.values.contains_key(k)
                    && live@.take(i + 1).contains(k) {
                    is_leaf::<C>(rows, self.version(), k, self.leaves()[k])
                } else {
                    self.leaves()[k] == leaves[k]
                } by {
                    assert(k != key ==> before.contains_key(k));
                }
            }
            i += 1;
        }
        proof { assert(live@.take(live@.len() as int) =~= live@); }
        let ghost middle = self.leaves();
        i = 0;
        while i < deleted.len()
            invariant
                i <= deleted.len(),
                self.rows() == rows,
                self.clock() == old(self).clock(),
                self.same_settings(old(self)),
                forall|key: u128| #[trigger]
                    deleted@.contains(key) ==> rows.tombs.contains_key(key),
                forall|key: u128| #[trigger]
                    self.leaves().contains_key(key) <==> middle.contains_key(key)
                        || deleted@.take(i as int).contains(key),
                forall|key: u128| #[trigger]
                    self.leaves().contains_key(key) ==> if deleted@.take(i as int).contains(key) {
                        is_leaf::<C>(rows, self.version(), key, self.leaves()[key])
                    } else {
                        self.leaves()[key] == middle[key]
                    },
            decreases deleted.len() - i,
        {
            let key = deleted[i];
            proof {
                assert(deleted@.take(i + 1) =~= deleted@.take(i as int).push(key));
                lemma_push_contains(deleted@.take(i as int), key);
                assert(deleted@.contains(key));
            }
            let ghost before = self.leaves();
            if let Some(record) = self.tables.tomb(key) {
                let entry = Self::deleted_entry(record);
                self.mst.upsert(key, &entry);
                proof { assert(self.leaves() == before.insert(key, entry_leaf(entry))); }
            }
            proof {
                assert forall|k: u128| #[trigger] self.leaves().contains_key(k) <==> middle
                    .contains_key(k) || deleted@.take(i + 1).contains(k) by {
                    assert(before.contains_key(k) <==> middle.contains_key(k) || deleted@.take(
                        i as int,
                    ).contains(k));
                }
                assert forall|k: u128| #[trigger] self.leaves().contains_key(k) implies if deleted@
                    .take(i + 1).contains(k) {
                    is_leaf::<C>(rows, self.version(), k, self.leaves()[k])
                } else {
                    self.leaves()[k] == middle[k]
                } by {
                    assert(k != key ==> before.contains_key(k));
                }
            }
            i += 1;
        }
        proof { assert(deleted@.take(deleted@.len() as int) =~= deleted@); }
    }
}

/// The batch asks for a write under the key.
pub open spec fn requests<V>(entries: Seq<(u128, V)>, key: u128) -> bool {
    exists|i: int| #![trigger entries[i]] 0 <= i < entries.len() && entries[i].0 == key
}

/// No later entry of the batch has the same key.
pub open spec fn is_last_request<V>(entries: Seq<(u128, V)>, i: int) -> bool {
    &&& 0 <= i < entries.len()
    &&& forall|j: int| #![trigger entries[j]] i < j < entries.len() ==> entries[j].0 != entries[i].0
}

/// The last value of each requested key was written and nothing else changed.
pub open spec fn batch_written<C: RegAdapter>(
    before: TablesView<C::Reg>,
    after: TablesView<C::Reg>,
    entries: Seq<(u128, C::Value)>,
    actor: u128,
) -> bool {
    &&& after.tomb_seq == before.tomb_seq
    &&& after.frontiers == before.frontiers
    &&& forall|key: u128|
        #![trigger after.values.contains_key(key)]
        #![trigger after.tombs.contains_key(key)]
        if requests(entries, key) {
            after.values.contains_key(key) && !after.tombs.contains_key(key)
        } else {
            stored(after, key) == stored(before, key) && marked(after, key) == marked(before, key)
        }
    &&& forall|i: int| #[trigger]
        is_last_request(entries, i) ==> call_ensures(
            C::upsert_reg,
            (stored(before, entries[i].0), &actor, entries[i].1),
            after.values[entries[i].0],
        )
}

impl<C: RegAdapter> CrdtMstStore<C> {
    /// Inserts or updates a batch of key/value pairs.
    ///
    /// The last value for a duplicated key wins.
    pub fn upsert_many(&mut self, entries: Vec<(u128, C::Value)>)
        ensures
            batch_written::<C>(
                old(self).rows(),
                final(self).rows(),
                entries@,
                old(self).actor_id(),
            ),
            forall|key: u128| #[trigger]
                final(self).leaves().contains_key(key) <==> old(self).leaves().contains_key(key)
                    || requests(entries@, key),
            forall|key: u128| #[trigger]
                final(self).leaves().contains_key(key) ==> if requests(entries@, key) {
                    is_leaf::<C>(
                        final(self).rows(),
                        final(self).version(),
                        key,
                        final(self).leaves()[key],
                    )
                } else {
                    final(self).leaves()[key] == old(self).leaves()[key]
                },
            old(self).index_is_current() ==> final(self).index_is_current(),
            final(self).clock() == if entries@.len() > 0 {
                bumped(old(self).clock())
            } else {
                old(self).clock()
            },
            final(self).same_settings(old(self)),
    {
        let ghost before = self.rows();
        let ghost all = entries@;
        if entries.len() == 0 {
            return;
        }
        let mut rest = entries;
        let mut written: Vec<u128> = Vec::new();
        proof {
            use_type_invariant(&self.tables);
            self.tables.lemma_in_sync();
        }
        while rest.len() > 0
            invariant
                all == entries@,
                rest@.len() <= all.len(),
                rest@ == all.take(rest@.len() as int),
                self.leaves() == old(self).leaves(),
                self.clock() == old(self).clock(),
                self.same_settings(old(self)),
                self.rows().tomb_seq == before.tomb_seq,
                self.rows().frontiers == before.frontiers,
                forall|key: u128| #[trigger]
                    written@.contains(key) <==> exists|j: int|
                        #![trigger all[j]]
                        rest@.len() <= j < all.len() && all[j].0 == key,
                forall|key: u128|
                    #![trigger self.rows().values.contains_key(key)]
                    #![trigger self.rows().tombs.contains_key(key)]
                    if written@.contains(key) {
                        self.rows().values.contains_key(key) && !self.rows().tombs.contains_key(
                            key,
                        )
                    } else {
                        stored(self.rows(), key) == stored(before, key) && marked(self.rows(), key)
                            == marked(before, key)
                    },
                forall|i: int| #[trigger]
                    is_last_request(all, i) && i >= rest@.len() ==> call_ensures(
                        C::upsert_reg,
                        (stored(before, all[i].0), &old(self).actor_id(), all[i].1),
                        self.rows().values[all[i].0],
                    ),
            decreases rest.len(),
        {
            let ghost n = rest@.len() - 1;
            let ghost step = self.rows();
            let ghost listed = written@;
            let last = rest.pop();
            if let Some((key, value)) = last {
                proof {
                    assert(all[n] == (key, value));
                    assert(rest@ =~= all.take(n));
                    lemma_push_contains(listed, key);
                }
                let seen = holds_key(&written, key);
                if !seen {
                    let current = self.tables.take_value(key);
                    let reg = C::upsert_reg(current, &self.actor, value);
                    self.tables.set_value(key, reg);
                    written.push(key);
                    proof {
                        assert(self.rows().values =~= step.values.insert(key, reg));
                        assert(stored(step, key) == stored(before, key)) by {
                            if step.values.contains_key(key) {
                            }
                        }
                        assert forall|i: int| #[trigger] is_last_request(all, i) && i
                            >= rest@.len() implies call_ensures(
                            C::upsert_reg,
                            (stored(before, all[i].0), &old(self).actor_id(), all[i].1),
                            self.rows().values[all[i].0],
                        ) by {
                            if i > n {
                                assert(listed.contains(all[i].0));
                            }
                        }
                        assert forall|k: u128|
                            #![trigger self.rows().values.contains_key(k)]
                            #![trigger self.rows().tombs.contains_key(k)]
                            if written@.contains(k) {
                                self.rows().values.contains_key(k)
                                    && !self.rows().tombs.contains_key(k)
                            } else {
                                stored(self.rows(), k) == stored(before, k) && marked(
                                    self.rows(),
                                    k,
                                ) == marked(before, k)
                            } by {
                            if step.values.contains_key(k) {
                            }
                        }
                    }
                } else {
                    proof {
                        let j = choose|j: int| #![trigger all[j]] n + 1 <= j < all.len() && all[j].0 == key;
                        assert(!is_last_request(all, n)) by {
                            assert(all[j].0 == all[n].0);
                        }
                    }
                }
                proof {
                    assert forall|k: u128| #[trigger] written@.contains(k) <==> exists|j: int|
                        #![trigger all[j]]
                        n <= j < all.len() && all[j].0 == k by {
                        if written@.contains(k) {
                            if listed.contains(k) {
                                let j = choose|j: int|
                                    #![trigger all[j]]
                                    n + 1 <= j < all.len() && all[j].0 == k;
                                assert(all[j].0 == k);
                            } else {
                                assert(all[n].0 == k);
                            }
                        }
                        if exists|j: int| #![trigger all[j]] n <= j < all.len() && all[j].0 == k {
                            let j = choose|j: int|
                                #![trigger all[j]]
                                n <= j < all.len() && all[j].0 == k;
                            if j > n {
                                assert(listed.contains(k));
                            }
                        }
                    }
                }
            }
        }
        let none: Vec<u128> = Vec::new();
        let ghost rows = self.rows();
        proof {
            assert forall|key: u128| written@.contains(key) == #[trigger] requests(all, key) by {}
            assert forall|key: u128| #[trigger] written@.contains(key) implies rows.values.contains_key(
                key,
            ) by {
                if rows.values.contains_key(key) {
                }
            }
        }
        self.refresh_leaves(&written, &none);
        self.bump_change_clock();
        proof {
            lemma_refreshed_is_current::<C>(
                before,
                rows,
                self.version(),
                old(self).leaves(),
                self.leaves(),
                written@,
                none@,
            );
        }
    }
}

/// Returns whether the list holds the key.
fn holds_key(keys: &Vec<u128>, key: u128) -> (out: bool)
    ensures
        out == keys@.contains(key),
{
    let mut i: usize = 0;
    while i < keys.len()
        invariant
            i <= keys.len(),
            forall|k: int| 0 <= k < i ==> keys@[k] != key,
        decreases keys.len() - i,
    {
        if keys[i] == key {
            return true;
        }
        i += 1;
    }
    false
}

/// Change counter after a chunk that touched these keys.
pub open spec fn clock_after(clock: u64, live: Seq<u128>, deleted: Seq<u128>) -> u64 {
    if live.len() > 0 || deleted.len() > 0 { bumped(clock) } else { clock }
}

/// The leaves of the touched keys are those of the rows, the other leaves are as before.
pub open spec fn leaves_refreshed<C: RegAdapter>(
    before: Map<u128, Seq<u8>>,
    after: Map<u128, Seq<u8>>,
    rows: TablesView<C::Reg>,
    version: u32,
    live: Seq<u128>,
    deleted: Seq<u128>,
) -> bool {
    &&& forall|key: u128| #[trigger]
        after.contains_key(key) <==> before.contains_key(key) || live.contains(key)
            || deleted.contains(key)
    &&& forall|key: u128| #[trigger]
        after.contains_key(key) ==> if live.contains(key) || deleted.contains(key) {
            is_leaf::<C>(rows, version, key, after[key])
        } else {
            after[key] == before[key]
        }
}

/// Refreshing the leaves of the keys whose rows changed keeps an index current.
pub proof fn lemma_refreshed_is_current<C: RegAdapter>(
    before: TablesView<C::Reg>,
    after: TablesView<C::Reg>,
    version: u32,
    leaves: Map<u128, Seq<u8>>,
    refreshed: Map<u128, Seq<u8>>,
    live: Seq<u128>,
    deleted: Seq<u128>,
)
    requires
        leaves_refreshed::<C>(leaves, refreshed, after, version, live, deleted),
        forall|key: u128|
            #![trigger after.values.contains_key(key)]
            #![trigger after.tombs.contains_key(key)]
            !live.contains(key) && !deleted.contains(key) ==> stored(after, key) == stored(
                before,
                key,
            ) && marked(after, key) == marked(before, key),
    ensures
        is_current::<C>(before, version, leaves) ==> is_current::<C>(after, version, refreshed),
{
    if is_current::<C>(before, version, leaves) {
        assert forall|key: u128| #[trigger] refreshed.contains_key(key) implies is_leaf::<C>(
            after,
            version,
            key,
            refreshed[key],
        ) by {
            if !live.contains(key) && !deleted.contains(key) {
                assert(leaves.contains_key(key));
            }
        }
        assert forall|key: u128| #[trigger] refreshed.contains_key(key) <==>
            after.values.contains_key(key) || after.tombs.contains_key(key) by {
            assert(leaves.contains_key(key) <==> before.values.contains_key(key)
                || before.tombs.contains_key(key));
        }
    }
}

/// Registers make their keys live and leave the others alone.
proof fn lemma_live_keys<R>(
    rows: TablesView<R>,
    regs: Seq<(u128, R)>,
    outcomes: Seq<R>,
    keeps: bool,
    tombs: Seq<(u128, TombstoneView)>,
    n: int,
    key: u128,
)
    ensures
        ({
            let after = after_regs(rows, regs, outcomes, keeps, tombs, n);
            if live_keys(rows, regs, outcomes, keeps, tombs, n).contains(key) {
                after.values.contains_key(key) && !after.tombs.contains_key(key)
            } else {
                stored(after, key) == stored(rows, key) && marked(after, key) == marked(rows, key)
            }
        }),
    decreases n,
{
    if n > 0 {
        lemma_live_keys(rows, regs, outcomes, keeps, tombs, n - 1, key);
        lemma_push_contains(
            live_keys(rows, regs, outcomes, keeps, tombs, n - 1),
            regs[n - 1].0,
        );
    }
}

/// Tombstones delete their keys and leave the others alone.
proof fn lemma_deleted_keys<R>(
    rows: TablesView<R>,
    tombs: Seq<(u128, TombstoneView)>,
    now_unix_ms: u64,
    n: int,
    key: u128,
)
    ensures
        ({
            let after = after_tombs(rows, tombs, now_unix_ms, n);
            if deleted_keys(rows, tombs, now_unix_ms, true, n).contains(key) {
                after.tombs.contains_key(key) && !after.values.contains_key(key)
            } else {
                stored(after, key) == stored(rows, key) && marked(after, key) == marked(rows, key)
            }
        }),
    decreases n,
{
    if n > 0 {
        lemma_deleted_keys(rows, tombs, now_unix_ms, n - 1, key);
        lemma_push_contains(
            deleted_keys(rows, tombs, now_unix_ms, true, n - 1),
            tombs[n - 1].0,
        );
    }
}

/// A chunk changes the rows of the keys that it touches and no others.
proof fn lemma_chunk_keys<C: RegAdapter>(
    rows: TablesView<C::Reg>,
    regs: Seq<(u128, C::Reg)>,
    outcomes: Seq<C::Reg>,
    keeps: bool,
    tombs: Seq<(u128, TombstoneView)>,
    now_unix_ms: u64,
)
    ensures
        ({
            let n = regs.len() as int;
            let m = tombs.len() as int;
            let middle = after_regs(rows, regs, outcomes, keeps, tombs, n);
            let after = chunk_applied(rows, regs, outcomes, keeps, tombs, now_unix_ms);
            let live = live_keys(rows, regs, outcomes, keeps, tombs, n);
            let deleted = deleted_keys(middle, tombs, now_unix_ms, true, m);
            &&& forall|key: u128| #[trigger]
                live.contains(key) ==> after.values.contains_key(key) || deleted.contains(key)
            &&& forall|key: u128| #[trigger]
                deleted.contains(key) ==> after.tombs.contains_key(key)
            &&& forall|key: u128|
                #![trigger after.values.contains_key(key)]
                #![trigger after.tombs.contains_key(key)]
                !live.contains(key) && !deleted.contains(key) ==> stored(after, key) == stored(
                    rows,
                    key,
                ) && marked(after, key) == marked(rows, key)
        }),
{
    let n = regs.len() as int;
    let m = tombs.len() as int;
    let middle = after_regs(rows, regs, outcomes, keeps, tombs, n);
    let after = chunk_applied(rows, regs, outcomes, keeps, tombs, now_unix_ms);
    let live = live_keys(rows, regs, outcomes, keeps, tombs, n);
    let deleted = deleted_keys(middle, tombs, now_unix_ms, true, m);
    assert forall|key: u128| #[trigger] live.contains(key) implies after.values.contains_key(key)
        || deleted.contains(key) by {
        lemma_live_keys(rows, regs, outcomes, keeps, tombs, n, key);
        lemma_deleted_keys(middle, tombs, now_unix_ms, m, key);
    }
    assert forall|key: u128| #[trigger] deleted.contains(key) implies after.tombs.contains_key(
        key,
    ) by {
        lemma_deleted_keys(middle, tombs, now_unix_ms, m, key);
    }
    assert forall|key: u128|
        #![trigger after.values.contains_key(key)]
        #![trigger after.tombs.contains_key(key)]
        !live.contains(key) && !deleted.contains(key) implies stored(after, key) == stored(rows, key)
        && marked(after, key) == marked(rows, key) by {
        lemma_live_keys(rows, regs, outcomes, keeps, tombs, n, key);
        lemma_deleted_keys(middle, tombs, now_unix_ms, m, key);
    }
}

/// Later outcomes do not change what earlier registers of a chunk did.
proof fn lemma_outcomes_prefix<C: RegAdapter>(
    rows: TablesView<C::Reg>,
    regs: Seq<(u128, C::Reg)>,
    earlier: Seq<C::Reg>,
    outcomes: Seq<C::Reg>,
    keeps: bool,
    tombs: Seq<(u128, TombstoneView)>,
    n: int,
)
    requires
        0 <= n,
        earlier.len() >= n,
        outcomes.len() >= n,
        forall|i: int| #![trigger outcomes[i]] 0 <= i < n ==> outcomes[i] == earlier[i],
    ensures
        after_regs(rows, regs, outcomes, keeps, tombs, n) == after_regs(
            rows,
            regs,
            earlier,
            keeps,
            tombs,
            n,
        ),
        live_keys(rows, regs, outcomes, keeps, tombs, n) == live_keys(
            rows,
            regs,
            earlier,
            keeps,
            tombs,
            n,
        ),
        are_merges::<C>(rows, regs, earlier, keeps, tombs, n) ==> are_merges::<C>(
            rows,
            regs,
            outcomes,
            keeps,
            tombs,
            n,
        ),
    decreases n,
{
    if n > 0 {
        lemma_outcomes_prefix::<C>(rows, regs, earlier, outcomes, keeps, tombs, n - 1);
        assert(outcomes[n - 1] == earlier[n - 1]);
    }
    if are_merges::<C>(rows, regs, earlier, keeps, tombs, n) {
        assert forall|i: int|
            #![trigger regs[i]]
            0 <= i < n && !is_held_back(
                after_regs(rows, regs, outcomes, keeps, tombs, i),
                keeps,
                tombs,
                regs[i].0,
            ) implies call_ensures(
            C::merge_regs,
            (stored(after_regs(rows, regs, outcomes, keeps, tombs, i), regs[i].0), regs[i].1),
            outcomes[i],
        ) by {
            if i < n - 1 {
                assert(are_merges::<C>(rows, regs, earlier, keeps, tombs, n - 1));
            }
            lemma_outcomes_prefix::<C>(rows, regs, earlier, outcomes, keeps, tombs, i);
            assert(outcomes[i] == earlier[i]);
        }
    }
}

} // verus!
