//! What a caller can rely on who applies chunks, prunes markers or compacts registers.

use vstd::prelude::*;

use super::chunk_laws::{
    law_chunk_markers_delete, law_chunk_registers_become_live, law_chunk_respects_kept_markers,
    law_chunk_touches_only_its_keys, was_forgotten,
};
use super::delta::{chunk_relates, chunk_views};
use super::gc_laws::{
    law_compaction_rewrites_what_the_adapter_says, law_peer_frontiers_drop_exactly,
    law_pruning_waits_for_retention_and_barrier,
};
use super::laws::law_adoption_is_monotonic;
use super::maintenance::{compaction_refused, compaction_relates, is_batch, prune_cutoff, pruned};
use super::session::{DeltaApplySession, FinalizeStrategy};
use super::single_laws::{keeps_configuration, ticks};
use super::{CrdtMstStore, RegAdapter};
use crate::store::error::StoreError;
use crate::store::gc::{GcBarrier, StoreGcPolicy, StoreGcReport};
use crate::store::tables::{age_index, lists_rows, TablesView};
use crate::store::tombstone::TombstoneRecord;

verus! {

/// The chunk names the key in a register.
pub open spec fn names_register<R>(regs: Seq<(u128, R)>, key: u128) -> bool {
    exists|k: int| #![trigger regs[k]] 0 <= k < regs.len() && regs[k].0 == key
}

/// The chunk names the key in a marker.
pub open spec fn names_marker(tombs: Seq<(u128, TombstoneRecord)>, key: u128) -> bool {
    exists|k: int| #![trigger tombs[k]] 0 <= k < tombs.len() && tombs[k].0 == key
}

/// What a chunk leaves behind under a key: a register without a marker makes it live unless
/// a kept local marker stands against it; a marker that nothing has forgotten deletes it;
/// and a key that the chunk does not name is as it was.
pub open spec fn chunk_arrived<R>(
    before: TablesView<R>,
    after: TablesView<R>,
    regs: Seq<(u128, R)>,
    tombs: Seq<(u128, TombstoneRecord)>,
    keeps: bool,
    key: u128,
) -> bool {
    &&& names_register(regs, key) && !names_marker(tombs, key) && !(keeps
        && before.tombs.contains_key(key)) ==> after.values.contains_key(key)
        && !after.tombs.contains_key(key)
    &&& keeps && before.tombs.contains_key(key) && !names_marker(tombs, key)
        ==> after.tombs.contains_key(key) && after.tombs[key] == before.tombs[key]
    &&& forall|j: int|
        #![trigger tombs[j]]
        0 <= j < tombs.len() && tombs[j].0 == key && !was_forgotten(before.frontiers, tombs[j].1@)
            ==> !after.values.contains_key(key) && after.tombs.contains_key(key)
            && after.tombs[key].sequence >= tombs[j].1.sequence
    &&& !names_register(regs, key) && !names_marker(tombs, key) ==> {
        &&& after.values.contains_key(key) == before.values.contains_key(key)
        &&& before.values.contains_key(key) ==> after.values[key] == before.values[key]
        &&& after.tombs.contains_key(key) == before.tombs.contains_key(key)
        &&& before.tombs.contains_key(key) ==> after.tombs[key] == before.tombs[key]
    }
    &&& after.frontiers == before.frontiers
    &&& after.tomb_seq == before.tomb_seq
}

/// A related chunk has arrived.
proof fn lemma_arrived<C: RegAdapter>(
    before: TablesView<C::Reg>,
    after: TablesView<C::Reg>,
    regs: Seq<(u128, C::Reg)>,
    outcomes: Seq<C::Reg>,
    keeps: bool,
    tombs: Seq<(u128, TombstoneRecord)>,
    now_unix_ms: u64,
    refresh: bool,
    live: Seq<u128>,
    deleted: Seq<u128>,
    key: u128,
)
    requires
        chunk_relates::<C>(
            before,
            after,
            regs,
            outcomes,
            keeps,
            chunk_views(tombs),
            now_unix_ms,
            refresh,
            live,
            deleted,
        ),
    ensures
        chunk_arrived(before, after, regs, tombs, keeps, key),
        names_register(regs, key) && !names_marker(tombs, key) && !(keeps
            && before.tombs.contains_key(key)) ==> live.contains(key) && !deleted.contains(key),
        !names_register(regs, key) && !names_marker(tombs, key) ==> !live.contains(key)
            && !deleted.contains(key),
{
    let views = chunk_views(tombs);
    assert forall|k: int| #![trigger tombs[k]] #![trigger views[k]] 0 <= k < tombs.len() implies
        views[k].0 == tombs[k].0 && views[k].1 == tombs[k].1@ by {}
    law_chunk_touches_only_its_keys::<C>(
        before,
        after,
        regs,
        outcomes,
        keeps,
        views,
        now_unix_ms,
        refresh,
        live,
        deleted,
        key,
    );
    if !names_marker(tombs, key) {
        assert forall|k: int| #![trigger views[k]] 0 <= k < views.len() implies views[k].0
            != key by {
            assert(tombs[k].0 != key);
        }
        if names_register(regs, key) && !(keeps && before.tombs.contains_key(key)) {
            let i = choose|i: int| #![trigger regs[i]] 0 <= i < regs.len() && regs[i].0 == key;
            law_chunk_registers_become_live::<C>(
                before,
                after,
                regs,
                outcomes,
                keeps,
                views,
                now_unix_ms,
                refresh,
                live,
                deleted,
                i,
            );
        }
        if keeps && before.tombs.contains_key(key) {
            law_chunk_respects_kept_markers::<C>(
                before,
                after,
                regs,
                outcomes,
                views,
                now_unix_ms,
                refresh,
                live,
                deleted,
                key,
            );
        }
    }
    assert forall|j: int|
        #![trigger tombs[j]]
        0 <= j < tombs.len() && tombs[j].0 == key && !was_forgotten(
            before.frontiers,
            tombs[j].1@,
        ) implies !after.values.contains_key(key) && after.tombs.contains_key(key)
        && after.tombs[key].sequence >= tombs[j].1.sequence by {
        assert(views[j].0 == key && views[j].1 == tombs[j].1@);
        law_chunk_markers_delete::<C>(
            before,
            after,
            regs,
            outcomes,
            keeps,
            views,
            now_unix_ms,
            refresh,
            live,
            deleted,
            j,
        );
    }
}

/// Writing a chunk leaves each key as the chunk says, reports the keys that it made live
/// and those that it deleted, and touches neither the index nor the change counter.
pub proof fn law_write_chunk_call<C: RegAdapter>(
    store: &mut CrdtMstStore<C>,
    regs: Vec<(u128, C::Reg)>,
    tombs: Vec<(u128, TombstoneRecord)>,
    refresh: bool,
    now_unix_ms: u64,
    out: (Vec<u128>, Vec<u128>),
    key: u128,
)
    requires
        call_ensures(
            CrdtMstStore::<C>::write_delta_chunk_merged_latest,
            (store, regs, tombs, refresh, now_unix_ms),
            out,
        ),
    ensures
        chunk_arrived(
            old(store).rows(),
            final(store).rows(),
            regs@,
            tombs@,
            old(store).keeps_local_tombs(),
            key,
        ),
        names_register(regs@, key) && !names_marker(tombs@, key) && !(
        old(store).keeps_local_tombs() && old(store).rows().tombs.contains_key(key))
            ==> out.0@.contains(key) && !out.1@.contains(key),
        !names_register(regs@, key) && !names_marker(tombs@, key) ==> !out.0@.contains(key)
            && !out.1@.contains(key),
        final(store).leaves() == old(store).leaves(),
        final(store).clock() == old(store).clock(),
        keeps_configuration(*old(store), *final(store)),
{
    let outcomes = choose|outcomes: Seq<C::Reg>| #[trigger]
        chunk_relates::<C>(
            old(store).rows(),
            final(store).rows(),
            regs@,
            outcomes,
            old(store).keeps_local_tombs(),
            chunk_views(tombs@),
            now_unix_ms,
            refresh,
            out.0@,
            out.1@,
        );
    lemma_arrived::<C>(
        old(store).rows(),
        final(store).rows(),
        regs@,
        outcomes,
        old(store).keeps_local_tombs(),
        tombs@,
        now_unix_ms,
        refresh,
        out.0@,
        out.1@,
        key,
    );
}

/// Applying a chunk leaves each key as the chunk says, with the index as it was or, where
/// the call updates it, current again if it was current.
pub proof fn law_apply_chunk_calls<C: RegAdapter>(
    store: &mut CrdtMstStore<C>,
    regs: Vec<(u128, C::Reg)>,
    tombs: Vec<(u128, TombstoneRecord)>,
    now_unix_ms: u64,
    out: (),
    key: u128,
)
    ensures
        call_ensures(
            CrdtMstStore::<C>::apply_delta_chunk,
            (store, regs, tombs, now_unix_ms),
            out,
        ) ==> {
            &&& chunk_arrived(
                old(store).rows(),
                final(store).rows(),
                regs@,
                tombs@,
                old(store).keeps_local_tombs(),
                key,
            )
            &&& final(store).leaves() == old(store).leaves()
            &&& keeps_configuration(*old(store), *final(store))
        },
        call_ensures(
            CrdtMstStore::<C>::apply_delta_chunk_update_mst,
            (store, regs, tombs, now_unix_ms),
            out,
        ) ==> {
            &&& chunk_arrived(
                old(store).rows(),
                final(store).rows(),
                regs@,
                tombs@,
                old(store).keeps_local_tombs(),
                key,
            )
            &&& old(store).index_is_current() ==> final(store).index_is_current()
            &&& keeps_configuration(*old(store), *final(store))
        },
{
    let before = old(store).rows();
    let after = final(store).rows();
    let keeps = old(store).keeps_local_tombs();
    let views = chunk_views(tombs@);
    if call_ensures(CrdtMstStore::<C>::apply_delta_chunk, (store, regs, tombs, now_unix_ms), out) {
        let (outcomes, live, deleted) = choose|
            outcomes: Seq<C::Reg>,
            live: Seq<u128>,
            deleted: Seq<u128>,
        | #[trigger]
            chunk_relates::<C>(
                before,
                after,
                regs@,
                outcomes,
                keeps,
                views,
                now_unix_ms,
                false,
                live,
                deleted,
            );
        lemma_arrived::<C>(
            before,
            after,
            regs@,
            outcomes,
            keeps,
            tombs@,
            now_unix_ms,
            false,
            live,
            deleted,
            key,
        );
    }
    if call_ensures(
        CrdtMstStore::<C>::apply_delta_chunk_update_mst,
        (store, regs, tombs, now_unix_ms),
        out,
    ) {
        let (outcomes, live, deleted) = choose|
            outcomes: Seq<C::Reg>,
            live: Seq<u128>,
            deleted: Seq<u128>,
        | #[trigger]
            chunk_relates::<C>(
                before,
                after,
                regs@,
                outcomes,
                keeps,
                views,
                now_unix_ms,
                true,
                live,
                deleted,
            );
        lemma_arrived::<C>(
            before,
            after,
            regs@,
            outcomes,
            keeps,
            tombs@,
            now_unix_ms,
            true,
            live,
            deleted,
            key,
        );
    }
}

/// A chunk of a session leaves each key as it says and leaves the index to the end of the
/// session, whose strategy stays.
pub proof fn law_session_chunk_call<C: RegAdapter>(
    session: &mut DeltaApplySession<C>,
    regs: Vec<(u128, C::Reg)>,
    tombs: Vec<(u128, TombstoneRecord)>,
    now_unix_ms: u64,
    out: (),
    key: u128,
)
    requires
        call_ensures(
            DeltaApplySession::<C>::apply_chunk,
            (session, regs, tombs, now_unix_ms),
            out,
        ),
    ensures
        chunk_arrived(
            old(session).inner().rows(),
            final(session).inner().rows(),
            regs@,
            tombs@,
            old(session).inner().keeps_local_tombs(),
            key,
        ),
        final(session).strategy() == old(session).strategy(),
        final(session).inner().leaves() == old(session).inner().leaves(),
        keeps_configuration(old(session).inner(), final(session).inner()),
{
    let before = old(session).inner().rows();
    let after = final(session).inner().rows();
    let keeps = old(session).inner().keeps_local_tombs();
    let views = chunk_views(tombs@);
    let (outcomes, live, deleted) = choose|
        outcomes: Seq<C::Reg>,
        live: Seq<u128>,
        deleted: Seq<u128>,
    | #[trigger]
        chunk_relates::<C>(
            before,
            after,
            regs@,
            outcomes,
            keeps,
            views,
            now_unix_ms,
            false,
            live,
            deleted,
        );
    lemma_arrived::<C>(
        before,
        after,
        regs@,
        outcomes,
        keeps,
        tombs@,
        now_unix_ms,
        false,
        live,
        deleted,
        key,
    );
}

/// A session begins with the store as it is and rebuilds at its end unless told otherwise;
/// committing keeps the rows and the counter, and leaves a current index where it rebuilds.
pub proof fn law_session_calls<C: RegAdapter>(
    store: CrdtMstStore<C>,
    begun: DeltaApplySession<C>,
    session: DeltaApplySession<C>,
    out: CrdtMstStore<C>,
)
    ensures
        call_ensures(CrdtMstStore::<C>::begin_delta_apply, (store,), begun) ==> begun.inner()
            == store && begun.strategy() == FinalizeStrategy::Rebuild,
        call_ensures(DeltaApplySession::<C>::commit, (session,), out) ==> {
            &&& out.rows() == session.inner().rows()
            &&& out.clock() == session.inner().clock()
            &&& keeps_configuration(session.inner(), out)
            &&& session.strategy() == FinalizeStrategy::Rebuild ==> out.index_is_current()
            &&& session.strategy() == FinalizeStrategy::NoOp ==> out.leaves()
                == session.inner().leaves()
        },
{
}

/// A pruning pass is refused exactly for a barrier of another root-schema version, unless
/// its limit is zero. It removes a marker only after the retention and only where it was
/// observed before the barrier's safe moment, the oldest first, at most as many as the
/// limit, and all of them below the limit; it touches no register, and what it removes
/// stays forgotten. It reports how many it removed.
pub proof fn law_prune_call<C: RegAdapter>(
    store: &mut CrdtMstStore<C>,
    policy: &StoreGcPolicy,
    barrier: GcBarrier,
    now_unix_ms: u64,
    out: Result<StoreGcReport, StoreError>,
    key: u128,
    other: u128,
)
    requires
        call_ensures(
            CrdtMstStore::<C>::garbage_collect_tombstones,
            (store, policy, barrier, now_unix_ms),
            out,
        ),
    ensures
        ({
            let before = old(store).rows();
            let after = final(store).rows();
            let marker = before.tombs[key];
            let removed = before.tombs.contains_key(key) && !after.tombs.contains_key(key);
            let due = marker.observed_at_unix_ms + policy.tombstone_min_retention_ms < now_unix_ms
                && marker.observed_at_unix_ms < barrier.safe_observed_before_unix_ms;
            &&& out is Err <==> policy.tombstone_batch_limit > 0 && barrier.root_schema_version
                != old(store).version()
            &&& out is Err ==> after == before && final(store).leaves() == old(store).leaves()
                && final(store).clock() == old(store).clock()
            &&& after.values == before.values
            &&& after.tomb_seq == before.tomb_seq
            &&& after.tombs.contains_key(key) ==> before.tombs.contains_key(key)
                && after.tombs[key] == marker
            &&& removed ==> due
            &&& removed && marker.sequence > 0 ==> after.frontiers.contains_key(
                marker.origin_actor,
            ) && after.frontiers[marker.origin_actor] >= marker.sequence
            &&& removed && after.tombs.contains_key(other) ==> marker.observed_at_unix_ms
                <= before.tombs[other].observed_at_unix_ms
            &&& out matches Ok(report) ==> {
                &&& report.tombstones_pruned <= policy.tombstone_batch_limit
                &&& report.tombstones_scanned == report.tombstones_pruned
                &&& report.registers_compacted == 0
                &&& before.tombs.contains_key(key) && due && report.tombstones_pruned
                    < policy.tombstone_batch_limit ==> removed
                &&& removed ==> report.tombstones_pruned > 0
                &&& report.tombstones_pruned > 0 ==> final(store).index_is_current() && ticks(
                    old(store).clock(),
                    final(store).clock(),
                )
                &&& report.tombstones_pruned == 0 ==> final(store).leaves() == old(store).leaves()
                    && final(store).clock() == old(store).clock() && after == before
            }
            &&& keeps_configuration(*old(store), *final(store))
        }),
{
    if let Ok(report) = out {
        let batch = choose|batch: Seq<(u64, u128)>|
            {
                &&& #[trigger] lists_rows(batch, age_index(old(store).rows().tombs))
                &&& is_batch(
                    batch,
                    prune_cutoff(*policy, barrier, now_unix_ms),
                    policy.tombstone_batch_limit,
                    report.tombstones_pruned as int,
                )
                &&& final(store).rows() == pruned(
                    old(store).rows(),
                    batch,
                    report.tombstones_pruned as int,
                )
            };
        law_pruning_waits_for_retention_and_barrier(
            old(store).rows(),
            final(store).rows(),
            *policy,
            barrier,
            now_unix_ms,
            batch,
            report.tombstones_pruned as int,
            key,
            other,
        );
    }
}

/// Adopting a peer's frontiers removes exactly the markers whose generation a given
/// frontier of their origin covers, lowers no frontier, and touches no register.
pub proof fn law_adopt_call<C: RegAdapter>(
    store: &mut CrdtMstStore<C>,
    given: Vec<(Vec<u8>, u64)>,
    out: usize,
    key: u128,
    i: int,
)
    requires
        call_ensures(
            CrdtMstStore::<C>::apply_tombstone_prune_frontiers,
            (store, given),
            out,
        ),
        0 <= i < given@.len(),
    ensures
        ({
            let before = old(store).rows();
            let after = final(store).rows();
            &&& after.values == before.values
            &&& after.tomb_seq == before.tomb_seq
            &&& after.tombs.contains_key(key) <==> before.tombs.contains_key(key) && !exists|k: int|
                #![trigger given@[k]]
                0 <= k < given@.len() && given@[k].0@ == before.tombs[key].origin_actor
                    && given@[k].1 > 0 && before.tombs[key].sequence <= given@[k].1
            &&& after.tombs.contains_key(key) ==> after.tombs[key] == before.tombs[key]
            &&& given@[i].1 > 0 ==> after.frontiers.contains_key(given@[i].0@)
                && after.frontiers[given@[i].0@] >= given@[i].1
            &&& before.frontiers.contains_key(given@[i].0@) && before.frontiers[given@[i].0@] > 0
                ==> after.frontiers.contains_key(given@[i].0@) && after.frontiers[given@[i].0@]
                >= before.frontiers[given@[i].0@]
            &&& keeps_configuration(*old(store), *final(store))
        }),
{
    let before = old(store).rows();
    law_peer_frontiers_drop_exactly(before.tombs, given@, key);
    law_adoption_is_monotonic(
        before.frontiers,
        given@,
        given@.len() as int,
        given@[i].0@,
    );
    assert(given@[i].0@ == given@[i].0@);
}

/// A compaction pass that is switched off, or that fails, changes nothing. Any pass keeps
/// every key and every marker and reports no more rewrites than it inspected, and a live
/// register is afterwards what it was or what the adapter made of it.
pub proof fn law_compact_call<C: RegAdapter>(
    store: &mut CrdtMstStore<C>,
    policy: &StoreGcPolicy,
    out: Result<StoreGcReport, StoreError>,
    key: u128,
)
    requires
        call_ensures(CrdtMstStore::<C>::compact_registers, (store, policy), out),
        old(store).rows().values.contains_key(key),
    ensures
        ({
            let before = old(store).rows();
            let after = final(store).rows();
            let on = policy.mvreg_max_values is Some && policy.mvreg_max_values->0 > 0
                && policy.mvreg_batch_limit > 0;
            &&& !on ==> out is Ok && after == before
            &&& out is Err ==> after == before
            &&& after.tombs == before.tombs
            &&& after.frontiers == before.frontiers
            &&& after.tomb_seq == before.tomb_seq
            &&& after.values.contains_key(key)
            &&& after.values[key] == before.values[key] || (on && call_ensures(
                C::compact_reg,
                (&before.values[key], policy.mvreg_max_values->0),
                Ok(Some(after.values[key])),
            ))
            &&& out matches Ok(report) ==> {
                &&& report.registers_compacted <= report.registers_scanned
                &&& on ==> report.registers_scanned <= policy.mvreg_batch_limit
                &&& !on ==> report.registers_scanned == 0
                &&& report.tombstones_pruned == 0
                &&& report.registers_compacted == 0 ==> after == before
                &&& report.registers_compacted > 0 ==> ticks(
                    old(store).clock(),
                    final(store).clock(),
                )
                &&& old(store).index_is_current() ==> final(store).index_is_current()
            }
            &&& keeps_configuration(*old(store), *final(store))
        }),
{
    super::gc_laws::law_compaction_is_opt_in(*policy);
    let before = old(store).rows();
    let after = final(store).rows();
    if let Ok(report) = out {
        if !super::maintenance::compaction_is_off(*policy) {
            let (keys, outcomes) = choose|keys: Seq<u128>, outcomes: Seq<Option<C::Reg>>| #[trigger]
                compaction_relates::<C>(
                    before,
                    after,
                    keys,
                    outcomes,
                    policy.mvreg_max_values->0,
                    policy.mvreg_batch_limit,
                    report,
                );
            assert(before.values.dom().contains(key));
            assert(keys.contains(key));
            let i = keys.index_of(key);
            law_compaction_rewrites_what_the_adapter_says::<C>(
                before,
                after,
                keys,
                outcomes,
                policy.mvreg_max_values->0,
                policy.mvreg_batch_limit,
                report,
                i,
            );
        }
    }
}

/// Compaction is refused only over a register that it was to inspect: never with a limit of
/// zero or where the store holds no value.
pub proof fn law_compaction_is_refused_over_a_value<C: RegAdapter>(
    before: TablesView<C::Reg>,
    keys: Seq<u128>,
    outcomes: Seq<Option<C::Reg>>,
    max_values: usize,
    limit: usize,
    error: StoreError,
)
    requires
        compaction_refused::<C>(before, keys, outcomes, max_values, limit, error),
    ensures
        outcomes.len() < limit,
        outcomes.len() < keys.len(),
        before.values.contains_key(keys[outcomes.len() as int]),
{
    assert(keys.contains(keys[outcomes.len() as int]));
}

} // verus!
