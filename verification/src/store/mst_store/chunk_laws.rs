//! What a chunk from another replica does to the rows, key by key.

use vstd::prelude::*;

use super::delta::{
    after_regs, after_tombs, chunk_relates, clock_after, deleted_keys, live_keys,
};
use super::{lemma_push_contains, RegAdapter};
use crate::bytes::lemma_bytes_order;
use crate::store::tables::TablesView;
use crate::store::tombstone::TombstoneView;

verus! {

/// Registers leave alone what no register is for, and all frontiers and counters.
proof fn lemma_regs_frame<R>(
    rows: TablesView<R>,
    regs: Seq<(u128, R)>,
    outcomes: Seq<R>,
    keeps: bool,
    tombs: Seq<(u128, TombstoneView)>,
    n: int,
    key: u128,
)
    requires
        0 <= n <= regs.len(),
    ensures
        ({
            let after = after_regs(rows, regs, outcomes, keeps, tombs, n);
            &&& after.frontiers == rows.frontiers
            &&& after.tomb_seq == rows.tomb_seq
            &&& (forall|k: int| #![trigger regs[k]] 0 <= k < n ==> regs[k].0 != key) ==> {
                &&& after.values.contains_key(key) == rows.values.contains_key(key)
                &&& rows.values.contains_key(key) ==> after.values[key] == rows.values[key]
                &&& after.tombs.contains_key(key) == rows.tombs.contains_key(key)
                &&& rows.tombs.contains_key(key) ==> after.tombs[key] == rows.tombs[key]
                &&& !live_keys(rows, regs, outcomes, keeps, tombs, n).contains(key)
            }
        }),
    decreases n,
{
    if n > 0 {
        lemma_regs_frame(rows, regs, outcomes, keeps, tombs, n - 1, key);
        lemma_push_contains(live_keys(rows, regs, outcomes, keeps, tombs, n - 1), regs[n - 1].0);
        if forall|k: int| #![trigger regs[k]] 0 <= k < n ==> regs[k].0 != key {
            assert(regs[n - 1].0 != key);
        }
    }
}

/// Markers leave alone what no marker is for, and all frontiers and counters.
proof fn lemma_tombs_frame<R>(
    rows: TablesView<R>,
    tombs: Seq<(u128, TombstoneView)>,
    now_unix_ms: u64,
    refresh: bool,
    n: int,
    key: u128,
)
    requires
        0 <= n <= tombs.len(),
    ensures
        ({
            let after = after_tombs(rows, tombs, now_unix_ms, n);
            &&& after.frontiers == rows.frontiers
            &&& after.tomb_seq == rows.tomb_seq
            &&& (forall|k: int| #![trigger tombs[k]] 0 <= k < n ==> tombs[k].0 != key) ==> {
                &&& after.values.contains_key(key) == rows.values.contains_key(key)
                &&& rows.values.contains_key(key) ==> after.values[key] == rows.values[key]
                &&& after.tombs.contains_key(key) == rows.tombs.contains_key(key)
                &&& rows.tombs.contains_key(key) ==> after.tombs[key] == rows.tombs[key]
                &&& !deleted_keys(rows, tombs, now_unix_ms, refresh, n).contains(key)
            }
        }),
    decreases n,
{
    if n > 0 {
        lemma_tombs_frame(rows, tombs, now_unix_ms, refresh, n - 1, key);
        lemma_push_contains(
            deleted_keys(rows, tombs, now_unix_ms, refresh, n - 1),
            tombs[n - 1].0,
        );
        if forall|k: int| #![trigger tombs[k]] 0 <= k < n ==> tombs[k].0 != key {
            assert(tombs[n - 1].0 != key);
        }
    }
}

/// A register that nothing holds back makes its key live.
proof fn lemma_register_makes_live<R>(
    rows: TablesView<R>,
    regs: Seq<(u128, R)>,
    outcomes: Seq<R>,
    keeps: bool,
    tombs: Seq<(u128, TombstoneView)>,
    n: int,
    i: int,
)
    requires
        0 <= i < n <= regs.len(),
        !keeps || !rows.tombs.contains_key(regs[i].0) || exists|k: int|
            #![trigger tombs[k]]
            0 <= k < tombs.len() && tombs[k].0 == regs[i].0,
    ensures
        ({
            let after = after_regs(rows, regs, outcomes, keeps, tombs, n);
            &&& after.values.contains_key(regs[i].0)
            &&& !after.tombs.contains_key(regs[i].0)
            &&& live_keys(rows, regs, outcomes, keeps, tombs, n).contains(regs[i].0)
            &&& (forall|k: int| #![trigger regs[k]] i < k < n ==> regs[k].0 != regs[i].0)
                ==> after.values[regs[i].0] == outcomes[i]
        }),
    decreases n,
{
    let key = regs[i].0;
    lemma_push_contains(live_keys(rows, regs, outcomes, keeps, tombs, n - 1), regs[n - 1].0);
    if i < n - 1 {
        lemma_register_makes_live(rows, regs, outcomes, keeps, tombs, n - 1, i);
        if forall|k: int| #![trigger regs[k]] i < k < n ==> regs[k].0 != key {
            assert(regs[n - 1].0 != key);
        }
    } else if exists|k: int| #![trigger regs[k]] 0 <= k < i && regs[k].0 == key {
        let k = choose|k: int| #![trigger regs[k]] 0 <= k < i && regs[k].0 == key;
        lemma_register_makes_live(rows, regs, outcomes, keeps, tombs, n - 1, k);
    } else {
        lemma_regs_frame(rows, regs, outcomes, keeps, tombs, n - 1, key);
    }
}

/// Every register of a chunk for which the chunk carries no delete marker makes its key
/// live, whatever marker the key had, unless local markers are kept and the key has one.
/// The stored register is a merge with the incoming one, and for a key that occurs once it
/// is the merge of what was stored with the incoming one.
pub proof fn law_chunk_registers_become_live<C: RegAdapter>(
    before: TablesView<C::Reg>,
    after: TablesView<C::Reg>,
    regs: Seq<(u128, C::Reg)>,
    outcomes: Seq<C::Reg>,
    keeps: bool,
    tombs: Seq<(u128, TombstoneView)>,
    now_unix_ms: u64,
    refresh: bool,
    live: Seq<u128>,
    deleted: Seq<u128>,
    i: int,
)
    requires
        chunk_relates::<C>(
            before,
            after,
            regs,
            outcomes,
            keeps,
            tombs,
            now_unix_ms,
            refresh,
            live,
            deleted,
        ),
        0 <= i < regs.len(),
        forall|k: int| #![trigger tombs[k]] 0 <= k < tombs.len() ==> tombs[k].0 != regs[i].0,
        !keeps || !before.tombs.contains_key(regs[i].0),
    ensures
        after.values.contains_key(regs[i].0),
        !after.tombs.contains_key(regs[i].0),
        live.contains(regs[i].0),
        !deleted.contains(regs[i].0),
        (forall|k: int| #![trigger regs[k]] i < k < regs.len() ==> regs[k].0 != regs[i].0)
            ==> exists|current: Option<C::Reg>| #[trigger]
            call_ensures(C::merge_regs, (current, regs[i].1), after.values[regs[i].0]),
        (forall|k: int|
            #![trigger regs[k]]
            0 <= k < regs.len() && k != i ==> regs[k].0 != regs[i].0) ==> call_ensures(
            C::merge_regs,
            (
                if before.values.contains_key(regs[i].0) {
                    Some(before.values[regs[i].0])
                } else {
                    None
                },
                regs[i].1,
            ),
            after.values[regs[i].0],
        ),
{
    let key = regs[i].0;
    let n = regs.len() as int;
    let middle = after_regs(before, regs, outcomes, keeps, tombs, n);
    lemma_register_makes_live(before, regs, outcomes, keeps, tombs, n, i);
    lemma_tombs_frame(middle, tombs, now_unix_ms, refresh, tombs.len() as int, key);
    let earlier = after_regs(before, regs, outcomes, keeps, tombs, i);
    lemma_regs_frame(before, regs, outcomes, keeps, tombs, i, key);
    if exists|k: int| #![trigger regs[k]] 0 <= k < i && regs[k].0 == key {
        let k = choose|k: int| #![trigger regs[k]] 0 <= k < i && regs[k].0 == key;
        lemma_register_makes_live(before, regs, outcomes, keeps, tombs, i, k);
    }
    assert(!super::delta::is_held_back(earlier, keeps, tombs, key));
    assert(call_ensures(C::merge_regs, (super::stored(earlier, key), regs[i].1), outcomes[i]));
}

/// Where local markers are kept, a register for a deleted key changes nothing unless the
/// chunk carries a marker for that key.
pub proof fn law_chunk_respects_kept_markers<C: RegAdapter>(
    before: TablesView<C::Reg>,
    after: TablesView<C::Reg>,
    regs: Seq<(u128, C::Reg)>,
    outcomes: Seq<C::Reg>,
    tombs: Seq<(u128, TombstoneView)>,
    now_unix_ms: u64,
    refresh: bool,
    live: Seq<u128>,
    deleted: Seq<u128>,
    key: u128,
)
    requires
        chunk_relates::<C>(
            before,
            after,
            regs,
            outcomes,
            true,
            tombs,
            now_unix_ms,
            refresh,
            live,
            deleted,
        ),
        before.tombs.contains_key(key),
        forall|k: int| #![trigger tombs[k]] 0 <= k < tombs.len() ==> tombs[k].0 != key,
    ensures
        after.tombs.contains_key(key),
        after.tombs[key] == before.tombs[key],
        after.values.contains_key(key) == before.values.contains_key(key),
        !live.contains(key),
        !deleted.contains(key),
{
    let n = regs.len() as int;
    let middle = after_regs(before, regs, outcomes, true, tombs, n);
    super::laws::law_local_markers_are_kept(before, regs, outcomes, tombs, n, key);
    lemma_tombs_frame(middle, tombs, now_unix_ms, refresh, tombs.len() as int, key);
}

/// A chunk leaves every key alone that it names in no register and in no marker, and it
/// changes neither the prune frontiers nor the delete counter.
pub proof fn law_chunk_touches_only_its_keys<C: RegAdapter>(
    before: TablesView<C::Reg>,
    after: TablesView<C::Reg>,
    regs: Seq<(u128, C::Reg)>,
    outcomes: Seq<C::Reg>,
    keeps: bool,
    tombs: Seq<(u128, TombstoneView)>,
    now_unix_ms: u64,
    refresh: bool,
    live: Seq<u128>,
    deleted: Seq<u128>,
    key: u128,
)
    requires
        chunk_relates::<C>(
            before,
            after,
            regs,
            outcomes,
            keeps,
            tombs,
            now_unix_ms,
            refresh,
            live,
            deleted,
        ),
    ensures
        after.frontiers == before.frontiers,
        after.tomb_seq == before.tomb_seq,
        (forall|k: int| #![trigger regs[k]] 0 <= k < regs.len() ==> regs[k].0 != key) && (forall|
            k: int,
        |
            #![trigger tombs[k]]
            0 <= k < tombs.len() ==> tombs[k].0 != key) ==> {
            &&& after.values.contains_key(key) == before.values.contains_key(key)
            &&& before.values.contains_key(key) ==> after.values[key] == before.values[key]
            &&& after.tombs.contains_key(key) == before.tombs.contains_key(key)
            &&& before.tombs.contains_key(key) ==> after.tombs[key] == before.tombs[key]
            &&& !live.contains(key)
            &&& !deleted.contains(key)
        },
{
    let n = regs.len() as int;
    let middle = after_regs(before, regs, outcomes, keeps, tombs, n);
    lemma_regs_frame(before, regs, outcomes, keeps, tombs, n, key);
    lemma_tombs_frame(middle, tombs, now_unix_ms, refresh, tombs.len() as int, key);
}

/// The marker is at or below what was forgotten of its origin.
pub open spec fn was_forgotten(
    frontiers: Map<Seq<u8>, u64>,
    record: TombstoneView,
) -> bool {
    frontiers.contains_key(record.origin_actor) && frontiers[record.origin_actor] > 0
        && record.sequence <= frontiers[record.origin_actor]
}

/// The marker is what came in, with its time of arrival where it carried none.
pub open spec fn arrived_as(
    stored: TombstoneView,
    incoming: TombstoneView,
    now_unix_ms: u64,
) -> bool {
    &&& stored.sequence == incoming.sequence
    &&& stored.origin_actor == incoming.origin_actor
    &&& incoming.observed_at_unix_ms != 0 ==> stored.observed_at_unix_ms
        == incoming.observed_at_unix_ms
    &&& incoming.observed_at_unix_ms == 0 ==> stored.observed_at_unix_ms == now_unix_ms
}

/// A marker that nothing has forgotten leaves its key deleted, under a marker at least as
/// new as every such marker of the key and as the one that was stored.
proof fn lemma_marker_deletes<R>(
    rows: TablesView<R>,
    tombs: Seq<(u128, TombstoneView)>,
    now_unix_ms: u64,
    n: int,
    key: u128,
)
    requires
        0 <= n <= tombs.len(),
    ensures
        ({
            let after = after_tombs(rows, tombs, now_unix_ms, n);
            &&& (forall|k: int|
                #![trigger tombs[k]]
                0 <= k < n && tombs[k].0 == key && !was_forgotten(rows.frontiers, tombs[k].1)
                    ==> after.tombs.contains_key(key) && !after.values.contains_key(key)
                    && after.tombs[key].sequence >= tombs[k].1.sequence)
            &&& rows.tombs.contains_key(key) ==> after.tombs.contains_key(key)
                && after.tombs[key].sequence >= rows.tombs[key].sequence
            &&& after.tombs.contains_key(key) ==> (rows.tombs.contains_key(key)
                && after.tombs[key] == rows.tombs[key]) || exists|k: int|
                #![trigger tombs[k]]
                0 <= k < n && tombs[k].0 == key && !was_forgotten(rows.frontiers, tombs[k].1)
                    && arrived_as(after.tombs[key], tombs[k].1, now_unix_ms)
            &&& (forall|k: int|
                #![trigger tombs[k]]
                0 <= k < n && tombs[k].0 == key ==> was_forgotten(rows.frontiers, tombs[k].1))
                ==> after.values.contains_key(key) == rows.values.contains_key(key) && (
            rows.values.contains_key(key) ==> after.values[key] == rows.values[key])
                && after.tombs.contains_key(key) == rows.tombs.contains_key(key) && (
            rows.tombs.contains_key(key) ==> after.tombs[key] == rows.tombs[key])
        }),
    decreases n,
{
    if n > 0 {
        lemma_marker_deletes(rows, tombs, now_unix_ms, n - 1, key);
        lemma_tombs_frame(rows, tombs, now_unix_ms, true, n - 1, key);
        let (at, record) = tombs[n - 1];
        let before = after_tombs(rows, tombs, now_unix_ms, n - 1);
        let after = after_tombs(rows, tombs, now_unix_ms, n);
        assert(super::is_pruned(before, record) == was_forgotten(rows.frontiers, record));
        assert forall|k: int|
            #![trigger tombs[k]]
            0 <= k < n && tombs[k].0 == key && !was_forgotten(
                rows.frontiers,
                tombs[k].1,
            ) implies after.tombs.contains_key(key) && !after.values.contains_key(key)
            && after.tombs[key].sequence >= tombs[k].1.sequence by {
            if k < n - 1 {
                assert(before.tombs.contains_key(key));
            }
        }
        if after.tombs.contains_key(key) && after.tombs != before.tombs && at == key
            && !was_forgotten(rows.frontiers, record) {
            if !(before.tombs.contains_key(key) && after.tombs[key] == before.tombs[key]) {
                assert(arrived_as(after.tombs[key], tombs[n - 1].1, now_unix_ms));
            }
        }
        if at == key && !was_forgotten(rows.frontiers, record) {
            assert(!was_forgotten(rows.frontiers, tombs[n - 1].1));
        }
        if forall|k: int|
            #![trigger tombs[k]]
            0 <= k < n && tombs[k].0 == key ==> was_forgotten(rows.frontiers, tombs[k].1) {
            if at == key {
                assert(was_forgotten(rows.frontiers, tombs[n - 1].1));
            }
        }
    }
}

/// A marker of a chunk that nothing has forgotten leaves its key deleted, under a marker
/// that is at least as new and that the chunk brought or the store had. Where the chunk has
/// no register for the key, it is also at least as new as the one that the store had.
pub proof fn law_chunk_markers_delete<C: RegAdapter>(
    before: TablesView<C::Reg>,
    after: TablesView<C::Reg>,
    regs: Seq<(u128, C::Reg)>,
    outcomes: Seq<C::Reg>,
    keeps: bool,
    tombs: Seq<(u128, TombstoneView)>,
    now_unix_ms: u64,
    refresh: bool,
    live: Seq<u128>,
    deleted: Seq<u128>,
    j: int,
)
    requires
        chunk_relates::<C>(
            before,
            after,
            regs,
            outcomes,
            keeps,
            tombs,
            now_unix_ms,
            refresh,
            live,
            deleted,
        ),
        0 <= j < tombs.len(),
        !was_forgotten(before.frontiers, tombs[j].1),
    ensures
        after.tombs.contains_key(tombs[j].0),
        !after.values.contains_key(tombs[j].0),
        after.tombs[tombs[j].0].sequence >= tombs[j].1.sequence,
        (before.tombs.contains_key(tombs[j].0) && after.tombs[tombs[j].0]
            == before.tombs[tombs[j].0]) || exists|k: int|
            #![trigger tombs[k]]
            0 <= k < tombs.len() && tombs[k].0 == tombs[j].0 && arrived_as(
                after.tombs[tombs[j].0],
                tombs[k].1,
                now_unix_ms,
            ),
        before.tombs.contains_key(tombs[j].0) && (forall|k: int|
            #![trigger regs[k]]
            0 <= k < regs.len() ==> regs[k].0 != tombs[j].0) ==> after.tombs[tombs[j].0].sequence
            >= before.tombs[tombs[j].0].sequence,
{
    let key = tombs[j].0;
    let n = regs.len() as int;
    let m = tombs.len() as int;
    let middle = after_regs(before, regs, outcomes, keeps, tombs, n);
    lemma_regs_frame(before, regs, outcomes, keeps, tombs, n, key);
    lemma_marker_deletes(middle, tombs, now_unix_ms, m, key);
    if exists|k: int| #![trigger regs[k]] 0 <= k < n && regs[k].0 == key {
        let k = choose|k: int| #![trigger regs[k]] 0 <= k < n && regs[k].0 == key;
        lemma_register_makes_live(before, regs, outcomes, keeps, tombs, n, k);
    }
}

/// A key for which a chunk has no register, and only markers that were forgotten, stays as
/// it is.
pub proof fn law_chunk_cannot_bring_forgotten_markers_back<C: RegAdapter>(
    before: TablesView<C::Reg>,
    after: TablesView<C::Reg>,
    regs: Seq<(u128, C::Reg)>,
    outcomes: Seq<C::Reg>,
    keeps: bool,
    tombs: Seq<(u128, TombstoneView)>,
    now_unix_ms: u64,
    refresh: bool,
    live: Seq<u128>,
    deleted: Seq<u128>,
    key: u128,
)
    requires
        chunk_relates::<C>(
            before,
            after,
            regs,
            outcomes,
            keeps,
            tombs,
            now_unix_ms,
            refresh,
            live,
            deleted,
        ),
        forall|k: int| #![trigger regs[k]] 0 <= k < regs.len() ==> regs[k].0 != key,
        forall|k: int|
            #![trigger tombs[k]]
            0 <= k < tombs.len() && tombs[k].0 == key ==> was_forgotten(
                before.frontiers,
                tombs[k].1,
            ),
    ensures
        after.values.contains_key(key) == before.values.contains_key(key),
        before.values.contains_key(key) ==> after.values[key] == before.values[key],
        after.tombs.contains_key(key) == before.tombs.contains_key(key),
        before.tombs.contains_key(key) ==> after.tombs[key] == before.tombs[key],
{
    let n = regs.len() as int;
    let middle = after_regs(before, regs, outcomes, keeps, tombs, n);
    lemma_regs_frame(before, regs, outcomes, keeps, tombs, n, key);
    lemma_marker_deletes(middle, tombs, now_unix_ms, tombs.len() as int, key);
}

/// Markers change no key that they do not report.
proof fn lemma_reported_deletes<R>(
    rows: TablesView<R>,
    tombs: Seq<(u128, TombstoneView)>,
    now_unix_ms: u64,
    refresh: bool,
    n: int,
    key: u128,
)
    requires
        0 <= n <= tombs.len(),
        !deleted_keys(rows, tombs, now_unix_ms, refresh, n).contains(key),
    ensures
        ({
            let after = after_tombs(rows, tombs, now_unix_ms, n);
            &&& after.values.contains_key(key) == rows.values.contains_key(key)
            &&& rows.values.contains_key(key) ==> after.values[key] == rows.values[key]
            &&& after.tombs.contains_key(key) == rows.tombs.contains_key(key)
            &&& rows.tombs.contains_key(key) ==> after.tombs[key] == rows.tombs[key]
        }),
    decreases n,
{
    if n > 0 {
        lemma_push_contains(
            deleted_keys(rows, tombs, now_unix_ms, refresh, n - 1),
            tombs[n - 1].0,
        );
        lemma_reported_deletes(rows, tombs, now_unix_ms, refresh, n - 1, key);
    }
}

/// Registers change no key that they do not report.
proof fn lemma_reported_live<R>(
    rows: TablesView<R>,
    regs: Seq<(u128, R)>,
    outcomes: Seq<R>,
    keeps: bool,
    tombs: Seq<(u128, TombstoneView)>,
    n: int,
    key: u128,
)
    requires
        0 <= n <= regs.len(),
        !live_keys(rows, regs, outcomes, keeps, tombs, n).contains(key),
    ensures
        ({
            let after = after_regs(rows, regs, outcomes, keeps, tombs, n);
            &&& after.values.contains_key(key) == rows.values.contains_key(key)
            &&& rows.values.contains_key(key) ==> after.values[key] == rows.values[key]
            &&& after.tombs.contains_key(key) == rows.tombs.contains_key(key)
            &&& rows.tombs.contains_key(key) ==> after.tombs[key] == rows.tombs[key]
        }),
    decreases n,
{
    if n > 0 {
        lemma_push_contains(live_keys(rows, regs, outcomes, keeps, tombs, n - 1), regs[n - 1].0);
        lemma_reported_live(rows, regs, outcomes, keeps, tombs, n - 1, key);
    }
}

/// Every key whose value or marker a chunk changed is among the keys that it reports, so
/// that its leaf is refreshed, and the change counter moves whenever anything changed.
pub proof fn law_chunk_reports_what_it_changed<C: RegAdapter>(
    before: TablesView<C::Reg>,
    after: TablesView<C::Reg>,
    regs: Seq<(u128, C::Reg)>,
    outcomes: Seq<C::Reg>,
    keeps: bool,
    tombs: Seq<(u128, TombstoneView)>,
    now_unix_ms: u64,
    refresh: bool,
    live: Seq<u128>,
    deleted: Seq<u128>,
    key: u128,
    clock: u64,
)
    requires
        chunk_relates::<C>(
            before,
            after,
            regs,
            outcomes,
            keeps,
            tombs,
            now_unix_ms,
            refresh,
            live,
            deleted,
        ),
    ensures
        !live.contains(key) && !deleted.contains(key) ==> {
            &&& after.values.contains_key(key) == before.values.contains_key(key)
            &&& before.values.contains_key(key) ==> after.values[key] == before.values[key]
            &&& after.tombs.contains_key(key) == before.tombs.contains_key(key)
            &&& before.tombs.contains_key(key) ==> after.tombs[key] == before.tombs[key]
        },
        clock_after(clock, live, deleted) == clock ==> live.len() == 0 && deleted.len() == 0,
        live.len() == 0 && deleted.len() == 0 ==> clock_after(clock, live, deleted) == clock,
        clock < u64::MAX ==> clock_after(clock, live, deleted) <= clock + 1,
{
    let n = regs.len() as int;
    let middle = after_regs(before, regs, outcomes, keeps, tombs, n);
    if !live.contains(key) && !deleted.contains(key) {
        lemma_reported_live(before, regs, outcomes, keeps, tombs, n, key);
        lemma_reported_deletes(middle, tombs, now_unix_ms, refresh, tombs.len() as int, key);
    }
}

/// Of two markers of one key the one with the higher delete generation stays, and between
/// equal generations the one whose origin has the larger number, whichever comes first.
pub proof fn law_newer_marker_wins(
    a: TombstoneView,
    b: TombstoneView,
    actor_a: u128,
    actor_b: u128,
)
    requires
        a.origin_actor == super::actor_bytes(actor_a),
        b.origin_actor == super::actor_bytes(actor_b),
        actor_a != actor_b,
        a.sequence > b.sequence || (a.sequence == b.sequence && actor_a > actor_b),
    ensures
        crate::store::tombstone::winning(Some(a), b) == a,
        crate::store::tombstone::winning(Some(b), a) == a,
        crate::store::tombstone::winning(None, a) == a,
{
    crate::bytes::lemma_byte_ranges();
    crate::bytes::law_be_round_trip(actor_a as nat, 16);
    crate::bytes::law_be_round_trip(actor_b as nat, 16);
    crate::bytes::law_be_order(a.origin_actor, b.origin_actor);
    crate::bytes::law_be_order(b.origin_actor, a.origin_actor);
    lemma_bytes_order(a.origin_actor, b.origin_actor);
}

} // verus!
