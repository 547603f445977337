//! What listings, exports and page comparisons hold, key by key and page by page.

use vstd::prelude::*;

use super::export::{
    encodes_rows, compute_want_from_have, exported, in_page, is_covered, is_wanted, known_digest,
    law_export_is_exact, row_keys, wanted, PageView,
};
use super::{CrdtMstStore, RegAdapter, StoreBuilder};
use crate::bytes::{
    be_value, bytes_less, law_be_order, law_be_round_trip, lemma_be_len, lemma_byte_ranges,
    lemma_bytes_order,
};
use crate::store::error::StoreError;
use crate::store::frontier::{frontier_order, frontier_rows};
use crate::store::merkle::PageDigestRange;
use crate::store::tables::{lists_keys, StoreTables};
use crate::store::tombstone::TombstoneRecord;

verus! {

/// The key stands in the list.
pub open spec fn has_row<T>(rows: Seq<(u128, T)>, key: u128) -> bool {
    exists|i: int| #![trigger rows[i]] 0 <= i < rows.len() && rows[i].0 == key
}

/// Listed keys are the keys of the listed rows.
proof fn lemma_row_keys<T>(rows: Seq<(u128, T)>, key: u128)
    ensures
        row_keys(rows).contains(key) <==> has_row(rows, key),
        row_keys(rows).len() == rows.len(),
        forall|i: int| #![trigger rows[i]] 0 <= i < rows.len() ==> row_keys(rows)[i] == rows[i].0,
{
    let keys = row_keys(rows);
    assert forall|i: int| #![trigger rows[i]] 0 <= i < rows.len() implies keys[i]
        == rows[i].0 by {}
    if keys.contains(key) {
        let i = keys.index_of(key);
        assert(rows[i].0 == key);
    }
    if has_row(rows, key) {
        let i = choose|i: int| #![trigger rows[i]] 0 <= i < rows.len() && rows[i].0 == key;
        assert(keys[i] == key);
    }
}

/// A page covers exactly the keys from its first to its last, both included.
pub proof fn law_pages_are_inclusive(key: u128, page: PageDigestRange)
    requires
        page.start@.len() == 16,
        page.end@.len() == 16,
    ensures
        in_page(key, page) <==> be_value(page.start@) <= key <= be_value(page.end@),
{
    let raw = crate::bytes::be_bytes(key as nat, 16);
    lemma_byte_ranges();
    lemma_be_len(key as nat, 16);
    law_be_round_trip(key as nat, 16);
    law_be_order(raw, page.start@);
    law_be_order(page.end@, raw);
}

/// A key of the store is exported exactly where one of the wanted pages covers it, once,
/// with its register or its marker; nothing else is exported.
pub proof fn law_export_call<C: RegAdapter>(
    store: CrdtMstStore<C>,
    want: &[PageDigestRange],
    out: (Vec<(u128, &C::Reg)>, Vec<(u128, TombstoneRecord)>),
    key: u128,
)
    requires
        call_ensures(CrdtMstStore::<C>::export_page_ranges_delta, (&store, want), out),
    ensures
        ({
            let rows = store.rows();
            let asked = exists|i: int|
                #![trigger want@[i]]
                0 <= i < want@.len() && in_page(key, want@[i]);
            &&& has_row(out.0@, key) <==> rows.values.contains_key(key) && asked
            &&& has_row(out.1@, key) <==> rows.tombs.contains_key(key) && asked
            &&& forall|i: int|
                #![trigger out.0@[i]]
                0 <= i < out.0@.len() ==> rows.values.contains_key(out.0@[i].0) && *out.0@[i].1
                    == rows.values[out.0@[i].0]
            &&& forall|i: int|
                #![trigger out.1@[i]]
                0 <= i < out.1@.len() ==> rows.tombs.contains_key(out.1@[i].0) && out.1@[i].1@
                    == rows.tombs[out.1@[i].0]
            &&& forall|i: int, j: int|
                #![trigger out.0@[i], out.0@[j]]
                0 <= i < j < out.0@.len() ==> out.0@[i].0 != out.0@[j].0
        }),
{
    let n = want@.len() as int;
    let live = choose|keys: Seq<u128>| #[trigger]
        lists_keys(keys, store.rows().values.dom()) && row_keys(out.0@) == exported(keys, want@, n);
    let dead = choose|keys: Seq<u128>| #[trigger]
        lists_keys(keys, store.rows().tombs.dom()) && row_keys(out.1@) == exported(keys, want@, n);
    law_export_is_exact(live, store.rows().values.dom(), want@, n);
    law_export_is_exact(dead, store.rows().tombs.dom(), want@, n);
    lemma_row_keys(out.0@, key);
    lemma_row_keys(out.1@, key);
    assert(exported(live, want@, n).contains(key) <==> store.rows().values.dom().contains(key)
        && is_covered(key, want@, n));
    assert(exported(dead, want@, n).contains(key) <==> store.rows().tombs.dom().contains(key)
        && is_covered(key, want@, n));
}

/// A listing shows every live key with a snapshot of its register under the root-schema
/// version and every deleted key with its marker, each in increasing order.
pub proof fn law_load_call<C: RegAdapter>(
    store: CrdtMstStore<C>,
    out: (Vec<(u128, C::Snapshot)>, Vec<(u128, TombstoneRecord)>),
    key: u128,
)
    requires
        call_ensures(CrdtMstStore::<C>::load_all, (&store,), out),
    ensures
        ({
            let rows = store.rows();
            &&& has_row(out.0@, key) <==> rows.values.contains_key(key)
            &&& has_row(out.1@, key) <==> rows.tombs.contains_key(key)
            &&& forall|i: int|
                #![trigger out.0@[i]]
                0 <= i < out.0@.len() ==> call_ensures(
                    C::snapshot_reg_at_version,
                    (&rows.values[out.0@[i].0], store.version()),
                    out.0@[i].1,
                )
            &&& forall|i: int|
                #![trigger out.1@[i]]
                0 <= i < out.1@.len() ==> out.1@[i].1@ == rows.tombs[out.1@[i].0]
            &&& forall|i: int, j: int|
                #![trigger out.0@[i], out.0@[j]]
                0 <= i < j < out.0@.len() ==> out.0@[i].0 < out.0@[j].0
            &&& forall|i: int, j: int|
                #![trigger out.1@[i], out.1@[j]]
                0 <= i < j < out.1@.len() ==> out.1@[i].0 < out.1@[j].0
        }),
{
    lemma_listed(out.0@, store.rows().values.dom(), key);
    lemma_listed(out.1@, store.rows().tombs.dom(), key);
}

/// A list of registers shows every live key with its register and every deleted key with
/// its marker.
pub proof fn law_load_registers_call<C: RegAdapter>(
    store: CrdtMstStore<C>,
    out: (Vec<(u128, &C::Reg)>, Vec<(u128, TombstoneRecord)>),
    key: u128,
)
    requires
        call_ensures(CrdtMstStore::<C>::load_all_regs, (&store,), out),
    ensures
        ({
            let rows = store.rows();
            &&& has_row(out.0@, key) <==> rows.values.contains_key(key)
            &&& has_row(out.1@, key) <==> rows.tombs.contains_key(key)
            &&& forall|i: int|
                #![trigger out.0@[i]]
                0 <= i < out.0@.len() ==> *out.0@[i].1 == rows.values[out.0@[i].0]
            &&& forall|i: int|
                #![trigger out.1@[i]]
                0 <= i < out.1@.len() ==> out.1@[i].1@ == rows.tombs[out.1@[i].0]
        }),
{
    lemma_listed(out.0@, store.rows().values.dom(), key);
    lemma_listed(out.1@, store.rows().tombs.dom(), key);
}

/// Rows whose keys list a set hold exactly its keys, in increasing order.
proof fn lemma_listed<T>(rows: Seq<(u128, T)>, all: Set<u128>, key: u128)
    requires
        lists_keys(row_keys(rows), all),
    ensures
        has_row(rows, key) <==> all.contains(key),
        forall|i: int, j: int|
            #![trigger rows[i], rows[j]]
            0 <= i < j < rows.len() ==> rows[i].0 < rows[j].0,
{
    let keys = row_keys(rows);
    lemma_row_keys(rows, key);
    if has_row(rows, key) {
        let i = choose|i: int| #![trigger rows[i]] 0 <= i < rows.len() && rows[i].0 == key;
        assert(all.contains(keys[i]));
    }
    assert forall|i: int, j: int|
        #![trigger rows[i], rows[j]]
        0 <= i < j < rows.len() implies rows[i].0 < rows[j].0 by {
        assert(keys[i] < keys[j]);
    }
}

/// The digest that is known for some bounds is that of a local page with these bounds.
proof fn lemma_known(local: Seq<PageDigestRange>, n: int, start: Seq<u8>, end: Seq<u8>)
    requires
        0 <= n <= local.len(),
    ensures
        match known_digest(local, n, start, end) {
            Some(digest) => exists|i: int|
                #![trigger local[i]]
                0 <= i < n && local[i].start@ == start && local[i].end@ == end && local[i].hash@
                    == digest && forall|j: int|
                    #![trigger local[j]]
                    i < j < n ==> local[j].start@ != start || local[j].end@ != end,
            None => forall|i: int|
                #![trigger local[i]]
                0 <= i < n ==> local[i].start@ != start || local[i].end@ != end,
        },
    decreases n,
{
    if n > 0 {
        if local[n - 1].start@ == start && local[n - 1].end@ == end {
            assert(local[n - 1].hash@ == local[n - 1].hash@);
        } else {
            lemma_known(local, n - 1, start, end);
            if let Some(digest) = known_digest(local, n - 1, start, end) {
                let i = choose|i: int|
                    #![trigger local[i]]
                    0 <= i < n - 1 && local[i].start@ == start && local[i].end@ == end
                        && local[i].hash@ == digest && forall|j: int|
                        #![trigger local[j]]
                        i < j < n - 1 ==> local[j].start@ != start || local[j].end@ != end;
                assert(local[i].hash@ == digest);
            }
        }
    }
}

/// Wanted pages are those of the remote side that are wanted.
proof fn lemma_wanted(
    remote: Seq<PageDigestRange>,
    local: Seq<PageDigestRange>,
    n: int,
    page: PageView,
)
    requires
        0 <= n <= remote.len(),
    ensures
        wanted(remote, local, n).contains(page) <==> is_wanted(page, local) && exists|i: int|
            #![trigger remote[i]]
            0 <= i < n && remote[i]@ == page,
    decreases n,
{
    let out = wanted(remote, local, n);
    if n > 0 {
        let before = wanted(remote, local, n - 1);
        lemma_wanted(remote, local, n - 1, page);
        if is_wanted(remote[n - 1]@, local) {
            assert(out == before.push(remote[n - 1]@));
            if before.contains(page) {
                let k = before.index_of(page);
                assert(out[k] == page);
            }
            assert(out[before.len() as int] == remote[n - 1]@);
            if out.contains(page) && !before.contains(page) {
                let k = out.index_of(page);
                assert(k == before.len()) by {
                    if k < before.len() {
                        assert(before[k] == page);
                    }
                }
                assert(remote[n - 1]@ == page);
            }
        }
    }
}

/// A remote page is asked for where no local page has its bounds, and where the only local
/// page with its bounds has another digest; it is not asked for where that page has its
/// digest. Nothing else is asked for.
pub proof fn law_want_call(
    remote: &[PageDigestRange],
    local: &[PageDigestRange],
    out: Vec<PageDigestRange>,
    page: PageView,
    i: int,
)
    requires
        call_ensures(compute_want_from_have, (remote, local), out),
    ensures
        ({
            let asked = exists|k: int| #![trigger out@[k]] 0 <= k < out@.len() && out@[k]@ == page;
            let offered = exists|k: int|
                #![trigger remote@[k]]
                0 <= k < remote@.len() && remote@[k]@ == page;
            &&& asked ==> offered
            &&& offered && (forall|j: int|
                #![trigger local@[j]]
                0 <= j < local@.len() ==> local@[j].start@ != page.start || local@[j].end@
                    != page.end) ==> asked
            &&& offered && 0 <= i < local@.len() && local@[i].start@ == page.start
                && local@[i].end@ == page.end && (forall|j: int|
                #![trigger local@[j]]
                0 <= j < local@.len() && j != i ==> local@[j].start@ != page.start || local@[j].end@
                    != page.end) ==> (asked <==> local@[i].hash@ != page.hash)
        }),
{
    let show = |page: PageDigestRange| page@;
    let views = out@.map_values(show);
    lemma_wanted(remote@, local@, remote@.len() as int, page);
    lemma_known(local@, local@.len() as int, page.start, page.end);
    assert forall|k: int| #![trigger out@[k]] 0 <= k < out@.len() implies views[k] == out@[k]@ by {}
    assert(out@.map_values(|page: PageDigestRange| page@) =~= views);
    if exists|k: int| #![trigger out@[k]] 0 <= k < out@.len() && out@[k]@ == page {
        let k = choose|k: int| #![trigger out@[k]] 0 <= k < out@.len() && out@[k]@ == page;
        assert(views[k] == page);
    }
    if views.contains(page) {
        let k = views.index_of(page);
        assert(out@[k]@ == page);
    }
    if 0 <= i < local@.len() && local@[i].start@ == page.start && local@[i].end@ == page.end {
        assert(local@[i].hash@ == local@[i].hash@);
    }
}

/// A key is looked up in its own row alone: it has a value, a marker or neither.
pub proof fn law_lookup_calls<C: RegAdapter>(
    store: CrdtMstStore<C>,
    k: u128,
    valued: bool,
    deleted: bool,
    record: Option<&TombstoneRecord>,
    reg: Option<&C::Reg>,
)
    requires
        call_ensures(CrdtMstStore::<C>::has_value, (&store, k), valued),
        call_ensures(CrdtMstStore::<C>::has_tombstone, (&store, k), deleted),
        call_ensures(CrdtMstStore::<C>::tombstone, (&store, k), record),
        call_ensures(CrdtMstStore::<C>::get_reg, (&store, k), reg),
    ensures
        valued <==> store.rows().values.contains_key(k),
        deleted <==> store.rows().tombs.contains_key(k),
        !(valued && deleted),
        record is Some <==> deleted,
        record matches Some(found) ==> found@ == store.rows().tombs[k],
        reg is Some <==> valued,
        reg matches Some(found) ==> *found == store.rows().values[k],
{
}

/// Registers are written in their order, each behind the sixteen bytes of its key, and
/// either all of them are or the refusal of one is told.
pub proof fn law_register_encoding_call<C: RegAdapter>(
    store: CrdtMstStore<C>,
    regs: &[(u128, &C::Reg)],
    out: Result<Vec<(Vec<u8>, Vec<u8>)>, StoreError>,
    i: int,
)
    requires
        call_ensures(CrdtMstStore::<C>::encode_register_delta, (&store, regs), out),
        0 <= i < regs@.len(),
    ensures
        out matches Ok(encoded) ==> {
            &&& encoded@.len() == regs@.len()
            &&& encoded@[i].0@.len() == 16
            &&& be_value(encoded@[i].0@) == regs@[i].0
            &&& call_ensures(
                C::encode_reg,
                (regs@[i].1,),
                Ok::<Vec<u8>, StoreError>(encoded@[i].1),
            )
        },
        out matches Err(error) ==> exists|at: int|
            #![trigger regs@[at]]
            0 <= at < regs@.len() && call_ensures(
                C::encode_reg,
                (regs@[at].1,),
                Err::<Vec<u8>, StoreError>(error),
            ),
{
    lemma_byte_ranges();
    if out is Ok {
        lemma_be_len(regs@[i].0 as nat, 16);
        law_be_round_trip(regs@[i].0 as nat, 16);
        assert(out->Ok_0@[i].0@ == crate::bytes::be_bytes(regs@[i].0 as nat, 16));
    } else {
        let encoded = choose|encoded: Seq<(Vec<u8>, Vec<u8>)>|
            {
                &&& #[trigger] encodes_rows::<C>(regs@, encoded)
                &&& encoded.len() < regs@.len()
                &&& call_ensures(
                    C::encode_reg,
                    (regs@[encoded.len() as int].1,),
                    Err::<Vec<u8>, StoreError>(out->Err_0),
                )
            };
        let at = encoded.len() as int;
        assert(0 <= at < regs@.len() && call_ensures(
            C::encode_reg,
            (regs@[at].1,),
            Err::<Vec<u8>, StoreError>(out->Err_0),
        ));
    }
}

/// A store is opened on the rows that it is given, with an empty index, the first schema and
/// a clock at one; local markers give way unless it is built to keep them.
pub proof fn law_opening_calls<C: RegAdapter>(
    tables: StoreTables<C::Reg>,
    actor: u128,
    started: StoreBuilder,
    enabled: bool,
    set: StoreBuilder,
    built: CrdtMstStore<C>,
    opened: CrdtMstStore<C>,
)
    requires
        call_ensures(CrdtMstStore::<C>::builder, (actor,), started),
        call_ensures(StoreBuilder::with_preserve_local_tombs, (started, enabled), set),
        call_ensures(StoreBuilder::build::<C>, (set, tables), built),
        call_ensures(CrdtMstStore::<C>::open, (tables, actor), opened),
    ensures
        built.rows() == tables@ && opened.rows() == tables@,
        built.actor_id() == actor && opened.actor_id() == actor,
        built.keeps_local_tombs() == enabled,
        !opened.keeps_local_tombs(),
        forall|key: u128|
            !#[trigger] built.leaves().contains_key(key) && !opened.leaves().contains_key(key),
        built.version() == opened.version(),
        built.clock() == 1 && opened.clock() == 1,
{
}

/// The frontiers are listed by rising actor, each once and with its number, which is not
/// zero; an actor that is not listed has the frontier zero.
pub proof fn law_frontier_list_call<C: RegAdapter>(
    store: CrdtMstStore<C>,
    out: Vec<(Vec<u8>, u64)>,
    actor: &[u8],
    reached: u64,
    i: int,
)
    requires
        call_ensures(CrdtMstStore::<C>::load_tombstone_prune_frontiers, (&store,), out),
        call_ensures(CrdtMstStore::<C>::tombstone_prune_frontier, (&store, actor), reached),
        0 <= i < out@.len(),
    ensures
        out@[i].1 > 0,
        out@[i].0@ == actor@ ==> out@[i].1 == reached,
        reached > 0 ==> exists|k: int|
            #![trigger out@[k]]
            0 <= k < out@.len() && out@[k].0@ == actor@,
{
    lemma_listed_frontier(out@, actor@);
}

/// A listed frontier is looked up by its actor.
proof fn lemma_listed_frontier(rows: Seq<(Vec<u8>, u64)>, actor: Seq<u8>)
    requires
        frontier_order(rows),
    ensures
        frontier_rows(rows).contains_key(actor) <==> exists|k: int|
            #![trigger rows[k]]
            0 <= k < rows.len() && rows[k].0@ == actor,
        forall|k: int|
            #![trigger rows[k]]
            0 <= k < rows.len() && rows[k].0@ == actor ==> frontier_rows(rows)[actor] == rows[k].1,
    decreases rows.len(),
{
    if rows.len() > 0 {
        let low = rows.drop_last();
        assert forall|k: int| #![trigger low[k]] 0 <= k < low.len() implies low[k] == rows[k] by {}
        assert forall|k: int, j: int|
            #![trigger low[k], low[j]]
            0 <= k < j < low.len() implies bytes_less(low[k].0@, low[j].0@) by {
            assert(low[k] == rows[k] && low[j] == rows[j]);
        }
        lemma_listed_frontier(low, actor);
        assert forall|k: int|
            #![trigger rows[k]]
            0 <= k < rows.len() && rows[k].0@ == actor implies frontier_rows(rows)[actor]
            == rows[k].1 by {
            if k < rows.len() - 1 {
                assert(low[k] == rows[k]);
                lemma_bytes_order(rows[k].0@, rows.last().0@);
                assert(bytes_less(rows[k].0@, rows.last().0@));
            }
        }
        if frontier_rows(rows).contains_key(actor) && actor != rows.last().0@ {
            let k = choose|k: int| #![trigger low[k]] 0 <= k < low.len() && low[k].0@ == actor;
            assert(rows[k].0@ == actor);
        }
        if exists|k: int| #![trigger rows[k]] 0 <= k < rows.len() && rows[k].0@ == actor {
            let k = choose|k: int| #![trigger rows[k]] 0 <= k < rows.len() && rows[k].0@ == actor;
            if k < rows.len() - 1 {
                assert(low[k].0@ == actor);
            }
        }
    }
}

} // verus!
