//! What a call on a store leaves behind, key by key.

use vstd::prelude::*;

use super::{is_current, CrdtMstStore, RegAdapter};
use crate::bytes::{be_value, law_be_round_trip, lemma_be_len, lemma_byte_ranges};
use crate::store::merkle::{active_leaf, deleted_leaf};
use crate::store::tables::TablesView;

verus! {

/// Every key but one has the register and the marker that it had.
pub open spec fn keeps_other_keys<R>(
    before: TablesView<R>,
    after: TablesView<R>,
    key: u128,
) -> bool {
    forall|other: u128|
        #![trigger after.values.contains_key(other)]
        #![trigger after.tombs.contains_key(other)]
        #![trigger before.values.contains_key(other)]
        #![trigger before.tombs.contains_key(other)]
        other != key ==> {
            &&& after.values.contains_key(other) == before.values.contains_key(other)
            &&& before.values.contains_key(other) ==> after.values[other] == before.values[other]
            &&& after.tombs.contains_key(other) == before.tombs.contains_key(other)
            &&& before.tombs.contains_key(other) ==> after.tombs[other] == before.tombs[other]
        }
}

/// Every key but one has the leaf that it had.
pub open spec fn keeps_other_leaves(
    before: Map<u128, Seq<u8>>,
    after: Map<u128, Seq<u8>>,
    key: u128,
) -> bool {
    forall|other: u128| #[trigger]
        after.contains_key(other) && other != key ==> before.contains_key(other) && after[other]
            == before[other]
}

/// The store has the actor, the policy and the root-schema version that it had.
pub open spec fn keeps_configuration<C: RegAdapter>(
    before: CrdtMstStore<C>,
    after: CrdtMstStore<C>,
) -> bool {
    &&& after.actor_id() == before.actor_id()
    &&& after.version() == before.version()
    &&& after.keeps_local_tombs() == before.keeps_local_tombs()
}

/// The change counter is one further, and after its largest value it starts over.
pub open spec fn ticks(before: u64, after: u64) -> bool {
    if before < 0xffff_ffff_ffff_ffff { after == before + 1 } else { after == 0 }
}

/// The leaf of a live key begins with zero and goes on with the snapshot; that of a deleted
/// key begins with one and shows the generation in eight bytes, the length of the actor in
/// eight more, and the actor.
pub proof fn law_leaves_show_their_rows(payload: Seq<u8>, sequence: u64, actor: Seq<u8>)
    requires
        actor.len() <= u64::MAX,
    ensures
        active_leaf(payload)[0] == 0,
        active_leaf(payload).skip(1) == payload,
        deleted_leaf(sequence, actor).len() == 17 + actor.len(),
        deleted_leaf(sequence, actor)[0] == 1,
        be_value(deleted_leaf(sequence, actor).subrange(1, 9)) == sequence,
        be_value(deleted_leaf(sequence, actor).subrange(9, 17)) == actor.len(),
        deleted_leaf(sequence, actor).skip(17) == actor,
{
    let leaf = deleted_leaf(sequence, actor);
    lemma_byte_ranges();
    lemma_be_len(sequence as nat, 8);
    lemma_be_len(actor.len() as nat, 8);
    law_be_round_trip(sequence as nat, 8);
    law_be_round_trip(actor.len() as nat, 8);
    assert(active_leaf(payload).skip(1) =~= payload);
    assert(leaf.subrange(1, 9) =~= crate::bytes::be_bytes(sequence as nat, 8));
    assert(leaf.subrange(9, 17) =~= crate::bytes::be_bytes(actor.len() as nat, 8));
    assert(leaf.skip(17) =~= actor);
}

/// An index that is current has a leaf for each live and each deleted key and for no other;
/// the leaf of a deleted key shows the generation and the actor of its marker, and that of a
/// live key a snapshot of its register under the root-schema version.
pub proof fn law_current_indexes<C: RegAdapter>(
    rows: TablesView<C::Reg>,
    version: u32,
    leaves: Map<u128, Seq<u8>>,
    key: u128,
)
    requires
        is_current::<C>(rows, version, leaves),
    ensures
        leaves.contains_key(key) <==> rows.values.contains_key(key) || rows.tombs.contains_key(key),
        rows.tombs.contains_key(key) && rows.tombs[key].origin_actor.len() <= u64::MAX ==> {
            &&& leaves[key][0] == 1
            &&& be_value(leaves[key].subrange(1, 9)) == rows.tombs[key].sequence
            &&& leaves[key].skip(17) == rows.tombs[key].origin_actor
        },
        rows.values.contains_key(key) && !rows.tombs.contains_key(key) ==> leaves[key][0] == 0
            && exists|snapshot: C::Snapshot, payload: Vec<u8>|
            {
                &&& #[trigger] call_ensures(
                    C::snapshot_reg_at_version,
                    (&rows.values[key], version),
                    snapshot,
                )
                &&& #[trigger] call_ensures(C::leaf_payload, (&snapshot,), payload)
                &&& leaves[key].skip(1) == payload@
            },
{
    assert(leaves.contains_key(key) <==> rows.values.contains_key(key) || rows.tombs.contains_key(
        key,
    ));
    if rows.tombs.contains_key(key) && rows.tombs[key].origin_actor.len() <= u64::MAX {
        law_leaves_show_their_rows(
            Seq::empty(),
            rows.tombs[key].sequence,
            rows.tombs[key].origin_actor,
        );
    }
    if rows.values.contains_key(key) && !rows.tombs.contains_key(key) {
        let (snapshot, payload) = choose|snapshot: C::Snapshot, payload: Vec<u8>|
            {
                &&& #[trigger] call_ensures(
                    C::snapshot_reg_at_version,
                    (&rows.values[key], version),
                    snapshot,
                )
                &&& #[trigger] call_ensures(C::leaf_payload, (&snapshot,), payload)
                &&& leaves[key] == active_leaf(payload@)
            };
        law_leaves_show_their_rows(payload@, 0, Seq::empty());
        assert(call_ensures(
            C::snapshot_reg_at_version,
            (&rows.values[key], version),
            snapshot,
        ));
        assert(call_ensures(C::leaf_payload, (&snapshot,), payload));
        assert(leaves[key].skip(1) == payload@);
    }
}

/// A local write makes its key live with what the adapter made of the register before, the
/// store's own actor and the value; it clears the marker of that key, keeps every other key
/// and every frontier, and moves the change counter.
pub proof fn law_write<C: RegAdapter>(store: &mut CrdtMstStore<C>, k: u128, v: C::Value, out: ())
    requires
        call_ensures(CrdtMstStore::<C>::upsert, (store, k, v), out),
    ensures
        ({
            let before = old(store).rows();
            let after = final(store).rows();
            &&& after.values.contains_key(k) && !after.tombs.contains_key(k)
            &&& before.values.contains_key(k) ==> call_ensures(
                C::upsert_reg,
                (Some(before.values[k]), &old(store).actor_id(), v),
                after.values[k],
            )
            &&& !before.values.contains_key(k) ==> call_ensures(
                C::upsert_reg,
                (None, &old(store).actor_id(), v),
                after.values[k],
            )
            &&& keeps_other_keys(before, after, k)
            &&& after.tomb_seq == before.tomb_seq
            &&& after.frontiers == before.frontiers
            &&& keeps_other_leaves(old(store).leaves(), final(store).leaves(), k)
            &&& final(store).leaves().contains_key(k)
            &&& final(store).leaves()[k][0] == 0
            &&& ticks(old(store).clock(), final(store).clock())
            &&& keeps_configuration(*old(store), *final(store))
            &&& old(store).index_is_current() ==> final(store).index_is_current()
        }),
{
}

/// A merged register makes its key live with what the adapter made of the register before
/// and the incoming one; it clears the marker of that key, keeps every other key and every
/// frontier, and moves the change counter.
pub proof fn law_register_merge<C: RegAdapter>(
    store: &mut CrdtMstStore<C>,
    k: u128,
    incoming: C::Reg,
    out: (),
)
    requires
        call_ensures(CrdtMstStore::<C>::merge_register, (store, k, incoming), out),
    ensures
        ({
            let before = old(store).rows();
            let after = final(store).rows();
            &&& after.values.contains_key(k) && !after.tombs.contains_key(k)
            &&& before.values.contains_key(k) ==> call_ensures(
                C::merge_regs,
                (Some(before.values[k]), incoming),
                after.values[k],
            )
            &&& !before.values.contains_key(k) ==> call_ensures(
                C::merge_regs,
                (None, incoming),
                after.values[k],
            )
            &&& keeps_other_keys(before, after, k)
            &&& after.tomb_seq == before.tomb_seq
            &&& after.frontiers == before.frontiers
            &&& keeps_other_leaves(old(store).leaves(), final(store).leaves(), k)
            &&& final(store).leaves().contains_key(k)
            &&& final(store).leaves()[k][0] == 0
            &&& ticks(old(store).clock(), final(store).clock())
            &&& keeps_configuration(*old(store), *final(store))
            &&& old(store).index_is_current() ==> final(store).index_is_current()
        }),
{
}

/// A delete leaves the key without a register and with a marker, whose generation it
/// returns. The first delete of a key takes the next generation of the store, its own actor
/// and the given time; a repeated one keeps the marker and the generation. Every other key
/// and every frontier stays, and the change counter moves.
pub proof fn law_delete<C: RegAdapter>(
    store: &mut CrdtMstStore<C>,
    k: u128,
    now_unix_ms: u64,
    out: u64,
)
    requires
        call_ensures(CrdtMstStore::<C>::remove, (store, k, now_unix_ms), out),
        old(store).rows().tombs.contains_key(k) ==> !old(store).rows().values.contains_key(k),
    ensures
        ({
            let before = old(store).rows();
            let after = final(store).rows();
            let marker = after.tombs[k];
            &&& !after.values.contains_key(k) && after.tombs.contains_key(k)
            &&& marker.sequence == out
            &&& before.tombs.contains_key(k) ==> {
                &&& marker == before.tombs[k]
                &&& after.tomb_seq == before.tomb_seq
            }
            &&& !before.tombs.contains_key(k) ==> {
                &&& marker.observed_at_unix_ms == now_unix_ms
                &&& marker.origin_actor.len() == 16
                &&& be_value(marker.origin_actor) == old(store).actor_id()
                &&& after.tomb_seq == out
                &&& before.tomb_seq < 0xffff_ffff_ffff_ffff ==> out == before.tomb_seq + 1
                &&& before.tomb_seq == 0xffff_ffff_ffff_ffff ==> out == before.tomb_seq
            }
            &&& keeps_other_keys(before, after, k)
            &&& after.frontiers == before.frontiers
            &&& keeps_other_leaves(old(store).leaves(), final(store).leaves(), k)
            &&& final(store).leaves().contains_key(k)
            &&& final(store).leaves()[k][0] == 1
            &&& be_value(final(store).leaves()[k].subrange(1, 9)) == out
            &&& ticks(old(store).clock(), final(store).clock())
            &&& keeps_configuration(*old(store), *final(store))
            &&& old(store).index_is_current() ==> final(store).index_is_current()
        }),
{
    let marker = final(store).rows().tombs[k];
    lemma_byte_ranges();
    lemma_be_len(old(store).actor_id() as nat, 16);
    law_be_round_trip(old(store).actor_id() as nat, 16);
    lemma_deleted_prefix(marker.sequence, marker.origin_actor);
}

/// The first bytes of a deleted leaf show the generation, however long the actor is.
proof fn lemma_deleted_prefix(sequence: u64, actor: Seq<u8>)
    ensures
        deleted_leaf(sequence, actor)[0] == 1,
        be_value(deleted_leaf(sequence, actor).subrange(1, 9)) == sequence,
{
    lemma_byte_ranges();
    lemma_be_len(sequence as nat, 8);
    lemma_be_len(actor.len() as nat, 8);
    law_be_round_trip(sequence as nat, 8);
    assert(deleted_leaf(sequence, actor).subrange(1, 9) =~= crate::bytes::be_bytes(
        sequence as nat,
        8,
    ));
}

/// A purge leaves neither a register nor a marker of the key, hands out no generation,
/// keeps every other key and every frontier, and moves the change counter.
pub proof fn law_purge<C: RegAdapter>(store: &mut CrdtMstStore<C>, k: u128, out: ())
    requires
        call_ensures(CrdtMstStore::<C>::purge_local, (store, k), out),
    ensures
        ({
            let before = old(store).rows();
            let after = final(store).rows();
            &&& !after.values.contains_key(k) && !after.tombs.contains_key(k)
            &&& !final(store).leaves().contains_key(k)
            &&& keeps_other_keys(before, after, k)
            &&& after.tomb_seq == before.tomb_seq
            &&& after.frontiers == before.frontiers
            &&& final(store).index_is_current()
            &&& ticks(old(store).clock(), final(store).clock())
            &&& keeps_configuration(*old(store), *final(store))
        }),
{
}

/// A marker of the store's own actor deletes its key unless a frontier has forgotten its
/// generation, and then nothing changes. Of the marker that the key had and the new one, the
/// one with the larger generation stays, and the one before stays where they are equal.
pub proof fn law_own_marker<C: RegAdapter>(
    store: &mut CrdtMstStore<C>,
    k: u128,
    ts: u64,
    now_unix_ms: u64,
    actor: Seq<u8>,
    out: (),
)
    requires
        call_ensures(CrdtMstStore::<C>::apply_tombstone, (store, k, ts, now_unix_ms), out),
        actor == crate::bytes::be_bytes(old(store).actor_id() as nat, 16),
    ensures
        ({
            let before = old(store).rows();
            let after = final(store).rows();
            let forgotten = before.frontiers.contains_key(actor) && before.frontiers[actor] > 0
                && ts <= before.frontiers[actor];
            &&& forgotten ==> after == before && final(store).leaves() == old(store).leaves()
                && final(store).clock() == old(store).clock()
            &&& !forgotten ==> {
                let marker = after.tombs[k];
                &&& !after.values.contains_key(k) && after.tombs.contains_key(k)
                &&& marker.sequence >= ts
                &&& before.tombs.contains_key(k) ==> marker.sequence >= before.tombs[k].sequence
                &&& before.tombs.contains_key(k) && (ts < before.tombs[k].sequence || (ts
                    == before.tombs[k].sequence && before.tombs[k].origin_actor == actor))
                    ==> marker == before.tombs[k]
                &&& !before.tombs.contains_key(k) || ts > before.tombs[k].sequence ==> {
                    &&& marker.sequence == ts
                    &&& marker.origin_actor == actor
                    &&& marker.observed_at_unix_ms == now_unix_ms
                }
                &&& keeps_other_keys(before, after, k)
                &&& after.tomb_seq == before.tomb_seq
                &&& after.frontiers == before.frontiers
                &&& keeps_other_leaves(old(store).leaves(), final(store).leaves(), k)
                &&& final(store).leaves().contains_key(k)
                &&& final(store).leaves()[k][0] == 1
                &&& be_value(final(store).leaves()[k].subrange(1, 9)) == marker.sequence
                &&& ticks(old(store).clock(), final(store).clock())
                &&& old(store).index_is_current() ==> final(store).index_is_current()
            }
            &&& keeps_configuration(*old(store), *final(store))
        }),
{
    crate::bytes::lemma_bytes_order(actor, actor);
    let marker = final(store).rows().tombs[k];
    lemma_deleted_prefix(marker.sequence, marker.origin_actor);
}

/// Raising a frontier leaves the larger of the two generations for its actor, and changes
/// nothing else.
pub proof fn law_frontier_raise<C: RegAdapter>(
    store: &mut CrdtMstStore<C>,
    actor: &[u8],
    sequence: u64,
    out: (),
)
    requires
        call_ensures(
            CrdtMstStore::<C>::advance_tombstone_prune_frontier,
            (store, actor, sequence),
            out,
        ),
    ensures
        ({
            let before = old(store).rows();
            let after = final(store).rows();
            &&& before.frontiers.contains_key(actor@) && before.frontiers[actor@] >= sequence
                ==> after.frontiers == before.frontiers
            &&& sequence > 0 && !(before.frontiers.contains_key(actor@)
                && before.frontiers[actor@] >= sequence) ==> after.frontiers
                == before.frontiers.insert(actor@, sequence)
            &&& sequence == 0 ==> after.frontiers == before.frontiers
            &&& after.values == before.values
            &&& after.tombs == before.tombs
            &&& after.tomb_seq == before.tomb_seq
            &&& final(store).leaves() == old(store).leaves()
            &&& final(store).clock() == old(store).clock()
            &&& keeps_configuration(*old(store), *final(store))
        }),
{
}

/// A rebuilt index is current for the rows, which stay as they are, and a rebuild for a
/// version makes that version the one the store shows.
pub proof fn law_rebuild<C: RegAdapter>(
    store: &mut CrdtMstStore<C>,
    version: u32,
    out: (),
)
    requires
        call_ensures(
            CrdtMstStore::<C>::rebuild_mst_from_disk_at_version,
            (store, version),
            out,
        ),
    ensures
        is_current::<C>(old(store).rows(), version, final(store).leaves()),
        final(store).version() == version,
        final(store).rows() == old(store).rows(),
        final(store).clock() == old(store).clock(),
        final(store).actor_id() == old(store).actor_id(),
        final(store).keeps_local_tombs() == old(store).keeps_local_tombs(),
{
}

/// A batch makes each of its keys live with what the adapter made of the register before
/// the batch and the last value for the key; it keeps every other key, and the change
/// counter moves once where the batch holds anything.
pub proof fn law_batch<C: RegAdapter>(
    store: &mut CrdtMstStore<C>,
    entries: Vec<(u128, C::Value)>,
    i: int,
    other: u128,
    out: (),
)
    requires
        call_ensures(CrdtMstStore::<C>::upsert_many, (store, entries), out),
        0 <= i < entries@.len(),
        forall|j: int|
            #![trigger entries@[j]]
            i < j < entries@.len() ==> entries@[j].0 != entries@[i].0,
        forall|j: int|
            #![trigger entries@[j]]
            0 <= j < entries@.len() ==> entries@[j].0 != other,
    ensures
        ({
            let before = old(store).rows();
            let after = final(store).rows();
            let key = entries@[i].0;
            &&& after.values.contains_key(key) && !after.tombs.contains_key(key)
            &&& before.values.contains_key(key) ==> call_ensures(
                C::upsert_reg,
                (Some(before.values[key]), &old(store).actor_id(), entries@[i].1),
                after.values[key],
            )
            &&& !before.values.contains_key(key) ==> call_ensures(
                C::upsert_reg,
                (None, &old(store).actor_id(), entries@[i].1),
                after.values[key],
            )
            &&& after.values.contains_key(other) == before.values.contains_key(other)
            &&& before.values.contains_key(other) ==> after.values[other] == before.values[other]
            &&& after.tombs.contains_key(other) == before.tombs.contains_key(other)
            &&& before.tombs.contains_key(other) ==> after.tombs[other] == before.tombs[other]
            &&& after.tomb_seq == before.tomb_seq
            &&& after.frontiers == before.frontiers
            &&& final(store).leaves().contains_key(key)
            &&& final(store).leaves()[key][0] == 0
            &&& old(store).leaves().contains_key(other) == final(store).leaves().contains_key(
                other,
            )
            &&& old(store).leaves().contains_key(other) ==> final(store).leaves()[other]
                == old(store).leaves()[other]
            &&& ticks(old(store).clock(), final(store).clock())
            &&& keeps_configuration(*old(store), *final(store))
            &&& old(store).index_is_current() ==> final(store).index_is_current()
        }),
{
    let key = entries@[i].0;
    assert(super::delta::requests(entries@, key));
    assert(super::delta::is_last_request(entries@, i));
    assert(final(store).leaves().contains_key(key));
    assert(final(store).rows().values.contains_key(key));
    assert(!super::delta::requests(entries@, other));
    assert(final(store).leaves().contains_key(other) <==> old(store).leaves().contains_key(other));
}

} // verus!
