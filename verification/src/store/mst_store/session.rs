//! Sessions that apply several delta chunks and index them once.

use vstd::prelude::*;

use super::delta::{chunk_relates, chunk_views, clock_after, is_last_request, requests};
use super::{CrdtMstStore, RegAdapter};
use crate::store::merkle::{active_leaf, deleted_leaf, Entry, MerkleIndex};
use crate::store::tombstone::TombstoneRecord;

verus! {

/// What `DeltaApplySession::commit` does.
#[derive(Clone, Copy, Debug)]
pub enum FinalizeStrategy {
    /// Rebuild the Merkle index from the rows.
    Rebuild,
    /// Leave the Merkle index as it is.
    NoOp,
}

/// A guard to apply multiple delta chunks, then finalize once.
///
/// The session owns the store for its full lifetime because chunk application changes
/// rows without updating the Merkle index until commit. Another writer could otherwise
/// rebuild or patch the index from interleaved rows and leave the root stale.
pub struct DeltaApplySession<C: RegAdapter> {
    store: CrdtMstStore<C>,
    finalize: FinalizeStrategy,
}

impl<C: RegAdapter> DeltaApplySession<C> {
    /// Store that the session works on.
    pub closed spec fn inner(&self) -> CrdtMstStore<C> {
        self.store
    }

    /// What commit will do.
    pub closed spec fn strategy(&self) -> FinalizeStrategy {
        self.finalize
    }

    /// Apply one chunk of registers and tombstones.
    pub fn apply_chunk(
        &mut self,
        regs: Vec<(u128, C::Reg)>,
        tombs: Vec<(u128, TombstoneRecord)>,
        now_unix_ms: u64,
    )
        ensures
            final(self).strategy() == old(self).strategy(),
            exists|outcomes: Seq<C::Reg>, live: Seq<u128>, deleted: Seq<u128>|
                {
                    &&& #[trigger] chunk_relates::<C>(
                        old(self).inner().rows(),
                        final(self).inner().rows(),
                        regs@,
                        outcomes,
                        old(self).inner().keeps_local_tombs(),
                        chunk_views(tombs@),
                        now_unix_ms,
                        false,
                        live,
                        deleted,
                    )
                    &&& final(self).inner().clock() == clock_after(
                        old(self).inner().clock(),
                        live,
                        deleted,
                    )
                },
            final(self).inner().leaves() == old(self).inner().leaves(),
            final(self).inner().same_settings(&old(self).inner()),
    {
        let ghost before = self.store;
        let ghost views = chunk_views(tombs@);
        self.store.apply_delta_chunk(regs, tombs, now_unix_ms);
        proof {
            let (outcomes, live, deleted) = choose|
                outcomes: Seq<C::Reg>,
                live: Seq<u128>,
                deleted: Seq<u128>,
            |
                {
                    &&& #[trigger] chunk_relates::<C>(
                        before.rows(),
                        self.store.rows(),
                        regs@,
                        outcomes,
                        before.keeps_local_tombs(),
                        views,
                        now_unix_ms,
                        false,
                        live,
                        deleted,
                    )
                    &&& self.store.clock() == clock_after(before.clock(), live, deleted)
                };
            assert(chunk_relates::<C>(
                old(self).inner().rows(),
                self.inner().rows(),
                regs@,
                outcomes,
                old(self).inner().keeps_local_tombs(),
                chunk_views(tombs@),
                now_unix_ms,
                false,
                live,
                deleted,
            ));
        }
    }

    /// Finalize once after all chunks and give the store back.
    pub fn commit(self) -> (out: CrdtMstStore<C>)
        ensures
            out.rows() == self.inner().rows(),
            out.clock() == self.inner().clock(),
            out.same_settings(&self.inner()),
            match self.strategy() {
                FinalizeStrategy::Rebuild => out.index_is_current(),
                FinalizeStrategy::NoOp => out.leaves() == self.inner().leaves(),
            },
    {
        let mut store = self.store;
        if let FinalizeStrategy::Rebuild = self.finalize {
            store.rebuild_mst_from_disk();
        }
        store
    }

    /// Choose what commit does. Default is Rebuild.
    pub fn with_finalize_strategy(self, s: FinalizeStrategy) -> (out: Self)
        ensures
            out.inner() == self.inner(),
            out.strategy() == s,
    {
        DeltaApplySession { store: self.store, finalize: s }
    }
}

impl<C: RegAdapter> CrdtMstStore<C> {
    /// Begin a session that applies chunks and finalizes once.
    pub fn begin_delta_apply(self) -> (out: DeltaApplySession<C>)
        ensures
            out.inner() == self,
            out.strategy() == FinalizeStrategy::Rebuild,
    {
        DeltaApplySession { store: self, finalize: FinalizeStrategy::Rebuild }
    }

    /// Replace the Merkle index with one built from given entries.
    ///
    /// Where a key occurs twice the later entry counts, and a tombstone counts before a
    /// snapshot.
    pub fn rebuild_mst(
        &mut self,
        actives: Vec<(u128, C::Snapshot)>,
        tombs: Vec<(u128, TombstoneRecord)>,
    )
        ensures
            final(self).rows() == old(self).rows(),
            final(self).clock() == old(self).clock(),
            final(self).same_settings(old(self)),
            forall|key: u128| #[trigger]
                final(self).leaves().contains_key(key) <==> requests(actives@, key) || requests(
                    tombs@,
                    key,
                ),
            forall|i: int| #[trigger]
                is_last_request(tombs@, i) ==> final(self).leaves()[tombs@[i].0] == deleted_leaf(
                    tombs@[i].1@.sequence,
                    tombs@[i].1@.origin_actor,
                ),
            forall|i: int| #[trigger]
                is_last_request(actives@, i) && !requests(tombs@, actives@[i].0)
                    ==> is_snapshot_leaf::<C>(
                    actives@[i].1,
                    final(self).leaves()[actives@[i].0],
                ),
    {
        let mut tree = MerkleIndex::new();
        let mut i: usize = 0;
        while i < actives.len()
            invariant
                i <= actives.len(),
                forall|key: u128| #[trigger]
                    tree@.contains_key(key) <==> requests(actives@.take(i as int), key),
                forall|k: int| #[trigger]
                    is_last_request(actives@.take(i as int), k) ==> is_snapshot_leaf::<C>(
                        actives@[k].1,
                        tree@[actives@[k].0],
                    ),
            decreases actives.len() - i,
        {
            let payload = C::leaf_payload(&actives[i].1);
            let ghost shown = payload@;
            let ghost before = tree@;
            proof {
                assert(call_ensures(C::leaf_payload, (&actives@[i as int].1,), payload));
                assert(is_snapshot_leaf::<C>(actives@[i as int].1, active_leaf(shown)));
                lemma_one_more(actives@, i as int);
            }
            let entry: Entry<Vec<u8>> = Entry::Active(payload);
            tree.upsert(actives[i].0, &entry);
            proof {
                assert(tree@ == before.insert(actives@[i as int].0, active_leaf(shown)));
            }
            i += 1;
        }
        proof { assert(actives@.take(actives@.len() as int) =~= actives@); }
        let ghost middle = tree@;
        i = 0;
        while i < tombs.len()
            invariant
                i <= tombs.len(),
                forall|key: u128| #[trigger]
                    tree@.contains_key(key) <==> middle.contains_key(key) || requests(
                        tombs@.take(i as int),
                        key,
                    ),
                forall|key: u128| #[trigger]
                    tree@.contains_key(key) && !requests(tombs@.take(i as int), key) ==> tree@[key]
                        == middle[key],
                forall|k: int| #[trigger]
                    is_last_request(tombs@.take(i as int), k) ==> tree@[tombs@[k].0]
                        == deleted_leaf(tombs@[k].1@.sequence, tombs@[k].1@.origin_actor),
            decreases tombs.len() - i,
        {
            let ghost before = tree@;
            proof { lemma_one_more(tombs@, i as int); }
            let entry = Self::deleted_entry(&tombs[i].1);
            tree.upsert(tombs[i].0, &entry);
            proof {
                let key = tombs@[i as int].0;
                assert(tree@ == before.insert(key, deleted_leaf(
                    tombs@[i as int].1@.sequence,
                    tombs@[i as int].1@.origin_actor,
                )));
                assert forall|k: u128| #[trigger] tree@.contains_key(k) && !requests(
                    tombs@.take(i + 1),
                    k,
                ) implies tree@[k] == middle[k] by {
                    assert(before.contains_key(k));
                }
            }
            i += 1;
        }
        proof { assert(tombs@.take(tombs@.len() as int) =~= tombs@); }
        proof {
            assert forall|k: int| #[trigger] is_last_request(actives@, k) && !requests(
                tombs@,
                actives@[k].0,
            ) implies is_snapshot_leaf::<C>(actives@[k].1, tree@[actives@[k].0]) by {
                assert(requests(actives@, actives@[k].0));
                assert(middle.contains_key(actives@[k].0));
                assert(tree@.contains_key(actives@[k].0));
            }
        }
        self.mst = tree;
    }
}

/// The bytes are the leaf of a live snapshot.
pub open spec fn is_snapshot_leaf<C: RegAdapter>(snapshot: C::Snapshot, leaf: Seq<u8>) -> bool {
    exists|payload: Vec<u8>|
        #[trigger] call_ensures(C::leaf_payload, (&snapshot,), payload) && leaf == active_leaf(
            payload@,
        )
}

/// One more entry is the last of its key and leaves the last ones of other keys.
proof fn lemma_one_more<V>(entries: Seq<(u128, V)>, n: int)
    requires
        0 <= n < entries.len(),
    ensures
        forall|key: u128| #[trigger]
            requests(entries.take(n + 1), key) <==> requests(entries.take(n), key) || key
                == entries[n].0,
        forall|k: int| #[trigger]
            is_last_request(entries.take(n + 1), k) ==> k == n || (is_last_request(
                entries.take(n),
                k,
            ) && entries[k].0 != entries[n].0),
{
    let shorter = entries.take(n);
    let longer = entries.take(n + 1);
    assert forall|key: u128| #[trigger] requests(longer, key) <==> requests(shorter, key) || key
        == entries[n].0 by {
        if requests(shorter, key) {
            let i = choose|i: int| #![trigger shorter[i]] 0 <= i < shorter.len() && shorter[i].0 == key;
            assert(longer[i].0 == key);
        }
        if key == entries[n].0 {
            assert(longer[n].0 == key);
        }
        if requests(longer, key) {
            let i = choose|i: int| #![trigger longer[i]] 0 <= i < longer.len() && longer[i].0 == key;
            if i < n {
                assert(shorter[i].0 == key);
            }
        }
    }
    assert forall|k: int| #[trigger] is_last_request(longer, k) implies k == n || (
    is_last_request(shorter, k) && entries[k].0 != entries[n].0) by {
        if k != n {
            assert(longer[n].0 != longer[k].0);
            assert forall|j: int| #![trigger shorter[j]] k < j < shorter.len() implies shorter[j].0
                != shorter[k].0 by {
                assert(longer[j].0 != longer[k].0);
            }
        }
    }
}

} // verus!
