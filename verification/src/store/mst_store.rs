//! Register store with tombstones and a Merkle index.
//!
//! - Per-key registers and tombstones with their age index.
//! - A Merkle index over one leaf per key, whose root two replicas compare.
//!
//! This module holds the store's state and the operations on it. Every code path
//! that creates, replaces, or removes a tombstone keeps the primary rows and the
//! age index in sync before it updates the Merkle index.

pub mod call_laws;
pub mod chunk_laws;
pub mod delta;
pub mod export;
pub mod export_laws;
pub mod gc_laws;
pub mod laws;
pub mod maintenance;
pub mod session;
pub mod single_laws;

use vstd::prelude::*;

use crate::bytes::be_bytes;
use crate::store::error::StoreError;
use crate::store::frontier::{advanced, frontier, frontier_order, frontier_rows};
use crate::store::merkle::{
    active_leaf, deleted_leaf, entry_leaf, index_pages, index_root, index_root_text, shows_pages,
    Entry, MerkleIndex, PageDigestRange,
};
use crate::store::tables::{lists_keys, StoreTables, TablesView};
use crate::store::tombstone::{merge_tombstone_records, winning, TombstoneRecord, TombstoneView};

verus! {

/// Root-schema version used until the caller commits a newer one.
pub const DEFAULT_ROOT_SCHEMA_VERSION: u32 = 1;

/// How a store reads and combines its registers.
pub trait RegAdapter: Sized {
    /// Mergeable register of one key.
    type Reg: Clone;

    /// Value that a local write sets.
    type Value;

    /// Projection of a register that its leaf shows.
    type Snapshot;

    /// Register after a local write.
    fn upsert_reg(current: Option<Self::Reg>, actor: &u128, value: Self::Value) -> Self::Reg;

    /// Register after a remote one was merged in.
    fn merge_regs(current: Option<Self::Reg>, incoming: Self::Reg) -> Self::Reg;

    /// Projection of a register under a root-schema version.
    fn snapshot_reg_at_version(reg: &Self::Reg, root_schema_version: u32) -> Self::Snapshot;

    /// Canonical bytes of a projection.
    fn leaf_payload(snapshot: &Self::Snapshot) -> Vec<u8>;

    /// Stored and exchanged bytes of a register.
    fn encode_reg(reg: &Self::Reg) -> Result<Vec<u8>, StoreError>;

    /// Smaller register with at most `max_values` values, if it should be rewritten.
    fn compact_reg(reg: &Self::Reg, max_values: usize) -> Result<Option<Self::Reg>, StoreError>;
}

/// Register stored under a key, if there is one.
pub open spec fn stored<R>(rows: TablesView<R>, key: u128) -> Option<R> {
    if rows.values.contains_key(key) { Some(rows.values[key]) } else { None }
}

/// Delete marker stored under a key, if there is one.
pub open spec fn marked<R>(rows: TablesView<R>, key: u128) -> Option<TombstoneView> {
    if rows.tombs.contains_key(key) { Some(rows.tombs[key]) } else { None }
}

/// Rows after a key was made live.
pub open spec fn with_value<R>(rows: TablesView<R>, key: u128, reg: R) -> TablesView<R> {
    TablesView { values: rows.values.insert(key, reg), tombs: rows.tombs.remove(key), ..rows }
}

/// Rows after a key was deleted.
pub open spec fn with_tomb<R>(
    rows: TablesView<R>,
    key: u128,
    record: TombstoneView,
) -> TablesView<R> {
    TablesView { values: rows.values.remove(key), tombs: rows.tombs.insert(key, record), ..rows }
}

/// The bytes are the leaf of a live register under a root-schema version.
pub open spec fn is_active_leaf<C: RegAdapter>(
    reg: C::Reg,
    version: u32,
    leaf: Seq<u8>,
) -> bool {
    exists|snapshot: C::Snapshot, payload: Vec<u8>|
        {
            &&& #[trigger] call_ensures(C::snapshot_reg_at_version, (&reg, version), snapshot)
            &&& #[trigger] call_ensures(C::leaf_payload, (&snapshot,), payload)
            &&& leaf == active_leaf(payload@)
        }
}

/// The bytes are the leaf that the rows have for a key.
pub open spec fn is_leaf<C: RegAdapter>(
    rows: TablesView<C::Reg>,
    version: u32,
    key: u128,
    leaf: Seq<u8>,
) -> bool {
    if rows.tombs.contains_key(key) {
        leaf == deleted_leaf(rows.tombs[key].sequence, rows.tombs[key].origin_actor)
    } else {
        rows.values.contains_key(key) && is_active_leaf::<C>(rows.values[key], version, leaf)
    }
}

/// The leaves are exactly those of the rows.
pub open spec fn is_current<C: RegAdapter>(
    rows: TablesView<C::Reg>,
    version: u32,
    leaves: Map<u128, Seq<u8>>,
) -> bool {
    &&& forall|key: u128| #[trigger]
        leaves.contains_key(key) <==> rows.values.contains_key(key) || rows.tombs.contains_key(key)
    &&& forall|key: u128| #[trigger]
        leaves.contains_key(key) ==> is_leaf::<C>(rows, version, key, leaves[key])
}

/// Bytes under which an actor is recorded.
pub open spec fn actor_bytes(actor: u128) -> Seq<u8> {
    be_bytes(actor as nat, 16)
}

/// Pruning has already forgotten the delete generation.
pub open spec fn is_pruned<R>(rows: TablesView<R>, record: TombstoneView) -> bool {
    frontier(rows.frontiers, record.origin_actor) > 0 && record.sequence <= frontier(
        rows.frontiers,
        record.origin_actor,
    )
}

/// Change counter after one more change.
pub open spec fn bumped(clock: u64) -> u64 {
    if clock == u64::MAX { 0 } else { (clock + 1) as u64 }
}

/// Register store with tombstones and a Merkle index.
pub struct CrdtMstStore<C: RegAdapter> {
    tables: StoreTables<C::Reg>,
    actor: u128,
    mst: MerkleIndex,
    root_schema_version: u32,
    change_clock: u64,
    preserve_local_tombs: bool,
}

/// Builder for `CrdtMstStore`.
#[derive(Clone, Copy, Debug, PartialEq, Eq)]
pub struct StoreBuilder {
    /// Actor that local writes are attributed to.
    pub actor: u128,
    /// Whether local tombstones stay unless the delta carries one for the key.
    pub preserve_local_tombs: bool,
}

impl StoreBuilder {
    /// Configure whether locally authored tombstones remain authoritative unless the incoming
    /// delta explicitly includes the same tomb entry.
    pub fn with_preserve_local_tombs(self, enabled: bool) -> (out: Self)
        ensures
            out.actor == self.actor,
            out.preserve_local_tombs == enabled,
    {
        StoreBuilder { actor: self.actor, preserve_local_tombs: enabled }
    }

    /// Opens a store on existing rows; its Merkle index is empty until it is rebuilt.
    pub fn build<C: RegAdapter>(self, tables: StoreTables<C::Reg>) -> (out: CrdtMstStore<C>)
        ensures
            out.rows() == tables@,
            out.leaves() == Map::<u128, Seq<u8>>::empty(),
            out.actor_id() == self.actor,
            out.keeps_local_tombs() == self.preserve_local_tombs,
            out.version() == DEFAULT_ROOT_SCHEMA_VERSION,
            out.clock() == 1,
    {
        self.build_at(tables, 1)
    }

    /// Opens a store on existing rows whose change counter goes on from a given value.
    pub fn build_at<C: RegAdapter>(self, tables: StoreTables<C::Reg>, change_clock: u64) -> (out:
        CrdtMstStore<C>)
        ensures
            out.rows() == tables@,
            out.leaves() == Map::<u128, Seq<u8>>::empty(),
            out.actor_id() == self.actor,
            out.keeps_local_tombs() == self.preserve_local_tombs,
            out.version() == DEFAULT_ROOT_SCHEMA_VERSION,
            out.clock() == change_clock,
    {
        CrdtMstStore {
            tables,
            actor: self.actor,
            mst: MerkleIndex::new(),
            root_schema_version: DEFAULT_ROOT_SCHEMA_VERSION,
            change_clock,
            preserve_local_tombs: self.preserve_local_tombs,
        }
    }
}

impl<C: RegAdapter> CrdtMstStore<C> {
    /// Rows of the store.
    pub closed spec fn rows(&self) -> TablesView<C::Reg> {
        self.tables@
    }

    /// Leaves of the Merkle index.
    pub closed spec fn leaves(&self) -> Map<u128, Seq<u8>> {
        self.mst@
    }

    /// Actor that local writes are attributed to.
    pub closed spec fn actor_id(&self) -> u128 {
        self.actor
    }

    /// Root-schema version that the Merkle index shows.
    pub closed spec fn version(&self) -> u32 {
        self.root_schema_version
    }

    /// Change counter.
    pub closed spec fn clock(&self) -> u64 {
        self.change_clock
    }

    /// Whether local tombstones stay unless a delta carries one for the key.
    pub closed spec fn keeps_local_tombs(&self) -> bool {
        self.preserve_local_tombs
    }

    /// The Merkle index shows exactly the rows.
    pub open spec fn index_is_current(&self) -> bool {
        is_current::<C>(self.rows(), self.version(), self.leaves())
    }

    /// The two stores have the same actor, policy and root-schema version.
    pub open spec fn same_settings(&self, other: &Self) -> bool {
        &&& self.actor_id() == other.actor_id()
        &&& self.keeps_local_tombs() == other.keeps_local_tombs()
        &&& self.version() == other.version()
    }

    /// Nothing observable differs between the two stores.
    pub open spec fn unchanged_from(&self, other: &Self) -> bool {
        &&& self.rows() == other.rows()
        &&& self.leaves() == other.leaves()
        &&& self.clock() == other.clock()
        &&& self.same_settings(other)
    }

    /// Create a builder for a store of this actor.
    pub fn builder(actor: u128) -> (out: StoreBuilder)
        ensures
            out.actor == actor,
            !out.preserve_local_tombs,
    {
        StoreBuilder { actor, preserve_local_tombs: false }
    }

    /// Open a store on existing rows with an empty Merkle index.
    pub fn open(tables: StoreTables<C::Reg>, actor: u128) -> (out: Self)
        ensures
            out.rows() == tables@,
            out.leaves() == Map::<u128, Seq<u8>>::empty(),
            out.actor_id() == actor,
            !out.keeps_local_tombs(),
            out.version() == DEFAULT_ROOT_SCHEMA_VERSION,
            out.clock() == 1,
    {
        Self::builder(actor).build(tables)
    }

    /// Return whether a register value exists for key `k`.
    pub fn has_value(&self, k: u128) -> (out: bool)
        ensures
            out == self.rows().values.contains_key(k),
            out ==> !self.rows().tombs.contains_key(k),
    {
        proof {
            use_type_invariant(&self.tables);
            self.tables.lemma_in_sync();
        }
        self.tables.value(k).is_some()
    }

    /// Return whether a tombstone currently exists for key `k`.
    pub fn has_tombstone(&self, k: u128) -> (out: bool)
        ensures
            out == self.rows().tombs.contains_key(k),
            out ==> !self.rows().values.contains_key(k),
    {
        proof {
            use_type_invariant(&self.tables);
            self.tables.lemma_in_sync();
        }
        self.tables.tomb(k).is_some()
    }

    /// Returns the tombstone of key `k`, if there is one.
    pub fn tombstone(&self, k: u128) -> (out: Option<&TombstoneRecord>)
        ensures
            match out {
                Some(record) => marked(self.rows(), k) == Some(record@),
                None => marked(self.rows(), k) is None,
            },
    {
        self.tables.tomb(k)
    }

    /// Returns the last delete generation that this store handed out.
    pub fn tombstone_sequence(&self) -> (out: u64)
        ensures
            out == self.rows().tomb_seq,
    {
        self.tables.sequence()
    }

    /// Returns the highest tombstone sequence deliberately forgotten for an origin actor.
    ///
    /// GC advances this frontier after it has purged durable tombstones from one
    /// origin. Future inbound tombstones at or below the frontier are stale and
    /// must not recreate the deleted rows.
    pub fn tombstone_prune_frontier(&self, origin_actor: &[u8]) -> (out: u64)
        ensures
            out == frontier(self.rows().frontiers, origin_actor@),
    {
        self.tables.frontier(origin_actor)
    }

    /// Loads all durable tombstone prune frontiers for sync with slower peers.
    pub fn load_tombstone_prune_frontiers(&self) -> (out: Vec<(Vec<u8>, u64)>)
        ensures
            frontier_order(out@),
            frontier_rows(out@) == self.rows().frontiers,
    {
        self.tables.frontier_list()
    }

    /// Advances the tombstone prune frontier for one origin actor.
    ///
    /// The frontier is monotonic because lowering it could let an older delete
    /// marker re-enter the store after GC already decided that sequence was safe
    /// to forget.
    pub fn advance_tombstone_prune_frontier(&mut self, origin_actor: &[u8], sequence: u64)
        ensures
            final(self).rows() == (TablesView {
                frontiers: advanced(old(self).rows().frontiers, origin_actor@, sequence),
                ..old(self).rows()
            }),
            final(self).leaves() == old(self).leaves(),
            final(self).clock() == old(self).clock(),
            final(self).same_settings(old(self)),
    {
        self.tables.advance_frontier(origin_actor, sequence);
    }

    /// Expose the current change counter so callers can detect when cached views are stale.
    pub fn change_clock(&self) -> (out: u64)
        ensures
            out == self.clock(),
    {
        self.change_clock
    }

    /// Returns the semantic root-schema version represented by the Merkle index.
    pub fn current_root_schema_version(&self) -> (out: u32)
        ensures
            out == self.version(),
    {
        self.root_schema_version
    }

    /// Advance the change counter after a successful write.
    fn bump_change_clock(&mut self)
        ensures
            final(self).rows() == old(self).rows(),
            final(self).leaves() == old(self).leaves(),
            final(self).clock() == bumped(old(self).clock()),
            final(self).same_settings(old(self)),
    {
        self.change_clock = self.change_clock.wrapping_add(1);
    }

    /// Builds the leaf of a live register.
    fn active_entry(reg: &C::Reg, version: u32) -> (out: Entry<Vec<u8>>)
        ensures
            is_active_leaf::<C>(*reg, version, entry_leaf(out)),
    {
        let snapshot = C::snapshot_reg_at_version(reg, version);
        let payload = C::leaf_payload(&snapshot);
        proof {
            assert(call_ensures(C::snapshot_reg_at_version, (reg, version), snapshot));
            assert(call_ensures(C::leaf_payload, (&snapshot,), payload));
        }
        Entry::Active(payload)
    }

    /// Builds the exact deleted leaf inserted into the index for one tombstone.
    ///
    /// The index does not store full tombstone metadata, only the fields that affect
    /// convergence and root calculation. `observed_at_unix_ms` is intentionally excluded
    /// because it is local GC metadata and would make roots differ across replicas.
    fn deleted_entry(record: &TombstoneRecord) -> (out: Entry<Vec<u8>>)
        ensures
            entry_leaf(out) == deleted_leaf(record@.sequence, record@.origin_actor),
    {
        Entry::Deleted {
            ts: record.sequence,
            origin_actor: crate::bytes::copy_bytes(&record.origin_actor),
        }
    }

    /// Rebuilds an index from the rows for the requested semantic version.
    fn build_tree_from_disk_at_version(&self, root_schema_version: u32) -> (out: MerkleIndex)
        ensures
            is_current::<C>(self.rows(), root_schema_version, out@),
    {
        proof {
            use_type_invariant(&self.tables);
            self.tables.lemma_in_sync();
        }
        let mut tree = MerkleIndex::new();
        let live = self.tables.value_keys();
        let mut i: usize = 0;
        while i < live.len()
            invariant
                i <= live.len(),
                lists_keys(live@, self.rows().values.dom()),
                forall|key: u128| #[trigger]
                    tree@.contains_key(key) <==> live@.take(i as int).contains(key),
                forall|key: u128| #[trigger]
                    tree@.contains_key(key) ==> self.rows().values.contains_key(key)
                        && is_active_leaf::<C>(
                        self.rows().values[key],
                        root_schema_version,
                        tree@[key],
                    ),
            decreases live.len() - i,
        {
            let key = live[i];
            proof {
                assert(self.rows().values.dom().contains(live@[i as int]));
                assert(live@.take(i + 1) =~= live@.take(i as int).push(key));
                lemma_push_contains(live@.take(i as int), key);
            }
            if let Some(reg) = self.tables.value(key) {
                let entry = Self::active_entry(reg, root_schema_version);
                tree.upsert(key, &entry);
            }
            i += 1;
        }
        proof { assert(live@.take(live@.len() as int) =~= live@); }
        let ghost actives = tree@;
        let deleted = self.tables.tomb_keys();
        i = 0;
        while i < deleted.len()
            invariant
                i <= deleted.len(),
                lists_keys(live@, self.rows().values.dom()),
                lists_keys(deleted@, self.rows().tombs.dom()),
                forall|key: u128| #[trigger]
                    self.rows().values.contains_key(key) ==> !self.rows().tombs.contains_key(key),
                forall|key: u128| #[trigger]
                    actives.contains_key(key) <==> self.rows().values.contains_key(key),
                forall|key: u128| #[trigger]
                    actives.contains_key(key) ==> is_active_leaf::<C>(
                        self.rows().values[key],
                        root_schema_version,
                        actives[key],
                    ),
                forall|key: u128| #[trigger]
                    tree@.contains_key(key) <==> actives.contains_key(key) || deleted@.take(
                        i as int,
                    ).contains(key),
                forall|key: u128| #[trigger]
                    tree@.contains_key(key) ==> if self.rows().tombs.contains_key(key) {
                        tree@[key] == deleted_leaf(
                            self.rows().tombs[key].sequence,
                            self.rows().tombs[key].origin_actor,
                        )
                    } else {
                        actives.contains_key(key) && tree@[key] == actives[key]
                    },
            decreases deleted.len() - i,
        {
            let key = deleted[i];
            proof {
                assert(self.rows().tombs.dom().contains(deleted@[i as int]));
                assert(deleted@.take(i + 1) =~= deleted@.take(i as int).push(key));
                lemma_push_contains(deleted@.take(i as int), key);
            }
            if let Some(record) = self.tables.tomb(key) {
                let entry = Self::deleted_entry(record);
                tree.upsert(key, &entry);
            }
            i += 1;
        }
        proof {
            assert(deleted@.take(deleted@.len() as int) =~= deleted@);
            assert forall|key: u128| #[trigger] tree@.contains_key(key) <==> self.rows().values.contains_key(key)
                || self.rows().tombs.contains_key(key) by {
                if self.rows().tombs.contains_key(key) {
                    assert(self.rows().tombs.dom().contains(key));
                }
                if deleted@.contains(key) {
                    let k = choose|k: int| 0 <= k < deleted@.len() && deleted@[k] == key;
                    assert(self.rows().tombs.dom().contains(deleted@[k]));
                }
            }
        }
        tree
    }

    /// Rebuild the Merkle index from registers and tombstones.
    pub fn rebuild_mst_from_disk(&mut self)
        ensures
            final(self).index_is_current(),
            final(self).rows() == old(self).rows(),
            final(self).clock() == old(self).clock(),
            final(self).same_settings(old(self)),
    {
        self.mst = self.build_tree_from_disk_at_version(self.root_schema_version);
    }

    /// Rebuilds the Merkle index using the requested semantic root-schema version.
    pub fn rebuild_mst_from_disk_at_version(&mut self, root_schema_version: u32)
        ensures
            final(self).index_is_current(),
            final(self).version() == root_schema_version,
            final(self).rows() == old(self).rows(),
            final(self).clock() == old(self).clock(),
            final(self).actor_id() == old(self).actor_id(),
            final(self).keeps_local_tombs() == old(self).keeps_local_tombs(),
    {
        self.mst = self.build_tree_from_disk_at_version(root_schema_version);
        self.root_schema_version = root_schema_version;
    }

    /// Rebuild the index once after a sequence of delta chunks.
    pub fn finalize_after_stream(&mut self)
        ensures
            final(self).index_is_current(),
            final(self).rows() == old(self).rows(),
            final(self).clock() == old(self).clock(),
            final(self).same_settings(old(self)),
    {
        self.rebuild_mst_from_disk();
    }

    /// Text of the root digest (useful for anti-entropy quick checks).
    pub fn root_hex(&self) -> (out: String)
        ensures
            out@ == index_root_text(self.leaves()),
    {
        self.mst.root_text()
    }

    /// Binary root digest of the Merkle index.
    pub fn root_digest(&self) -> (out: [u8; 16])
        ensures
            out@ == index_root(self.leaves()),
    {
        self.mst.root_digest()
    }

    /// Binary root digest for one semantic root-schema version: that of the current
    /// index for the current version, otherwise that of an index built for it.
    pub fn root_digest_at_version(&self, root_schema_version: u32) -> (out: [u8; 16])
        ensures
            root_schema_version == self.version() ==> out@ == index_root(self.leaves()),
            root_schema_version != self.version() ==> exists|leaves: Map<u128, Seq<u8>>|
                #[trigger] is_current::<C>(self.rows(), root_schema_version, leaves) && out@
                    == index_root(leaves),
    {
        if root_schema_version == self.root_schema_version {
            return self.root_digest();
        }
        let tree = self.build_tree_from_disk_at_version(root_schema_version);
        proof { assert(is_current::<C>(self.rows(), root_schema_version, tree@)); }
        tree.root_digest()
    }

    /// Return page summaries (inclusive [start,end] + digest) for the current index.
    pub fn page_range_summary(&self) -> (out: Vec<PageDigestRange>)
        ensures
            shows_pages(out@, index_pages(self.leaves())),
    {
        self.mst.page_ranges()
    }

    /// Return page summaries for one semantic root-schema version.
    pub fn page_range_summary_at_version(&self, root_schema_version: u32) -> (out: Vec<
        PageDigestRange,
    >)
        ensures
            root_schema_version == self.version() ==> shows_pages(
                out@,
                index_pages(self.leaves()),
            ),
            root_schema_version != self.version() ==> exists|leaves: Map<u128, Seq<u8>>|
                #[trigger] is_current::<C>(self.rows(), root_schema_version, leaves)
                    && shows_pages(out@, index_pages(leaves)),
    {
        if root_schema_version == self.root_schema_version {
            return self.page_range_summary();
        }
        let tree = self.build_tree_from_disk_at_version(root_schema_version);
        proof { assert(is_current::<C>(self.rows(), root_schema_version, tree@)); }
        tree.page_ranges()
    }

    /// Insert or update value for key `k`.
    pub fn upsert(&mut self, k: u128, v: C::Value)
        ensures
            call_ensures(
                C::upsert_reg,
                (stored(old(self).rows(), k), &old(self).actor_id(), v),
                final(self).rows().values[k],
            ),
            final(self).rows() == with_value(old(self).rows(), k, final(self).rows().values[k]),
            is_active_leaf::<C>(
                final(self).rows().values[k],
                old(self).version(),
                final(self).leaves()[k],
            ),
            final(self).leaves() == old(self).leaves().insert(k, final(self).leaves()[k]),
            final(self).clock() == bumped(old(self).clock()),
            final(self).same_settings(old(self)),
            old(self).index_is_current() ==> final(self).index_is_current(),
    {
        let current = self.tables.take_value(k);
        let reg = C::upsert_reg(current, &self.actor, v);
        self.make_live(k, reg);
        self.bump_change_clock();
        proof {
            assert(self.rows().values =~= old(self).rows().values.insert(
                k,
                self.rows().values[k],
            ));
            lemma_live_current::<C>(
                old(self).rows(),
                old(self).version(),
                old(self).leaves(),
                k,
                self.rows().values[k],
                self.leaves()[k],
            );
        }
    }

    /// Merge a remote register for key `k` into rows and index, clearing any local tombstone.
    pub fn merge_register(&mut self, k: u128, incoming: C::Reg)
        ensures
            call_ensures(
                C::merge_regs,
                (stored(old(self).rows(), k), incoming),
                final(self).rows().values[k],
            ),
            final(self).rows() == with_value(old(self).rows(), k, final(self).rows().values[k]),
            is_active_leaf::<C>(
                final(self).rows().values[k],
                old(self).version(),
                final(self).leaves()[k],
            ),
            final(self).leaves() == old(self).leaves().insert(k, final(self).leaves()[k]),
            final(self).clock() == bumped(old(self).clock()),
            final(self).same_settings(old(self)),
            old(self).index_is_current() ==> final(self).index_is_current(),
    {
        let current = self.tables.take_value(k);
        let reg = C::merge_regs(current, incoming);
        self.make_live(k, reg);
        self.bump_change_clock();
        proof {
            assert(self.rows().values =~= old(self).rows().values.insert(
                k,
                self.rows().values[k],
            ));
            lemma_live_current::<C>(
                old(self).rows(),
                old(self).version(),
                old(self).leaves(),
                k,
                self.rows().values[k],
                self.leaves()[k],
            );
        }
    }

    /// Sets the register of a key, clears its tombstone and shows it in the index.
    fn make_live(&mut self, k: u128, reg: C::Reg)
        ensures
            final(self).rows() == with_value(old(self).rows(), k, reg),
            is_active_leaf::<C>(reg, old(self).version(), final(self).leaves()[k]),
            final(self).leaves() == old(self).leaves().insert(k, final(self).leaves()[k]),
            final(self).clock() == old(self).clock(),
            final(self).same_settings(old(self)),
    {
        let entry = Self::active_entry(&reg, self.root_schema_version);
        self.tables.set_value(k, reg);
        self.mst.upsert(k, &entry);
    }

    /// Remove key and persist a tombstone with a monotonic sequence.
    ///
    /// Delete operations are idempotent per key: an already deleted key keeps its
    /// tombstone metadata, so peers do not observe a fresh delete generation every
    /// time a caller retries.
    pub fn remove(&mut self, k: u128, now_unix_ms: u64) -> (out: u64)
        ensures
            match marked(old(self).rows(), k) {
                Some(record) => {
                    &&& out == record.sequence
                    &&& final(self).rows() == old(self).rows()
                },
                None => {
                    let record = TombstoneView {
                        sequence: out,
                        origin_actor: actor_bytes(old(self).actor_id()),
                        observed_at_unix_ms: now_unix_ms,
                    };
                    &&& out == if old(self).rows().tomb_seq < u64::MAX {
                        (old(self).rows().tomb_seq + 1) as u64
                    } else {
                        u64::MAX
                    }
                    &&& final(self).rows() == (TablesView {
                        tomb_seq: out,
                        ..with_tomb(old(self).rows(), k, record)
                    })
                },
            },
            final(self).leaves() == old(self).leaves().insert(
                k,
                deleted_leaf(
                    final(self).rows().tombs[k].sequence,
                    final(self).rows().tombs[k].origin_actor,
                ),
            ),
            final(self).clock() == bumped(old(self).clock()),
            final(self).same_settings(old(self)),
            old(self).index_is_current() ==> final(self).index_is_current(),
    {
        proof {
            use_type_invariant(&self.tables);
            self.tables.lemma_in_sync();
        }
        let held: Option<TombstoneRecord> = match self.tables.tomb(k) {
            Some(record) => Some(record.clone()),
            None => None,
        };
        let record = match held {
            Some(record) => record,
            None => {
                let sequence = self.tables.next_sequence();
                let record = self.local_tombstone(sequence, now_unix_ms);
                self.tables.set_tomb(k, record.clone());
                record
            },
        };
        let entry = Self::deleted_entry(&record);
        self.mst.upsert(k, &entry);
        self.bump_change_clock();
        proof {
            assert(self.rows().values =~= old(self).rows().values.remove(k));
            assert(self.rows().tombs =~= old(self).rows().tombs.insert(k, self.rows().tombs[k]));
            lemma_deleted_current::<C>(
                old(self).rows(),
                old(self).version(),
                old(self).leaves(),
                k,
                self.rows(),
            );
        }
        record.sequence
    }

    /// Builds the tombstone of a local delete.
    fn local_tombstone(&self, sequence: u64, now_unix_ms: u64) -> (out: TombstoneRecord)
        ensures
            out@ == (TombstoneView {
                sequence,
                origin_actor: actor_bytes(self.actor_id()),
                observed_at_unix_ms: now_unix_ms,
            }),
    {
        let mut origin_actor: Vec<u8> = Vec::new();
        crate::bytes::push_be(&mut origin_actor, self.actor, 16);
        proof { assert(origin_actor@ =~= actor_bytes(self.actor)); }
        TombstoneRecord::new(sequence, origin_actor, now_unix_ms)
    }

    /// Purge a key locally without writing a tombstone so remote replicas can repopulate it.
    ///
    /// This is intended for recovery/testing scenarios where a local store is missing entries
    /// and should accept the next sync payload, not for user-facing delete operations.
    pub fn purge_local(&mut self, k: u128)
        ensures
            final(self).rows() == (TablesView {
                values: old(self).rows().values.remove(k),
                tombs: old(self).rows().tombs.remove(k),
                ..old(self).rows()
            }),
            final(self).index_is_current(),
            final(self).clock() == bumped(old(self).clock()),
            final(self).same_settings(old(self)),
    {
        let _ = self.tables.take_value(k);
        self.tables.drop_tomb(k);
        self.rebuild_mst_from_disk();
        self.bump_change_clock();
    }

    /// Apply a tombstone of this store's own actor (idempotent, monotonic).
    ///
    /// A sequence that pruning has already forgotten recreates nothing.
    pub fn apply_tombstone(&mut self, k: u128, ts: u64, now_unix_ms: u64)
        ensures
            ({
                let incoming = TombstoneView {
                    sequence: ts,
                    origin_actor: actor_bytes(old(self).actor_id()),
                    observed_at_unix_ms: now_unix_ms,
                };
                let record = winning(marked(old(self).rows(), k), incoming);
                if is_pruned(old(self).rows(), incoming) {
                    final(self).unchanged_from(old(self))
                } else {
                    &&& final(self).rows() == with_tomb(old(self).rows(), k, record)
                    &&& final(self).leaves() == old(self).leaves().insert(
                        k,
                        deleted_leaf(record.sequence, record.origin_actor),
                    )
                    &&& final(self).clock() == bumped(old(self).clock())
                    &&& final(self).same_settings(old(self))
                    &&& old(self).index_is_current() ==> final(self).index_is_current()
                }
            }),
    {
        let incoming = self.local_tombstone(ts, now_unix_ms);
        let pruned: u64 = self.tables.frontier(&incoming.origin_actor);
        if pruned > 0 && incoming.sequence <= pruned {
            return;
        }
        let current: Option<TombstoneRecord> = match self.tables.tomb(k) {
            Some(record) => Some(record.clone()),
            None => None,
        };
        let record = merge_tombstone_records(current, incoming);
        let entry = Self::deleted_entry(&record);
        self.tables.set_tomb(k, record);
        self.mst.upsert(k, &entry);
        self.bump_change_clock();
        proof {
            lemma_deleted_current::<C>(
                old(self).rows(),
                old(self).version(),
                old(self).leaves(),
                k,
                self.rows(),
            );
        }
    }
}

/// Making one key live and showing its leaf keeps a current index current.
proof fn lemma_live_current<C: RegAdapter>(
    rows: TablesView<C::Reg>,
    version: u32,
    leaves: Map<u128, Seq<u8>>,
    key: u128,
    reg: C::Reg,
    leaf: Seq<u8>,
)
    requires
        is_active_leaf::<C>(reg, version, leaf),
    ensures
        is_current::<C>(rows, version, leaves) ==> is_current::<C>(
            with_value(rows, key, reg),
            version,
            leaves.insert(key, leaf),
        ),
{
    if is_current::<C>(rows, version, leaves) {
        let more = leaves.insert(key, leaf);
        let after = with_value(rows, key, reg);
        assert forall|k: u128| #[trigger] more.contains_key(k) implies is_leaf::<C>(
            after,
            version,
            k,
            more[k],
        ) by {
            if k != key {
                assert(leaves.contains_key(k));
            }
        }
        assert forall|k: u128| #[trigger] more.contains_key(k) <==> after.values.contains_key(k)
            || after.tombs.contains_key(k) by {
            assert(leaves.contains_key(k) <==> rows.values.contains_key(k)
                || rows.tombs.contains_key(k));
        }
    }
}

/// Deleting one key and showing its leaf keeps a current index current.
proof fn lemma_deleted_current<C: RegAdapter>(
    rows: TablesView<C::Reg>,
    version: u32,
    leaves: Map<u128, Seq<u8>>,
    key: u128,
    after: TablesView<C::Reg>,
)
    requires
        after.tombs.contains_key(key),
        after.values == rows.values.remove(key),
        after.tombs == rows.tombs.insert(key, after.tombs[key]),
    ensures
        is_current::<C>(rows, version, leaves) ==> is_current::<C>(
            after,
            version,
            leaves.insert(
                key,
                deleted_leaf(after.tombs[key].sequence, after.tombs[key].origin_actor),
            ),
        ),
{
    if is_current::<C>(rows, version, leaves) {
        let leaf = deleted_leaf(after.tombs[key].sequence, after.tombs[key].origin_actor);
        let more = leaves.insert(key, leaf);
        assert forall|k: u128| #[trigger] more.contains_key(k) implies is_leaf::<C>(
            after,
            version,
            k,
            more[k],
        ) by {
            if k != key {
                assert(leaves.contains_key(k));
            }
        }
        assert forall|k: u128| #[trigger] more.contains_key(k) <==> after.values.contains_key(k)
            || after.tombs.contains_key(k) by {
            assert(leaves.contains_key(k) <==> rows.values.contains_key(k)
                || rows.tombs.contains_key(k));
        }
    }
}

/// A longer list holds its new element and what it held before.
pub(crate) proof fn lemma_push_contains(s: Seq<u128>, key: u128)
    ensures
        forall|x: u128| #[trigger] s.push(key).contains(x) <==> s.contains(x) || x == key,
{
    assert forall|x: u128| #[trigger] s.push(key).contains(x) <==> s.contains(x) || x == key by {
        if s.contains(x) {
            let k = choose|k: int| 0 <= k < s.len() && s[k] == x;
            assert(s.push(key)[k] == x);
        }
        if x == key {
            assert(s.push(key)[s.len() as int] == x);
        }
        if s.push(key).contains(x) && x != key {
            let k = choose|k: int| 0 <= k < s.push(key).len() && s.push(key)[k] == x;
            assert(s[k] == x);
        }
    }
}

} // verus!
