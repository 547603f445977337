//! Node-local catalog of replica files and their reserved space.
//!
//! The catalog holds the rows of the local tables. Each operation decides what becomes of
//! the rows as a whole, so that a caller can write the changed rows in one transaction.

use std::collections::BTreeMap;
use vstd::prelude::*;
use vstd::std_specs::btree::*;
use vstd::std_specs::iter::IteratorSpec;

use super::attachment::{AttachmentView, LocalAttachmentRecord};
use super::error::CatalogError;
use super::model::{
    LocalReplicaOrigin, LocalReplicaRetirement, PoolSpaceState, PoolStatus, ReplicaHealth,
    ReplicaKey, ReplicaRecord, ReplicaState, ReplicaView, ReservedSpace, SavedFilesystemFormat,
};
use super::paths::directory_name;
use super::pool::ReplicaPool;
use super::protocol::StoredPool;
use super::rules::{
    is_own_row, lemma_total_of_row, lemma_total_of_write, same_storage, slot, slot_of, CatalogView,
    Slot,
};
use crate::volume::descriptor::{VolumeCapacity, VolumeDescriptor};
use crate::volume::identity::{VolumeGeneration, VolumeId};

pub mod attachments;
pub mod opening;

verus! {

broadcast use {vstd::std_specs::btree::group_btree_axioms, vstd::laws_cmp::group_laws_cmp};

/// Replica rows as plain values.
pub open spec fn replica_views(rows: Map<Slot, ReplicaRecord>) -> Map<Slot, ReplicaView> {
    rows.map_values(|row: ReplicaRecord| row@)
}

/// Attachment rows as plain values.
pub open spec fn attachment_views(rows: Map<Slot, LocalAttachmentRecord>) -> Map<
    Slot,
    AttachmentView,
> {
    rows.map_values(|row: LocalAttachmentRecord| row@)
}

/// Rows of the local tables, with the pool that they belong to.
struct CatalogRows {
    pool: ReplicaPool,
    stored: StoredPool,
    replicas: BTreeMap<Slot, ReplicaRecord>,
    attachments: BTreeMap<Slot, LocalAttachmentRecord>,
    retirements: BTreeMap<u128, u64>,
}

impl View for CatalogRows {
    type V = CatalogView;

    closed spec fn view(&self) -> CatalogView {
        CatalogView {
            pool: self.pool@,
            stored: self.stored@,
            replicas: replica_views(self.replicas@),
            attachments: attachment_views(self.attachments@),
            retirements: self.retirements@,
        }
    }
}

/// Slots and volumes are totally ordered.
proof fn lemma_slot_order()
    ensures
        vstd::laws_cmp::obeys_cmp::<Slot>(),
        vstd::laws_cmp::obeys_cmp::<u128>(),
{
    assert(vstd::laws_cmp::obeys_cmp::<u64>());
    assert(vstd::laws_cmp::obeys_cmp::<u128>());
}

/// Returns the slot of a key.
pub fn slot_number(key: ReplicaKey) -> (out: Slot)
    ensures
        out == slot(key),
        out.0 != 0,
        out.1 != 0,
{
    (key.volume_id().as_u128(), key.generation().get())
}

/// Returns the slot of what a descriptor describes.
pub fn slot_number_of(descriptor: &VolumeDescriptor) -> (out: Slot)
    ensures
        out == slot_of(*descriptor),
{
    (descriptor.volume_id().as_u128(), descriptor.generation().get())
}

/// One slot stands before another.
pub open spec fn slot_less(a: Slot, b: Slot) -> bool {
    a.0 < b.0 || (a.0 == b.0 && a.1 < b.1)
}

/// The rows stand in the order of their slots, and they are all rows.
pub open spec fn lists_replicas(rows: Seq<ReplicaView>, all: Map<Slot, ReplicaView>) -> bool {
    &&& forall|i: int, j: int|
        #![trigger rows[i], rows[j]]
        0 <= i < j < rows.len() ==> slot_less(
            slot_of(rows[i].descriptor),
            slot_of(rows[j].descriptor),
        )
    &&& forall|i: int|
        #![trigger rows[i]]
        0 <= i < rows.len() ==> all.contains_key(slot_of(rows[i].descriptor))
            && all[slot_of(rows[i].descriptor)] == rows[i]
    &&& forall|key: Slot| #[trigger] all.contains_key(key) ==> rows.contains(all[key])
}

/// The retirements stand in the order of their volumes, and they are all retirements.
pub open spec fn lists_retirements(rows: Seq<LocalReplicaRetirement>, all: Map<u128, u64>) -> bool {
    &&& forall|i: int, j: int|
        #![trigger rows[i], rows[j]]
        0 <= i < j < rows.len() ==> slot(rows[i].retired()).0 < slot(rows[j].retired()).0
    &&& forall|i: int|
        #![trigger rows[i]]
        0 <= i < rows.len() ==> all.contains_key(slot(rows[i].retired()).0)
            && all[slot(rows[i].retired()).0] == slot(rows[i].retired()).1
    &&& forall|volume: u128| #[trigger]
        all.contains_key(volume) ==> exists|i: int|
            #![trigger rows[i]]
            0 <= i < rows.len() && slot(rows[i].retired()).0 == volume
}

/// Replica records as plain values.
pub open spec fn record_views(records: Seq<ReplicaRecord>) -> Seq<ReplicaView> {
    records.map_values(|record: ReplicaRecord| record@)
}

impl CatalogRows {
    /// Returns the empty tables of a pool.
    fn none(pool: ReplicaPool) -> (out: Self)
        ensures
            out@ == CatalogView::none(pool@),
    {
        let out = CatalogRows {
            stored: StoredPool::new(&pool),
            pool,
            replicas: BTreeMap::new(),
            attachments: BTreeMap::new(),
            retirements: BTreeMap::new(),
        };
        proof {
            assert(out@.replicas =~= Map::<Slot, ReplicaView>::empty());
            assert(out@.attachments =~= Map::<Slot, AttachmentView>::empty());
        }
        out
    }

    /// Finds one replica row.
    fn find_replica(&self, key: Slot) -> (out: Option<&ReplicaRecord>)
        ensures
            match out {
                Some(row) => self@.replicas.contains_key(key) && row@ == self@.replicas[key],
                None => !self@.replicas.contains_key(key),
            },
    {
        proof { lemma_slot_order(); }
        self.replicas.get(&key)
    }

    /// Finds one attachment row.
    fn find_attachment(&self, key: Slot) -> (out: Option<&LocalAttachmentRecord>)
        ensures
            match out {
                Some(row) => self@.attachments.contains_key(key) && row@ == self@.attachments[key],
                None => !self@.attachments.contains_key(key),
            },
    {
        proof { lemma_slot_order(); }
        self.attachments.get(&key)
    }

    /// Finds the retired generation of a volume.
    fn find_retirement(&self, volume: u128) -> (out: Option<u64>)
        ensures
            match out {
                Some(generation) => self@.retirements.contains_key(volume) && generation
                    == self@.retirements[volume],
                None => !self@.retirements.contains_key(volume),
            },
    {
        proof { lemma_slot_order(); }
        match self.retirements.get(&volume) {
            Some(generation) => Some(*generation),
            None => None,
        }
    }

    /// Writes one replica row.
    fn put_replica(&mut self, key: Slot, row: ReplicaRecord)
        ensures
            final(self)@ == old(self)@.with_replica(key, row@),
    {
        proof { lemma_slot_order(); }
        let ghost before = self.replicas@;
        let _ = self.replicas.insert(key, row);
        proof {
            assert(replica_views(self.replicas@) =~= replica_views(before).insert(key, row@));
        }
    }

    /// Removes one replica row.
    fn drop_replica(&mut self, key: Slot)
        ensures
            final(self)@ == old(self)@.without_replica(key),
    {
        proof { lemma_slot_order(); }
        let ghost before = self.replicas@;
        let _ = self.replicas.remove(&key);
        proof { assert(replica_views(self.replicas@) =~= replica_views(before).remove(key)); }
    }

    /// Writes one attachment row.
    fn put_attachment(&mut self, key: Slot, row: LocalAttachmentRecord)
        ensures
            final(self)@ == old(self)@.with_attachment(key, row@),
    {
        proof { lemma_slot_order(); }
        let ghost before = self.attachments@;
        let _ = self.attachments.insert(key, row);
        proof {
            assert(attachment_views(self.attachments@) =~= attachment_views(before).insert(
                key,
                row@,
            ));
        }
    }

    /// Removes one attachment row.
    fn drop_attachment(&mut self, key: Slot)
        ensures
            final(self)@ == old(self)@.without_attachment(key),
    {
        proof { lemma_slot_order(); }
        let ghost before = self.attachments@;
        let _ = self.attachments.remove(&key);
        proof {
            assert(attachment_views(self.attachments@) =~= attachment_views(before).remove(key));
        }
    }

    /// Writes the retired generation of a volume.
    fn put_retirement(&mut self, volume: u128, generation: u64)
        ensures
            final(self)@ == old(self)@.with_retirement(volume, generation),
    {
        proof { lemma_slot_order(); }
        let _ = self.retirements.insert(volume, generation);
    }

    /// Removes the retired generation of a volume.
    fn drop_retirement(&mut self, volume: u128)
        ensures
            final(self)@ == old(self)@.without_retirement(volume),
    {
        proof { lemma_slot_order(); }
        let _ = self.retirements.remove(&volume);
    }

    /// Writes the pool totals.
    fn put_totals(&mut self, data_bytes: u64, metadata_bytes: u64)
        ensures
            final(self)@ == old(self)@.with_totals(data_bytes as int, metadata_bytes as int),
    {
        self.stored.data_bytes = data_bytes;
        self.stored.metadata_bytes = metadata_bytes;
    }
}

/// Node-local catalog for replica files and their reserved space.
pub struct ReplicaCatalog {
    rows: CatalogRows,
}

impl View for ReplicaCatalog {
    type V = CatalogView;

    closed spec fn view(&self) -> CatalogView {
        self.rows@
    }
}

impl ReplicaCatalog {
    /// The rows of a catalog agree with each other at all times.
    #[verifier::type_invariant]
    spec fn holds_consistent_rows(self) -> bool {
        self.rows@.is_consistent()
    }

    /// Returns the checked root used to build replica paths.
    #[must_use]
    pub fn pool_root(&self) -> (out: &[u8])
        ensures
            out@ == self@.pool.root,
    {
        self.rows.pool.root()
    }

    /// Returns the saved pool row with the current totals.
    #[must_use]
    pub fn stored_pool(&self) -> (out: &StoredPool)
        ensures
            out@ == self@.stored,
    {
        &self.rows.stored
    }

    /// Takes the rows out to change them; empty tables stand in for them meanwhile.
    fn take_rows(&mut self) -> (out: CatalogRows)
        ensures
            out@ == old(self)@,
            out@.is_consistent(),
    {
        proof { use_type_invariant(&*self); }
        let mut rows = CatalogRows::none(self.rows.pool.clone());
        std::mem::swap(&mut rows, &mut self.rows);
        rows
    }

    /// Writes one replica row.
    fn put_replica(&mut self, key: Slot, row: ReplicaRecord)
        requires
            old(self)@.with_replica(key, row@).is_consistent(),
        ensures
            final(self)@ == old(self)@.with_replica(key, row@),
    {
        let mut rows = self.take_rows();
        rows.put_replica(key, row);
        self.rows = rows;
    }

    /// Writes one replica row and the pool totals.
    fn put_sized_replica(
        &mut self,
        key: Slot,
        row: ReplicaRecord,
        data_bytes: u64,
        metadata_bytes: u64,
    )
        requires
            old(self)@.with_replica(key, row@).with_totals(
                data_bytes as int,
                metadata_bytes as int,
            ).is_consistent(),
        ensures
            final(self)@ == old(self)@.with_replica(key, row@).with_totals(
                data_bytes as int,
                metadata_bytes as int,
            ),
    {
        let mut rows = self.take_rows();
        rows.put_replica(key, row);
        rows.put_totals(data_bytes, metadata_bytes);
        self.rows = rows;
    }

    /// Writes one attachment row.
    fn put_attachment(&mut self, key: Slot, row: LocalAttachmentRecord)
        requires
            old(self)@.with_attachment(key, row@).is_consistent(),
        ensures
            final(self)@ == old(self)@.with_attachment(key, row@),
    {
        let mut rows = self.take_rows();
        rows.put_attachment(key, row);
        self.rows = rows;
    }

    /// Removes one attachment row.
    fn drop_attachment(&mut self, key: Slot)
        ensures
            final(self)@ == old(self)@.without_attachment(key),
    {
        let mut rows = self.take_rows();
        rows.drop_attachment(key);
        self.rows = rows;
    }

    /// Writes the retired generation of a volume.
    fn put_retirement(&mut self, volume: u128, generation: u64)
        requires
            old(self)@.with_retirement(volume, generation).is_consistent(),
        ensures
            final(self)@ == old(self)@.with_retirement(volume, generation),
    {
        let mut rows = self.take_rows();
        rows.put_retirement(volume, generation);
        self.rows = rows;
    }

    /// Removes the retired generation of a volume.
    fn drop_retirement(&mut self, volume: u128)
        ensures
            final(self)@ == old(self)@.without_retirement(volume),
    {
        let mut rows = self.take_rows();
        rows.drop_retirement(volume);
        self.rows = rows;
    }
}

/// Writing a row with new totals keeps the catalog consistent.
proof fn lemma_write_keeps(
    catalog: CatalogView,
    key: Slot,
    row: ReplicaView,
    data_bytes: int,
    metadata_bytes: int,
)
    requires
        catalog.is_consistent(),
        is_own_row(key, row),
        data_bytes == catalog.stored.data_bytes + row.reserved.data() - (if catalog.replicas.contains_key(
            key,
        ) {
            catalog.replicas[key].reserved.data() as int
        } else {
            0
        }),
        metadata_bytes == catalog.stored.metadata_bytes + row.reserved.metadata() - (
        if catalog.replicas.contains_key(key) {
            catalog.replicas[key].reserved.metadata() as int
        } else {
            0
        }),
        data_bytes + metadata_bytes <= catalog.stored.managed_bytes,
        catalog.replicas.contains_key(key) ==> same_storage(
            catalog.replicas[key].descriptor,
            row.descriptor,
        ) && catalog.replicas[key].descriptor.capacity_of().size()
            <= row.descriptor.capacity_of().size(),
        !catalog.replicas.contains_key(key) ==> !catalog.attachments.contains_key(key)
            && !(catalog.retirements.contains_key(key.0) && catalog.retirements[key.0] == key.1),
    ensures
        0 <= data_bytes <= u64::MAX,
        0 <= metadata_bytes <= u64::MAX,
        catalog.with_replica(key, row).with_totals(data_bytes, metadata_bytes).is_consistent(),
{
    lemma_total_of_write(catalog.replicas, key, row, false);
    lemma_total_of_write(catalog.replicas, key, row, true);
}

/// Releasing a row without attachment keeps the catalog consistent.
proof fn lemma_release_keeps(catalog: CatalogView, key: Slot)
    requires
        catalog.is_consistent(),
        catalog.replicas.contains_key(key),
        !catalog.attachments.contains_key(key),
    ensures
        catalog.stored.data_bytes >= catalog.replicas[key].reserved.data(),
        catalog.stored.metadata_bytes >= catalog.replicas[key].reserved.metadata(),
        catalog.released(key).is_consistent(),
{
    lemma_total_of_row(catalog.replicas, key, false);
    lemma_total_of_row(catalog.replicas, key, true);
}

/// Returns whether the origins of two replicas are the same, and so their descriptors.
fn is_same_reservation(
    row: &ReplicaRecord,
    descriptor: &VolumeDescriptor,
    origin: &LocalReplicaOrigin,
) -> (out: bool)
    ensures
        out == (row@.descriptor == *descriptor && row@.origin == origin@),
{
    *row.descriptor() == *descriptor && row.origin().same(origin)
}

impl ReplicaCatalog {
    /// Counts slots, with one more where asked.
    fn count_slots(&self, extra: bool) -> (out: Result<u64, CatalogError>)
        ensures
            out == self@.slot_count(extra),
    {
        proof {
            lemma_slot_order();
            assert(self@.replicas.dom() =~= self.rows.replicas@.dom());
        }
        let rows: u64 = self.rows.replicas.len() as u64;
        let proofs: u64 = self.rows.retirements.len() as u64;
        let current: u64 = match rows.checked_add(proofs) {
            Some(current) => current,
            None => {
                return Err(CatalogError::ReplicaCountOverflow);
            },
        };
        let added: u64 = if extra { 1 } else { 0 };
        match current.checked_add(added) {
            Some(actual) => Ok(actual),
            None => Err(CatalogError::ReplicaCountOverflow),
        }
    }

    /// Checks the slots, with one more where asked, against a limit.
    fn check_slots(&self, extra: bool, maximum: usize) -> (out: Result<(), CatalogError>)
        ensures
            match out {
                Ok(()) => self@.slot_error(extra, maximum) is None,
                Err(error) => self@.slot_error(extra, maximum) == Some(error),
            },
    {
        match self.count_slots(extra) {
            Err(error) => Err(error),
            Ok(actual) => {
                if actual > maximum as u64 {
                    return Err(CatalogError::TooManyReplicaSlots { actual, maximum });
                }
                Ok(())
            },
        }
    }

    /// Checks new totals against the managed pool capacity.
    fn check_new_replica_space(&self, data_bytes: u64, metadata_bytes: u64) -> (out: Result<
        (),
        CatalogError,
    >)
        requires
            self@.stored.data_bytes + self@.stored.metadata_bytes <= self@.stored.managed_bytes,
        ensures
            match out {
                Ok(()) => self@.promise_error(data_bytes as int, metadata_bytes as int) is None,
                Err(error) => self@.promise_error(data_bytes as int, metadata_bytes as int) == Some(
                    error,
                ),
            },
    {
        let current_bytes: u64 = self.rows.stored.data_bytes + self.rows.stored.metadata_bytes;
        let required_bytes: u64 = match data_bytes.checked_add(metadata_bytes) {
            Some(required_bytes) => required_bytes,
            None => {
                return Err(CatalogError::SpaceOverflow);
            },
        };
        if required_bytes > self.rows.stored.managed_bytes {
            return Err(
                CatalogError::NotEnoughSpace {
                    available_bytes: self.rows.stored.managed_bytes - current_bytes,
                    required_bytes: required_bytes - current_bytes,
                },
            );
        }
        Ok(())
    }

    /// Holds one replica without a catalog limit.
    ///
    /// The caller supplies the space that the storage format needs for the capacity and
    /// the free bytes that the filesystem reports.
    pub fn reserve_replica(
        &mut self,
        descriptor: VolumeDescriptor,
        origin: LocalReplicaOrigin,
        space: ReservedSpace,
        available_bytes: u64,
    ) -> (out: Result<ReplicaRecord, CatalogError>)
        ensures
            final(self)@.is_consistent(),
            match out {
                Ok(record) => old(self)@.reserved(
                    descriptor,
                    origin@,
                    None,
                    space,
                    available_bytes,
                ) == Ok::<CatalogView, CatalogError>(final(self)@) && record@
                    == final(self)@.replicas[slot_of(descriptor)],
                Err(error) => old(self)@.reserved(
                    descriptor,
                    origin@,
                    None,
                    space,
                    available_bytes,
                ) == Err::<CatalogView, CatalogError>(error) && final(self)@ == old(self)@,
            },
    {
        proof { use_type_invariant(&*self); }
        self.reserve_replica_inner(descriptor, origin, None, space, available_bytes)
    }

    /// Reserves one replica without allowing the durable catalog to exceed its limit.
    pub fn reserve_replica_bounded(
        &mut self,
        descriptor: VolumeDescriptor,
        origin: LocalReplicaOrigin,
        maximum: usize,
        space: ReservedSpace,
        available_bytes: u64,
    ) -> (out: Result<ReplicaRecord, CatalogError>)
        ensures
            final(self)@.is_consistent(),
            match out {
                Ok(record) => old(self)@.reserved(
                    descriptor,
                    origin@,
                    Some(maximum),
                    space,
                    available_bytes,
                ) == Ok::<CatalogView, CatalogError>(final(self)@) && record@
                    == final(self)@.replicas[slot_of(descriptor)],
                Err(error) => old(self)@.reserved(
                    descriptor,
                    origin@,
                    Some(maximum),
                    space,
                    available_bytes,
                ) == Err::<CatalogView, CatalogError>(error) && final(self)@ == old(self)@,
            },
    {
        proof { use_type_invariant(&*self); }
        self.reserve_replica_inner(descriptor, origin, Some(maximum), space, available_bytes)
    }

    /// Performs one idempotent reservation and checks the optional admission limit.
    fn reserve_replica_inner(
        &mut self,
        descriptor: VolumeDescriptor,
        origin: LocalReplicaOrigin,
        maximum: Option<usize>,
        space: ReservedSpace,
        available_bytes: u64,
    ) -> (out: Result<ReplicaRecord, CatalogError>)
        ensures
            final(self)@.is_consistent(),
            match out {
                Ok(record) => old(self)@.reserved(
                    descriptor,
                    origin@,
                    maximum,
                    space,
                    available_bytes,
                ) == Ok::<CatalogView, CatalogError>(final(self)@) && record@
                    == final(self)@.replicas[slot_of(descriptor)],
                Err(error) => old(self)@.reserved(
                    descriptor,
                    origin@,
                    maximum,
                    space,
                    available_bytes,
                ) == Err::<CatalogView, CatalogError>(error) && final(self)@ == old(self)@,
            },
    {
        proof { use_type_invariant(&*self); }
        let ghost before = self@;
        let key = slot_number_of(&descriptor);
        let retirement: Option<u64> = self.rows.find_retirement(key.0);
        let bootstrap = match &origin {
            LocalReplicaOrigin::Bootstrap(_) => true,
            LocalReplicaOrigin::Replacement { .. } => false,
        };
        if let Some(generation) = retirement {
            if generation > key.1 || (generation == key.1 && bootstrap) {
                return Err(CatalogError::ReplicaRetired);
            }
        }
        let existing = match self.rows.find_replica(key) {
            Some(row) => Some(row.clone()),
            None => None,
        };
        if let Some(row) = existing {
            if !is_same_reservation(&row, &descriptor, &origin) {
                return Err(CatalogError::ConflictingReplica);
            }
            if retirement.is_some() {
                self.drop_retirement(key.0);
            }
            proof { assert(self@ =~= before.without_retirement(key.0)); }
            return Ok(row);
        }
        if let Some(maximum) = maximum {
            match self.check_slots(retirement.is_none(), maximum) {
                Err(error) => {
                    return Err(error);
                },
                Ok(()) => {},
            }
        }
        let new_data: u64 = match self.rows.stored.data_bytes.checked_add(space.data_bytes()) {
            Some(new_data) => new_data,
            None => {
                return Err(CatalogError::SpaceOverflow);
            },
        };
        let new_metadata: u64 = match self.rows.stored.metadata_bytes.checked_add(
            space.metadata_bytes(),
        ) {
            Some(new_metadata) => new_metadata,
            None => {
                return Err(CatalogError::SpaceOverflow);
            },
        };
        let requested_bytes: u64 = match space.data_bytes().checked_add(space.metadata_bytes()) {
            Some(requested_bytes) => requested_bytes,
            None => {
                return Err(CatalogError::SpaceOverflow);
            },
        };
        if requested_bytes > available_bytes {
            return Err(
                CatalogError::NotEnoughFreeSpace {
                    available_bytes,
                    required_bytes: requested_bytes,
                },
            );
        }
        match self.check_new_replica_space(new_data, new_metadata) {
            Err(error) => {
                return Err(error);
            },
            Ok(()) => {},
        }
        let name = directory_name(ReplicaKey::from_descriptor(&descriptor));
        let record = ReplicaRecord::new(descriptor, origin, name, space);
        let row = record.clone();
        proof {
            assert(is_own_row(key, record@));
            let cleared = before.without_retirement(key.0);
            assert(cleared.is_consistent());
            lemma_write_keeps(cleared, key, record@, new_data as int, new_metadata as int);
        }
        if retirement.is_some() {
            self.drop_retirement(key.0);
        }
        proof { assert(self@ =~= before.without_retirement(key.0)); }
        self.put_sized_replica(key, row, new_data, new_metadata);
        proof {
            assert(self@ =~= before.with_replica(key, record@).without_retirement(
                key.0,
            ).with_totals(new_data as int, new_metadata as int));
            assert(self@ =~= before.without_retirement(key.0).with_replica(
                key,
                record@,
            ).with_totals(new_data as int, new_metadata as int));
        }
        Ok(record)
    }

    /// Returns the number of durable replicas.
    pub fn replica_count(&self) -> (out: u64)
        ensures
            out == self@.replicas.dom().len(),
    {
        proof {
            lemma_slot_order();
            assert(self@.replicas.dom() =~= self.rows.replicas@.dom());
        }
        self.rows.replicas.len() as u64
    }

    /// Counts files and durable retirement proofs against one shared admission bound.
    pub fn replica_slot_count(&self) -> (out: Result<u64, CatalogError>)
        ensures
            out == self@.slot_count(false),
    {
        self.count_slots(false)
    }

    /// Rejects startup when durable replica ownership exceeds the configured bound.
    pub fn check_replica_slot_limit(&self, maximum: usize) -> (out: Result<(), CatalogError>)
        ensures
            match out {
                Ok(()) => self@.slot_error(false, maximum) is None,
                Err(error) => self@.slot_error(false, maximum) == Some(error),
            },
    {
        self.check_slots(false, maximum)
    }

    /// Returns one saved replica without consulting cluster state.
    pub fn replica(&self, key: ReplicaKey) -> (out: Option<ReplicaRecord>)
        ensures
            match out {
                Some(record) => self@.replicas.contains_key(slot(key)) && record@
                    == self@.replicas[slot(key)],
                None => !self@.replicas.contains_key(slot(key)),
            },
    {
        match self.rows.find_replica(slot_number(key)) {
            Some(row) => Some(row.clone()),
            None => None,
        }
    }
}

impl ReplicaCatalog {
    /// Holds complete pool space before this node extends its local replica file.
    ///
    /// The caller supplies the space that the storage format needs for the target and the
    /// free bytes that the filesystem reports.
    pub fn reserve_replica_capacity(
        &mut self,
        key: ReplicaKey,
        target: VolumeCapacity,
        requested: ReservedSpace,
        available_bytes: u64,
    ) -> (out: Result<ReplicaRecord, CatalogError>)
        ensures
            final(self)@.is_consistent(),
            match out {
                Ok(record) => old(self)@.capacity_reserved(
                    slot(key),
                    target,
                    requested,
                    available_bytes,
                )
                    == Ok::<CatalogView, CatalogError>(final(self)@) && record@
                    == final(self)@.replicas[slot(key)],
                Err(error) => old(self)@.capacity_reserved(
                    slot(key),
                    target,
                    requested,
                    available_bytes,
                )
                    == Err::<CatalogView, CatalogError>(error) && final(self)@ == old(self)@,
            },
    {
        proof { use_type_invariant(&*self); }
        let ghost before = self@;
        let slot = slot_number(key);
        let mut record = match self.rows.find_replica(slot) {
            Some(row) => row.clone(),
            None => {
                return Err(CatalogError::ReplicaNotFound);
            },
        };
        if target.bytes() < record.descriptor().capacity().bytes() {
            return Err(CatalogError::ReservationBelowAppliedCapacity);
        }
        let current = record.reserved_space();
        if target.bytes() <= current.data_bytes() {
            return Ok(record);
        }
        let added_data: u64 = match requested.data_bytes().checked_sub(current.data_bytes()) {
            Some(added) => added,
            None => {
                return Err(CatalogError::SpaceOverflow);
            },
        };
        let added_metadata: u64 = match requested.metadata_bytes().checked_sub(
            current.metadata_bytes(),
        ) {
            Some(added) => added,
            None => {
                return Err(CatalogError::SpaceOverflow);
            },
        };
        let added_bytes: u64 = match added_data.checked_add(added_metadata) {
            Some(added) => added,
            None => {
                return Err(CatalogError::SpaceOverflow);
            },
        };
        if added_bytes > available_bytes {
            return Err(
                CatalogError::NotEnoughFreeSpace { available_bytes, required_bytes: added_bytes },
            );
        }
        let new_data: u64 = match self.rows.stored.data_bytes.checked_add(added_data) {
            Some(total) => total,
            None => {
                return Err(CatalogError::SpaceOverflow);
            },
        };
        let new_metadata: u64 = match self.rows.stored.metadata_bytes.checked_add(added_metadata) {
            Some(total) => total,
            None => {
                return Err(CatalogError::SpaceOverflow);
            },
        };
        match self.check_new_replica_space(new_data, new_metadata) {
            Err(error) => {
                return Err(error);
            },
            Ok(()) => {},
        }
        record.set_reserved_space(requested);
        proof {
            lemma_write_keeps(before, slot, record@, new_data as int, new_metadata as int);
        }
        self.put_sized_replica(slot, record.clone(), new_data, new_metadata);
        Ok(record)
    }

    /// Releases only reservation above both the requested and applied capacities.
    ///
    /// The caller supplies the space that the storage format needs for the target, which
    /// for a smaller target is not more than is held.
    pub fn reduce_replica_reservation(
        &mut self,
        key: ReplicaKey,
        target: VolumeCapacity,
        requested: ReservedSpace,
    ) -> (out: Result<ReplicaRecord, CatalogError>)
        requires
            old(self)@.replicas.contains_key(slot(key)) && target.size()
                < old(self)@.replicas[slot(key)].reserved.data() ==> requested.data()
                <= old(self)@.replicas[slot(key)].reserved.data() && requested.metadata()
                <= old(self)@.replicas[slot(key)].reserved.metadata(),
        ensures
            final(self)@.is_consistent(),
            match out {
                Ok(record) => old(self)@.reservation_reduced(slot(key), target, requested)
                    == Ok::<CatalogView, CatalogError>(final(self)@) && record@
                    == final(self)@.replicas[slot(key)],
                Err(error) => old(self)@.reservation_reduced(slot(key), target, requested)
                    == Err::<CatalogView, CatalogError>(error) && final(self)@ == old(self)@,
            },
    {
        proof { use_type_invariant(&*self); }
        let ghost before = self@;
        let slot = slot_number(key);
        let mut record = match self.rows.find_replica(slot) {
            Some(row) => row.clone(),
            None => {
                return Err(CatalogError::ReplicaNotFound);
            },
        };
        if target.bytes() < record.descriptor().capacity().bytes() {
            return Err(CatalogError::ReservationBelowAppliedCapacity);
        }
        let current = record.reserved_space();
        if target.bytes() >= current.data_bytes() {
            return Ok(record);
        }
        proof {
            lemma_total_of_row(before.replicas, slot, false);
            lemma_total_of_row(before.replicas, slot, true);
        }
        let new_data: u64 = self.rows.stored.data_bytes - (current.data_bytes()
            - requested.data_bytes());
        let new_metadata: u64 = self.rows.stored.metadata_bytes - (current.metadata_bytes()
            - requested.metadata_bytes());
        record.set_reserved_space(requested);
        proof {
            lemma_write_keeps(before, slot, record@, new_data as int, new_metadata as int);
        }
        self.put_sized_replica(slot, record.clone(), new_data, new_metadata);
        Ok(record)
    }

    /// Records a capacity already committed by Raft after local files cover it.
    pub fn apply_replica_capacity(&mut self, key: ReplicaKey, target: VolumeCapacity) -> (out:
        Result<ReplicaRecord, CatalogError>)
        ensures
            final(self)@.is_consistent(),
            match out {
                Ok(record) => old(self)@.capacity_applied(slot(key), target)
                    == Ok::<CatalogView, CatalogError>(final(self)@) && record@
                    == final(self)@.replicas[slot(key)],
                Err(error) => old(self)@.capacity_applied(slot(key), target)
                    == Err::<CatalogView, CatalogError>(error) && final(self)@ == old(self)@,
            },
    {
        proof { use_type_invariant(&*self); }
        let ghost before = self@;
        let slot = slot_number(key);
        let mut record = match self.rows.find_replica(slot) {
            Some(row) => row.clone(),
            None => {
                return Err(CatalogError::ReplicaNotFound);
            },
        };
        let current = record.descriptor().capacity();
        if target.bytes() < current.bytes() {
            return Err(CatalogError::CapacityCannotShrink);
        }
        if target.bytes() > record.reserved_space().data_bytes() {
            return Err(CatalogError::CapacityExceedsReservation);
        }
        if target == current {
            return Ok(record);
        }
        let old_descriptor = *record.descriptor();
        let descriptor = match old_descriptor.with_capacity(target) {
            Ok(descriptor) => descriptor,
            Err(error) => {
                return Err(CatalogError::Descriptor(error));
            },
        };
        record.set_descriptor(descriptor);
        proof {
            old_descriptor.lemma_resized(target);
            lemma_same_key(old_descriptor, descriptor);
            lemma_write_keeps(
                before,
                slot,
                record@,
                before.stored.data_bytes as int,
                before.stored.metadata_bytes as int,
            );
            assert(before.with_replica(slot, record@).with_totals(
                before.stored.data_bytes as int,
                before.stored.metadata_bytes as int,
            ) =~= before.with_replica(slot, record@));
        }
        self.put_replica(slot, record.clone());
        Ok(record)
    }

    /// Reassigns one excluded local slot before its complete replacement rebuild.
    ///
    /// The caller must first prove from locally applied Raft state that this node is the
    /// inactive replacement target. The change leaves the row in `Preparing`, so startup
    /// recreates the file instead of admitting its former contents.
    pub fn begin_replica_replacement(
        &mut self,
        key: ReplicaKey,
        descriptor: VolumeDescriptor,
        origin: LocalReplicaOrigin,
    ) -> (out: Result<ReplicaRecord, CatalogError>)
        ensures
            final(self)@.is_consistent(),
            match out {
                Ok(record) => old(self)@.replacement_begun(slot(key), descriptor, origin@)
                    == Ok::<CatalogView, CatalogError>(final(self)@) && record@
                    == final(self)@.replicas[slot(key)],
                Err(error) => old(self)@.replacement_begun(slot(key), descriptor, origin@)
                    == Err::<CatalogView, CatalogError>(error) && final(self)@ == old(self)@,
            },
    {
        proof { use_type_invariant(&*self); }
        let ghost before = self@;
        match &origin {
            LocalReplicaOrigin::Bootstrap(_) => {
                return Err(CatalogError::ConflictingReplica);
            },
            LocalReplicaOrigin::Replacement { .. } => {},
        }
        let slot = slot_number(key);
        let mut record = match self.rows.find_replica(slot) {
            Some(row) => row.clone(),
            None => {
                return Err(CatalogError::ReplicaNotFound);
            },
        };
        let state = record.state();
        let saved = *record.descriptor();
        let wanted = slot_number_of(&descriptor);
        if wanted.0 != slot.0 || wanted.1 != slot.1 || !saved.has_same_storage_identity(&descriptor)
            || saved.capacity().bytes() > descriptor.capacity().bytes()
            || descriptor.capacity().bytes() > record.reserved_space().data_bytes() || !(state
            == ReplicaState::Preparing || state == ReplicaState::Ready) {
            return Err(CatalogError::ConflictingReplica);
        }
        if self.rows.find_attachment(slot).is_some() {
            return Err(CatalogError::ReplicaStillAttached);
        }
        record.set_descriptor(descriptor);
        record.set_origin(origin);
        record.set_state(ReplicaState::Preparing);
        record.set_health(ReplicaHealth::Healthy);
        record.clear_filesystem_format();
        proof {
            lemma_same_key(saved, descriptor);
            lemma_write_keeps(
                before,
                slot,
                record@,
                before.stored.data_bytes as int,
                before.stored.metadata_bytes as int,
            );
            assert(before.with_replica(slot, record@).with_totals(
                before.stored.data_bytes as int,
                before.stored.metadata_bytes as int,
            ) =~= before.with_replica(slot, record@));
        }
        self.put_replica(slot, record.clone());
        Ok(record)
    }

    /// Returns durable proof that current control state removed this node's live copy.
    pub fn retirement(&self, key: ReplicaKey) -> (out: Option<LocalReplicaRetirement>)
        ensures
            match out {
                Some(retirement) => retirement.retired() == key && self@.retirements.contains_key(
                    slot(key).0,
                ) && self@.retirements[slot(key).0] == slot(key).1,
                None => !(self@.retirements.contains_key(slot(key).0)
                    && self@.retirements[slot(key).0] == slot(key).1),
            },
    {
        let slot = slot_number(key);
        match self.rows.find_retirement(slot.0) {
            Some(generation) => {
                if generation == slot.1 {
                    Some(LocalReplicaRetirement::new(key))
                } else {
                    None
                }
            },
            None => None,
        }
    }

    /// Returns every saved proof of retirement in the order of the volumes.
    pub fn discover_retirements(&self) -> (out: Vec<LocalReplicaRetirement>)
        ensures
            lists_retirements(out@, self@.retirements),
    {
        proof {
            use_type_invariant(self);
            lemma_slot_order();
        }
        let mut out: Vec<LocalReplicaRetirement> = Vec::new();
        for entry in it: self.rows.retirements.iter()
            invariant
                self@.is_consistent(),
                it.seq() == spec_btree_map_iter(&self.rows.retirements).remaining(),
                increasing_seq(it.seq().map_values(|kv: (&u128, &u64)| *kv.0)),
                forall|k: int|
                    #![trigger it.seq()[k]]
                    0 <= k < it.seq().len() ==> self.rows.retirements@.contains_key(*it.seq()[k].0)
                        && self.rows.retirements@[*it.seq()[k].0] == *it.seq()[k].1,
                out@.len() == it.index(),
                forall|k: int|
                    #![trigger out@[k]]
                    0 <= k < it.index() ==> slot(out@[k].retired()) == (
                        *it.seq()[k].0,
                        *it.seq()[k].1,
                    ),
        {
            proof {
                assert(self@.retirements.contains_key(*entry.0));
            }
            if let (Ok(volume_id), Ok(generation)) = (
                VolumeId::new(*entry.0),
                VolumeGeneration::new(*entry.1),
            ) {
                out.push(LocalReplicaRetirement::new(ReplicaKey::new(volume_id, generation)));
            }
        }
        proof {
            lemma_slot_order();
            let all = spec_btree_map_iter(&self.rows.retirements).remaining();
            let keys = all.map_values(|kv: (&u128, &u64)| *kv.0);
            let rows = out@;
            let map = self.rows.retirements@;
            assert forall|i: int, j: int|
                #![trigger rows[i], rows[j]]
                0 <= i < j < rows.len() implies slot(rows[i].retired()).0 < slot(
                rows[j].retired(),
            ).0 by {
                assert(crate::store::order::less(keys[i], keys[j]));
            }
            assert forall|i: int| #![trigger rows[i]] 0 <= i < rows.len() implies map.contains_key(
                slot(rows[i].retired()).0,
            ) && map[slot(rows[i].retired()).0] == slot(rows[i].retired()).1 by {
                assert(all.contains(all[i]));
            }
            assert forall|volume: u128| #[trigger] map.contains_key(volume) implies exists|i: int|
                #![trigger rows[i]]
                0 <= i < rows.len() && slot(rows[i].retired()).0 == volume by {
                assert(all.contains((&volume, &map[volume])));
                let i = choose|i: int| 0 <= i < all.len() && all[i] == (&volume, &map[volume]);
                assert(slot(rows[i].retired()).0 == volume);
            }
        }
        out
    }

    /// Removes proof for an older generation superseded by current desired identity.
    pub fn forget_retirement_before(&mut self, current: ReplicaKey)
        ensures
            final(self)@.is_consistent(),
            final(self)@ == old(self)@.forgotten_before(slot(current)),
    {
        proof { use_type_invariant(&*self); }
        let slot = slot_number(current);
        if let Some(generation) = self.rows.find_retirement(slot.0) {
            if generation < slot.1 {
                self.drop_retirement(slot.0);
            }
        }
    }

    /// Saves one unfinished format independently of transient kernel state.
    pub fn save_filesystem_format(
        &mut self,
        key: ReplicaKey,
        format: SavedFilesystemFormat,
    ) -> (out: Result<(), CatalogError>)
        ensures
            final(self)@.is_consistent(),
            match out {
                Ok(()) => old(self)@.format_saved(slot(key), format@)
                    == Ok::<CatalogView, CatalogError>(final(self)@),
                Err(error) => old(self)@.format_saved(slot(key), format@)
                    == Err::<CatalogView, CatalogError>(error) && final(self)@ == old(self)@,
            },
    {
        proof { use_type_invariant(&*self); }
        let slot = slot_number(key);
        let mut record = match self.rows.find_replica(slot) {
            Some(row) => row.clone(),
            None => {
                return Err(CatalogError::ReplicaNotFound);
            },
        };
        match record.filesystem_format() {
            Some(saved) => {
                if !saved.same(&format) {
                    return Err(CatalogError::FilesystemFormatChanged);
                }
                proof {
                    assert(self@.with_replica(
                        slot,
                        ReplicaView { filesystem_format: Some(format@), ..record@ },
                    ) =~= self@);
                }
            },
            None => {
                record.set_filesystem_format(format);
                self.put_unchanged_space(slot, record);
            },
        }
        Ok(())
    }

    /// Clears one exact format after the filesystem and its committed state are complete.
    pub fn clear_filesystem_format(
        &mut self,
        key: ReplicaKey,
        expected: SavedFilesystemFormat,
    ) -> (out: Result<(), CatalogError>)
        ensures
            final(self)@.is_consistent(),
            match out {
                Ok(()) => old(self)@.format_cleared(slot(key), expected@)
                    == Ok::<CatalogView, CatalogError>(final(self)@),
                Err(error) => old(self)@.format_cleared(slot(key), expected@)
                    == Err::<CatalogView, CatalogError>(error) && final(self)@ == old(self)@,
            },
    {
        proof { use_type_invariant(&*self); }
        let slot = slot_number(key);
        let mut record = match self.rows.find_replica(slot) {
            Some(row) => row.clone(),
            None => {
                return Err(CatalogError::ReplicaNotFound);
            },
        };
        match record.filesystem_format() {
            Some(saved) => {
                if !saved.same(&expected) {
                    return Err(CatalogError::FilesystemFormatChanged);
                }
                record.clear_filesystem_format();
                self.put_unchanged_space(slot, record);
            },
            None => {
                proof {
                    assert(self@.with_replica(
                        slot,
                        ReplicaView { filesystem_format: None, ..record@ },
                    ) =~= self@);
                }
            },
        }
        Ok(())
    }

    /// Stores one allowed node-local file-state change.
    pub fn set_replica_state(&mut self, key: ReplicaKey, requested: ReplicaState) -> (out: Result<
        (),
        CatalogError,
    >)
        ensures
            final(self)@.is_consistent(),
            match out {
                Ok(()) => old(self)@.state_set(slot(key), requested)
                    == Ok::<CatalogView, CatalogError>(final(self)@),
                Err(error) => old(self)@.state_set(slot(key), requested)
                    == Err::<CatalogView, CatalogError>(error) && final(self)@ == old(self)@,
            },
    {
        proof { use_type_invariant(&*self); }
        let slot = slot_number(key);
        let mut record = match self.rows.find_replica(slot) {
            Some(row) => row.clone(),
            None => {
                return Err(CatalogError::ReplicaNotFound);
            },
        };
        let current = record.state();
        if !current.can_change_to(requested) {
            return Err(CatalogError::InvalidStateChange { current, requested });
        }
        record.set_state(requested);
        self.put_unchanged_space(slot, record);
        Ok(())
    }

    /// Stores one local file-health level when it differs from the current row.
    pub fn set_replica_health(&mut self, key: ReplicaKey, requested: ReplicaHealth) -> (out:
        Result<(), CatalogError>)
        ensures
            final(self)@.is_consistent(),
            match out {
                Ok(()) => old(self)@.health_set(slot(key), requested)
                    == Ok::<CatalogView, CatalogError>(final(self)@),
                Err(error) => old(self)@.health_set(slot(key), requested)
                    == Err::<CatalogView, CatalogError>(error) && final(self)@ == old(self)@,
            },
    {
        proof { use_type_invariant(&*self); }
        let slot = slot_number(key);
        let mut record = match self.rows.find_replica(slot) {
            Some(row) => row.clone(),
            None => {
                return Err(CatalogError::ReplicaNotFound);
            },
        };
        if record.health() == requested {
            proof {
                assert(self@.with_replica(
                    slot,
                    ReplicaView { health: requested, ..record@ },
                ) =~= self@);
            }
            return Ok(());
        }
        record.set_health(requested);
        self.put_unchanged_space(slot, record);
        Ok(())
    }

    /// Writes a changed row that keeps its descriptor, its directory and its space.
    fn put_unchanged_space(&mut self, key: Slot, row: ReplicaRecord)
        requires
            old(self)@.replicas.contains_key(key),
            row@.descriptor == old(self)@.replicas[key].descriptor,
            row@.directory_name == old(self)@.replicas[key].directory_name,
            row@.reserved == old(self)@.replicas[key].reserved,
        ensures
            final(self)@.is_consistent(),
            final(self)@ == old(self)@.with_replica(key, row@),
    {
        proof {
            use_type_invariant(&*self);
            let before = self@;
            lemma_write_keeps(
                before,
                key,
                row@,
                before.stored.data_bytes as int,
                before.stored.metadata_bytes as int,
            );
            assert(before.with_replica(key, row@).with_totals(
                before.stored.data_bytes as int,
                before.stored.metadata_bytes as int,
            ) =~= before.with_replica(key, row@));
        }
        self.put_replica(key, row);
    }

    /// Removes a row and the space that it holds.
    fn release(&mut self, key: Slot, reserved: ReservedSpace)
        requires
            old(self)@.replicas.contains_key(key),
            old(self)@.replicas[key].reserved == reserved,
            !old(self)@.attachments.contains_key(key),
        ensures
            final(self)@.is_consistent(),
            final(self)@ == old(self)@.released(key),
    {
        proof {
            use_type_invariant(&*self);
            lemma_release_keeps(self@, key);
        }
        let data_bytes: u64 = self.rows.stored.data_bytes - reserved.data_bytes();
        let metadata_bytes: u64 = self.rows.stored.metadata_bytes - reserved.metadata_bytes();
        let mut rows = self.take_rows();
        rows.drop_replica(key);
        rows.put_totals(data_bytes, metadata_bytes);
        self.rows = rows;
    }

    /// Removes a deleting replica and releases its reservation idempotently.
    ///
    /// Desired-generation admission, rather than local history, rejects stale bootstrap and
    /// activation work. An absent exact key therefore proves this local effect complete
    /// without retaining one row per generation.
    pub fn remove_deleted_replica(&mut self, key: ReplicaKey) -> (out: Result<(), CatalogError>)
        ensures
            final(self)@.is_consistent(),
            match out {
                Ok(()) => old(self)@.deleted(slot(key))
                    == Ok::<CatalogView, CatalogError>(final(self)@),
                Err(error) => old(self)@.deleted(slot(key))
                    == Err::<CatalogView, CatalogError>(error) && final(self)@ == old(self)@,
            },
    {
        proof { use_type_invariant(&*self); }
        let slot = slot_number(key);
        let retired = match self.rows.find_retirement(slot.0) {
            Some(generation) => generation <= slot.1,
            None => false,
        };
        let record = match self.rows.find_replica(slot) {
            Some(row) => row.clone(),
            None => {
                if retired {
                    self.drop_retirement(slot.0);
                }
                return Ok(());
            },
        };
        if record.state() != ReplicaState::Deleting {
            return Err(CatalogError::ReplicaNotDeleting);
        }
        if self.rows.find_attachment(slot).is_some() || record.filesystem_format().is_some() {
            return Err(CatalogError::ReplicaStillAttached);
        }
        self.release(slot, record.reserved_space());
        if retired {
            self.drop_retirement(slot.0);
        }
        Ok(())
    }

    /// Replaces one former-member file slot with durable bootstrap suppression.
    pub fn remove_retired_replica(&mut self, key: ReplicaKey) -> (out: Result<(), CatalogError>)
        ensures
            final(self)@.is_consistent(),
            match out {
                Ok(()) => old(self)@.retired(slot(key))
                    == Ok::<CatalogView, CatalogError>(final(self)@),
                Err(error) => old(self)@.retired(slot(key))
                    == Err::<CatalogView, CatalogError>(error) && final(self)@ == old(self)@,
            },
    {
        proof { use_type_invariant(&*self); }
        let slot = slot_number(key);
        let retired = match self.rows.find_retirement(slot.0) {
            Some(generation) => generation >= slot.1,
            None => false,
        };
        let found = match self.rows.find_replica(slot) {
            Some(row) => Some(row.clone()),
            None => None,
        };
        if retired {
            if found.is_none() {
                return Ok(());
            }
            return Err(CatalogError::ConflictingReplica);
        }
        let record = match found {
            Some(record) => record,
            None => {
                return Err(CatalogError::ReplicaNotFound);
            },
        };
        if record.state() != ReplicaState::Retiring {
            return Err(CatalogError::ReplicaNotRetiring);
        }
        if self.rows.find_attachment(slot).is_some() || record.filesystem_format().is_some() {
            return Err(CatalogError::ReplicaStillAttached);
        }
        self.release(slot, record.reserved_space());
        self.put_retirement(slot.0, slot.1);
        Ok(())
    }

    /// Records bootstrap suppression when an already-excluded copy has no full row left.
    pub fn record_missing_replica_retirement(
        &mut self,
        key: ReplicaKey,
        maximum: usize,
    ) -> (out: Result<(), CatalogError>)
        ensures
            final(self)@.is_consistent(),
            match out {
                Ok(()) => old(self)@.missing_retired(slot(key), maximum)
                    == Ok::<CatalogView, CatalogError>(final(self)@),
                Err(error) => old(self)@.missing_retired(slot(key), maximum)
                    == Err::<CatalogView, CatalogError>(error) && final(self)@ == old(self)@,
            },
    {
        proof { use_type_invariant(&*self); }
        let slot = slot_number(key);
        if self.rows.find_replica(slot).is_some() {
            return Err(CatalogError::ConflictingReplica);
        }
        if self.rows.find_attachment(slot).is_some() {
            return Err(CatalogError::ReplicaStillAttached);
        }
        let saved: Option<u64> = self.rows.find_retirement(slot.0);
        if let Some(generation) = saved {
            if generation >= slot.1 {
                return Ok(());
            }
        }
        match self.check_slots(saved.is_none(), maximum) {
            Err(error) => {
                return Err(error);
            },
            Ok(()) => {},
        }
        self.put_retirement(slot.0, slot.1);
        Ok(())
    }

    /// Combines durable reservations with the filesystem's current free space.
    pub fn pool_status(&self, available_bytes: u64) -> (out: PoolStatus)
        ensures
            out == (PoolStatus {
                state: if available_bytes < self@.pool.block_bytes {
                    PoolSpaceState::DeleteOnly
                } else if self@.stored.managed_bytes - (self@.stored.data_bytes + self@.stored.metadata_bytes)
                    < self@.pool.block_bytes {
                    PoolSpaceState::NoNewReplicas
                } else {
                    PoolSpaceState::Ready
                },
                available_bytes,
                data_bytes: self@.stored.data_bytes,
                metadata_bytes: self@.stored.metadata_bytes,
            }),
    {
        proof { use_type_invariant(self); }
        let durable_used: u64 = self.rows.stored.data_bytes + self.rows.stored.metadata_bytes;
        let durable_free: u64 = self.rows.stored.managed_bytes - durable_used;
        let block_bytes: u64 = self.rows.pool.block_bytes() as u64;
        let state = if available_bytes < block_bytes {
            PoolSpaceState::DeleteOnly
        } else if durable_free < block_bytes {
            PoolSpaceState::NoNewReplicas
        } else {
            PoolSpaceState::Ready
        };
        PoolStatus {
            state,
            available_bytes,
            data_bytes: self.rows.stored.data_bytes,
            metadata_bytes: self.rows.stored.metadata_bytes,
        }
    }

    /// Loads every local replica before the storage listener starts.
    pub fn discover_replicas(&self, maximum: usize) -> (out: Result<
        Vec<ReplicaRecord>,
        CatalogError,
    >)
        ensures
            match out {
                Ok(records) => self@.replicas.dom().len() <= maximum && lists_replicas(
                    record_views(records@),
                    self@.replicas,
                ),
                Err(error) => self@.replicas.dom().len() > maximum && error
                    == (CatalogError::TooManyReplicas {
                    actual: self@.replicas.dom().len() as u64,
                    maximum,
                }),
            },
    {
        proof { use_type_invariant(self); }
        let count: u64 = self.replica_count();
        if count > maximum as u64 {
            return Err(CatalogError::TooManyReplicas { actual: count, maximum });
        }
        let mut records: Vec<ReplicaRecord> = Vec::new();
        proof { lemma_slot_order(); }
        for entry in it: self.rows.replicas.iter()
            invariant
                it.seq() == spec_btree_map_iter(&self.rows.replicas).remaining(),
                increasing_seq(it.seq().map_values(|kv: (&Slot, &ReplicaRecord)| *kv.0)),
                records@.len() == it.index(),
                forall|k: int|
                    #![trigger records@[k]]
                    0 <= k < it.index() ==> records@[k]@ == (*it.seq()[k].1)@,
        {
            records.push(entry.1.clone());
        }
        proof {
            lemma_slot_order();
            let all = spec_btree_map_iter(&self.rows.replicas).remaining();
            let keys = all.map_values(|kv: (&Slot, &ReplicaRecord)| *kv.0);
            let rows = record_views(records@);
            let map = self.rows.replicas@;
            assert forall|i: int| #![trigger rows[i]] 0 <= i < rows.len() implies rows[i]
                == map[keys[i]]@ && map.contains_key(keys[i]) && slot_of(rows[i].descriptor)
                == keys[i] by {
                assert(rows[i] == records@[i]@);
                assert(all.contains(all[i]));
                assert(self@.replicas.contains_key(keys[i]));
            }
            assert forall|i: int, j: int|
                #![trigger rows[i], rows[j]]
                0 <= i < j < rows.len() implies slot_less(
                slot_of(rows[i].descriptor),
                slot_of(rows[j].descriptor),
            ) by {
                assert(crate::store::order::less(keys[i], keys[j]));
            }
            assert forall|key: Slot| #[trigger]
                self@.replicas.contains_key(key) implies rows.contains(self@.replicas[key]) by {
                assert(map.contains_key(key));
                assert(all.contains((&key, &map[key])));
                let i = choose|i: int| 0 <= i < all.len() && all[i] == (&key, &map[key]);
                assert(keys[i] == key);
                assert(rows[i] == records@[i]@);
            }
        }
        Ok(records)
    }
}

/// Descriptors of the same stored data have the same key.
proof fn lemma_same_key(a: VolumeDescriptor, b: VolumeDescriptor)
    requires
        same_storage(a, b),
    ensures
        ReplicaKey::key_of(a) == ReplicaKey::key_of(b),
        slot_of(a) == slot_of(b),
{
    ReplicaKey::lemma_key_of(a);
    ReplicaKey::lemma_key_of(b);
    ReplicaKey::lemma_parts(ReplicaKey::key_of(a), ReplicaKey::key_of(b));
}

} // verus!
