//! What each catalog operation does to the rows of the catalog.

use vstd::prelude::*;

use super::attachment::{ordered, refenced, replaced, without_device, AttachmentView};
use super::error::CatalogError;
use super::model::{
    may_follow, mount_advances, same_mount, FormatView, MountView, OriginView, ReplicaHealth, ReplicaKey,
    ReplicaState, ReplicaView, ReservedSpace, SavedMountState, SavedUblkDevice,
};
use super::paths::directory_text;
use super::pool::PoolView;
use super::protocol::StoredPoolView;
use crate::volume::descriptor::{capacity_error, VolumeCapacity, VolumeDescriptor};
use crate::volume::identity::{DriverSessionId, FenceEpoch};

verus! {

/// Volume and generation by which a row is found and ordered.
pub type Slot = (u128, u64);

/// Slot of a key.
pub open spec fn slot(key: ReplicaKey) -> Slot {
    (key.volume().value(), key.generation_of().value())
}

/// Slot of what a descriptor describes.
pub open spec fn slot_of(descriptor: VolumeDescriptor) -> Slot {
    (descriptor.id().value(), descriptor.generation_of().value())
}

/// Data or metadata space that a row holds.
pub open spec fn held(row: ReplicaView, metadata: bool) -> nat {
    if metadata {
        row.reserved.metadata() as nat
    } else {
        row.reserved.data() as nat
    }
}

/// Data or metadata space that all rows hold together.
pub open spec fn held_total(rows: Map<Slot, ReplicaView>, metadata: bool) -> nat
    decreases rows.dom().len(),
{
    if rows.dom().finite() && rows.dom().len() > 0 {
        let key = rows.dom().choose();
        held(rows[key], metadata) + held_total(rows.remove(key), metadata)
    } else {
        0
    }
}

/// The total is that of one row and of all others.
pub proof fn lemma_total_of_row(rows: Map<Slot, ReplicaView>, key: Slot, metadata: bool)
    requires
        rows.dom().finite(),
        rows.contains_key(key),
    ensures
        held_total(rows, metadata) == held(rows[key], metadata) + held_total(
            rows.remove(key),
            metadata,
        ),
    decreases rows.dom().len(),
{
    let first = rows.dom().choose();
    if first != key {
        lemma_total_of_row(rows.remove(first), key, metadata);
        lemma_total_of_row(rows.remove(key), first, metadata);
        assert(rows.remove(first).remove(key) =~= rows.remove(key).remove(first));
    }
}

/// Writing one row changes the total by what the row holds more or less.
pub proof fn lemma_total_of_write(
    rows: Map<Slot, ReplicaView>,
    key: Slot,
    row: ReplicaView,
    metadata: bool,
)
    requires
        rows.dom().finite(),
    ensures
        held_total(rows.insert(key, row), metadata) == held_total(rows, metadata) + held(
            row,
            metadata,
        ) - (if rows.contains_key(key) {
            held(rows[key], metadata) as int
        } else {
            0
        }),
        held_total(rows, metadata) >= (if rows.contains_key(key) {
            held(rows[key], metadata) as int
        } else {
            0
        }),
{
    let next = rows.insert(key, row);
    lemma_total_of_row(next, key, metadata);
    if rows.contains_key(key) {
        lemma_total_of_row(rows, key, metadata);
        assert(next.remove(key) =~= rows.remove(key));
    } else {
        assert(next.remove(key) =~= rows);
    }
}

/// Rows of the local catalog as plain values.
#[verifier::ext_equal]
pub struct CatalogView {
    /// The checked pool.
    pub pool: PoolView,

    /// The saved pool row: the pool that the catalog is bound to, the durable capacity that
    /// may be promised, and the space promised to replica data and metadata.
    pub stored: StoredPoolView,

    /// Replica rows.
    pub replicas: Map<Slot, ReplicaView>,

    /// Attachment rows.
    pub attachments: Map<Slot, AttachmentView>,

    /// Retired generation of each volume that has one.
    pub retirements: Map<u128, u64>,
}

/// Both descriptors name the same stored data, whatever its capacity.
pub open spec fn same_storage(a: VolumeDescriptor, b: VolumeDescriptor) -> bool {
    a.id() == b.id() && a.generation_of() == b.generation_of() && a.sizes() == b.sizes()
}

/// A replica row stands under its own key and directory.
pub open spec fn is_own_row(key: Slot, row: ReplicaView) -> bool {
    slot_of(row.descriptor) == key && row.directory_name == directory_text(
        ReplicaKey::key_of(row.descriptor),
    )
}

/// An attachment stands under its own key; it, its devices and its filesystem use no more
/// than its replica has.
pub open spec fn is_attached(
    key: Slot,
    row: AttachmentView,
    replicas: Map<Slot, ReplicaView>,
) -> bool {
    &&& slot_of(row.descriptor) == key
    &&& replicas.contains_key(key)
    &&& same_storage(replicas[key].descriptor, row.descriptor)
    &&& row.descriptor.capacity_of().size() <= replicas[key].descriptor.capacity_of().size()
    &&& fit_replica(row.ublk_devices, replicas[key].descriptor)
    &&& row.volume_mount matches Some(mount) ==> mount.filesystem_expanded_to_bytes
        <= row.descriptor.capacity_of().size()
}

/// Every device has a capacity that volumes can have and that the replica has.
pub open spec fn fit_replica(devices: Seq<SavedUblkDevice>, replica: VolumeDescriptor) -> bool {
    forall|i: int|
        #![trigger devices[i]]
        0 <= i < devices.len() ==> capacity_error(devices[i].capacity_of().size()) is None
            && devices[i].capacity_of().size() <= replica.capacity_of().size()
}

impl CatalogView {
    /// What holds of the catalog between any two operations: the saved row is that of the
    /// checked pool, every row stands under its own key, the saved totals are the sums of
    /// what the rows hold and fit the pool, every attachment belongs to a replica and fits
    /// it, and no generation is both stored and retired.
    pub open spec fn is_consistent(self) -> bool {
        &&& self.stored.is_of(self.pool)
        &&& self.replicas.dom().finite()
        &&& self.retirements.dom().finite()
        &&& forall|key: Slot| #[trigger]
            self.replicas.contains_key(key) ==> is_own_row(key, self.replicas[key])
        &&& self.stored.data_bytes == held_total(self.replicas, false)
        &&& self.stored.metadata_bytes == held_total(self.replicas, true)
        &&& self.stored.data_bytes + self.stored.metadata_bytes <= self.stored.managed_bytes
        &&& forall|key: Slot| #[trigger]
            self.attachments.contains_key(key) ==> is_attached(
                key,
                self.attachments[key],
                self.replicas,
            )
        &&& forall|volume: u128| #[trigger]
            self.retirements.contains_key(volume) ==> volume != 0 && self.retirements[volume] != 0
                && !self.replicas.contains_key((volume, self.retirements[volume]))
    }

    /// The empty tables of a pool.
    pub open spec fn none(pool: PoolView) -> CatalogView {
        CatalogView {
            pool,
            stored: StoredPoolView::first(pool),
            replicas: Map::empty(),
            attachments: Map::empty(),
            retirements: Map::empty(),
        }
    }

    /// Rows and proofs that count against the shared slot limit.
    pub open spec fn slots(self) -> nat {
        self.replicas.dom().len() + self.retirements.dom().len()
    }

    /// Slot count with one more slot where asked, if it can be represented.
    pub open spec fn slot_count(self, extra: bool) -> Result<u64, CatalogError> {
        if self.slots() > u64::MAX || (extra && self.slots() + 1 > u64::MAX) {
            Err(CatalogError::ReplicaCountOverflow)
        } else if extra {
            Ok((self.slots() + 1) as u64)
        } else {
            Ok(self.slots() as u64)
        }
    }

    /// Why the slots do not stay within a limit.
    pub open spec fn slot_error(self, extra: bool, maximum: usize) -> Option<CatalogError> {
        match self.slot_count(extra) {
            Err(error) => Some(error),
            Ok(actual) => if actual > maximum {
                Some(CatalogError::TooManyReplicaSlots { actual, maximum })
            } else {
                None
            },
        }
    }

    /// The catalog with other totals.
    pub open spec fn with_totals(self, data_bytes: int, metadata_bytes: int) -> CatalogView {
        CatalogView {
            stored: StoredPoolView {
                data_bytes: data_bytes as u64,
                metadata_bytes: metadata_bytes as u64,
                ..self.stored
            },
            ..self
        }
    }

    /// The catalog with one replica row written.
    pub open spec fn with_replica(self, key: Slot, row: ReplicaView) -> CatalogView {
        CatalogView { replicas: self.replicas.insert(key, row), ..self }
    }

    /// The catalog without one replica row.
    pub open spec fn without_replica(self, key: Slot) -> CatalogView {
        CatalogView { replicas: self.replicas.remove(key), ..self }
    }

    /// The catalog with one attachment row written.
    pub open spec fn with_attachment(self, key: Slot, row: AttachmentView) -> CatalogView {
        CatalogView { attachments: self.attachments.insert(key, row), ..self }
    }

    /// The catalog without one attachment row.
    pub open spec fn without_attachment(self, key: Slot) -> CatalogView {
        CatalogView { attachments: self.attachments.remove(key), ..self }
    }

    /// The catalog with one retired generation.
    pub open spec fn with_retirement(self, volume: u128, generation: u64) -> CatalogView {
        CatalogView { retirements: self.retirements.insert(volume, generation), ..self }
    }

    /// The catalog without the retired generation of a volume.
    pub open spec fn without_retirement(self, volume: u128) -> CatalogView {
        CatalogView { retirements: self.retirements.remove(volume), ..self }
    }

    /// Why the pool cannot promise some totals.
    pub open spec fn promise_error(self, data_bytes: int, metadata_bytes: int) -> Option<
        CatalogError,
    > {
        let current = self.stored.data_bytes + self.stored.metadata_bytes;
        if data_bytes + metadata_bytes > u64::MAX {
            Some(CatalogError::SpaceOverflow)
        } else if data_bytes + metadata_bytes > self.stored.managed_bytes {
            Some(
                CatalogError::NotEnoughSpace {
                    available_bytes: (self.stored.managed_bytes - current) as u64,
                    required_bytes: (data_bytes + metadata_bytes - current) as u64,
                },
            )
        } else {
            None
        }
    }

    /// A retired generation keeps a replica from being reserved.
    pub open spec fn suppresses(self, descriptor: VolumeDescriptor, origin: OriginView) -> bool {
        let (volume, generation) = slot_of(descriptor);
        self.retirements.contains_key(volume) && (self.retirements[volume] > generation || (
        self.retirements[volume] == generation && origin is Bootstrap))
    }

    /// Reservation of one replica.
    pub open spec fn reserved(
        self,
        descriptor: VolumeDescriptor,
        origin: OriginView,
        maximum: Option<usize>,
        space: ReservedSpace,
        available_bytes: u64,
    ) -> Result<CatalogView, CatalogError> {
        let key = slot_of(descriptor);
        let data = self.stored.data_bytes + space.data();
        let metadata = self.stored.metadata_bytes + space.metadata();
        let requested = space.data() + space.metadata();
        let limit = match maximum {
            Some(maximum) => self.slot_error(!self.retirements.contains_key(key.0), maximum),
            None => None,
        };
        if self.suppresses(descriptor, origin) {
            Err(CatalogError::ReplicaRetired)
        } else if self.replicas.contains_key(key) {
            if self.replicas[key].descriptor != descriptor || self.replicas[key].origin != origin {
                Err(CatalogError::ConflictingReplica)
            } else {
                Ok(self.without_retirement(key.0))
            }
        } else if limit is Some {
            Err(limit->Some_0)
        } else if data > u64::MAX || metadata > u64::MAX || requested > u64::MAX {
            Err(CatalogError::SpaceOverflow)
        } else if requested > available_bytes {
            Err(
                CatalogError::NotEnoughFreeSpace {
                    available_bytes,
                    required_bytes: requested as u64,
                },
            )
        } else if self.promise_error(data, metadata) is Some {
            Err(self.promise_error(data, metadata)->Some_0)
        } else {
            Ok(
                self.with_replica(
                    key,
                    ReplicaView {
                        descriptor,
                        origin,
                        directory_name: directory_text(ReplicaKey::key_of(descriptor)),
                        state: ReplicaState::Preparing,
                        health: ReplicaHealth::Healthy,
                        reserved: space,
                        filesystem_format: None,
                    },
                ).without_retirement(key.0).with_totals(data, metadata),
            )
        }
    }

    /// Reservation of more space for one replica.
    pub open spec fn capacity_reserved(
        self,
        key: Slot,
        target: VolumeCapacity,
        requested: ReservedSpace,
        available_bytes: u64,
    ) -> Result<CatalogView, CatalogError> {
        let row = self.replicas[key];
        let added_data = requested.data() - row.reserved.data();
        let added_metadata = requested.metadata() - row.reserved.metadata();
        let data = self.stored.data_bytes + added_data;
        let metadata = self.stored.metadata_bytes + added_metadata;
        if !self.replicas.contains_key(key) {
            Err(CatalogError::ReplicaNotFound)
        } else if target.size() < row.descriptor.capacity_of().size() {
            Err(CatalogError::ReservationBelowAppliedCapacity)
        } else if target.size() <= row.reserved.data() {
            Ok(self)
        } else if added_data < 0 || added_metadata < 0 || added_data + added_metadata > u64::MAX {
            Err(CatalogError::SpaceOverflow)
        } else if added_data + added_metadata > available_bytes {
            Err(
                CatalogError::NotEnoughFreeSpace {
                    available_bytes,
                    required_bytes: (added_data + added_metadata) as u64,
                },
            )
        } else if data > u64::MAX || metadata > u64::MAX {
            Err(CatalogError::SpaceOverflow)
        } else if self.promise_error(data, metadata) is Some {
            Err(self.promise_error(data, metadata)->Some_0)
        } else {
            Ok(
                self.with_replica(key, ReplicaView { reserved: requested, ..row }).with_totals(
                    data,
                    metadata,
                ),
            )
        }
    }

    /// Release of reserved space above a target.
    pub open spec fn reservation_reduced(
        self,
        key: Slot,
        target: VolumeCapacity,
        requested: ReservedSpace,
    ) -> Result<CatalogView, CatalogError> {
        let row = self.replicas[key];
        if !self.replicas.contains_key(key) {
            Err(CatalogError::ReplicaNotFound)
        } else if target.size() < row.descriptor.capacity_of().size() {
            Err(CatalogError::ReservationBelowAppliedCapacity)
        } else if target.size() >= row.reserved.data() {
            Ok(self)
        } else {
            Ok(
                self.with_replica(key, ReplicaView { reserved: requested, ..row }).with_totals(
                    self.stored.data_bytes - (row.reserved.data() - requested.data()),
                    self.stored.metadata_bytes - (row.reserved.metadata() - requested.metadata()),
                ),
            )
        }
    }

    /// Application of a committed capacity.
    pub open spec fn capacity_applied(self, key: Slot, target: VolumeCapacity) -> Result<
        CatalogView,
        CatalogError,
    > {
        let row = self.replicas[key];
        if !self.replicas.contains_key(key) {
            Err(CatalogError::ReplicaNotFound)
        } else if target.size() < row.descriptor.capacity_of().size() {
            Err(CatalogError::CapacityCannotShrink)
        } else if target.size() > row.reserved.data() {
            Err(CatalogError::CapacityExceedsReservation)
        } else if target == row.descriptor.capacity_of() {
            Ok(self)
        } else if capacity_error(target.size()) is Some {
            Err(CatalogError::Descriptor(capacity_error(target.size())->Some_0))
        } else {
            Ok(
                self.with_replica(
                    key,
                    ReplicaView { descriptor: row.descriptor.resized(target), ..row },
                ),
            )
        }
    }

    /// Reassignment of one local slot to a replacement.
    pub open spec fn replacement_begun(
        self,
        key: Slot,
        descriptor: VolumeDescriptor,
        origin: OriginView,
    ) -> Result<CatalogView, CatalogError> {
        let row = self.replicas[key];
        if origin is Bootstrap {
            Err(CatalogError::ConflictingReplica)
        } else if !self.replicas.contains_key(key) {
            Err(CatalogError::ReplicaNotFound)
        } else if slot_of(descriptor) != key || !same_storage(row.descriptor, descriptor)
            || row.descriptor.capacity_of().size() > descriptor.capacity_of().size()
            || descriptor.capacity_of().size() > row.reserved.data() || !(row.state
            == ReplicaState::Preparing || row.state == ReplicaState::Ready) {
            Err(CatalogError::ConflictingReplica)
        } else if self.attachments.contains_key(key) {
            Err(CatalogError::ReplicaStillAttached)
        } else {
            Ok(
                self.with_replica(
                    key,
                    ReplicaView {
                        descriptor,
                        origin,
                        state: ReplicaState::Preparing,
                        health: ReplicaHealth::Healthy,
                        filesystem_format: None,
                        ..row
                    },
                ),
            )
        }
    }

    /// Change of the node-local file state.
    pub open spec fn state_set(self, key: Slot, requested: ReplicaState) -> Result<
        CatalogView,
        CatalogError,
    > {
        let row = self.replicas[key];
        if !self.replicas.contains_key(key) {
            Err(CatalogError::ReplicaNotFound)
        } else if !may_follow(row.state, requested) {
            Err(CatalogError::InvalidStateChange { current: row.state, requested })
        } else {
            Ok(self.with_replica(key, ReplicaView { state: requested, ..row }))
        }
    }

    /// Change of the local file health.
    pub open spec fn health_set(self, key: Slot, requested: ReplicaHealth) -> Result<
        CatalogView,
        CatalogError,
    > {
        if !self.replicas.contains_key(key) {
            Err(CatalogError::ReplicaNotFound)
        } else {
            Ok(
                self.with_replica(
                    key,
                    ReplicaView { health: requested, ..self.replicas[key] },
                ),
            )
        }
    }

    /// Saving of an unfinished filesystem format.
    pub open spec fn format_saved(self, key: Slot, format: FormatView) -> Result<
        CatalogView,
        CatalogError,
    > {
        let row = self.replicas[key];
        if !self.replicas.contains_key(key) {
            Err(CatalogError::ReplicaNotFound)
        } else if row.filesystem_format is Some && row.filesystem_format != Some(format) {
            Err(CatalogError::FilesystemFormatChanged)
        } else {
            Ok(self.with_replica(key, ReplicaView { filesystem_format: Some(format), ..row }))
        }
    }

    /// Clearing of a finished filesystem format.
    pub open spec fn format_cleared(self, key: Slot, expected: FormatView) -> Result<
        CatalogView,
        CatalogError,
    > {
        let row = self.replicas[key];
        if !self.replicas.contains_key(key) {
            Err(CatalogError::ReplicaNotFound)
        } else if row.filesystem_format is Some && row.filesystem_format != Some(expected) {
            Err(CatalogError::FilesystemFormatChanged)
        } else {
            Ok(self.with_replica(key, ReplicaView { filesystem_format: None, ..row }))
        }
    }

    /// A retired generation is not newer than a given one.
    pub open spec fn is_retired_up_to(self, key: Slot) -> bool {
        self.retirements.contains_key(key.0) && self.retirements[key.0] <= key.1
    }

    /// The catalog without one replica row and without the space that the row holds.
    pub open spec fn released(self, key: Slot) -> CatalogView {
        self.without_replica(key).with_totals(
            self.stored.data_bytes - self.replicas[key].reserved.data(),
            self.stored.metadata_bytes - self.replicas[key].reserved.metadata(),
        )
    }

    /// The catalog without retired generations up to a given one.
    pub open spec fn forgotten_up_to(self, key: Slot) -> CatalogView {
        if self.is_retired_up_to(key) {
            self.without_retirement(key.0)
        } else {
            self
        }
    }

    /// Removal of a deleting replica.
    pub open spec fn deleted(self, key: Slot) -> Result<CatalogView, CatalogError> {
        let row = self.replicas[key];
        if !self.replicas.contains_key(key) {
            Ok(self.forgotten_up_to(key))
        } else if row.state != ReplicaState::Deleting {
            Err(CatalogError::ReplicaNotDeleting)
        } else if self.attachments.contains_key(key) || row.filesystem_format is Some {
            Err(CatalogError::ReplicaStillAttached)
        } else {
            Ok(self.released(key).forgotten_up_to(key))
        }
    }

    /// Replacement of a retiring replica by proof of its retirement.
    pub open spec fn retired(self, key: Slot) -> Result<CatalogView, CatalogError> {
        let row = self.replicas[key];
        if self.retirements.contains_key(key.0) && self.retirements[key.0] >= key.1 {
            if self.replicas.contains_key(key) {
                Err(CatalogError::ConflictingReplica)
            } else {
                Ok(self)
            }
        } else if !self.replicas.contains_key(key) {
            Err(CatalogError::ReplicaNotFound)
        } else if row.state != ReplicaState::Retiring {
            Err(CatalogError::ReplicaNotRetiring)
        } else if self.attachments.contains_key(key) || row.filesystem_format is Some {
            Err(CatalogError::ReplicaStillAttached)
        } else {
            Ok(self.released(key).with_retirement(key.0, key.1))
        }
    }

    /// Proof of retirement for a copy that has no row left.
    pub open spec fn missing_retired(self, key: Slot, maximum: usize) -> Result<
        CatalogView,
        CatalogError,
    > {
        let limit = self.slot_error(!self.retirements.contains_key(key.0), maximum);
        if self.replicas.contains_key(key) {
            Err(CatalogError::ConflictingReplica)
        } else if self.attachments.contains_key(key) {
            Err(CatalogError::ReplicaStillAttached)
        } else if self.retirements.contains_key(key.0) && self.retirements[key.0] >= key.1 {
            Ok(self)
        } else if limit is Some {
            Err(limit->Some_0)
        } else {
            Ok(self.with_retirement(key.0, key.1))
        }
    }

    /// Removal of proof for an older generation.
    pub open spec fn forgotten_before(self, current: Slot) -> CatalogView {
        if self.retirements.contains_key(current.0) && self.retirements[current.0] < current.1 {
            self.without_retirement(current.0)
        } else {
            self
        }
    }

    /// Creation or reopening of the one attachment of a generation.
    pub open spec fn attached(
        self,
        descriptor: VolumeDescriptor,
        session_id: DriverSessionId,
    ) -> Result<CatalogView, CatalogError> {
        let key = slot_of(descriptor);
        let replica = self.replicas[key].descriptor;
        let saved = self.attachments[key];
        if !self.replicas.contains_key(key) {
            Err(CatalogError::ReplicaNotFound)
        } else if !same_storage(replica, descriptor) || descriptor.capacity_of().size()
            > replica.capacity_of().size() {
            Err(CatalogError::ConflictingReplica)
        } else if self.attachments.contains_key(key) {
            if !same_storage(saved.descriptor, descriptor)
                || saved.descriptor.capacity_of().size() > replica.capacity_of().size()
                || saved.session_id != session_id {
                Err(CatalogError::AttachmentChanged)
            } else {
                Ok(self)
            }
        } else {
            Ok(
                self.with_attachment(
                    key,
                    AttachmentView {
                        descriptor,
                        session_id,
                        granted_fence: None,
                        ublk_devices: Seq::empty(),
                        volume_mount: None,
                        detaching: false,
                    },
                ),
            )
        }
    }

    /// Writing of an attachment row that an operation on the row allows.
    pub open spec fn attachment_updated(
        self,
        key: Slot,
        changed: Result<AttachmentView, CatalogError>,
    ) -> Result<CatalogView, CatalogError> {
        if !self.attachments.contains_key(key) {
            Err(CatalogError::AttachmentNotFound)
        } else {
            match changed {
                Ok(row) => Ok(self.with_attachment(key, row)),
                Err(error) => Err(error),
            }
        }
    }

    /// Cleanup intent for an attachment.
    pub open spec fn detach_begun(self, key: Slot) -> CatalogView {
        if !self.attachments.contains_key(key) {
            self
        } else {
            self.with_attachment(key, self.attachments[key].detached())
        }
    }

    /// Advance of an attachment to a larger descriptor.
    pub open spec fn attachment_grown(self, key: Slot, target: VolumeDescriptor) -> Result<
        CatalogView,
        CatalogError,
    > {
        let replica = self.replicas[key].descriptor;
        let row = self.attachments[key];
        if !self.replicas.contains_key(key) {
            Err(CatalogError::ReplicaNotFound)
        } else if !self.attachments.contains_key(key) {
            Err(CatalogError::AttachmentNotFound)
        } else if !same_storage(row.descriptor, target) || !same_storage(replica, target) {
            Err(CatalogError::AttachmentChanged)
        } else if target.capacity_of().size() < row.descriptor.capacity_of().size() {
            Err(CatalogError::CapacityCannotShrink)
        } else if target.capacity_of().size() > replica.capacity_of().size() {
            Err(CatalogError::CapacityExceedsReservation)
        } else if target.capacity_of().size() > row.descriptor.capacity_of().size()
            && !serves_capacity(row.ublk_devices, target.capacity_of()) {
            Err(CatalogError::UblkDeviceChanged)
        } else {
            Ok(self.with_attachment(key, AttachmentView { descriptor: target, ..row }))
        }
    }

    /// Why a replica cannot carry a device of some capacity.
    pub open spec fn device_error(self, key: Slot, device: SavedUblkDevice) -> Option<
        CatalogError,
    > {
        if !self.replicas.contains_key(key) {
            Some(CatalogError::ReplicaNotFound)
        } else if capacity_error(device.capacity_of().size()) is Some {
            Some(CatalogError::Descriptor(capacity_error(device.capacity_of().size())->Some_0))
        } else if device.capacity_of().size() > self.replicas[key].descriptor.capacity_of().size() {
            Some(CatalogError::CapacityExceedsReservation)
        } else {
            None
        }
    }

    /// Saving of one active ublk device.
    pub open spec fn device_saved(self, key: Slot, device: SavedUblkDevice) -> Result<
        CatalogView,
        CatalogError,
    > {
        match self.device_error(key, device) {
            Some(error) => Err(error),
            None => self.attachment_updated(key, self.attachments[key].device_saved(device)),
        }
    }

    /// Replacement of one exact saved device.
    pub open spec fn device_replaced(
        self,
        key: Slot,
        expected: SavedUblkDevice,
        device: SavedUblkDevice,
    ) -> Result<CatalogView, CatalogError> {
        match self.device_error(key, device) {
            Some(error) => Err(error),
            None => self.attachment_updated(
                key,
                self.attachments[key].device_replaced(expected, device),
            ),
        }
    }

    /// Removal of an empty attachment.
    pub open spec fn attachment_removed(self, key: Slot, session_id: DriverSessionId) -> Result<
        CatalogView,
        CatalogError,
    > {
        let row = self.attachments[key];
        if !self.attachments.contains_key(key) {
            Ok(self)
        } else if row.session_id != session_id {
            Err(CatalogError::AttachmentChanged)
        } else if row.ublk_devices.len() > 0 || row.volume_mount is Some {
            Err(CatalogError::AttachmentStillActive)
        } else {
            Ok(self.without_attachment(key))
        }
    }
}

/// One of the devices has the capacity.
pub open spec fn serves_capacity(devices: Seq<SavedUblkDevice>, capacity: VolumeCapacity) -> bool {
    exists|i: int|
        #![trigger devices[i]]
        0 <= i < devices.len() && devices[i].capacity_of() == capacity
}

/// One of the devices belongs to the session and the fence.
pub open spec fn serves_session(
    devices: Seq<SavedUblkDevice>,
    session_id: DriverSessionId,
    fence: FenceEpoch,
) -> bool {
    exists|i: int|
        #![trigger devices[i]]
        0 <= i < devices.len() && devices[i].session_of() == session_id && devices[i].fence_of() == fence
}

/// One of the devices, other than an expected one, has the number or the capacity.
pub open spec fn clashes(
    devices: Seq<SavedUblkDevice>,
    except: Option<SavedUblkDevice>,
    device: SavedUblkDevice,
) -> bool {
    exists|i: int|
        #![trigger devices[i]]
        0 <= i < devices.len() && Some(devices[i]) != except && (devices[i].id_of() == device.id_of()
            || devices[i].capacity_of() == device.capacity_of())
}

/// Every device belongs to the session and the fence.
pub open spec fn all_serve(
    devices: Seq<SavedUblkDevice>,
    session_id: DriverSessionId,
    fence: FenceEpoch,
) -> bool {
    forall|i: int|
        #![trigger devices[i]]
        0 <= i < devices.len() ==> devices[i].session_of() == session_id && devices[i].fence_of() == fence
}

impl AttachmentView {
    /// Every saved resource belongs to the session and to the fence.
    pub open spec fn is_fenced(self, fence: FenceEpoch) -> bool {
        &&& all_serve(self.ublk_devices, self.session_id, fence)
        &&& self.volume_mount matches Some(mount) ==> mount.session_id == self.session_id
            && mount.fence == fence
    }

    /// The attachment with cleanup intent; a saved mount is being undone.
    pub open spec fn detached(self) -> AttachmentView {
        AttachmentView {
            detaching: true,
            volume_mount: match self.volume_mount {
                Some(mount) => Some(MountView { state: SavedMountState::Unmounting, ..mount }),
                None => None,
            },
            ..self
        }
    }

    /// Saving of the committed fence.
    pub open spec fn fence_saved(self, session_id: DriverSessionId, fence: FenceEpoch) -> Result<
        AttachmentView,
        CatalogError,
    > {
        if self.session_id != session_id {
            Err(CatalogError::AttachmentChanged)
        } else if self.granted_fence is Some && self.granted_fence != Some(fence) {
            Err(CatalogError::AttachmentFenceChanged)
        } else {
            Ok(AttachmentView { granted_fence: Some(fence), ..self })
        }
    }

    /// Advance of the session and of all its resources to a later fence.
    pub open spec fn fence_advanced(
        self,
        session_id: DriverSessionId,
        expected: FenceEpoch,
        next: FenceEpoch,
    ) -> Result<AttachmentView, CatalogError> {
        if self.session_id != session_id {
            Err(CatalogError::AttachmentChanged)
        } else if self.granted_fence == Some(next) {
            if self.is_fenced(next) {
                Ok(self)
            } else {
                Err(CatalogError::AttachmentFenceChanged)
            }
        } else if self.granted_fence != Some(expected) || !self.is_fenced(expected) {
            Err(CatalogError::AttachmentFenceChanged)
        } else {
            Ok(
                AttachmentView {
                    granted_fence: Some(next),
                    ublk_devices: refenced(self.ublk_devices, next),
                    volume_mount: match self.volume_mount {
                        Some(mount) => Some(MountView { fence: next, ..mount }),
                        None => None,
                    },
                    ..self
                },
            )
        }
    }

    /// The device belongs to the session and its committed fence.
    pub open spec fn owns_device(self, device: SavedUblkDevice) -> bool {
        self.session_id == device.session_of() && self.granted_fence == Some(device.fence_of())
    }

    /// Saving of one active device.
    pub open spec fn device_saved(self, device: SavedUblkDevice) -> Result<
        AttachmentView,
        CatalogError,
    > {
        if !self.owns_device(device) {
            Err(CatalogError::AttachmentFenceChanged)
        } else if self.ublk_devices.contains(device) {
            Ok(self)
        } else if self.ublk_devices.len() >= 2 || clashes(self.ublk_devices, None, device) {
            Err(CatalogError::UblkDeviceChanged)
        } else {
            Ok(AttachmentView { ublk_devices: ordered(self.ublk_devices.push(device)), ..self })
        }
    }

    /// Replacement of one exact device.
    pub open spec fn device_replaced(
        self,
        expected: SavedUblkDevice,
        device: SavedUblkDevice,
    ) -> Result<AttachmentView, CatalogError> {
        if !self.owns_device(device) {
            Err(CatalogError::AttachmentFenceChanged)
        } else if self.ublk_devices.contains(device) {
            Ok(self)
        } else if !self.ublk_devices.contains(expected) || clashes(
            self.ublk_devices,
            Some(expected),
            device,
        ) {
            Err(CatalogError::UblkDeviceChanged)
        } else if self.volume_mount matches Some(mount) && (device.fence_of() != mount.fence
            || device.session_of() != mount.session_id) {
            Err(CatalogError::VolumeMountDeviceMismatch)
        } else {
            Ok(
                AttachmentView {
                    ublk_devices: ordered(replaced(self.ublk_devices, expected, device)),
                    ..self
                },
            )
        }
    }

    /// Clearing of one exact device.
    pub open spec fn device_cleared(self, expected: SavedUblkDevice) -> Result<
        AttachmentView,
        CatalogError,
    > {
        if !self.ublk_devices.contains(expected) {
            if self.ublk_devices.len() == 0 {
                Ok(self)
            } else {
                Err(CatalogError::UblkDeviceChanged)
            }
        } else if self.volume_mount is Some && (self.ublk_devices.len() == 1 || expected.capacity_of()
            == self.descriptor.capacity_of()) {
            Err(CatalogError::VolumeMountDeviceMismatch)
        } else {
            Ok(
                AttachmentView {
                    ublk_devices: without_device(self.ublk_devices, expected),
                    ..self
                },
            )
        }
    }

    /// The saved mount is a given one.
    pub open spec fn is_mounted_as(self, mount: MountView) -> bool {
        self.volume_mount matches Some(saved) && same_mount(saved, mount)
    }

    /// Saving of the first step of a mount.
    pub open spec fn mount_saved(self, mount: MountView) -> Result<AttachmentView, CatalogError> {
        if mount.filesystem_expanded_to_bytes > self.descriptor.capacity_of().size() {
            Err(CatalogError::FilesystemCapacityExceedsDevice)
        } else if !serves_session(self.ublk_devices, mount.session_id, mount.fence) {
            Err(CatalogError::VolumeMountDeviceMismatch)
        } else if self.is_mounted_as(mount) {
            Ok(self)
        } else if self.volume_mount is Some || mount.state != SavedMountState::Mounting {
            Err(CatalogError::VolumeMountChanged)
        } else {
            Ok(AttachmentView { volume_mount: Some(mount), ..self })
        }
    }

    /// Advance of one exact mount.
    pub open spec fn mount_replaced(self, expected: MountView, mount: MountView) -> Result<
        AttachmentView,
        CatalogError,
    > {
        if !self.is_mounted_as(expected) || !mount_advances(expected, mount) {
            Err(CatalogError::VolumeMountChanged)
        } else if mount.filesystem_expanded_to_bytes > self.descriptor.capacity_of().size() {
            Err(CatalogError::FilesystemCapacityExceedsDevice)
        } else if !serves_session(self.ublk_devices, mount.session_id, mount.fence) {
            Err(CatalogError::VolumeMountDeviceMismatch)
        } else {
            Ok(
                AttachmentView {
                    volume_mount: Some(mount),
                    detaching: self.detaching || mount.state == SavedMountState::Unmounting,
                    ..self
                },
            )
        }
    }

    /// Clearing of one exact mount.
    pub open spec fn mount_cleared(self, expected: MountView) -> Result<
        AttachmentView,
        CatalogError,
    > {
        if self.volume_mount is Some && !self.is_mounted_as(expected) {
            Err(CatalogError::VolumeMountChanged)
        } else {
            Ok(AttachmentView { volume_mount: None, ..self })
        }
    }
}

} // verus!
