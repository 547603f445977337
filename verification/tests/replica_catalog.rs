use mantissa::catalog::encoding::{
    encode_attachment, encode_pool, encode_replica, encode_retirement,
};
use mantissa::catalog::error::CatalogError;
use mantissa::catalog::model::{
    InvalidSavedVolumeMount, LocalReplicaOrigin, LocalReplicaRetirement, PoolSpaceState,
    PoolStatus, ReplicaHealth, ReplicaKey, ReplicaRecord, ReplicaState, ReplicatedVolumeFilesystem,
    ReservedSpace, SavedFilesystemFormat, SavedMountState, SavedUblkDevice, SavedVolumeMount,
};
use mantissa::catalog::paths::{encode_key, encode_volume_key};
use mantissa::catalog::pool::{PoolFilesystem, ReplicaPool};
use mantissa::catalog::protocol::StoredPool;
use mantissa::catalog::records::{
    decode_attachment, decode_pool, decode_replica, decode_retirement,
};
use mantissa::catalog::store::opening::{SavedAttachment, SavedReplica, SavedRetirement};
use mantissa::catalog::store::ReplicaCatalog;
use mantissa::catalog::voters::VoterSet;
use mantissa::driver::settings::{UblkQueueSettings, UblkSettings};
use mantissa::driver::ublk_types::UblkDeviceId;
use mantissa::volume::block_sizes::VolumeBlockSizes;
use mantissa::volume::descriptor::{VolumeCapacity, VolumeDescriptor};
use mantissa::volume::identity::{
    DriverSessionId, FenceEpoch, FilesystemId, OperationId, ReplacementId, VolumeGeneration,
    VolumeId,
};

/// Page size of the host.
const PAGE: i64 = 4096;

/// Free space of a pool that is never short.
const PLENTY: u64 = 1 << 40;

/// Creates one deterministic descriptor for catalog tests.
fn descriptor(id: u128, capacity_bytes: u64) -> VolumeDescriptor {
    descriptor_generation(id, 1, capacity_bytes)
}

/// Creates one deterministic descriptor at an explicit storage generation.
fn descriptor_generation(id: u128, generation: u64, capacity_bytes: u64) -> VolumeDescriptor {
    VolumeDescriptor::new(
        VolumeId::new(id).expect("non-zero volume id"),
        VolumeGeneration::new(generation).expect("non-zero generation"),
        capacity_bytes,
        VolumeBlockSizes::supported(),
    )
    .expect("valid test descriptor")
}

fn key_of(descriptor: &VolumeDescriptor) -> ReplicaKey {
    ReplicaKey::from_descriptor(descriptor)
}

fn capacity(bytes: u64) -> VolumeCapacity {
    VolumeCapacity::new(bytes).expect("aligned capacity")
}

/// Returns the stable setup operation used by catalog tests.
fn setup_operation_id() -> LocalReplicaOrigin {
    LocalReplicaOrigin::Bootstrap(OperationId::new(500).expect("setup operation ID"))
}

/// Returns three fixed voters recorded for local provisioning validation.
fn origin_voters() -> VoterSet {
    VoterSet::of(&[1_001, 1_002, 1_003])
}

fn replacement(id: u128, voters: VoterSet) -> LocalReplicaOrigin {
    LocalReplicaOrigin::replacement(ReplacementId::new(id).expect("replacement ID"), voters)
        .expect("valid replacement origin")
}

/// Space that a replica of a capacity takes, with one byte of metadata for 64 of data.
fn space(capacity_bytes: u64) -> ReservedSpace {
    ReservedSpace::new(capacity_bytes, capacity_bytes / 64)
}

fn total(capacity_bytes: u64) -> u64 {
    space(capacity_bytes).data_bytes() + space(capacity_bytes).metadata_bytes()
}

fn test_pool(managed_bytes: u64) -> ReplicaPool {
    ReplicaPool::from_checked(b"/pool".to_vec(), 1, PoolFilesystem::Ext4, managed_bytes)
}

/// A catalog on a pool whose free space the test controls.
struct Fixture {
    catalog: ReplicaCatalog,
    managed: u64,
    available: u64,
}

impl Fixture {
    fn new(managed: u64, available: u64) -> Self {
        let catalog =
            ReplicaCatalog::open(test_pool(managed), None, Vec::new(), Vec::new(), Vec::new())
                .expect("open test catalog");
        Fixture { catalog, managed, available }
    }

    fn reserve(
        &mut self,
        descriptor: VolumeDescriptor,
        origin: LocalReplicaOrigin,
    ) -> Result<ReplicaRecord, CatalogError> {
        let space = space(descriptor.capacity().bytes());
        self.catalog.reserve_replica(descriptor, origin, space, self.available)
    }

    fn reserve_bounded(
        &mut self,
        descriptor: VolumeDescriptor,
        origin: LocalReplicaOrigin,
        maximum: usize,
    ) -> Result<ReplicaRecord, CatalogError> {
        let space = space(descriptor.capacity().bytes());
        self.catalog
            .reserve_replica_bounded(descriptor, origin, maximum, space, self.available)
    }

    fn reserve_capacity(
        &mut self,
        key: ReplicaKey,
        target: VolumeCapacity,
    ) -> Result<ReplicaRecord, CatalogError> {
        self.catalog
            .reserve_replica_capacity(key, target, space(target.bytes()), self.available)
    }

    fn reduce(
        &mut self,
        key: ReplicaKey,
        target: VolumeCapacity,
    ) -> Result<ReplicaRecord, CatalogError> {
        self.catalog
            .reduce_replica_reservation(key, target, space(target.bytes()))
    }

    fn status(&self) -> PoolStatus {
        self.catalog.pool_status(self.available)
    }

    /// Writes every row down, reads it back, and opens a new catalog on what was read.
    fn reopen(&mut self) {
        let stored = decode_pool(&encode_pool(self.catalog.stored_pool())).expect("read pool");
        let replicas = self
            .catalog
            .discover_replicas(100)
            .expect("read replicas")
            .into_iter()
            .map(|record| {
                let record = decode_replica(&encode_replica(&record)).expect("read replica");
                SavedReplica {
                    key: encode_key(record.key()),
                    applied: space(record.descriptor().capacity().bytes()),
                    reserved: space(record.reserved_space().data_bytes()),
                    record,
                }
            })
            .collect();
        let attachments = self
            .catalog
            .discover_attachments(100)
            .expect("read attachments")
            .into_iter()
            .map(|record| {
                let record = decode_attachment(&encode_attachment(&record), PAGE)
                    .expect("read attachment");
                SavedAttachment { key: encode_key(record.key()), record }
            })
            .collect();
        let retirements = self
            .catalog
            .discover_retirements()
            .into_iter()
            .map(|retirement| {
                let retirement =
                    decode_retirement(&encode_retirement(retirement)).expect("read retirement");
                SavedRetirement { key: encode_volume_key(retirement.key()), retirement }
            })
            .collect();
        self.catalog = ReplicaCatalog::open(
            test_pool(self.managed),
            Some(stored),
            replicas,
            attachments,
            retirements,
        )
        .expect("reopen local catalog");
    }
}

fn roomy() -> Fixture {
    Fixture::new(1 << 40, PLENTY)
}

fn session(value: u128) -> DriverSessionId {
    DriverSessionId::new(value).expect("driver session")
}

fn fence(value: u64) -> FenceEpoch {
    FenceEpoch::new(value).expect("fence")
}

/// Builds bounded ublk settings at one exact test capacity.
fn ublk_settings(descriptor: &VolumeDescriptor) -> UblkSettings {
    UblkSettings::new(
        descriptor,
        UblkQueueSettings {
            queue_count: 2,
            queue_depth: 32,
            max_request_bytes: 128 << 10,
            memory_limit_bytes: 8 << 20,
        },
        4096,
    )
    .expect("valid test ublk settings")
}

/// Builds one saved device for an exact descriptor and writer session.
fn saved_device(
    id: u32,
    descriptor: &VolumeDescriptor,
    fence: FenceEpoch,
    session: DriverSessionId,
) -> SavedUblkDevice {
    SavedUblkDevice::new(UblkDeviceId::new(id), fence, session, ublk_settings(descriptor))
}

/// Reservations may lead Raft capacity but committed capacity never exceeds them.
#[test]
fn replica_capacity_reservation_and_application_are_monotonic() {
    let mut test = roomy();
    let initial = descriptor(90, 64 << 20);
    let key = key_of(&initial);
    test.reserve(initial.clone(), setup_operation_id()).expect("reserve initial replica");
    let target = capacity(128 << 20);

    let reserved = test.reserve_capacity(key, target).expect("reserve larger capacity");
    assert_eq!(reserved.descriptor(), &initial);
    assert_eq!(reserved.reserved_space().data_bytes(), target.bytes());
    assert_eq!(
        test.catalog
            .apply_replica_capacity(key, target)
            .expect("apply reserved capacity")
            .descriptor()
            .capacity(),
        target
    );
    test.catalog.apply_replica_capacity(key, target).expect("repeat capacity application");
    assert!(matches!(
        test.catalog.apply_replica_capacity(key, capacity(96 << 20)),
        Err(CatalogError::CapacityCannotShrink)
    ));
    assert!(matches!(
        test.reduce(key, capacity(96 << 20)),
        Err(CatalogError::ReservationBelowAppliedCapacity)
    ));
}

/// Correcting an uncommitted target releases only its excess durable promise.
#[test]
fn pending_capacity_reservation_can_be_corrected_before_commit() {
    let mut test = roomy();
    let initial = descriptor(91, 64 << 20);
    let key = key_of(&initial);
    test.reserve(initial.clone(), setup_operation_id()).expect("reserve initial replica");
    test.reserve_capacity(key, capacity(128 << 20)).expect("reserve larger target");
    let corrected = capacity(96 << 20);
    let record = test.reduce(key, corrected).expect("release uncommitted excess");
    assert_eq!(record.descriptor(), &initial);
    assert_eq!(record.reserved_space().data_bytes(), corrected.bytes());
    let pool = test.status();
    let expected = space(corrected.bytes());
    assert_eq!(pool.data_bytes(), expected.data_bytes());
    assert_eq!(pool.metadata_bytes(), expected.metadata_bytes());
}

/// A failed larger reservation leaves both the replica and pool totals unchanged.
#[test]
fn insufficient_pool_space_does_not_partially_reserve_capacity() {
    let initial = descriptor(92, 64 << 20);
    let mut test = Fixture::new(total(64 << 20) + 4096, PLENTY);
    let key = key_of(&initial);
    test.reserve(initial.clone(), setup_operation_id()).expect("reserve initial replica");
    let before = test.status();
    assert!(matches!(
        test.reserve_capacity(key, capacity(128 << 20)),
        Err(CatalogError::NotEnoughSpace { .. })
    ));
    let after = test.status();
    assert_eq!(after.data_bytes(), before.data_bytes());
    assert_eq!(after.metadata_bytes(), before.metadata_bytes());
    assert_eq!(
        test.catalog.replica(key).expect("replica exists").descriptor(),
        &initial
    );
}

/// The active-capacity device remains owned until the mapped descriptor advances.
#[test]
fn attachment_capacity_switch_keeps_exactly_one_active_device() {
    let mut test = roomy();
    let initial = descriptor(93, 64 << 20);
    let target =
        initial.with_capacity(capacity(128 << 20)).expect("compatible target descriptor");
    let key = key_of(&initial);
    let session = session(930);
    let fence = fence(7);
    test.reserve(initial.clone(), setup_operation_id()).expect("reserve initial replica");
    test.reserve_capacity(key, target.capacity()).expect("reserve target capacity");
    test.catalog
        .apply_replica_capacity(key, target.capacity())
        .expect("apply target capacity");
    test.catalog
        .open_or_create_attachment(initial.clone(), session)
        .expect("save attachment");
    test.catalog.save_attachment_fence(key, session, fence).expect("save writer fence");
    let old = saved_device(31, &initial, fence, session);
    let larger = saved_device(32, &target, fence, session);
    test.catalog.save_ublk_device(key, old).expect("save old device");
    test.catalog.save_ublk_device(key, larger).expect("save larger device");
    test.reopen();
    assert_eq!(
        test.catalog.attachment(key).expect("attachment exists").ublk_devices(),
        &[old, larger]
    );
    let mounting = SavedVolumeMount::mounting(
        fence,
        session,
        b"/pool/mount".to_vec(),
        0,
        0,
        0o700,
        ReplicatedVolumeFilesystem::Xfs,
    )
    .expect("valid saved mount");
    test.catalog.save_volume_mount(key, mounting).expect("save mount");

    assert!(matches!(
        test.catalog.clear_ublk_device(key, old),
        Err(CatalogError::VolumeMountDeviceMismatch)
    ));
    test.catalog
        .advance_attachment_capacity(key, target.clone())
        .expect("record active larger mapping");
    test.reopen();
    assert!(matches!(
        test.catalog.clear_ublk_device(key, larger),
        Err(CatalogError::VolumeMountDeviceMismatch)
    ));
    test.catalog.clear_ublk_device(key, old).expect("remove inactive old device");
    let saved = test.catalog.attachment(key).expect("attachment exists");
    assert_eq!(saved.descriptor(), &target);
    assert_eq!(saved.ublk_devices(), &[larger]);
}

/// Finds replicas and unfinished work after writing the rows down and opening them again.
#[test]
fn restart_discovers_replicas_without_cluster_state() {
    let mut test = roomy();
    let first = descriptor(1, 64 << 20);
    let second = descriptor(2, 128 << 20);
    test.reserve(first.clone(), setup_operation_id()).expect("reserve first replica");
    test.reserve(second.clone(), setup_operation_id()).expect("reserve second replica");
    test.catalog
        .set_replica_state(key_of(&first), ReplicaState::Deleting)
        .expect("mark first replica deleting");
    test.catalog
        .set_replica_health(key_of(&second), ReplicaHealth::NeedsRecovery)
        .expect("mark second replica unhealthy");
    test.reopen();

    let records = test.catalog.discover_replicas(10).expect("discover local replicas");
    assert_eq!(2, records.len());
    let recovered = test.catalog.replica(key_of(&first)).expect("recovered replica exists");
    assert_eq!(ReplicaState::Deleting, recovered.state());
    assert_eq!(
        ReplicaHealth::NeedsRecovery,
        test.catalog.replica(key_of(&second)).expect("unhealthy replica exists").health()
    );
}

/// Admission rejects a new row at the limit but preserves exact retry semantics.
#[test]
fn bounded_reservation_never_creates_an_unrecoverable_catalog() {
    let mut test = roomy();
    let first = descriptor(101, 64 << 20);
    let second = descriptor(102, 64 << 20);

    test.reserve_bounded(first.clone(), setup_operation_id(), 1)
        .expect("reserve first bounded replica");
    test.reserve_bounded(first, setup_operation_id(), 1)
        .expect("retry existing bounded replica");
    let error = test
        .reserve_bounded(second, setup_operation_id(), 1)
        .expect_err("second bounded replica must be rejected");

    assert!(matches!(
        error,
        CatalogError::TooManyReplicaSlots { actual: 2, maximum: 1 }
    ));
    assert_eq!(test.catalog.replica_count(), 1);
    assert_eq!(
        test.catalog
            .discover_replicas(1)
            .expect("bounded catalog remains restartable")
            .len(),
        1
    );
}

/// A retained replica can return to Ready without changing its reservation.
#[test]
fn retained_replica_can_be_restored() {
    let mut test = roomy();
    let descriptor = descriptor(1, 64 << 20);
    let key = key_of(&descriptor);
    test.reserve(descriptor, setup_operation_id()).expect("reserve replica");
    test.catalog.set_replica_state(key, ReplicaState::Ready).expect("mark replica ready");
    test.catalog.set_replica_state(key, ReplicaState::Retained).expect("retain replica");
    test.catalog
        .set_replica_state(key, ReplicaState::Ready)
        .expect("restore retained replica");

    assert_eq!(
        test.catalog.replica(key).expect("restored replica exists").state(),
        ReplicaState::Ready
    );
}

/// The exact ublk device is durable and cannot be replaced accidentally.
#[test]
fn ublk_device_is_saved_replaced_and_cleared_exactly() {
    let mut test = roomy();
    let descriptor = descriptor(14, 64 << 20);
    let key = key_of(&descriptor);
    test.reserve(descriptor.clone(), setup_operation_id()).expect("reserve replica");
    let epoch = fence(3);
    let session = session(700);
    let first = saved_device(4, &descriptor, epoch, session);
    let second = saved_device(5, &descriptor, epoch, session);

    test.catalog
        .open_or_create_attachment(descriptor.clone(), session)
        .expect("save attachment session");
    test.catalog
        .save_attachment_fence(key, session, epoch)
        .expect("save attachment fence");

    test.catalog.save_ublk_device(key, first).expect("save first ublk device");
    test.catalog.save_ublk_device(key, first).expect("repeat exact ublk save");
    assert!(matches!(
        test.catalog.save_ublk_device(key, second),
        Err(CatalogError::UblkDeviceChanged)
    ));
    test.catalog
        .replace_ublk_device(key, first, second)
        .expect("replace exact missing device");
    test.catalog
        .replace_ublk_device(key, first, second)
        .expect("repeat exact ublk replacement");
    assert!(matches!(
        test.catalog.clear_ublk_device(key, first),
        Err(CatalogError::UblkDeviceChanged)
    ));
    test.reopen();

    assert_eq!(
        &[second],
        test.catalog.attachment(key).expect("attachment must exist").ublk_devices()
    );
    test.catalog.clear_ublk_device(key, second).expect("clear exact ublk device");
    assert!(test
        .catalog
        .attachment(key)
        .expect("attachment must exist")
        .ublk_devices()
        .is_empty());
}

/// Mount progress survives restart and keeps its ublk device alive.
#[test]
fn volume_mount_is_saved_advanced_and_cleared_exactly() {
    let mut test = roomy();
    let descriptor = descriptor(15, 64 << 20);
    let key = key_of(&descriptor);
    test.reserve(descriptor.clone(), setup_operation_id()).expect("reserve replica");
    let epoch = fence(4);
    let session = session(701);
    let device = saved_device(6, &descriptor, epoch, session);
    let mounting = SavedVolumeMount::mounting(
        epoch,
        session,
        b"/pool/mount".to_vec(),
        1000,
        1001,
        0o2770,
        ReplicatedVolumeFilesystem::Xfs,
    )
    .expect("valid saved mount");

    test.catalog
        .open_or_create_attachment(descriptor.clone(), session)
        .expect("save attachment session");
    test.catalog
        .save_attachment_fence(key, session, epoch)
        .expect("save attachment fence");

    assert!(matches!(
        test.catalog.save_volume_mount(key, mounting.clone()),
        Err(CatalogError::VolumeMountDeviceMismatch)
    ));
    test.catalog.save_ublk_device(key, device).expect("save ublk device");
    test.catalog.save_volume_mount(key, mounting.clone()).expect("save mounting step");
    let format = SavedFilesystemFormat::new(
        ReplicatedVolumeFilesystem::Xfs,
        FilesystemId::new(702).expect("non-zero filesystem ID"),
        [0x5a; 32],
    );
    test.catalog
        .save_filesystem_format(key, format)
        .expect("save unfinished filesystem format");
    assert!(matches!(
        test.catalog.clear_ublk_device(key, device),
        Err(CatalogError::VolumeMountDeviceMismatch)
    ));
    test.catalog
        .clear_filesystem_format(key, format)
        .expect("clear completed filesystem format");
    test.catalog
        .save_volume_mount(key, mounting.clone())
        .expect("save same mounting step");
    let mounted = mounting
        .with_state(SavedMountState::Mounted)
        .expect("advance to mounted")
        .with_filesystem_expanded_to(descriptor.capacity().bytes())
        .expect("save initial filesystem capacity");
    let impossible = mounting
        .with_state(SavedMountState::Mounted)
        .expect("advance to mounted")
        .with_filesystem_expanded_to(descriptor.capacity().bytes() + 4096)
        .expect("model permits catalog-level capacity validation");
    assert!(matches!(
        test.catalog.replace_volume_mount(key, &mounting, impossible),
        Err(CatalogError::FilesystemCapacityExceedsDevice)
    ));
    assert!(matches!(
        mounted.with_filesystem_expanded_to(descriptor.capacity().bytes() - 4096),
        Err(InvalidSavedVolumeMount::FilesystemCapacityMovedBackwards)
    ));
    test.catalog
        .replace_volume_mount(key, &mounting, mounted.clone())
        .expect("save mounted step");
    assert!(matches!(
        test.catalog.clear_ublk_device(key, device),
        Err(CatalogError::VolumeMountDeviceMismatch)
    ));
    test.reopen();

    assert_eq!(
        Some(&mounted),
        test.catalog.attachment(key).expect("attachment must exist").volume_mount()
    );
    assert!(matches!(
        test.catalog.replace_volume_mount(key, &mounted, mounting),
        Err(CatalogError::VolumeMountChanged)
    ));
    let unmounting = mounted
        .with_state(SavedMountState::Unmounting)
        .expect("advance to unmounting");
    test.catalog.begin_attachment_detach(key);
    let detaching = test.catalog.attachment(key).expect("detaching attachment must exist");
    assert!(detaching.is_detaching());
    assert_eq!(detaching.volume_mount(), Some(&unmounting));
    test.catalog.clear_volume_mount(key, &unmounting).expect("clear exact mount");
    test.catalog.clear_ublk_device(key, device).expect("clear device after mount");
}

/// Detach intent survives without inventing a device or mount resource.
#[test]
fn attachment_detach_intent_survives_before_device_creation() {
    let mut test = roomy();
    let descriptor = descriptor(18, 64 << 20);
    let key = key_of(&descriptor);
    let session = session(705);
    let fence = fence(11);
    test.reserve(descriptor.clone(), setup_operation_id()).expect("reserve replica");
    test.catalog
        .open_or_create_attachment(descriptor, session)
        .expect("save attachment session");
    test.catalog.save_attachment_fence(key, session, fence).expect("save writer fence");
    test.catalog.begin_attachment_detach(key);
    test.catalog.begin_attachment_detach(key);
    test.reopen();

    let saved = test.catalog.attachment(key).expect("saved attachment must exist");
    assert!(saved.is_detaching());
    assert_eq!(saved.granted_fence(), Some(fence));
    assert!(saved.ublk_devices().is_empty());
    assert_eq!(saved.volume_mount(), None);
}

/// A writer handoff advances the attachment, device, and mount together.
#[test]
fn attachment_fence_advance_is_atomic_and_idempotent() {
    let mut test = roomy();
    let descriptor = descriptor(16, 64 << 20);
    let key = key_of(&descriptor);
    test.reserve(descriptor.clone(), setup_operation_id()).expect("reserve replica");
    let old = fence(7);
    let new = fence(9);
    let session = session(703);
    let device = saved_device(7, &descriptor, old, session);
    let mounting = SavedVolumeMount::mounting(
        old,
        session,
        b"/pool/mount".to_vec(),
        1000,
        1001,
        0o2770,
        ReplicatedVolumeFilesystem::Ext4,
    )
    .expect("valid saved mount");
    let mounted = mounting.with_state(SavedMountState::Mounted).expect("mounted state");

    test.catalog
        .open_or_create_attachment(descriptor, session)
        .expect("save attachment session");
    test.catalog.save_attachment_fence(key, session, old).expect("save old fence");
    test.catalog.save_ublk_device(key, device).expect("save device");
    test.catalog
        .save_volume_mount(key, mounting.clone())
        .expect("save mounting state");
    test.catalog
        .replace_volume_mount(key, &mounting, mounted)
        .expect("save mounted state");

    test.catalog
        .advance_attachment_fence(key, session, old, new)
        .expect("advance complete attachment");
    test.catalog
        .advance_attachment_fence(key, session, old, new)
        .expect("repeat exact advance");
    let saved = test.catalog.attachment(key).expect("attachment exists");
    assert_eq!(saved.granted_fence(), Some(new));
    assert_eq!(
        saved
            .ublk_devices()
            .iter()
            .copied()
            .map(SavedUblkDevice::fence)
            .collect::<Vec<_>>(),
        vec![new],
    );
    assert_eq!(saved.volume_mount().map(SavedVolumeMount::fence), Some(new));
    assert!(matches!(
        test.catalog.advance_attachment_fence(key, session, fence(8), fence(10)),
        Err(CatalogError::AttachmentFenceChanged)
    ));
}

/// A setup retry must use the operation that owns the saved reservation.
#[test]
fn replica_reservation_rejects_another_setup_operation() {
    let mut test = roomy();
    let descriptor = descriptor(13, 64 << 20);
    let owner = setup_operation_id();
    let other =
        LocalReplicaOrigin::Bootstrap(OperationId::new(501).expect("other setup operation ID"));

    test.reserve(descriptor.clone(), owner.clone()).expect("reserve replica");
    test.reserve(descriptor.clone(), owner).expect("repeat owning reservation");
    assert!(matches!(
        test.reserve(descriptor, other),
        Err(CatalogError::ConflictingReplica)
    ));
}

/// Replacement provenance survives restart and is exact across retries.
#[test]
fn replacement_reservation_retains_its_voter_route() {
    let mut test = roomy();
    let descriptor = descriptor(14, 64 << 20);
    let key = key_of(&descriptor);
    let origin = replacement(700, VoterSet::of(&[1, 2]));

    test.reserve(descriptor.clone(), origin.clone()).expect("reserve replacement replica");
    test.reopen();

    let record = test.catalog.replica(key).expect("replacement replica exists");
    assert_eq!(record.origin(), &origin);

    let changed_route = replacement(700, VoterSet::of(&[1, 3]));
    assert!(matches!(
        test.reserve(descriptor, changed_route),
        Err(CatalogError::ConflictingReplica)
    ));
}

/// An excluded bootstrap slot becomes crash-retryable replacement work atomically.
#[test]
fn existing_replica_can_be_rebuilt_for_an_applied_replacement() {
    let mut test = roomy();
    let initial = descriptor(15, 64 << 20);
    let expanded = descriptor(15, 128 << 20);
    let key = key_of(&initial);
    let origin = replacement(701, VoterSet::of(&[1, 2]));

    test.reserve(initial, setup_operation_id()).expect("reserve original replica");
    test.catalog
        .set_replica_state(key, ReplicaState::Ready)
        .expect("finish original replica");
    test.reserve_capacity(key, expanded.capacity()).expect("reserve expanded capacity");

    let rebuilding = test
        .catalog
        .begin_replica_replacement(key, expanded.clone(), origin.clone())
        .expect("begin replacement rebuild");
    assert_eq!(rebuilding.descriptor(), &expanded);
    assert_eq!(rebuilding.origin(), &origin);
    assert_eq!(rebuilding.state(), ReplicaState::Preparing);
    assert_eq!(rebuilding.health(), ReplicaHealth::Healthy);
    assert_eq!(
        test.catalog
            .begin_replica_replacement(key, expanded.clone(), origin.clone())
            .expect("repeat replacement rebuild"),
        rebuilding
    );

    test.catalog
        .set_replica_state(key, ReplicaState::Ready)
        .expect("finish rebuilt replica");
    test.catalog
        .open_or_create_attachment(expanded.clone(), session(702))
        .expect("save attachment");
    assert!(matches!(
        test.catalog.begin_replica_replacement(key, expanded, origin),
        Err(CatalogError::ReplicaStillAttached)
    ));
}

/// Competing reservations cannot promise the pool twice.
#[test]
fn concurrent_reservations_do_not_oversubscribe_the_pool() {
    let capacity = 64 << 20;
    let mut test = Fixture::new(total(capacity) * 3, PLENTY);
    let successes = (1..=8_u128)
        .map(|number| test.reserve(descriptor(number, capacity), setup_operation_id()))
        .filter(Result::is_ok)
        .count();
    assert_eq!(3, successes);
    assert_eq!(
        3,
        test.catalog.discover_replicas(10).expect("discover reserved replicas").len()
    );
}

/// Free-space pressure stops new replicas before it blocks deletion.
#[test]
fn disk_pressure_keeps_deletion_available() {
    let capacity = 64 << 20;
    let mut test = Fixture::new(total(capacity), total(capacity));
    let first = descriptor(1, capacity);
    let key = key_of(&first);
    test.reserve(first.clone(), setup_operation_id()).expect("reserve local replica");

    assert_eq!(PoolSpaceState::NoNewReplicas, test.status().state());
    assert!(matches!(
        test.reserve(descriptor(2, capacity), setup_operation_id()),
        Err(CatalogError::NotEnoughSpace { .. })
    ));
    test.available = 0;
    assert_eq!(PoolSpaceState::DeleteOnly, test.status().state());
    assert_eq!(
        first,
        *test
            .reserve(first.clone(), setup_operation_id())
            .expect("repeat existing reservation at zero free space")
            .descriptor()
    );

    test.catalog
        .set_replica_state(key, ReplicaState::Deleting)
        .expect("mark replica deleting");
    test.catalog.remove_deleted_replica(key).expect("release deleted replica");
    test.catalog.remove_deleted_replica(key).expect("repeat deleted replica release");
    assert!(test.catalog.discover_replicas(1).expect("discover empty catalog").is_empty());
}

/// Retirement releases space, blocks bootstrap, and permits a later replacement.
#[test]
fn retired_replica_is_not_recreated_by_bootstrap() {
    let mut test = roomy();
    let descriptor = descriptor(3, 64 << 20);
    let key = key_of(&descriptor);
    test.reserve(descriptor.clone(), setup_operation_id())
        .expect("reserve bootstrap replica");
    test.catalog
        .set_replica_state(key, ReplicaState::Retiring)
        .expect("mark former member retiring");
    test.catalog.remove_retired_replica(key).expect("retire former member");
    test.reopen();

    assert!(test.catalog.replica(key).is_none());
    assert_eq!(
        Some(LocalReplicaRetirement::new(key)),
        test.catalog.retirement(key)
    );
    assert!(matches!(
        test.reserve(descriptor.clone(), setup_operation_id()),
        Err(CatalogError::ReplicaRetired)
    ));

    test.reserve(descriptor, replacement(900, origin_voters()))
        .expect("later replacement may reuse retired node");
    assert!(test.catalog.retirement(key).is_none());
}

/// A proven missing former copy retains bounded bootstrap suppression.
#[test]
fn missing_retired_replica_cannot_be_recreated_by_bootstrap() {
    let mut test = roomy();
    let descriptor = descriptor(30, 64 << 20);
    let key = key_of(&descriptor);

    test.catalog
        .record_missing_replica_retirement(key, 1)
        .expect("record missing former copy");
    test.catalog
        .record_missing_replica_retirement(key, 1)
        .expect("repeat missing former copy retirement");

    assert_eq!(
        Some(LocalReplicaRetirement::new(key)),
        test.catalog.retirement(key)
    );
    assert!(matches!(
        test.reserve(descriptor, setup_operation_id()),
        Err(CatalogError::ReplicaRetired)
    ));
}

/// Files and retirement proofs share a slot bound without blocking cleanup.
#[test]
fn retirement_preserves_the_shared_replica_slot_bound() {
    let mut test = roomy();
    let first = descriptor(30, 64 << 20);
    let second = descriptor(31, 64 << 20);
    let third = descriptor(32, 64 << 20);
    let first_key = key_of(&first);
    let second_key = key_of(&second);
    for descriptor in [first, second] {
        let key = key_of(&descriptor);
        test.reserve_bounded(descriptor, setup_operation_id(), 2)
            .expect("reserve replica before retirement");
        test.catalog
            .set_replica_state(key, ReplicaState::Retiring)
            .expect("mark replica retiring");
    }

    test.catalog
        .remove_retired_replica(first_key)
        .expect("replace first file with retirement proof");
    assert_eq!(
        2,
        test.catalog.replica_slot_count().expect("count occupied replica slots")
    );
    test.catalog
        .check_replica_slot_limit(2)
        .expect("accept the exact startup slot limit");
    assert!(matches!(
        test.catalog.check_replica_slot_limit(1),
        Err(CatalogError::TooManyReplicaSlots { actual: 2, maximum: 1 })
    ));
    assert!(matches!(
        test.reserve_bounded(third, setup_operation_id(), 2),
        Err(CatalogError::TooManyReplicaSlots { actual: 3, maximum: 2 })
    ));

    test.reserve_bounded(descriptor(30, 64 << 20), replacement(901, origin_voters()), 2)
        .expect("replacement consumes its existing retirement slot");
    assert!(test.catalog.retirement(first_key).is_none());
    test.catalog
        .remove_retired_replica(second_key)
        .expect("second cleanup exchanges a file for a proof at the limit");
    assert!(test.catalog.retirement(second_key).is_some());
}

/// A new public generation atomically supersedes old local retirement proof.
#[test]
fn newer_generation_forgets_old_retirement() {
    let mut test = roomy();
    let old = descriptor_generation(32, 1, 64 << 20);
    let new = descriptor_generation(32, 2, 64 << 20);
    let old_key = key_of(&old);
    let new_key = key_of(&new);
    test.reserve(old, setup_operation_id()).expect("reserve old generation");
    test.catalog
        .set_replica_state(old_key, ReplicaState::Retiring)
        .expect("mark old generation retiring");
    test.catalog.remove_retired_replica(old_key).expect("retire old generation");

    test.catalog.forget_retirement_before(new_key);
    assert!(test.catalog.retirement(old_key).is_none());
    test.reserve(new, setup_operation_id()).expect("reserve new generation");
    assert!(test.catalog.replica(new_key).is_some());
}

/// Terminal deletion removes obsolete bootstrap-suppression state idempotently.
#[test]
fn deleted_retirement_forgets_local_history() {
    let mut test = roomy();
    let descriptor = descriptor(4, 64 << 20);
    let key = key_of(&descriptor);
    test.reserve(descriptor, setup_operation_id()).expect("reserve bootstrap replica");
    test.catalog
        .set_replica_state(key, ReplicaState::Retiring)
        .expect("mark former member retiring");
    test.catalog.remove_retired_replica(key).expect("retire former member");
    test.catalog.remove_deleted_replica(key).expect("convert retirement to deletion");
    test.catalog.remove_deleted_replica(key).expect("repeat terminal deletion");

    assert!(test.catalog.retirement(key).is_none());
}

/// Discovery rejects a caller limit before allocating the result.
#[test]
fn discovery_limit_is_checked() {
    let mut test = roomy();
    test.reserve(descriptor(1, 64 << 20), setup_operation_id()).expect("reserve replica");
    assert!(matches!(
        test.catalog.discover_replicas(0),
        Err(CatalogError::TooManyReplicas { actual: 1, maximum: 0 })
    ));
}

/// A pool row that was saved for another device is refused.
#[test]
fn changed_pool_is_refused() {
    let mut stored = StoredPool::new(&test_pool(1 << 30));
    stored.device_id = 2;
    assert!(matches!(
        ReplicaCatalog::open(
            test_pool(1 << 30),
            Some(stored),
            Vec::new(),
            Vec::new(),
            Vec::new()
        ),
        Err(CatalogError::PoolChanged)
    ));
}

/// Totals that no row accounts for are refused.
#[test]
fn wrong_totals_are_refused() {
    let mut stored = StoredPool::new(&test_pool(1 << 30));
    stored.data_bytes = 4096;
    assert!(matches!(
        ReplicaCatalog::open(
            test_pool(1 << 30),
            Some(stored),
            Vec::new(),
            Vec::new(),
            Vec::new()
        ),
        Err(CatalogError::SpaceTotalsMismatch)
    ));
}

#[test]
fn saved_pool_row_keeps_the_pool_through_every_reservation() {
    let mut test = roomy();
    let first = descriptor(900, 4 << 20);
    test.reserve(first, setup_operation_id()).expect("reserve first");
    let row = test.catalog.stored_pool();
    assert_eq!(row.path, b"/pool".to_vec());
    assert_eq!(row.device_id, 1);
    assert_eq!(row.filesystem, PoolFilesystem::Ext4);
    assert_eq!(row.managed_bytes, 1 << 40);
    assert_eq!(row.data_bytes + row.metadata_bytes, total(4 << 20));
    assert!(row.matches(&test_pool(1 << 40)));
}

#[test]
fn restart_gives_back_every_row() {
    let mut test = roomy();
    let kept = descriptor(901, 4 << 20);
    let gone = descriptor_generation(902, 7, 4 << 20);
    test.reserve(kept, setup_operation_id()).expect("reserve kept");
    test.reserve(gone, setup_operation_id()).expect("reserve retired");
    test.catalog
        .set_replica_state(key_of(&gone), ReplicaState::Retiring)
        .expect("begin retirement");
    test.catalog.remove_retired_replica(key_of(&gone)).expect("retire");
    test.catalog.open_or_create_attachment(kept, session(77)).expect("attach");
    let pool = encode_pool(test.catalog.stored_pool());
    let replicas = test.catalog.discover_replicas(10).expect("replicas");
    let attachments = test.catalog.discover_attachments(10).expect("attachments");
    let retirements = test.catalog.discover_retirements();
    assert_eq!(retirements, vec![LocalReplicaRetirement::new(key_of(&gone))]);

    test.reopen();

    assert_eq!(encode_pool(test.catalog.stored_pool()), pool);
    assert_eq!(test.catalog.discover_replicas(10).expect("replicas"), replicas);
    assert_eq!(test.catalog.discover_attachments(10).expect("attachments"), attachments);
    assert_eq!(test.catalog.discover_retirements(), retirements);
}

#[test]
fn table_keys_tell_replicas_apart() {
    let key = key_of(&descriptor_generation(1, 2, 4 << 20));
    assert_ne!(encode_key(key), encode_key(key_of(&descriptor_generation(2, 1, 4 << 20))));
    assert_ne!(encode_key(key), encode_key(key_of(&descriptor_generation(1, 3, 4 << 20))));
    assert_eq!(encode_key(key).len(), 24);
}

#[test]
fn device_of_another_capacity_is_refused_at_restart() {
    let mut test = roomy();
    let volume = descriptor(903, 8 << 20);
    test.reserve(volume, setup_operation_id()).expect("reserve");
    let small = descriptor(903, 4 << 20);
    let key = key_of(&volume);
    test.catalog.open_or_create_attachment(volume, session(5)).expect("attach");
    let fence = FenceEpoch::new(1).expect("fence");
    test.catalog.save_attachment_fence(key, session(5), fence).expect("grant");
    let settings = UblkSettings::new(
        &small,
        UblkQueueSettings {
            queue_count: 1,
            queue_depth: 4,
            max_request_bytes: 64 << 10,
            memory_limit_bytes: 256 << 10,
        },
        PAGE,
    )
    .expect("settings");
    let device = SavedUblkDevice::new(UblkDeviceId::new(3), fence, session(5), settings);
    test.catalog.save_ublk_device(key, device).expect("save device");

    let attachment = test.catalog.attachment(key).expect("attachment");
    let replica = test.catalog.replica(key).expect("replica");
    let reopened = ReplicaCatalog::open(
        test_pool(1 << 40),
        Some(decode_pool(&encode_pool(test.catalog.stored_pool())).expect("pool")),
        vec![SavedReplica {
            key: encode_key(key),
            applied: space(8 << 20),
            reserved: space(8 << 20),
            record: replica,
        }],
        vec![SavedAttachment { key: encode_key(key), record: attachment }],
        Vec::new(),
    );
    assert!(matches!(reopened, Err(CatalogError::AttachmentIdentityMismatch)));
}

#[test]
fn mount_paths_are_compared_by_their_components() {
    let mut test = roomy();
    let descriptor = descriptor(16, 64 << 20);
    let key = key_of(&descriptor);
    test.reserve(descriptor.clone(), setup_operation_id()).expect("reserve replica");
    let epoch = fence(4);
    let session = session(703);
    let mount_at = |path: &[u8]| {
        SavedVolumeMount::mounting(
            epoch,
            session,
            path.to_vec(),
            1000,
            1001,
            0o2770,
            ReplicatedVolumeFilesystem::Xfs,
        )
        .expect("valid saved mount")
    };
    test.catalog
        .open_or_create_attachment(descriptor.clone(), session)
        .expect("save attachment session");
    test.catalog.save_attachment_fence(key, session, epoch).expect("save attachment fence");
    test.catalog
        .save_ublk_device(key, saved_device(6, &descriptor, epoch, session))
        .expect("save ublk device");
    test.catalog.save_volume_mount(key, mount_at(b"/pool/mount")).expect("save mounting step");

    assert!(mount_at(b"/pool/mount") == mount_at(b"/pool//mount/"));
    assert!(mount_at(b"/pool/mount") == mount_at(b"/pool/./mount"));
    assert!(mount_at(b"/pool/mount") != mount_at(b"/pool/mounts"));
    test.catalog
        .save_volume_mount(key, mount_at(b"/pool/mount/"))
        .expect("save the same mounting step");
    assert!(matches!(
        test.catalog.save_volume_mount(key, mount_at(b"/pool/other")),
        Err(CatalogError::VolumeMountChanged)
    ));
    test.catalog
        .clear_volume_mount(key, &mount_at(b"/pool//mount"))
        .expect("clear the same mounting step");
}
