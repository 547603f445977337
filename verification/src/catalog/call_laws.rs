//! What a caller of the catalog can rely on, call by call.

use vstd::prelude::*;

use super::attachment::{AttachmentView, LocalAttachmentRecord};
use super::attachment_laws::{
    keeps_other_attachments, law_attaching, law_attachment_growth, law_attachment_removal,
    law_detaching, law_device_capacity, law_device_clearing, law_device_replacement,
    law_device_saving, law_fence_advancing, law_mount_clearing, law_mount_replacement,
    law_mount_saving, stands_at,
};
use super::error::CatalogError;
use super::model::{
    LocalReplicaOrigin, LocalReplicaRetirement, PoolSpaceState, PoolStatus, ReplicaHealth,
    ReplicaKey, ReplicaRecord, ReplicaState, ReservedSpace, SavedFilesystemFormat, SavedMountState,
    SavedUblkDevice, SavedVolumeMount,
};
use super::replica_laws::{
    is_released, keeps_other_rows, law_capacity_application, law_capacity_reservation, law_deletion,
    law_missing_retirement, law_newer_generation_forgets, law_reservation_prepares_a_row,
    law_reservation_reduction, law_retirement, law_state_changes,
};
use super::rules::{slot_of, CatalogView, Slot};
use super::store::attachments::attachment_record_views;
use super::store::ReplicaCatalog;
use crate::volume::descriptor::{VolumeCapacity, VolumeDescriptor};
use crate::volume::identity::{DriverSessionId, FenceEpoch};

verus! {

/// Number of a volume and number of a generation, under which a row stands.
pub open spec fn place(key: ReplicaKey) -> (u128, u64) {
    (key.volume().value(), key.generation_of().value())
}

/// A reserved replica that was not there is being prepared and healthy, with the given
/// descriptor, origin and space, and is what the call returns; a refused call changes
/// nothing.
pub proof fn law_reserve_call(
    catalog: &mut ReplicaCatalog,
    descriptor: VolumeDescriptor,
    origin: LocalReplicaOrigin,
    space: ReservedSpace,
    available_bytes: u64,
    out: Result<ReplicaRecord, CatalogError>,
)
    requires
        call_ensures(
            ReplicaCatalog::reserve_replica,
            (catalog, descriptor, origin, space, available_bytes),
            out,
        ),
    ensures
        ({
            let key = (descriptor.id().value(), descriptor.generation_of().value());
            let before = old(catalog)@;
            let after = final(catalog)@;
            &&& out is Err ==> after == before
            &&& out matches Ok(record) ==> {
                &&& after.replicas.contains_key(key) && record@ == after.replicas[key]
                &&& record@.descriptor == descriptor
                &&& record@.origin == origin@
                &&& before.replicas.contains_key(key) ==> record@ == before.replicas[key]
                &&& !before.replicas.contains_key(key) ==> record@.state == ReplicaState::Preparing
                    && record@.health == ReplicaHealth::Healthy && record@.reserved == space
                    && record@.filesystem_format is None && space.data() + space.metadata()
                    <= available_bytes
                &&& keeps_other_rows(before, after, key)
            }
        }),
{
    if out is Ok {
        law_reservation_prepares_a_row(
            old(catalog)@,
            final(catalog)@,
            descriptor,
            origin@,
            None,
            space,
            available_bytes,
        );
    }
}

/// A bounded reservation does what an unbounded one does, and afterwards the rows and the
/// retirements are no more than the limit, or no more than they were.
pub proof fn law_bounded_reserve_call(
    catalog: &mut ReplicaCatalog,
    descriptor: VolumeDescriptor,
    origin: LocalReplicaOrigin,
    maximum: usize,
    space: ReservedSpace,
    available_bytes: u64,
    out: Result<ReplicaRecord, CatalogError>,
)
    requires
        call_ensures(
            ReplicaCatalog::reserve_replica_bounded,
            (catalog, descriptor, origin, maximum, space, available_bytes),
            out,
        ),
    ensures
        ({
            let key = (descriptor.id().value(), descriptor.generation_of().value());
            let before = old(catalog)@;
            let after = final(catalog)@;
            &&& out is Err ==> after == before
            &&& out matches Ok(record) ==> {
                &&& after.replicas.contains_key(key) && record@ == after.replicas[key]
                &&& record@.descriptor == descriptor
                &&& record@.origin == origin@
                &&& before.replicas.contains_key(key) ==> record@ == before.replicas[key]
                &&& !before.replicas.contains_key(key) ==> record@.state == ReplicaState::Preparing
                    && record@.health == ReplicaHealth::Healthy && record@.reserved == space
                    && record@.filesystem_format is None && before.replicas.dom().len()
                    + before.retirements.dom().len() <= maximum
                &&& keeps_other_rows(before, after, key)
            }
        }),
{
    if out is Ok {
        law_reservation_prepares_a_row(
            old(catalog)@,
            final(catalog)@,
            descriptor,
            origin@,
            Some(maximum),
            space,
            available_bytes,
        );
    }
}

/// A call that sets the state leaves exactly that state, and no call makes a row that was
/// being deleted or retired ready again.
pub proof fn law_set_state_call(
    catalog: &mut ReplicaCatalog,
    key: ReplicaKey,
    requested: ReplicaState,
    out: Result<(), CatalogError>,
)
    requires
        call_ensures(ReplicaCatalog::set_replica_state, (catalog, key, requested), out),
    ensures
        ({
            let row = old(catalog)@.replicas[place(key)];
            &&& out is Err ==> final(catalog)@ == old(catalog)@
            &&& out is Ok ==> old(catalog)@.replicas.contains_key(place(key))
                && final(catalog)@.replicas.contains_key(place(key))
                && final(catalog)@.replicas[place(key)].state == requested
                && final(catalog)@.replicas[place(key)].reserved == row.reserved
                && keeps_other_rows(old(catalog)@, final(catalog)@, place(key))
            &&& row.state == ReplicaState::Deleting || row.state == ReplicaState::Retiring ==> out
                is Ok ==> requested == row.state
        }),
{
    law_state_changes(old(catalog)@, place(key), requested);
}

/// A call that sets the health leaves exactly that health.
pub proof fn law_set_health_call(
    catalog: &mut ReplicaCatalog,
    key: ReplicaKey,
    requested: ReplicaHealth,
    out: Result<(), CatalogError>,
)
    requires
        call_ensures(ReplicaCatalog::set_replica_health, (catalog, key, requested), out),
    ensures
        out is Ok <==> old(catalog)@.replicas.contains_key(place(key)),
        out is Err ==> final(catalog)@ == old(catalog)@,
        out is Ok ==> final(catalog)@.replicas[place(key)].health == requested
            && final(catalog)@.replicas[place(key)].state
            == old(catalog)@.replicas[place(key)].state && keeps_other_rows(
            old(catalog)@,
            final(catalog)@,
            place(key),
        ),
{
}

/// A reserved capacity leaves room for the target, and never less than before.
pub proof fn law_reserve_capacity_call(
    catalog: &mut ReplicaCatalog,
    key: ReplicaKey,
    target: VolumeCapacity,
    requested: ReservedSpace,
    available_bytes: u64,
    out: Result<ReplicaRecord, CatalogError>,
)
    requires
        call_ensures(
            ReplicaCatalog::reserve_replica_capacity,
            (catalog, key, target, requested, available_bytes),
            out,
        ),
        requested.data() >= target.size(),
    ensures
        out is Err ==> final(catalog)@ == old(catalog)@,
        out matches Ok(record) ==> {
            let row = old(catalog)@.replicas[place(key)];
            &&& record@ == final(catalog)@.replicas[place(key)]
            &&& record@.reserved.data() >= target.size()
            &&& record@.reserved.data() >= row.reserved.data()
            &&& record@.reserved.metadata() >= row.reserved.metadata()
            &&& record@.descriptor == row.descriptor
            &&& record@.state == row.state
            &&& keeps_other_rows(old(catalog)@, final(catalog)@, place(key))
        },
{
    law_capacity_reservation(old(catalog)@, place(key), target, requested, available_bytes);
}

/// A reduced reservation never takes away an applied capacity and never grows.
pub proof fn law_reduce_reservation_call(
    catalog: &mut ReplicaCatalog,
    key: ReplicaKey,
    target: VolumeCapacity,
    requested: ReservedSpace,
    out: Result<ReplicaRecord, CatalogError>,
)
    requires
        call_ensures(
            ReplicaCatalog::reduce_replica_reservation,
            (catalog, key, target, requested),
            out,
        ),
        old(catalog)@.is_consistent(),
        requested.data() <= old(catalog)@.replicas[place(key)].reserved.data(),
        requested.metadata() <= old(catalog)@.replicas[place(key)].reserved.metadata(),
        requested.data() >= target.size(),
    ensures
        out is Err ==> final(catalog)@ == old(catalog)@,
        out matches Ok(record) ==> {
            let row = old(catalog)@.replicas[place(key)];
            &&& record@ == final(catalog)@.replicas[place(key)]
            &&& record@.reserved.data() >= row.descriptor.capacity_of().size() || record@ == row
            &&& record@.reserved.data() <= row.reserved.data()
            &&& record@.descriptor == row.descriptor
            &&& keeps_other_rows(old(catalog)@, final(catalog)@, place(key))
        },
{
    law_reservation_reduction(old(catalog)@, place(key), target, requested);
}

/// An applied capacity is the target, which is reserved, and it never shrinks.
pub proof fn law_apply_capacity_call(
    catalog: &mut ReplicaCatalog,
    key: ReplicaKey,
    target: VolumeCapacity,
    out: Result<ReplicaRecord, CatalogError>,
)
    requires
        call_ensures(ReplicaCatalog::apply_replica_capacity, (catalog, key, target), out),
    ensures
        out is Err ==> final(catalog)@ == old(catalog)@,
        out matches Ok(record) ==> {
            let row = old(catalog)@.replicas[place(key)];
            &&& record@ == final(catalog)@.replicas[place(key)]
            &&& record@.descriptor.capacity_of() == target
            &&& row.descriptor.capacity_of().size() <= target.size() <= row.reserved.data()
            &&& record@.reserved == row.reserved
            &&& keeps_other_rows(old(catalog)@, final(catalog)@, place(key))
        },
{
    law_capacity_application(old(catalog)@, place(key), target);
}

/// A replacement that begins leaves a healthy row that is being prepared, with the given
/// descriptor and origin.
pub proof fn law_begin_replacement_call(
    catalog: &mut ReplicaCatalog,
    key: ReplicaKey,
    descriptor: VolumeDescriptor,
    origin: LocalReplicaOrigin,
    out: Result<ReplicaRecord, CatalogError>,
)
    requires
        call_ensures(
            ReplicaCatalog::begin_replica_replacement,
            (catalog, key, descriptor, origin),
            out,
        ),
    ensures
        out is Err ==> final(catalog)@ == old(catalog)@,
        out matches Ok(record) ==> {
            &&& record@ == final(catalog)@.replicas[place(key)]
            &&& record@.state == ReplicaState::Preparing
            &&& record@.health == ReplicaHealth::Healthy
            &&& record@.descriptor == descriptor
            &&& record@.origin == origin@
            &&& record@.filesystem_format is None
            &&& !old(catalog)@.attachments.contains_key(place(key))
            &&& keeps_other_rows(old(catalog)@, final(catalog)@, place(key))
        },
{
}

/// A removed replica was being deleted or retired and is gone, its space is given back, and
/// only a retired one leaves a retirement of its generation.
pub proof fn law_removal_calls(
    catalog: &mut ReplicaCatalog,
    key: ReplicaKey,
    out: Result<(), CatalogError>,
)
    requires
        call_ensures(ReplicaCatalog::remove_deleted_replica, (catalog, key), out) || call_ensures(
            ReplicaCatalog::remove_retired_replica,
            (catalog, key),
            out,
        ),
        old(catalog)@.is_consistent(),
        old(catalog)@.replicas.contains_key(place(key)),
    ensures
        out is Err ==> final(catalog)@ == old(catalog)@,
        out is Ok ==> {
            let row = old(catalog)@.replicas[place(key)];
            &&& is_released(old(catalog)@, final(catalog)@, place(key))
            &&& row.filesystem_format is None
            &&& !old(catalog)@.attachments.contains_key(place(key))
            &&& call_ensures(ReplicaCatalog::remove_deleted_replica, (catalog, key), out)
                ==> row.state == ReplicaState::Deleting
            &&& call_ensures(ReplicaCatalog::remove_retired_replica, (catalog, key), out)
                ==> row.state == ReplicaState::Retiring
                && final(catalog)@.retirements.contains_key(place(key).0)
                && final(catalog)@.retirements[place(key).0] == place(key).1
        },
{
    law_deletion(old(catalog)@, place(key));
    law_retirement(old(catalog)@, place(key));
}

/// What a call returns for a replica, an attachment and a retirement is what stands under
/// its volume and generation.
pub proof fn law_lookup_calls(
    catalog: ReplicaCatalog,
    key: ReplicaKey,
    replica: Option<ReplicaRecord>,
    attachment: Option<super::attachment::LocalAttachmentRecord>,
    retirement: Option<super::model::LocalReplicaRetirement>,
)
    requires
        call_ensures(ReplicaCatalog::replica, (&catalog, key), replica),
        call_ensures(ReplicaCatalog::attachment, (&catalog, key), attachment),
        call_ensures(ReplicaCatalog::retirement, (&catalog, key), retirement),
    ensures
        replica is Some <==> catalog@.replicas.contains_key(place(key)),
        replica matches Some(record) ==> record@ == catalog@.replicas[place(key)],
        attachment is Some <==> catalog@.attachments.contains_key(place(key)),
        attachment matches Some(record) ==> record@ == catalog@.attachments[place(key)],
        retirement is Some <==> catalog@.retirements.contains_key(place(key).0)
            && catalog@.retirements[place(key).0] == place(key).1,
        retirement matches Some(found) ==> found.retired() == key,
{
}

/// The pool takes no new data where less than a block is free on disk, no new replicas
/// where less than a block is unreserved, and is ready otherwise; the status shows the free
/// bytes and the two reserved totals.
pub proof fn law_pool_status_call(catalog: ReplicaCatalog, available_bytes: u64, out: PoolStatus)
    requires
        call_ensures(ReplicaCatalog::pool_status, (&catalog, available_bytes), out),
    ensures
        ({
            let pool = catalog@.pool;
            let stored = catalog@.stored;
            &&& out.available_bytes == available_bytes
            &&& out.data_bytes == stored.data_bytes
            &&& out.metadata_bytes == stored.metadata_bytes
            &&& out.state == PoolSpaceState::DeleteOnly <==> available_bytes < pool.block_bytes
            &&& out.state == PoolSpaceState::Ready <==> available_bytes >= pool.block_bytes
                && stored.data_bytes + stored.metadata_bytes + pool.block_bytes
                <= stored.managed_bytes
        }),
{
}

/// The slots are the rows and the retirements together, and a limit is refused exactly
/// where they are more.
pub proof fn law_slot_calls(
    catalog: ReplicaCatalog,
    maximum: usize,
    rows: u64,
    count: Result<u64, CatalogError>,
    checked: Result<(), CatalogError>,
)
    requires
        call_ensures(ReplicaCatalog::replica_count, (&catalog,), rows),
        call_ensures(ReplicaCatalog::replica_slot_count, (&catalog,), count),
        call_ensures(ReplicaCatalog::check_replica_slot_limit, (&catalog, maximum), checked),
    ensures
        ({
            let slots = catalog@.replicas.dom().len() + catalog@.retirements.dom().len();
            &&& rows == catalog@.replicas.dom().len()
            &&& slots <= u64::MAX ==> count == Ok::<u64, CatalogError>(slots as u64)
            &&& slots > u64::MAX ==> count == Err::<u64, CatalogError>(
                CatalogError::ReplicaCountOverflow,
            )
            &&& checked is Ok <==> slots <= u64::MAX && slots <= maximum
        }),
{
}

/// A listing of replicas holds every row once, and it is refused exactly where there are
/// more than asked for.
pub proof fn law_discovery_call(
    catalog: ReplicaCatalog,
    maximum: usize,
    out: Result<Vec<ReplicaRecord>, CatalogError>,
    key: Slot,
)
    requires
        call_ensures(ReplicaCatalog::discover_replicas, (&catalog, maximum), out),
    ensures
        out is Ok <==> catalog@.replicas.dom().len() <= maximum,
        out matches Ok(records) ==> {
            &&& catalog@.replicas.contains_key(key) ==> exists|i: int|
                #![trigger records@[i]]
                0 <= i < records@.len() && records@[i]@ == catalog@.replicas[key]
            &&& forall|i: int|
                #![trigger records@[i]]
                0 <= i < records@.len() ==> catalog@.replicas.contains_key(
                    slot_of(records@[i]@.descriptor),
                ) && catalog@.replicas[slot_of(records@[i]@.descriptor)] == records@[i]@
            &&& forall|i: int, j: int|
                #![trigger records@[i], records@[j]]
                0 <= i < j < records@.len() ==> {
                    let a = records@[i]@.descriptor;
                    let b = records@[j]@.descriptor;
                    a.id().value() < b.id().value() || (a.id().value() == b.id().value()
                        && a.generation_of().value() < b.generation_of().value())
                }
        },
{
    if let Ok(records) = out {
        let views = super::store::record_views(records@);
        assert forall|i: int| #![trigger records@[i]] 0 <= i < records@.len() implies views[i]
            == records@[i]@ by {}
        if catalog@.replicas.contains_key(key) {
            assert(views.contains(catalog@.replicas[key]));
            let i = views.index_of(catalog@.replicas[key]);
            assert(records@[i]@ == catalog@.replicas[key]);
        }
        assert forall|i: int, j: int|
            #![trigger records@[i], records@[j]]
            0 <= i < j < records@.len() implies {
            let a = records@[i]@.descriptor;
            let b = records@[j]@.descriptor;
            a.id().value() < b.id().value() || (a.id().value() == b.id().value()
                && a.generation_of().value() < b.generation_of().value())
        } by {
            assert(views[i] == records@[i]@ && views[j] == records@[j]@);
        }
        assert forall|i: int|
            #![trigger records@[i]]
            0 <= i < records@.len() implies catalog@.replicas.contains_key(
            slot_of(records@[i]@.descriptor),
        ) && catalog@.replicas[slot_of(records@[i]@.descriptor)] == records@[i]@ by {
            assert(views[i] == records@[i]@);
        }
    }
}

/// An opened attachment belongs to the session, and a refused call changes nothing.
pub proof fn law_attach_call(
    catalog: &mut ReplicaCatalog,
    descriptor: VolumeDescriptor,
    session_id: DriverSessionId,
    out: Result<super::attachment::LocalAttachmentRecord, CatalogError>,
)
    requires
        call_ensures(
            ReplicaCatalog::open_or_create_attachment,
            (catalog, descriptor, session_id),
            out,
        ),
        old(catalog)@.is_consistent(),
    ensures
        ({
            let key = (descriptor.id().value(), descriptor.generation_of().value());
            &&& out is Err ==> final(catalog)@ == old(catalog)@
            &&& out matches Ok(record) ==> {
                &&& record@ == final(catalog)@.attachments[key]
                &&& record@.session_id == session_id
                &&& old(catalog)@.replicas.contains_key(key)
                &&& old(catalog)@.attachments.contains_key(key) ==> record@
                    == old(catalog)@.attachments[key]
                &&& keeps_other_attachments(old(catalog)@, final(catalog)@, key)
            }
        }),
{
    law_attaching(old(catalog)@, descriptor, session_id);
}

/// Everything under the key but the named attachment is as it was, and a refused call
/// changes nothing.
pub open spec fn is_attachment_call(
    before: CatalogView,
    after: CatalogView,
    key: ReplicaKey,
    out: Result<(), CatalogError>,
) -> bool {
    &&& out is Err ==> after == before
    &&& out is Ok ==> keeps_other_attachments(before, after, place(key))
}

/// A saved fence is exactly the one that the session was granted, and an advanced one is
/// later than the expected one and holds for the grant, the devices and the mount.
pub proof fn law_fence_calls(
    catalog: &mut ReplicaCatalog,
    key: ReplicaKey,
    session_id: DriverSessionId,
    expected: FenceEpoch,
    fence: FenceEpoch,
    out: Result<(), CatalogError>,
)
    ensures
        ({
            let row = final(catalog)@.attachments[place(key)];
            &&& call_ensures(
                ReplicaCatalog::save_attachment_fence,
                (catalog, key, session_id, fence),
                out,
            ) ==> {
                &&& is_attachment_call(old(catalog)@, final(catalog)@, key, out)
                &&& out is Ok ==> row.granted_fence == Some(fence) && row.session_id == session_id
            }
            &&& call_ensures(
                ReplicaCatalog::advance_attachment_fence,
                (catalog, key, session_id, expected, fence),
                out,
            ) ==> {
                &&& is_attachment_call(old(catalog)@, final(catalog)@, key, out)
                &&& out is Ok ==> fence.value() > expected.value() && stands_at(row, fence)
                    && row.session_id == session_id
            }
        }),
{
    law_fence_advancing(
        old(catalog)@.attachments[place(key)],
        session_id,
        expected,
        fence,
    );
}

/// A saved device is among those of the attachment, a replaced one stands in the place of
/// the other, and a cleared one is gone; a device is never larger than its replica.
pub proof fn law_device_calls(
    catalog: &mut ReplicaCatalog,
    key: ReplicaKey,
    expected: SavedUblkDevice,
    device: SavedUblkDevice,
    out: Result<(), CatalogError>,
)
    requires
        old(catalog)@.attachments[place(key)].ublk_devices.no_duplicates(),
    ensures
        ({
            let devices = final(catalog)@.attachments[place(key)].ublk_devices;
            let replica = old(catalog)@.replicas[place(key)];
            &&& call_ensures(ReplicaCatalog::save_ublk_device, (catalog, key, device), out) ==> {
                &&& is_attachment_call(old(catalog)@, final(catalog)@, key, out)
                &&& out is Ok ==> devices.contains(device) && device.capacity_of().size()
                    <= replica.descriptor.capacity_of().size()
            }
            &&& call_ensures(
                ReplicaCatalog::replace_ublk_device,
                (catalog, key, expected, device),
                out,
            ) ==> {
                &&& is_attachment_call(old(catalog)@, final(catalog)@, key, out)
                &&& out is Ok ==> devices.contains(device) && device.capacity_of().size()
                    <= replica.descriptor.capacity_of().size() && (
                old(catalog)@.attachments[place(key)].ublk_devices.contains(device)
                    || !devices.contains(expected) || expected == device)
            }
            &&& call_ensures(ReplicaCatalog::clear_ublk_device, (catalog, key, expected), out)
                ==> {
                &&& is_attachment_call(old(catalog)@, final(catalog)@, key, out)
                &&& out is Ok ==> !devices.contains(expected)
            }
        }),
{
    let row = old(catalog)@.attachments[place(key)];
    law_device_capacity(old(catalog)@, place(key), device);
    law_device_saving(row, device);
    law_device_replacement(row, expected, device);
    law_device_clearing(row, expected);
}

/// A saved mount is the one that the attachment has, a replaced one is the new one, and
/// after clearing there is none.
pub proof fn law_mount_calls(
    catalog: &mut ReplicaCatalog,
    key: ReplicaKey,
    expected: &SavedVolumeMount,
    mount: SavedVolumeMount,
    out: Result<(), CatalogError>,
)
    ensures
        ({
            let row = old(catalog)@.attachments[place(key)];
            let saved = final(catalog)@.attachments[place(key)].volume_mount;
            &&& call_ensures(ReplicaCatalog::save_volume_mount, (catalog, key, mount), out) ==> {
                &&& is_attachment_call(old(catalog)@, final(catalog)@, key, out)
                &&& out is Ok && row.volume_mount is None ==> saved == Some(mount@) && mount@.state
                    == SavedMountState::Mounting
                &&& out is Ok && row.volume_mount is Some ==> saved == row.volume_mount
            }
            &&& call_ensures(
                ReplicaCatalog::replace_volume_mount,
                (catalog, key, expected, mount),
                out,
            ) ==> {
                &&& is_attachment_call(old(catalog)@, final(catalog)@, key, out)
                &&& out is Ok ==> saved == Some(mount@) && mount@.fence == expected@.fence
                    && mount@.session_id == expected@.session_id
            }
            &&& call_ensures(ReplicaCatalog::clear_volume_mount, (catalog, key, expected), out)
                ==> {
                &&& is_attachment_call(old(catalog)@, final(catalog)@, key, out)
                &&& out is Ok ==> saved is None
            }
        }),
{
    let row = old(catalog)@.attachments[place(key)];
    law_mount_saving(row, mount@);
    law_mount_replacement(row, expected@, mount@);
    super::attachment_laws::law_mounts_only_advance(expected@, mount@);
    law_mount_clearing(row, expected@);
}

/// A grown attachment has exactly the target, which its replica covers, and a removed one
/// is gone.
pub proof fn law_attachment_calls(
    catalog: &mut ReplicaCatalog,
    key: ReplicaKey,
    target: VolumeDescriptor,
    session_id: DriverSessionId,
    out: Result<(), CatalogError>,
)
    ensures
        ({
            let row = old(catalog)@.attachments[place(key)];
            &&& call_ensures(
                ReplicaCatalog::advance_attachment_capacity,
                (catalog, key, target),
                out,
            ) ==> {
                &&& is_attachment_call(old(catalog)@, final(catalog)@, key, out)
                &&& out is Ok ==> final(catalog)@.attachments[place(key)] == (AttachmentView {
                    descriptor: target,
                    ..row
                }) && target.capacity_of().size()
                    <= old(catalog)@.replicas[place(key)].descriptor.capacity_of().size()
            }
            &&& call_ensures(ReplicaCatalog::remove_attachment, (catalog, key, session_id), out)
                ==> {
                &&& is_attachment_call(old(catalog)@, final(catalog)@, key, out)
                &&& out is Ok ==> !final(catalog)@.attachments.contains_key(place(key))
                &&& out is Ok && old(catalog)@.attachments.contains_key(place(key))
                    ==> row.session_id == session_id && row.ublk_devices.len() == 0
                    && row.volume_mount is None
            }
        }),
{
    law_attachment_growth(old(catalog)@, place(key), target);
    law_attachment_removal(old(catalog)@, place(key), session_id);
}

/// A saved format is the one that the replica has, and after clearing there is none.
pub proof fn law_format_calls(
    catalog: &mut ReplicaCatalog,
    key: ReplicaKey,
    format: SavedFilesystemFormat,
    out: Result<(), CatalogError>,
)
    ensures
        ({
            let saved = final(catalog)@.replicas[place(key)].filesystem_format;
            &&& call_ensures(ReplicaCatalog::save_filesystem_format, (catalog, key, format), out)
                ==> {
                &&& out is Err ==> final(catalog)@ == old(catalog)@
                &&& out is Ok ==> saved == Some(format@)
            }
            &&& call_ensures(ReplicaCatalog::clear_filesystem_format, (catalog, key, format), out)
                ==> {
                &&& out is Err ==> final(catalog)@ == old(catalog)@
                &&& out is Ok ==> saved is None
            }
        }),
{
}

/// Every retirement is found once, in the order of the volumes, with its generation.
pub proof fn law_retirement_discovery_call(
    catalog: ReplicaCatalog,
    out: Vec<LocalReplicaRetirement>,
    volume: u128,
)
    requires
        call_ensures(ReplicaCatalog::discover_retirements, (&catalog,), out),
    ensures
        catalog@.retirements.contains_key(volume) <==> exists|i: int|
            #![trigger out@[i]]
            0 <= i < out@.len() && out@[i].retired().volume().value() == volume,
        forall|i: int|
            #![trigger out@[i]]
            0 <= i < out@.len() ==> {
                let key = out@[i].retired();
                catalog@.retirements.contains_key(key.volume().value())
                    && catalog@.retirements[key.volume().value()] == key.generation_of().value()
            },
        forall|i: int, j: int|
            #![trigger out@[i], out@[j]]
            0 <= i < j < out@.len() ==> out@[i].retired().volume().value()
                < out@[j].retired().volume().value(),
{
}

/// Every attachment is found once, in the order of volume and generation, where they are no
/// more than asked for; otherwise their number is told.
pub proof fn law_attachment_discovery_call(
    catalog: ReplicaCatalog,
    maximum: usize,
    out: Result<Vec<LocalAttachmentRecord>, CatalogError>,
    key: Slot,
)
    requires
        call_ensures(ReplicaCatalog::discover_attachments, (&catalog, maximum), out),
    ensures
        out is Ok <==> catalog@.attachments.dom().len() <= maximum,
        out matches Err(error) ==> error == (CatalogError::TooManyAttachments {
            actual: catalog@.attachments.dom().len() as u64,
            maximum,
        }),
        out matches Ok(records) ==> {
            &&& catalog@.attachments.contains_key(key) ==> exists|i: int|
                #![trigger records@[i]]
                0 <= i < records@.len() && records@[i]@ == catalog@.attachments[key]
            &&& forall|i: int|
                #![trigger records@[i]]
                0 <= i < records@.len() ==> catalog@.attachments.contains_key(
                    slot_of(records@[i]@.descriptor),
                ) && catalog@.attachments[slot_of(records@[i]@.descriptor)] == records@[i]@
            &&& forall|i: int, j: int|
                #![trigger records@[i], records@[j]]
                0 <= i < j < records@.len() ==> {
                    let a = records@[i]@.descriptor;
                    let b = records@[j]@.descriptor;
                    a.id().value() < b.id().value() || (a.id().value() == b.id().value()
                        && a.generation_of().value() < b.generation_of().value())
                }
        },
{
    if out is Ok {
        let records = out->Ok_0;
        let views = attachment_record_views(records@);
        assert forall|i: int| #![trigger records@[i]] 0 <= i < records@.len() implies views[i]
            == records@[i]@ by {}
        if catalog@.attachments.contains_key(key) {
            let i = views.index_of(catalog@.attachments[key]);
            assert(records@[i]@ == catalog@.attachments[key]);
        }
        assert forall|i: int|
            #![trigger records@[i]]
            0 <= i < records@.len() implies catalog@.attachments.contains_key(
            slot_of(records@[i]@.descriptor),
        ) && catalog@.attachments[slot_of(records@[i]@.descriptor)] == records@[i]@ by {
            assert(views[i] == records@[i]@);
        }
        assert forall|i: int, j: int|
            #![trigger records@[i], records@[j]]
            0 <= i < j < records@.len() implies {
            let a = records@[i]@.descriptor;
            let b = records@[j]@.descriptor;
            a.id().value() < b.id().value() || (a.id().value() == b.id().value()
                && a.generation_of().value() < b.generation_of().value())
        } by {
            assert(views[i] == records@[i]@ && views[j] == records@[j]@);
        }
    }
}

/// Detaching marks the attachment and its mount, and nothing else of the catalog changes.
pub proof fn law_begin_detach_call(catalog: &mut ReplicaCatalog, key: ReplicaKey, done: ())
    requires
        call_ensures(ReplicaCatalog::begin_attachment_detach, (catalog, key), done),
    ensures
        keeps_other_attachments(old(catalog)@, final(catalog)@, place(key)),
        final(catalog)@.attachments.contains_key(place(key)) == old(catalog)@.attachments.contains_key(place(key)),
        old(catalog)@.attachments.contains_key(place(key)) ==> {
            let row = old(catalog)@.attachments[place(key)];
            let marked = final(catalog)@.attachments[place(key)];
            &&& marked.detaching
            &&& marked.volume_mount is Some <==> row.volume_mount is Some
            &&& marked.volume_mount matches Some(mount) ==> mount.state
                == SavedMountState::Unmounting
            &&& marked.descriptor == row.descriptor && marked.granted_fence == row.granted_fence
        },
{
    law_detaching(old(catalog)@, place(key));
}

/// A generation is forgotten exactly where a later one of its volume is current.
pub proof fn law_forget_call(
    catalog: &mut ReplicaCatalog,
    current: ReplicaKey,
    done: (),
    volume: u128,
)
    requires
        call_ensures(ReplicaCatalog::forget_retirement_before, (catalog, current), done),
    ensures
        final(catalog)@.replicas == old(catalog)@.replicas,
        final(catalog)@.attachments == old(catalog)@.attachments,
        final(catalog)@.retirements.contains_key(volume) <==> old(catalog)@.retirements.contains_key(volume) && !(volume == place(current).0 && old(catalog)@.retirements[volume] < place(current).1),
        final(catalog)@.retirements.contains_key(volume) ==> final(catalog)@.retirements[volume]
            == old(catalog)@.retirements[volume],
{
    law_newer_generation_forgets(old(catalog)@, place(current));
}

/// A replica that is missing is recorded as retired without any row of a replica or of an
/// attachment being touched, and no retirement is taken back.
pub proof fn law_missing_retirement_call(
    catalog: &mut ReplicaCatalog,
    key: ReplicaKey,
    maximum: usize,
    out: Result<(), CatalogError>,
    volume: u128,
)
    requires
        call_ensures(
            ReplicaCatalog::record_missing_replica_retirement,
            (catalog, key, maximum),
            out,
        ),
    ensures
        out is Err ==> final(catalog)@ == old(catalog)@,
        final(catalog)@.replicas == old(catalog)@.replicas,
        final(catalog)@.attachments == old(catalog)@.attachments,
        out is Ok ==> {
            &&& final(catalog)@.retirements.contains_key(place(key).0)
            &&& final(catalog)@.retirements[place(key).0] >= place(key).1
            &&& !old(catalog)@.replicas.contains_key(place(key))
        },
        volume != place(key).0 ==> final(catalog)@.retirements.contains_key(volume) == old(catalog)@.retirements.contains_key(volume),
        old(catalog)@.retirements.contains_key(volume) ==> final(catalog)@.retirements.contains_key(volume) && final(catalog)@.retirements[volume] >= old(catalog)@.retirements[volume],
{
    law_missing_retirement(old(catalog)@, place(key), maximum);
}

} // verus!
