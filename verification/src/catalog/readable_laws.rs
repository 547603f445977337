//! Every row that the catalog holds can be stored and read back, whatever operations made it.

use vstd::prelude::*;

use super::attachment::{
    law_ordered_devices, lemma_ordered_elements, lemma_replaced_elements, lemma_without_elements,
    refenced, replaced, without_device, AttachmentView,
};
use super::encoding::{
    is_usable_attachment, is_usable_origin, lemma_device_round_trip, stored_device,
};
use super::error::CatalogError;
use super::model::{
    mount_error, FormatView, MountView, OriginView, ReplicaHealth, ReplicaState, ReplicaView,
    ReservedSpace, SavedMountState, SavedUblkDevice,
};
use super::records::{
    attachment_of, attachment_row_error, device_error, device_of, devices_of, devices_read_error,
    gathered, is_replica_of, mount_of, replica_row_error, StoredAttachmentView, StoredDeviceView,
    StoredOriginIdView, StoredReplicaView,
};
use super::rules::{all_serve, serves_session, CatalogView, Slot};
use crate::bytes::{law_be_bytes_of_value, lemma_byte_ranges};
use crate::volume::descriptor::{VolumeCapacity, VolumeDescriptor};
use crate::volume::identity::{
    DriverSessionId, FenceEpoch, FilesystemId, OperationId, ReplacementId,
};

verus! {

broadcast use {SavedUblkDevice::lemma_made, SavedUblkDevice::lemma_fenced};

/// A replica row that stored records may hold.
pub open spec fn is_usable_replica(row: ReplicaView) -> bool {
    &&& is_usable_origin(row.origin)
    &&& row.filesystem_format matches Some(format) ==> is_usable_format(format)
}

/// A filesystem format that stored records may hold.
pub open spec fn is_usable_format(format: FormatView) -> bool {
    format.filesystem_id.value() != 0 && format.profile_hash.len() == 32
}

/// A mount that stored records may hold.
pub open spec fn is_usable_mount(mount: MountView) -> bool {
    &&& mount.fence.value() != 0
    &&& mount.session_id.value() != 0
    &&& mount_error(mount.path, mount.mode) is None
}

/// A device that stored records may hold on a host with some page size.
pub open spec fn is_usable_device(device: SavedUblkDevice, reported_page_bytes: i64) -> bool {
    device_error(stored_device(device), reported_page_bytes) is None
}

/// Every row of the catalog can be stored and read back on a host with some page size.
pub open spec fn is_readable(catalog: CatalogView, reported_page_bytes: i64) -> bool {
    &&& forall|key: Slot| #[trigger]
        catalog.replicas.contains_key(key) ==> is_usable_replica(catalog.replicas[key])
    &&& forall|key: Slot| #[trigger]
        catalog.attachments.contains_key(key) ==> is_usable_attachment(
            catalog.attachments[key],
            reported_page_bytes,
        )
}

/// Where an operation succeeds, every row can be stored and read back afterwards.
pub open spec fn stays_readable(
    after: Result<CatalogView, CatalogError>,
    reported_page_bytes: i64,
) -> bool {
    after matches Ok(catalog) ==> is_readable(catalog, reported_page_bytes)
}

/// Where a change of a row succeeds, the row can be stored and read back afterwards.
pub open spec fn stays_usable(
    after: Result<AttachmentView, CatalogError>,
    reported_page_bytes: i64,
) -> bool {
    after matches Ok(row) ==> is_usable_attachment(row, reported_page_bytes)
}

/// Every operation on replicas keeps every row readable, for origins and formats that
/// stored records may hold.
pub proof fn law_replica_operations_keep_rows_readable(
    catalog: CatalogView,
    reported_page_bytes: i64,
    key: Slot,
    descriptor: VolumeDescriptor,
    origin: OriginView,
    format: FormatView,
    target: VolumeCapacity,
    maximum: Option<usize>,
    space: ReservedSpace,
    available_bytes: u64,
    state: ReplicaState,
    health: ReplicaHealth,
)
    requires
        is_readable(catalog, reported_page_bytes),
        is_usable_origin(origin),
        is_usable_format(format),
    ensures
        stays_readable(
            catalog.reserved(descriptor, origin, maximum, space, available_bytes),
            reported_page_bytes,
        ),
        stays_readable(
            catalog.capacity_reserved(key, target, space, available_bytes),
            reported_page_bytes,
        ),
        stays_readable(catalog.reservation_reduced(key, target, space), reported_page_bytes),
        stays_readable(catalog.capacity_applied(key, target), reported_page_bytes),
        stays_readable(catalog.replacement_begun(key, descriptor, origin), reported_page_bytes),
        stays_readable(catalog.state_set(key, state), reported_page_bytes),
        stays_readable(catalog.health_set(key, health), reported_page_bytes),
        stays_readable(catalog.format_saved(key, format), reported_page_bytes),
        stays_readable(catalog.format_cleared(key, format), reported_page_bytes),
        stays_readable(catalog.deleted(key), reported_page_bytes),
        stays_readable(catalog.retired(key), reported_page_bytes),
        maximum matches Some(limit) ==> stays_readable(
            catalog.missing_retired(key, limit),
            reported_page_bytes,
        ),
        is_readable(catalog.forgotten_before(key), reported_page_bytes),
{
    assert(catalog.replicas.contains_key(key) ==> is_usable_replica(catalog.replicas[key]));
}

/// Writing a usable attachment keeps every row readable.
proof fn lemma_written_attachment(
    catalog: CatalogView,
    reported_page_bytes: i64,
    key: Slot,
    changed: Result<AttachmentView, CatalogError>,
)
    requires
        is_readable(catalog, reported_page_bytes),
        catalog.attachments.contains_key(key) ==> stays_usable(changed, reported_page_bytes),
    ensures
        stays_readable(catalog.attachment_updated(key, changed), reported_page_bytes),
{
}

/// Opening, growing, detaching and removing attachments and moving their fences keeps every
/// row readable.
pub proof fn law_attachment_operations_keep_rows_readable(
    catalog: CatalogView,
    reported_page_bytes: i64,
    key: Slot,
    descriptor: VolumeDescriptor,
    session_id: DriverSessionId,
    expected: FenceEpoch,
    next: FenceEpoch,
)
    requires
        is_readable(catalog, reported_page_bytes),
        session_id.value() != 0,
        next.value() != 0,
    ensures
        stays_readable(catalog.attached(descriptor, session_id), reported_page_bytes),
        stays_readable(catalog.attachment_grown(key, descriptor), reported_page_bytes),
        is_readable(catalog.detach_begun(key), reported_page_bytes),
        stays_readable(catalog.attachment_removed(key, session_id), reported_page_bytes),
        stays_readable(
            catalog.attachment_updated(
                key,
                catalog.attachments[key].fence_saved(session_id, next),
            ),
            reported_page_bytes,
        ),
        stays_readable(
            catalog.attachment_updated(
                key,
                catalog.attachments[key].fence_advanced(session_id, expected, next),
            ),
            reported_page_bytes,
        ),
{
    let row = catalog.attachments[key];
    if catalog.attachments.contains_key(key) {
        assert(is_usable_attachment(row, reported_page_bytes));
        assert(is_usable_attachment(row.detached(), reported_page_bytes));
        lemma_fence_advanced(row, reported_page_bytes, session_id, expected, next);
    }
    lemma_written_attachment(
        catalog,
        reported_page_bytes,
        key,
        row.fence_saved(session_id, next),
    );
    lemma_written_attachment(
        catalog,
        reported_page_bytes,
        key,
        row.fence_advanced(session_id, expected, next),
    );
    if let Ok(after) = catalog.attachment_grown(key, descriptor) {
        assert(is_usable_attachment(after.attachments[key], reported_page_bytes));
    }
}

/// Saving, replacing and clearing devices keeps every row readable, for devices that
/// stored records may hold.
pub proof fn law_device_operations_keep_rows_readable(
    catalog: CatalogView,
    reported_page_bytes: i64,
    key: Slot,
    expected: SavedUblkDevice,
    device: SavedUblkDevice,
)
    requires
        is_readable(catalog, reported_page_bytes),
        is_usable_device(device, reported_page_bytes),
    ensures
        stays_readable(catalog.device_saved(key, device), reported_page_bytes),
        stays_readable(catalog.device_replaced(key, expected, device), reported_page_bytes),
        stays_readable(
            catalog.attachment_updated(key, catalog.attachments[key].device_cleared(expected)),
            reported_page_bytes,
        ),
{
    let row = catalog.attachments[key];
    if catalog.attachments.contains_key(key) {
        lemma_device_saved(row, reported_page_bytes, device);
        lemma_device_replaced(row, reported_page_bytes, expected, device);
        lemma_device_cleared(row, reported_page_bytes, expected);
    }
    lemma_written_attachment(catalog, reported_page_bytes, key, row.device_saved(device));
    lemma_written_attachment(
        catalog,
        reported_page_bytes,
        key,
        row.device_replaced(expected, device),
    );
    lemma_written_attachment(catalog, reported_page_bytes, key, row.device_cleared(expected));
}

/// Saving, advancing and clearing mounts keeps every row readable, for mounts that stored
/// records may hold.
pub proof fn law_mount_operations_keep_rows_readable(
    catalog: CatalogView,
    reported_page_bytes: i64,
    key: Slot,
    expected: MountView,
    mount: MountView,
)
    requires
        is_readable(catalog, reported_page_bytes),
        is_usable_mount(mount),
    ensures
        stays_readable(
            catalog.attachment_updated(key, catalog.attachments[key].mount_saved(mount)),
            reported_page_bytes,
        ),
        stays_readable(
            catalog.attachment_updated(
                key,
                catalog.attachments[key].mount_replaced(expected, mount),
            ),
            reported_page_bytes,
        ),
        stays_readable(
            catalog.attachment_updated(key, catalog.attachments[key].mount_cleared(expected)),
            reported_page_bytes,
        ),
{
    let row = catalog.attachments[key];
    lemma_written_attachment(catalog, reported_page_bytes, key, row.mount_saved(mount));
    lemma_written_attachment(
        catalog,
        reported_page_bytes,
        key,
        row.mount_replaced(expected, mount),
    );
    lemma_written_attachment(catalog, reported_page_bytes, key, row.mount_cleared(expected));
}

/// Moving every resource to a later fence keeps the row usable.
proof fn lemma_fence_advanced(
    row: AttachmentView,
    reported_page_bytes: i64,
    session_id: DriverSessionId,
    expected: FenceEpoch,
    next: FenceEpoch,
)
    requires
        is_usable_attachment(row, reported_page_bytes),
        next.value() != 0,
    ensures
        stays_usable(row.fence_advanced(session_id, expected, next), reported_page_bytes),
{
    if row.session_id == session_id && row.granted_fence != Some(next) && row.granted_fence == Some(
        expected,
    ) && row.is_fenced(expected) {
        let devices = row.ublk_devices;
        let moved = refenced(devices, next);
        let after = row.fence_advanced(session_id, expected, next)->Ok_0;
        assert forall|i: int, j: int|
            #![trigger moved[i], moved[j]]
            0 <= i < j < moved.len() implies moved[i].id_of().value() <= moved[j].id_of().value() by {
            assert(devices[i].id_of().value() <= devices[j].id_of().value());
        }
        assert forall|i: int, j: int|
            0 <= i < moved.len() && 0 <= j < moved.len() && i != j implies moved[i]
            != moved[j] by {
            assert(devices[i] != devices[j]);
            assert(devices[i].fence_of() == expected && devices[j].fence_of() == expected);
            SavedUblkDevice::lemma_fenced_back(devices[i], next);
            SavedUblkDevice::lemma_fenced_back(devices[j], next);
        }
        assert forall|i: int|
            #![trigger moved[i]]
            0 <= i < moved.len() implies is_usable_device(moved[i], reported_page_bytes)
            && moved[i].session_of() == row.session_id && moved[i].fence_of() == next by {
            let device = devices[i];
            assert(is_usable_device(device, reported_page_bytes));
            lemma_device_round_trip(device);
            lemma_device_round_trip(moved[i]);
            assert(device_of(stored_device(moved[i])).queues() == device_of(
                stored_device(device),
            ).queues());
        }
        if let Some(mount) = row.volume_mount {
            let i = choose|i: int|
                #![trigger devices[i]]
                0 <= i < devices.len() && devices[i].session_of() == mount.session_id
                    && devices[i].fence_of() == mount.fence;
            assert(moved[i].session_of() == mount.session_id && moved[i].fence_of() == next);
            assert(serves_session(after.ublk_devices, mount.session_id, next));
        }
    }
}

/// Devices that all come from the row, or are a good one of its session and fence, keep
/// the row usable.
proof fn lemma_devices_changed(
    row: AttachmentView,
    reported_page_bytes: i64,
    more: Seq<SavedUblkDevice>,
)
    requires
        is_usable_attachment(row, reported_page_bytes),
        super::attachment::is_device_order(more),
        more.no_duplicates(),
        forall|i: int|
            #![trigger more[i]]
            0 <= i < more.len() ==> row.ublk_devices.contains(more[i]) || (is_usable_device(
                more[i],
                reported_page_bytes,
            ) && row.owns_device(more[i])),
        row.volume_mount matches Some(mount) ==> more.len() > 0,
    ensures
        is_usable_attachment(AttachmentView { ublk_devices: more, ..row }, reported_page_bytes),
{
    let devices = row.ublk_devices;
    assert forall|i: int| #![trigger more[i]] 0 <= i < more.len() implies is_usable_device(
        more[i],
        reported_page_bytes,
    ) && row.owns_device(more[i]) by {
        if devices.contains(more[i]) {
            let k = devices.index_of(more[i]);
            assert(devices[k] == more[i]);
        }
    }
    if more.len() > 0 {
        assert(row.owns_device(more[0]));
        if let Some(mount) = row.volume_mount {
            let k = choose|k: int|
                #![trigger devices[k]]
                0 <= k < devices.len() && devices[k].session_of() == mount.session_id
                    && devices[k].fence_of() == mount.fence;
            assert(devices[k].session_of() == row.session_id);
            assert(serves_session(more, mount.session_id, mount.fence));
        }
    }
}

/// Saving a device keeps the row usable.
proof fn lemma_device_saved(
    row: AttachmentView,
    reported_page_bytes: i64,
    device: SavedUblkDevice,
)
    requires
        is_usable_attachment(row, reported_page_bytes),
        is_usable_device(device, reported_page_bytes),
    ensures
        stays_usable(row.device_saved(device), reported_page_bytes),
{
    let devices = row.ublk_devices;
    let pushed = devices.push(device);
    if let Ok(after) = row.device_saved(device) {
        if !devices.contains(device) {
            let more = after.ublk_devices;
            assert forall|i: int, j: int|
                0 <= i < pushed.len() && 0 <= j < pushed.len() && i != j implies pushed[i]
                != pushed[j] by {
                if i < devices.len() {
                    assert(devices.contains(devices[i]));
                }
                if j < devices.len() {
                    assert(devices.contains(devices[j]));
                }
            }
            law_ordered_devices(pushed);
            lemma_ordered_elements(pushed);
            assert forall|i: int| #![trigger more[i]] 0 <= i < more.len() implies devices.contains(
                more[i],
            ) || more[i] == device by {
                assert(more.contains(more[i]));
                let k = pushed.index_of(more[i]);
                if k < devices.len() {
                    assert(devices[k] == more[i]);
                }
            }
            lemma_devices_changed(row, reported_page_bytes, more);
        }
    }
}

/// Replacing a device keeps the row usable.
proof fn lemma_device_replaced(
    row: AttachmentView,
    reported_page_bytes: i64,
    expected: SavedUblkDevice,
    device: SavedUblkDevice,
)
    requires
        is_usable_attachment(row, reported_page_bytes),
        is_usable_device(device, reported_page_bytes),
    ensures
        stays_usable(row.device_replaced(expected, device), reported_page_bytes),
{
    let devices = row.ublk_devices;
    let swapped = replaced(devices, expected, device);
    if let Ok(after) = row.device_replaced(expected, device) {
        if !devices.contains(device) {
            let more = after.ublk_devices;
            lemma_replaced_elements(devices, expected, device);
            law_ordered_devices(swapped);
            lemma_ordered_elements(swapped);
            assert forall|i: int| #![trigger more[i]] 0 <= i < more.len() implies devices.contains(
                more[i],
            ) || more[i] == device by {
                assert(more.contains(more[i]));
                let k = swapped.index_of(more[i]);
                assert(swapped[k] == more[i]);
                assert(devices.contains(devices[k]));
            }
            lemma_devices_changed(row, reported_page_bytes, more);
        }
    }
}

/// Clearing a device keeps the row usable.
proof fn lemma_device_cleared(
    row: AttachmentView,
    reported_page_bytes: i64,
    expected: SavedUblkDevice,
)
    requires
        is_usable_attachment(row, reported_page_bytes),
    ensures
        stays_usable(row.device_cleared(expected), reported_page_bytes),
{
    let devices = row.ublk_devices;
    if let Ok(after) = row.device_cleared(expected) {
        if devices.contains(expected) {
            let more = without_device(devices, expected);
            lemma_without_elements(devices, expected);
            assert forall|i: int| #![trigger more[i]] 0 <= i < more.len() implies devices.contains(
                more[i],
            ) by {
                assert(more.contains(more[i]));
            }
            if row.volume_mount is Some {
                let k = devices.index_of(expected);
                let other: int = if k == 0 { 1 } else { 0 };
                assert(devices[other] != devices[k]);
                assert(devices.contains(devices[other]));
                assert(more.contains(devices[other]));
            }
            lemma_devices_changed(row, reported_page_bytes, more);
        }
    }
}

/// Gathering keeps the devices, puts them in order and keeps each of them once.
proof fn lemma_gathered(devices: Seq<SavedUblkDevice>)
    ensures
        super::attachment::is_device_order(gathered(devices)),
        gathered(devices).no_duplicates(),
        forall|device: SavedUblkDevice| #[trigger]
            gathered(devices).contains(device) <==> devices.contains(device),
    decreases devices.len(),
{
    if devices.len() > 0 {
        let shorter = devices.drop_last();
        let rest = gathered(shorter);
        let last = devices.last();
        let pushed = rest.push(last);
        lemma_gathered(shorter);
        assert forall|device: SavedUblkDevice| #[trigger]
            devices.contains(device) <==> shorter.contains(device) || device == last by {
            if devices.contains(device) {
                let k = devices.index_of(device);
                if k < shorter.len() {
                    assert(shorter[k] == device);
                }
            }
            if shorter.contains(device) {
                assert(devices[shorter.index_of(device)] == device);
            }
            assert(devices[devices.len() - 1] == last);
        }
        if !rest.contains(last) {
            assert forall|i: int, j: int|
                0 <= i < pushed.len() && 0 <= j < pushed.len() && i != j implies pushed[i]
                != pushed[j] by {
                if i < rest.len() {
                    assert(rest.contains(rest[i]));
                }
                if j < rest.len() {
                    assert(rest.contains(rest[j]));
                }
            }
            law_ordered_devices(pushed);
            lemma_ordered_elements(pushed);
            assert forall|device: SavedUblkDevice| #[trigger]
                gathered(devices).contains(device) <==> devices.contains(device) by {
                assert(pushed.contains(device) <==> rest.contains(device) || device == last) by {
                    if pushed.contains(device) {
                        let k = pushed.index_of(device);
                        if k < rest.len() {
                            assert(rest[k] == device);
                        }
                    }
                    if rest.contains(device) {
                        assert(pushed[rest.index_of(device)] == device);
                    }
                    assert(pushed[rest.len() as int] == last);
                }
            }
        }
    } else {
        assert(gathered(devices) =~= devices);
    }
}

/// Among devices that are all read, each is good.
proof fn lemma_device_read(devices: Seq<StoredDeviceView>, reported_page_bytes: i64, i: int)
    requires
        devices_read_error(devices, reported_page_bytes) is None,
        0 <= i < devices.len(),
    ensures
        device_error(devices[i], reported_page_bytes) is None,
    decreases devices.len(),
{
    if i < devices.len() - 1 {
        lemma_device_read(devices.drop_last(), reported_page_bytes, i);
        assert(devices.drop_last()[i] == devices[i]);
    }
}

/// Sixteen bytes are those of the number that they stand for.
proof fn lemma_uuid_again(bytes: Seq<u8>)
    requires
        bytes.len() == 16,
    ensures
        crate::bytes::be_bytes(be_value_of(bytes) as nat, 16) == bytes,
        be_value_of(bytes) == crate::bytes::be_value(bytes),
{
    lemma_byte_ranges();
    law_be_bytes_of_value(bytes);
}

/// Number that sixteen bytes stand for.
spec fn be_value_of(bytes: Seq<u8>) -> u128 {
    crate::bytes::be_value(bytes) as u128
}

/// A stored row that is accepted gives a replica that can be stored and read back.
pub proof fn law_read_replica_is_usable(record: ReplicaView, row: StoredReplicaView)
    requires
        replica_row_error(row) is None,
        is_replica_of(record, row),
    ensures
        is_usable_replica(record),
{
    match row.origin.id {
        Ok(StoredOriginIdView::Bootstrap(id)) => {
            lemma_uuid_again(id);
            OperationId::lemma_made(be_value_of(id), OperationId::made(be_value_of(id)));
        },
        Ok(StoredOriginIdView::Replacement(id)) => {
            lemma_uuid_again(id);
            ReplacementId::lemma_made(be_value_of(id), ReplacementId::made(be_value_of(id)));
        },
        Err(_) => {},
    }
    if let Some(format) = row.filesystem_format {
        lemma_uuid_again(format.filesystem_id);
        FilesystemId::lemma_made(
            be_value_of(format.filesystem_id),
            FilesystemId::made(be_value_of(format.filesystem_id)),
        );
    }
}

/// A stored row that is accepted gives an attachment that can be stored and read back.
pub proof fn law_read_attachment_is_usable(row: StoredAttachmentView, reported_page_bytes: i64)
    requires
        attachment_row_error(row, reported_page_bytes) is None,
    ensures
        is_usable_attachment(attachment_of(row), reported_page_bytes),
{
    let record = attachment_of(row);
    let read = devices_of(row.ublk_devices);
    let devices = record.ublk_devices;
    let session = be_value_of(row.session_id);
    lemma_uuid_again(row.session_id);
    DriverSessionId::lemma_made(session, record.session_id);
    FenceEpoch::lemma_made(row.granted_fence, FenceEpoch::made(row.granted_fence));
    lemma_gathered(read);
    assert forall|i: int| #![trigger devices[i]] 0 <= i < devices.len() implies is_usable_device(
        devices[i],
        reported_page_bytes,
    ) && read.contains(devices[i]) by {
        assert(devices.contains(devices[i]));
        let k = read.index_of(devices[i]);
        let stored = row.ublk_devices[k];
        assert(read[k] == device_of(stored));
        lemma_device_read(row.ublk_devices, reported_page_bytes, k);
        lemma_uuid_again(stored.session_id);
        DriverSessionId::lemma_made(be_value_of(stored.session_id), devices[i].session_of());
        FenceEpoch::lemma_made(stored.fence, devices[i].fence_of());
        crate::driver::ublk_types::UblkDeviceId::lemma_made(stored.device_id, devices[i].id_of());
        assert(stored_device(devices[i]) == stored);
    }
    if devices.len() > 0 {
        assert(read.contains(devices[0]));
        let k = read.index_of(devices[0]);
        assert(read.len() > 0);
        assert(all_serve(devices, record.session_id, FenceEpoch::made(row.granted_fence))) by {
            assert forall|i: int| #![trigger devices[i]] 0 <= i < devices.len() implies devices[i].session_of()
                == record.session_id && devices[i].fence_of() == FenceEpoch::made(row.granted_fence) by {
                assert(read.contains(devices[i]));
                let n = read.index_of(devices[i]);
                assert(read[n] == devices[i]);
            }
        }
    }
    if let Some(stored) = row.volume_mount {
        let mount = mount_of(stored);
        lemma_uuid_again(stored.session_id);
        DriverSessionId::lemma_made(be_value_of(stored.session_id), mount.session_id);
        FenceEpoch::lemma_made(stored.fence, mount.fence);
        let k = choose|k: int|
            #![trigger read[k]]
            0 <= k < read.len() && read[k].session_of() == mount.session_id && read[k].fence_of()
                == mount.fence;
        assert(read.contains(read[k]));
        assert(devices.contains(read[k]));
        let n = devices.index_of(read[k]);
        assert(devices[n].session_of() == mount.session_id && devices[n].fence_of() == mount.fence);
        assert(mount.state == SavedMountState::Unmounting ==> record.detaching);
    }
}

} // verus!
