//! What each operation on attachments brings about, and when it is owed.

use vstd::prelude::*;

use super::attachment::{
    is_device_order, law_ordered_devices, lemma_ordered_elements, lemma_replaced_elements, refenced,
    replaced, without_device, AttachmentView,
};
use super::error::CatalogError;
use super::model::{
    mount_advances, mount_error, same_mount, InvalidSavedVolumeMount, MountView, SavedMountState,
    SavedUblkDevice,
};
use super::mounts::components;
use super::rules::{slot_of, CatalogView, Slot};
use crate::volume::descriptor::VolumeDescriptor;
use crate::volume::identity::{DriverSessionId, FenceEpoch};

verus! {

broadcast use {SavedUblkDevice::lemma_made, SavedUblkDevice::lemma_fenced};

/// Every attachment but one is as it was, and so is everything else in the catalog.
pub open spec fn keeps_other_attachments(
    before: CatalogView,
    after: CatalogView,
    key: Slot,
) -> bool {
    &&& forall|other: Slot| #[trigger]
        after.attachments.contains_key(other) && other != key ==> before.attachments.contains_key(
            other,
        ) && after.attachments[other] == before.attachments[other]
    &&& forall|other: Slot| #[trigger]
        before.attachments.contains_key(other) && other != key ==> after.attachments.contains_key(
            other,
        )
    &&& after.replicas == before.replicas
    &&& after.retirements == before.retirements
    &&& after.pool == before.pool
    &&& after.stored == before.stored
}

/// Attaching saves the session for a replica of the same storage that is large enough. A new
/// attachment has no fence, no device and no mount and is not being detached; one that the
/// same session has already stays as it is, and no other session gets it.
pub proof fn law_attaching(
    before: CatalogView,
    descriptor: VolumeDescriptor,
    session_id: DriverSessionId,
)
    requires
        before.is_consistent(),
    ensures
        ({
            let key = slot_of(descriptor);
            let out = before.attached(descriptor, session_id);
            let replica = before.replicas[key].descriptor;
            &&& out is Ok ==> {
                let after = out->Ok_0;
                &&& after.attachments.contains_key(key)
                &&& after.attachments[key].session_id == session_id
                &&& keeps_other_attachments(before, after, key)
                &&& before.attachments.contains_key(key) ==> after.attachments[key]
                    == before.attachments[key]
                &&& !before.attachments.contains_key(key) ==> {
                    &&& after.attachments[key].descriptor == descriptor
                    &&& after.attachments[key].granted_fence is None
                    &&& after.attachments[key].ublk_devices.len() == 0
                    &&& after.attachments[key].volume_mount is None
                    &&& !after.attachments[key].detaching
                }
            }
            &&& out is Ok <==> {
                &&& before.replicas.contains_key(key)
                &&& replica.id() == descriptor.id()
                &&& replica.generation_of() == descriptor.generation_of()
                &&& replica.sizes() == descriptor.sizes()
                &&& descriptor.capacity_of().size() <= replica.capacity_of().size()
                &&& before.attachments.contains_key(key) ==> before.attachments[key].session_id
                    == session_id
            }
        }),
{
}

/// Beginning to detach marks the attachment and turns a saved mount into one that is being
/// undone; it keeps everything else, and it does nothing where there is no attachment.
pub proof fn law_detaching(before: CatalogView, key: Slot)
    ensures
        ({
            let after = before.detach_begun(key);
            let row = before.attachments[key];
            let marked = after.attachments[key];
            &&& keeps_other_attachments(before, after, key)
            &&& after.attachments.contains_key(key) == before.attachments.contains_key(key)
            &&& before.attachments.contains_key(key) ==> {
                &&& marked.detaching
                &&& marked.volume_mount is Some <==> row.volume_mount is Some
                &&& marked.volume_mount matches Some(mount) ==> mount.state
                    == SavedMountState::Unmounting && mount == (MountView {
                    state: mount.state,
                    ..row.volume_mount->0
                })
                &&& marked == (AttachmentView {
                    detaching: marked.detaching,
                    volume_mount: marked.volume_mount,
                    ..row
                })
            }
        }),
{
}

/// A row operation that succeeds writes exactly the changed row, and one that fails, or that
/// finds no attachment, writes nothing.
pub proof fn law_attachment_rows_are_written_alone(
    before: CatalogView,
    key: Slot,
    changed: Result<AttachmentView, CatalogError>,
)
    ensures
        ({
            let out = before.attachment_updated(key, changed);
            &&& out is Ok <==> before.attachments.contains_key(key) && changed is Ok
            &&& out is Ok ==> out->Ok_0.attachments.contains_key(key)
                && out->Ok_0.attachments[key] == changed->Ok_0 && keeps_other_attachments(
                before,
                out->Ok_0,
                key,
            )
            &&& !before.attachments.contains_key(key) ==> out == Err::<CatalogView, CatalogError>(
                CatalogError::AttachmentNotFound,
            )
            &&& before.attachments.contains_key(key) && changed is Err ==> out == Err::<
                CatalogView,
                CatalogError,
            >(changed->Err_0)
        }),
{
}

/// Saving a fence gives the session exactly that fence and changes nothing else; it is owed
/// to the session that has none or has this one.
pub proof fn law_fence_saving(
    row: AttachmentView,
    session_id: DriverSessionId,
    fence: FenceEpoch,
)
    ensures
        ({
            let out = row.fence_saved(session_id, fence);
            &&& out is Ok <==> row.session_id == session_id && (row.granted_fence is None
                || row.granted_fence == Some(fence))
            &&& out is Ok ==> out->Ok_0.granted_fence == Some(fence) && out->Ok_0 == (
            AttachmentView { granted_fence: out->Ok_0.granted_fence, ..row })
            &&& out is Err ==> match out->Err_0 {
                CatalogError::AttachmentChanged => row.session_id != session_id,
                CatalogError::AttachmentFenceChanged => row.granted_fence is Some
                    && row.granted_fence->0 != fence,
                _ => false,
            }
        }),
{
}

/// Everything that the session holds stands at the fence.
pub open spec fn stands_at(row: AttachmentView, fence: FenceEpoch) -> bool {
    &&& row.granted_fence == Some(fence)
    &&& forall|i: int|
        #![trigger row.ublk_devices[i]]
        0 <= i < row.ublk_devices.len() ==> row.ublk_devices[i].session_of() == row.session_id
            && row.ublk_devices[i].fence_of() == fence
    &&& row.volume_mount is Some ==> row.volume_mount->0.session_id == row.session_id
        && row.volume_mount->0.fence == fence
}

/// Advancing a fence is owed to the session whose grant, devices and mount all stand at the
/// expected fence, or at the next one already. Afterwards they all stand at the next fence,
/// and each device and the mount are otherwise as they were.
pub proof fn law_fence_advancing(
    row: AttachmentView,
    session_id: DriverSessionId,
    expected: FenceEpoch,
    next: FenceEpoch,
)
    ensures
        ({
            let out = row.fence_advanced(session_id, expected, next);
            &&& out is Ok <==> row.session_id == session_id && (stands_at(row, next) || (stands_at(
                row,
                expected,
            ) && row.granted_fence != Some(next)))
            &&& out is Ok ==> {
                let after = out->Ok_0;
                &&& stands_at(after, next)
                &&& after.session_id == row.session_id
                &&& after.descriptor == row.descriptor
                &&& after.detaching == row.detaching
                &&& after.ublk_devices.len() == row.ublk_devices.len()
                &&& forall|i: int|
                    #![trigger after.ublk_devices[i]]
                    0 <= i < row.ublk_devices.len() ==> {
                        &&& after.ublk_devices[i].id_of() == row.ublk_devices[i].id_of()
                        &&& after.ublk_devices[i].capacity_of()
                            == row.ublk_devices[i].capacity_of()
                        &&& after.ublk_devices[i].queue_count_of()
                            == row.ublk_devices[i].queue_count_of()
                        &&& after.ublk_devices[i].queue_depth_of()
                            == row.ublk_devices[i].queue_depth_of()
                        &&& after.ublk_devices[i].max_request_of()
                            == row.ublk_devices[i].max_request_of()
                    }
                &&& after.volume_mount is Some <==> row.volume_mount is Some
                &&& after.volume_mount matches Some(mount) ==> mount == (MountView {
                    fence: next,
                    ..row.volume_mount->0
                })
            }
        }),
{
    let out = row.fence_advanced(session_id, expected, next);
    if out is Ok {
        let after = out->Ok_0;
        if row.granted_fence != Some(next) {
            let devices = refenced(row.ublk_devices, next);
            assert forall|i: int| #![trigger devices[i]] 0 <= i < devices.len() implies devices[i]
                == row.ublk_devices[i].fenced(next) && row.ublk_devices[i].session_of()
                == row.session_id by {}
        }
    }
}

/// Growing an attachment gives it exactly the target descriptor and changes nothing else. It
/// is owed from the present capacity up to that of the replica, for the same storage, where
/// a device of the larger capacity is saved.
pub proof fn law_attachment_growth(before: CatalogView, key: Slot, target: VolumeDescriptor)
    ensures
        ({
            let out = before.attachment_grown(key, target);
            let row = before.attachments[key];
            let replica = before.replicas[key].descriptor;
            &&& out is Ok ==> {
                let after = out->Ok_0;
                &&& after.attachments.contains_key(key)
                &&& after.attachments[key] == (AttachmentView { descriptor: target, ..row })
                &&& keeps_other_attachments(before, after, key)
            }
            &&& out is Ok <==> {
                &&& before.replicas.contains_key(key)
                &&& before.attachments.contains_key(key)
                &&& row.descriptor.id() == target.id() && replica.id() == target.id()
                &&& row.descriptor.generation_of() == target.generation_of()
                &&& replica.generation_of() == target.generation_of()
                &&& row.descriptor.sizes() == target.sizes() && replica.sizes() == target.sizes()
                &&& row.descriptor.capacity_of().size() <= target.capacity_of().size()
                &&& target.capacity_of().size() <= replica.capacity_of().size()
                &&& target.capacity_of().size() > row.descriptor.capacity_of().size() ==> exists|
                    i: int,
                |
                    #![trigger row.ublk_devices[i]]
                    0 <= i < row.ublk_devices.len() && row.ublk_devices[i].capacity_of()
                        == target.capacity_of()
            }
        }),
{
}

/// A replica carries a device exactly where its capacity is a positive number of blocks and
/// not more than the replica has.
pub proof fn law_device_capacity(before: CatalogView, key: Slot, device: SavedUblkDevice)
    ensures
        before.device_error(key, device) is None <==> before.replicas.contains_key(key)
            && device.capacity_of().size() > 0 && device.capacity_of().size() % 4096 == 0
            && device.capacity_of().size()
            <= before.replicas[key].descriptor.capacity_of().size(),
{
}

/// Another saved device has the kernel number or the capacity of this one.
pub open spec fn meets_rival(
    devices: Seq<SavedUblkDevice>,
    except: Option<SavedUblkDevice>,
    device: SavedUblkDevice,
) -> bool {
    exists|i: int|
        #![trigger devices[i]]
        0 <= i < devices.len() && Some(devices[i]) != except && (devices[i].id_of()
            == device.id_of() || devices[i].capacity_of() == device.capacity_of())
}

/// Saving a device adds exactly it and keeps the others, ordered by kernel number. It is
/// owed to the session at its fence where the device is saved already, or where fewer than
/// two are saved and none of them has its number or its capacity.
pub proof fn law_device_saving(row: AttachmentView, device: SavedUblkDevice)
    ensures
        ({
            let out = row.device_saved(device);
            let owned = device.session_of() == row.session_id && row.granted_fence == Some(
                device.fence_of(),
            );
            &&& out is Ok <==> owned && (row.ublk_devices.contains(device) || (
            row.ublk_devices.len() < 2 && !meets_rival(row.ublk_devices, None, device)))
            &&& out is Ok ==> {
                let after = out->Ok_0;
                &&& forall|other: SavedUblkDevice| #[trigger]
                    after.ublk_devices.contains(other) <==> other == device
                        || row.ublk_devices.contains(other)
                &&& after == (AttachmentView { ublk_devices: after.ublk_devices, ..row })
                &&& row.ublk_devices.contains(device) ==> after == row
                &&& !row.ublk_devices.contains(device) ==> after.ublk_devices.len()
                    == row.ublk_devices.len() + 1 && is_device_order(after.ublk_devices)
            }
            &&& out is Err ==> match out->Err_0 {
                CatalogError::AttachmentFenceChanged => !owned,
                CatalogError::UblkDeviceChanged => owned && !row.ublk_devices.contains(device),
                _ => false,
            }
        }),
{
    let pushed = row.ublk_devices.push(device);
    law_ordered_devices(pushed);
    lemma_ordered_elements(pushed);
    lemma_pushed_elements(row.ublk_devices, device);
}

/// A list with a device replaced holds the new one and the others.
proof fn lemma_moved_elements(
    devices: Seq<SavedUblkDevice>,
    expected: SavedUblkDevice,
    device: SavedUblkDevice,
)
    requires
        devices.no_duplicates(),
        devices.contains(expected),
    ensures
        forall|other: SavedUblkDevice| #[trigger]
            replaced(devices, expected, device).contains(other) <==> other == device || (other
                != expected && devices.contains(other)),
    decreases devices.len(),
{
    let rest = devices.drop_last();
    let after = replaced(devices, expected, device);
    let before = if rest.contains(expected) {
        lemma_moved_elements(rest, expected, device);
        replaced(rest, expected, device)
    } else {
        rest
    };
    assert(devices =~= rest.push(devices.last()));
    assert(after =~= before.push(after.last()));
    lemma_pushed_elements(rest, devices.last());
    lemma_pushed_elements(before, after.last());
    if rest.contains(expected) {
        let i = rest.index_of(expected);
        assert(devices[i] == expected && devices[devices.len() - 1] == devices.last());
    }
}

/// A list with a device at its end holds it and the others.
proof fn lemma_pushed_elements(devices: Seq<SavedUblkDevice>, device: SavedUblkDevice)
    ensures
        forall|other: SavedUblkDevice| #[trigger]
            devices.push(device).contains(other) <==> other == device || devices.contains(other),
{
    let pushed = devices.push(device);
    assert forall|other: SavedUblkDevice| #[trigger] pushed.contains(other) <==> other == device
        || devices.contains(other) by {
        if devices.contains(other) {
            let i = devices.index_of(other);
            assert(pushed[i] == other);
        }
        if other == device {
            assert(pushed[devices.len() as int] == device);
        }
        if pushed.contains(other) && other != device {
            let i = pushed.index_of(other);
            assert(devices[i] == other);
        }
    }
}

/// A list without a device holds the others.
proof fn lemma_left_elements(devices: Seq<SavedUblkDevice>, expected: SavedUblkDevice)
    ensures
        forall|other: SavedUblkDevice| #[trigger]
            without_device(devices, expected).contains(other) <==> other != expected
                && devices.contains(other),
        devices.len() == 0 ==> without_device(devices, expected) == devices,
    decreases devices.len(),
{
    reveal(Seq::filter);
    if devices.len() > 0 {
        let rest = devices.drop_last();
        lemma_left_elements(rest, expected);
        lemma_pushed_elements(rest, devices.last());
        assert(devices =~= rest.push(devices.last()));
        if devices.last() != expected {
            lemma_pushed_elements(without_device(rest, expected), devices.last());
            assert(without_device(devices, expected) == without_device(rest, expected).push(
                devices.last(),
            ));
        } else {
            assert(without_device(devices, expected) == without_device(rest, expected));
        }
    }
}

/// Replacing a device puts the new one in the place of the expected one and keeps the
/// others. It is owed to the session at its fence where the expected one is saved, no other
/// device has the new number or capacity, and a saved mount has the same session and fence;
/// a device that is saved already is owed again.
pub proof fn law_device_replacement(
    row: AttachmentView,
    expected: SavedUblkDevice,
    device: SavedUblkDevice,
)
    requires
        row.ublk_devices.no_duplicates(),
    ensures
        ({
            let out = row.device_replaced(expected, device);
            let owned = device.session_of() == row.session_id && row.granted_fence == Some(
                device.fence_of(),
            );
            &&& out is Ok <==> owned && (row.ublk_devices.contains(device) || (
            row.ublk_devices.contains(expected) && !meets_rival(
                row.ublk_devices,
                Some(expected),
                device,
            ) && (row.volume_mount is Some ==> row.volume_mount->0.fence == device.fence_of()
                && row.volume_mount->0.session_id == device.session_of())))
            &&& out is Ok ==> {
                let after = out->Ok_0;
                &&& after == (AttachmentView { ublk_devices: after.ublk_devices, ..row })
                &&& after.ublk_devices.len() == row.ublk_devices.len()
                &&& after.ublk_devices.contains(device)
                &&& row.ublk_devices.contains(device) ==> after == row
                &&& !row.ublk_devices.contains(device) ==> is_device_order(after.ublk_devices)
                    && forall|other: SavedUblkDevice| #[trigger]
                    after.ublk_devices.contains(other) <==> other == device || (other != expected
                        && row.ublk_devices.contains(other))
            }
        }),
{
    let moved = replaced(row.ublk_devices, expected, device);
    if row.ublk_devices.contains(expected) && !row.ublk_devices.contains(device) {
        lemma_replaced_elements(row.ublk_devices, expected, device);
        lemma_moved_elements(row.ublk_devices, expected, device);
        law_ordered_devices(moved);
        lemma_ordered_elements(moved);
    }
}

/// Clearing a device removes exactly it and keeps the others in order. It is owed where the
/// device is saved, unless a mount still needs it because it is the last one or has the
/// capacity of the attachment; where no device is saved it is owed and changes nothing.
pub proof fn law_device_clearing(row: AttachmentView, expected: SavedUblkDevice)
    ensures
        ({
            let out = row.device_cleared(expected);
            &&& out is Ok <==> if row.ublk_devices.contains(expected) {
                row.volume_mount is None || (row.ublk_devices.len() != 1 && expected.capacity_of()
                    != row.descriptor.capacity_of())
            } else {
                row.ublk_devices.len() == 0
            }
            &&& out is Ok ==> {
                let after = out->Ok_0;
                &&& after == (AttachmentView { ublk_devices: after.ublk_devices, ..row })
                &&& forall|other: SavedUblkDevice| #[trigger]
                    after.ublk_devices.contains(other) <==> other != expected
                        && row.ublk_devices.contains(other)
                &&& row.ublk_devices.len() == 0 ==> after == row
            }
        }),
{
    lemma_left_elements(row.ublk_devices, expected);
}

/// Two mounts are the same exactly where their paths have the same components and every
/// other part is equal.
pub proof fn law_mounts_are_compared_part_by_part(a: MountView, b: MountView)
    ensures
        same_mount(a, b) <==> {
            &&& components(a.path) == components(b.path)
            &&& a.state == b.state
            &&& a.fence == b.fence
            &&& a.session_id == b.session_id
            &&& a.owner_uid == b.owner_uid
            &&& a.owner_gid == b.owner_gid
            &&& a.mode == b.mode
            &&& a.filesystem_expanded_to_bytes == b.filesystem_expanded_to_bytes
            &&& a.filesystem == b.filesystem
        },
{
    if a.state == b.state && a.fence == b.fence && a.session_id == b.session_id && a.owner_uid
        == b.owner_uid && a.owner_gid == b.owner_gid && a.mode == b.mode
        && a.filesystem_expanded_to_bytes == b.filesystem_expanded_to_bytes && a.filesystem
        == b.filesystem {
        assert(a =~= (MountView { path: a.path, ..b }));
    }
}

/// The one state is not before the other: mounting comes first, mounted next, unmounting
/// last.
pub open spec fn is_no_earlier(state: SavedMountState, saved: SavedMountState) -> bool {
    match saved {
        SavedMountState::Mounting => true,
        SavedMountState::Mounted => state != SavedMountState::Mounting,
        SavedMountState::Unmounting => state == SavedMountState::Unmounting,
    }
}

/// A mount advances only in its state and its capacity, and neither goes back.
pub proof fn law_mounts_only_advance(saved: MountView, next: MountView)
    ensures
        mount_advances(saved, next) <==> {
            &&& is_no_earlier(next.state, saved.state)
            &&& saved.filesystem_expanded_to_bytes <= next.filesystem_expanded_to_bytes
            &&& components(next.path) == components(saved.path)
            &&& next.fence == saved.fence
            &&& next.session_id == saved.session_id
            &&& next.owner_uid == saved.owner_uid
            &&& next.owner_gid == saved.owner_gid
            &&& next.mode == saved.mode
            &&& next.filesystem == saved.filesystem
        },
{
    let wanted = MountView {
        state: next.state,
        filesystem_expanded_to_bytes: next.filesystem_expanded_to_bytes,
        ..saved
    };
    law_mounts_are_compared_part_by_part(next, wanted);
}

/// One of the devices belongs to the session and the fence of the mount.
pub open spec fn is_served(row: AttachmentView, mount: MountView) -> bool {
    exists|i: int|
        #![trigger row.ublk_devices[i]]
        0 <= i < row.ublk_devices.len() && row.ublk_devices[i].session_of() == mount.session_id
            && row.ublk_devices[i].fence_of() == mount.fence
}

/// Saving a mount is owed for the first step of a mount that a device serves and whose
/// filesystem fits the attachment, where none is saved, or again for the saved one. It saves
/// exactly that mount and changes nothing else.
pub proof fn law_mount_saving(row: AttachmentView, mount: MountView)
    ensures
        ({
            let out = row.mount_saved(mount);
            let again = row.volume_mount is Some && same_mount(row.volume_mount->0, mount);
            &&& out is Ok <==> mount.filesystem_expanded_to_bytes
                <= row.descriptor.capacity_of().size() && is_served(row, mount) && (again || (
            row.volume_mount is None && mount.state == SavedMountState::Mounting))
            &&& out is Ok ==> if again {
                out->Ok_0 == row
            } else {
                out->Ok_0.volume_mount == Some(mount) && out->Ok_0 == (AttachmentView {
                    volume_mount: out->Ok_0.volume_mount,
                    ..row
                })
            }
            &&& out is Err ==> match out->Err_0 {
                CatalogError::FilesystemCapacityExceedsDevice => mount.filesystem_expanded_to_bytes
                    > row.descriptor.capacity_of().size(),
                CatalogError::VolumeMountDeviceMismatch => !is_served(row, mount),
                CatalogError::VolumeMountChanged => row.volume_mount is Some || mount.state
                    != SavedMountState::Mounting,
                _ => false,
            }
        }),
{
}

/// Replacing a mount is owed where the expected one is saved, the new one advances it, its
/// filesystem fits the attachment and a device serves it. It saves exactly the new mount,
/// and a mount that is being undone marks the attachment as being detached.
pub proof fn law_mount_replacement(row: AttachmentView, expected: MountView, mount: MountView)
    ensures
        ({
            let out = row.mount_replaced(expected, mount);
            &&& out is Ok <==> row.volume_mount is Some && same_mount(
                row.volume_mount->0,
                expected,
            ) && mount_advances(expected, mount) && mount.filesystem_expanded_to_bytes
                <= row.descriptor.capacity_of().size() && is_served(row, mount)
            &&& out is Ok ==> {
                let after = out->Ok_0;
                &&& after.volume_mount == Some(mount)
                &&& after.detaching <==> row.detaching || mount.state
                    == SavedMountState::Unmounting
                &&& after == (AttachmentView {
                    volume_mount: after.volume_mount,
                    detaching: after.detaching,
                    ..row
                })
            }
        }),
{
}

/// Clearing a mount leaves none and changes nothing else; it is refused exactly where
/// another mount is saved.
pub proof fn law_mount_clearing(row: AttachmentView, expected: MountView)
    ensures
        ({
            let out = row.mount_cleared(expected);
            &&& out is Ok <==> row.volume_mount is None || same_mount(
                row.volume_mount->0,
                expected,
            )
            &&& out is Ok ==> out->Ok_0.volume_mount is None && out->Ok_0 == (AttachmentView {
                volume_mount: None,
                ..row
            })
            &&& out is Err ==> out->Err_0 == CatalogError::VolumeMountChanged
        }),
{
}

/// Removing an attachment is owed to its session where it has neither device nor mount, and
/// where there is none; it removes the row alone.
pub proof fn law_attachment_removal(before: CatalogView, key: Slot, session_id: DriverSessionId)
    ensures
        ({
            let out = before.attachment_removed(key, session_id);
            let row = before.attachments[key];
            &&& out is Ok <==> before.attachments.contains_key(key) ==> row.session_id
                == session_id && row.ublk_devices.len() == 0 && row.volume_mount is None
            &&& out is Ok ==> !out->Ok_0.attachments.contains_key(key) && keeps_other_attachments(
                before,
                out->Ok_0,
                key,
            )
            &&& out is Err ==> match out->Err_0 {
                CatalogError::AttachmentChanged => row.session_id != session_id,
                CatalogError::AttachmentStillActive => row.ublk_devices.len() > 0
                    || row.volume_mount is Some,
                _ => false,
            }
        }),
{
}

/// A mount can be saved exactly under an absolute path and with permission bits alone.
pub proof fn law_mount_paths_and_modes(path: Seq<u8>, mode: u32)
    ensures
        mount_error(path, mode) is None <==> path.len() > 0 && path[0] == '/' as u8 && mode < 0o10000,
        mount_error(path, mode) == Some(InvalidSavedVolumeMount::PathNotAbsolute) ==> path.len()
            == 0 || path[0] != '/' as u8,
        mount_error(path, mode) matches Some(InvalidSavedVolumeMount::InvalidMode { actual })
            ==> actual == mode && mode >= 0o10000,
{
}

} // verus!
