//! What holds across operations of the local catalog.

use vstd::prelude::*;

use super::attachment::{law_ordered_devices, refenced, without_device, AttachmentView};
use super::error::CatalogError;
use super::model::{OriginView, ReplicaState, ReplicaView, ReservedSpace, SavedUblkDevice};
use super::rules::{all_serve, serves_capacity, slot_of, CatalogView, Slot};
use crate::volume::descriptor::{VolumeCapacity, VolumeDescriptor};
use crate::volume::identity::{DriverSessionId, FenceEpoch};

verus! {

broadcast use {SavedUblkDevice::lemma_made, SavedUblkDevice::lemma_fenced};

/// Repeating a reservation returns the saved row and changes nothing, at any limit and with
/// any free space.
pub proof fn law_reservation_is_idempotent(
    before: CatalogView,
    descriptor: VolumeDescriptor,
    origin: OriginView,
    first: (Option<usize>, ReservedSpace, u64),
    again: (Option<usize>, ReservedSpace, u64),
)
    requires
        before.reserved(descriptor, origin, first.0, first.1, first.2) is Ok,
    ensures
        ({
            let after = before.reserved(descriptor, origin, first.0, first.1, first.2)->Ok_0;
            after.reserved(descriptor, origin, again.0, again.1, again.2) == Ok::<
                CatalogView,
                CatalogError,
            >(after)
        }),
{
    let after = before.reserved(descriptor, origin, first.0, first.1, first.2)->Ok_0;
    assert(after.without_retirement(slot_of(descriptor).0) =~= after);
}

/// Another origin or another descriptor never takes over a reserved slot.
pub proof fn law_reservation_rejects_another_owner(
    before: CatalogView,
    descriptor: VolumeDescriptor,
    origin: OriginView,
    other: (VolumeDescriptor, OriginView),
    first: (Option<usize>, ReservedSpace, u64),
    again: (Option<usize>, ReservedSpace, u64),
)
    requires
        before.reserved(descriptor, origin, first.0, first.1, first.2) is Ok,
        slot_of(other.0) == slot_of(descriptor),
        other != (descriptor, origin),
    ensures
        ({
            let after = before.reserved(descriptor, origin, first.0, first.1, first.2)->Ok_0;
            after.reserved(other.0, other.1, again.0, again.1, again.2) == Err::<
                CatalogView,
                CatalogError,
            >(CatalogError::ConflictingReplica)
        }),
{
}

/// Reservations under a limit leave no more slots than the limit.
pub proof fn law_bounded_reservation_keeps_its_limit(
    before: CatalogView,
    descriptor: VolumeDescriptor,
    origin: OriginView,
    maximum: usize,
    space: ReservedSpace,
    available_bytes: u64,
)
    requires
        before.is_consistent(),
        before.slots() <= maximum,
        before.reserved(descriptor, origin, Some(maximum), space, available_bytes) is Ok,
    ensures
        before.reserved(descriptor, origin, Some(maximum), space, available_bytes)->Ok_0.slots()
            <= maximum,
{
}

/// A generation whose retirement is on record is never bootstrapped again, nor is an older
/// one.
pub proof fn law_retired_generation_stays_retired(
    catalog: CatalogView,
    descriptor: VolumeDescriptor,
    origin: OriginView,
    rest: (Option<usize>, ReservedSpace, u64),
)
    requires
        catalog.retirements.contains_key(slot_of(descriptor).0),
        slot_of(descriptor).1 < catalog.retirements[slot_of(descriptor).0] || (slot_of(descriptor).1
            == catalog.retirements[slot_of(descriptor).0] && origin is Bootstrap),
    ensures
        catalog.reserved(descriptor, origin, rest.0, rest.1, rest.2) == Err::<
            CatalogView,
            CatalogError,
        >(CatalogError::ReplicaRetired),
{
}

/// Removing a retiring replica puts its retirement on record, needs no slot more, and can
/// be repeated.
pub proof fn law_retirement_keeps_the_slot_bound(before: CatalogView, key: Slot)
    requires
        before.is_consistent(),
        before.retired(key) is Ok,
    ensures
        before.retired(key)->Ok_0.slots() <= before.slots(),
        before.retired(key)->Ok_0.retirements.contains_key(key.0),
        before.retired(key)->Ok_0.retirements[key.0] >= key.1,
        !before.retired(key)->Ok_0.replicas.contains_key(key),
        before.retired(key)->Ok_0.retired(key) == before.retired(key),
{
}

/// A replacement that takes a retired slot consumes the proof of its retirement.
pub proof fn law_replacement_consumes_retirement(
    before: CatalogView,
    descriptor: VolumeDescriptor,
    origin: OriginView,
    rest: (Option<usize>, ReservedSpace, u64),
)
    requires
        before.reserved(descriptor, origin, rest.0, rest.1, rest.2) is Ok,
    ensures
        !before.reserved(descriptor, origin, rest.0, rest.1, rest.2)->Ok_0.retirements.contains_key(
            slot_of(descriptor).0,
        ),
        before.reserved(descriptor, origin, rest.0, rest.1, rest.2)->Ok_0.replicas.contains_key(
            slot_of(descriptor),
        ),
{
}

/// Deletion can be repeated, leaves no row, and forgets retirements up to its generation.
pub proof fn law_deletion_is_final_and_idempotent(before: CatalogView, key: Slot)
    requires
        before.deleted(key) is Ok,
    ensures
        !before.deleted(key)->Ok_0.replicas.contains_key(key),
        !before.deleted(key)->Ok_0.is_retired_up_to(key),
        before.deleted(key)->Ok_0.deleted(key) == before.deleted(key),
{
}

/// Deleting a replica gives back exactly the space that its reservation took.
pub proof fn law_deletion_returns_the_space(
    before: CatalogView,
    descriptor: VolumeDescriptor,
    origin: OriginView,
    rest: (Option<usize>, ReservedSpace, u64),
)
    requires
        before.is_consistent(),
        !before.replicas.contains_key(slot_of(descriptor)),
        !before.retirements.contains_key(slot_of(descriptor).0),
        before.reserved(descriptor, origin, rest.0, rest.1, rest.2) is Ok,
    ensures
        ({
            let key = slot_of(descriptor);
            let reserved = before.reserved(descriptor, origin, rest.0, rest.1, rest.2)->Ok_0;
            let deleting = reserved.state_set(key, ReplicaState::Deleting)->Ok_0;
            deleting.deleted(key) == Ok::<CatalogView, CatalogError>(before)
        }),
{
    let key = slot_of(descriptor);
    let reserved = before.reserved(descriptor, origin, rest.0, rest.1, rest.2)->Ok_0;
    let deleting = reserved.state_set(key, ReplicaState::Deleting)->Ok_0;
    assert(!before.attachments.contains_key(key)) by {
        if before.attachments.contains_key(key) {
            assert(before.replicas.contains_key(key));
        }
    }
    assert(deleting.released(key) =~= before);
}

/// Applied capacity never shrinks and never exceeds the reservation.
pub proof fn law_applied_capacity_is_monotonic(
    before: CatalogView,
    key: Slot,
    target: VolumeCapacity,
)
    requires
        before.capacity_applied(key, target) is Ok,
    ensures
        ({
            let row = before.replicas[key];
            let after = before.capacity_applied(key, target)->Ok_0.replicas[key];
            &&& after.descriptor.capacity_of() == target
            &&& row.descriptor.capacity_of().size() <= after.descriptor.capacity_of().size()
            &&& after.descriptor.capacity_of().size() <= after.reserved.data()
            &&& after.reserved == row.reserved
        }),
{
    before.replicas[key].descriptor.lemma_resized(target);
}

/// A capacity can be applied once its space is reserved.
pub proof fn law_reserved_capacity_can_be_applied(
    before: CatalogView,
    key: Slot,
    target: VolumeCapacity,
    requested: ReservedSpace,
    available_bytes: u64,
)
    requires
        before.capacity_reserved(key, target, requested, available_bytes) is Ok,
        requested.data() == target.size(),
        crate::volume::descriptor::capacity_error(target.size()) is None,
    ensures
        before.capacity_reserved(key, target, requested, available_bytes)->Ok_0.capacity_applied(
            key,
            target,
        ) is Ok,
{
}

/// Advancing a fence moves the session and every resource of it at once, and can be
/// repeated.
pub proof fn law_fence_advance_is_atomic(
    row: AttachmentView,
    session_id: DriverSessionId,
    expected: FenceEpoch,
    next: FenceEpoch,
)
    requires
        row.fence_advanced(session_id, expected, next) is Ok,
    ensures
        ({
            let after = row.fence_advanced(session_id, expected, next)->Ok_0;
            &&& after.granted_fence == Some(next)
            &&& after.is_fenced(next)
            &&& after.session_id == row.session_id
            &&& after.ublk_devices.len() == row.ublk_devices.len()
            &&& after.fence_advanced(session_id, expected, next) == Ok::<
                AttachmentView,
                CatalogError,
            >(after)
        }),
{
    let after = row.fence_advanced(session_id, expected, next)->Ok_0;
    if row.granted_fence != Some(next) {
        let devices = refenced(row.ublk_devices, next);
        assert forall|i: int| #![trigger devices[i]] 0 <= i < devices.len() implies devices[i].session_of()
            == row.session_id && devices[i].fence_of() == next by {
            let old_device = row.ublk_devices[i];
            assert(devices[i] == old_device.fenced(next));
        }
        assert(all_serve(devices, row.session_id, next));
    }
}

/// An attachment holds at most two devices, and a saved device is one of them.
pub proof fn law_attachment_holds_two_devices(row: AttachmentView, device: SavedUblkDevice)
    requires
        row.ublk_devices.len() <= 2,
        row.device_saved(device) is Ok,
    ensures
        row.device_saved(device)->Ok_0.ublk_devices.len() <= 2,
        row.device_saved(device)->Ok_0.ublk_devices.contains(device),
{
    let after = row.device_saved(device)->Ok_0;
    if !row.ublk_devices.contains(device) {
        let pushed = row.ublk_devices.push(device);
        law_ordered_devices(pushed);
        assert(pushed[pushed.len() - 1] == device);
        assert(pushed.to_multiset().count(device) > 0) by {
            broadcast use vstd::seq_lib::group_to_multiset_ensures;

            assert(pushed.contains(device));
        }
        assert(after.ublk_devices.contains(device)) by {
            broadcast use vstd::seq_lib::group_to_multiset_ensures;

        }
    }
}

/// While a mount is saved, clearing devices never removes the one that serves the mapped
/// capacity.
pub proof fn law_mounted_attachment_keeps_its_device(
    row: AttachmentView,
    expected: SavedUblkDevice,
)
    requires
        row.volume_mount is Some,
        serves_capacity(row.ublk_devices, row.descriptor.capacity_of()),
        row.device_cleared(expected) is Ok,
    ensures
        serves_capacity(
            row.device_cleared(expected)->Ok_0.ublk_devices,
            row.descriptor.capacity_of(),
        ),
{
    let capacity = row.descriptor.capacity_of();
    let i = choose|i: int|
        #![trigger row.ublk_devices[i]]
        0 <= i < row.ublk_devices.len() && row.ublk_devices[i].capacity_of() == capacity;
    let kept = row.ublk_devices[i];
    if row.ublk_devices.contains(expected) {
        lemma_kept_device(row.ublk_devices, expected, kept);
        let after = without_device(row.ublk_devices, expected);
        let j = after.index_of(kept);
        assert(after[j].capacity_of() == capacity);
    }
}

/// A device other than the removed one stays.
proof fn lemma_kept_device(
    devices: Seq<SavedUblkDevice>,
    expected: SavedUblkDevice,
    kept: SavedUblkDevice,
)
    requires
        devices.contains(kept),
        kept != expected,
    ensures
        without_device(devices, expected).contains(kept),
    decreases devices.len(),
{
    reveal(Seq::filter);
    let i = devices.index_of(kept);
    let rest = devices.drop_last();
    let shorter = without_device(rest, expected);
    let whole = without_device(devices, expected);
    if i == devices.len() - 1 {
        assert(whole =~= shorter.push(kept));
        assert(whole[shorter.len() as int] == kept);
    } else {
        assert(rest[i] == kept);
        lemma_kept_device(rest, expected, kept);
        let j = shorter.index_of(kept);
        assert(whole[j] == kept);
    }
}

/// Detaching can be repeated.
pub proof fn law_detach_is_idempotent(catalog: CatalogView, key: Slot)
    ensures
        catalog.detach_begun(key).detach_begun(key) == catalog.detach_begun(key),
{
    let after = catalog.detach_begun(key);
    if catalog.attachments.contains_key(key) {
        assert(after.attachments[key].detached() == after.attachments[key]);
        assert(after.with_attachment(key, after.attachments[key]) =~= after);
    }
}

/// A change of the file state that is allowed can be repeated.
pub proof fn law_state_change_is_idempotent(
    before: CatalogView,
    key: Slot,
    requested: ReplicaState,
)
    requires
        before.state_set(key, requested) is Ok,
    ensures
        before.state_set(key, requested)->Ok_0.state_set(key, requested) == before.state_set(
            key,
            requested,
        ),
{
    let after = before.state_set(key, requested)->Ok_0;
    assert(after.with_replica(key, ReplicaView { state: requested, ..after.replicas[key] })
        =~= after);
}

} // verus!
