//! What each operation on replica rows brings about, and when it is owed.

use vstd::prelude::*;

use super::error::CatalogError;
use super::model::{
    FormatView, OriginView, ReplicaHealth, ReplicaKey, ReplicaState, ReplicaView, ReservedSpace,
};
use super::rules::{same_storage, slot, slot_of, CatalogView, Slot};
use crate::volume::descriptor::{VolumeCapacity, VolumeDescriptor};

verus! {

/// A row stands under the number of its volume and the number of its generation.
pub proof fn law_rows_stand_under_volume_and_generation(
    descriptor: VolumeDescriptor,
    key: ReplicaKey,
)
    ensures
        slot_of(descriptor).0 == descriptor.id().value(),
        slot_of(descriptor).1 == descriptor.generation_of().value(),
        slot(key).0 == key.volume().value(),
        slot(key).1 == key.generation_of().value(),
{
}

/// Every replica row but one is as it was, and so are all attachments and the pool.
pub open spec fn keeps_other_rows(before: CatalogView, after: CatalogView, key: Slot) -> bool {
    &&& forall|other: Slot| #[trigger]
        after.replicas.contains_key(other) && other != key ==> before.replicas.contains_key(other)
            && after.replicas[other] == before.replicas[other]
    &&& forall|other: Slot| #[trigger]
        before.replicas.contains_key(other) && other != key ==> after.replicas.contains_key(other)
    &&& after.attachments == before.attachments
    &&& after.pool == before.pool
    &&& after.stored.managed_bytes == before.stored.managed_bytes
    &&& after.stored.path == before.stored.path
    &&& after.stored.device_id == before.stored.device_id
    &&& after.stored.filesystem == before.stored.filesystem
    &&& after.stored.block_bytes == before.stored.block_bytes
}

/// The space totals are as they were.
pub open spec fn keeps_totals(before: CatalogView, after: CatalogView) -> bool {
    after.stored.data_bytes == before.stored.data_bytes && after.stored.metadata_bytes
        == before.stored.metadata_bytes
}

/// Retirements of other volumes are as they were.
pub open spec fn keeps_other_retirements(
    before: CatalogView,
    after: CatalogView,
    volume: u128,
) -> bool {
    &&& forall|other: u128| #[trigger]
        after.retirements.contains_key(other) && other != volume
            ==> before.retirements.contains_key(other) && after.retirements[other]
            == before.retirements[other]
    &&& forall|other: u128| #[trigger]
        before.retirements.contains_key(other) && other != volume
            ==> after.retirements.contains_key(other)
}

/// Reserving a slot that had no row leaves a row that is being prepared and healthy, with
/// the given descriptor, origin and space and no filesystem format. The totals grow by the
/// space, which was free and fits the pool, and nothing else changes but the retirement of
/// the volume, which is gone. Reserving a slot that has a row returns that row as it is.
pub proof fn law_reservation_prepares_a_row(
    before: CatalogView,
    after: CatalogView,
    descriptor: VolumeDescriptor,
    origin: OriginView,
    maximum: Option<usize>,
    space: ReservedSpace,
    available_bytes: u64,
)
    requires
        before.reserved(descriptor, origin, maximum, space, available_bytes) == Ok::<
            CatalogView,
            CatalogError,
        >(after),
    ensures
        ({
            let key = slot_of(descriptor);
            &&& after.replicas.contains_key(key)
            &&& after.replicas[key].descriptor == descriptor
            &&& after.replicas[key].origin == origin
            &&& keeps_other_rows(before, after, key)
            &&& keeps_other_retirements(before, after, key.0)
            &&& !after.retirements.contains_key(key.0)
            &&& before.replicas.contains_key(key) ==> after.replicas[key] == before.replicas[key]
                && keeps_totals(before, after)
            &&& !before.replicas.contains_key(key) ==> {
                &&& after.replicas[key].state == ReplicaState::Preparing
                &&& after.replicas[key].health == ReplicaHealth::Healthy
                &&& after.replicas[key].reserved == space
                &&& after.replicas[key].filesystem_format is None
                &&& after.stored.data_bytes == before.stored.data_bytes + space.data()
                &&& after.stored.metadata_bytes == before.stored.metadata_bytes + space.metadata()
                &&& space.data() + space.metadata() <= available_bytes
                &&& after.stored.data_bytes + after.stored.metadata_bytes
                    <= after.stored.managed_bytes
                &&& maximum is Some ==> before.replicas.dom().len() + before.retirements.dom().len()
                    + (if before.retirements.contains_key(key.0) {
                    0int
                } else {
                    1int
                }) <= maximum->0
            }
        }),
{
}

/// A reservation is owed wherever no newer generation is retired, this generation is not
/// retired for a bootstrap, the slot is free, the limit leaves room for it, and the space is
/// free and fits the pool. It is owed again to the same owner.
pub proof fn law_reservation_is_owed(
    before: CatalogView,
    descriptor: VolumeDescriptor,
    origin: OriginView,
    maximum: Option<usize>,
    space: ReservedSpace,
    available_bytes: u64,
)
    requires
        ({
            let key = slot_of(descriptor);
            before.retirements.contains_key(key.0) ==> before.retirements[key.0] < key.1 || (
            before.retirements[key.0] == key.1 && !(origin is Bootstrap))
        }),
    ensures
        ({
            let key = slot_of(descriptor);
            let out = before.reserved(descriptor, origin, maximum, space, available_bytes);
            let slots = before.replicas.dom().len() + before.retirements.dom().len() + (
            if before.retirements.contains_key(key.0) {
                0int
            } else {
                1int
            });
            &&& !before.replicas.contains_key(key) && (maximum is Some ==> slots <= maximum->0
                && slots <= u64::MAX) && space.data() + space.metadata() <= available_bytes
                && before.stored.data_bytes + before.stored.metadata_bytes + space.data()
                + space.metadata() <= before.stored.managed_bytes ==> out is Ok
            &&& before.replicas.contains_key(key) ==> (out is Ok <==> before.replicas[key].descriptor
                == descriptor && before.replicas[key].origin == origin)
        }),
{
}

/// A refused reservation names a reason that holds.
pub proof fn law_refused_reservations_are_true(
    before: CatalogView,
    descriptor: VolumeDescriptor,
    origin: OriginView,
    maximum: Option<usize>,
    space: ReservedSpace,
    available_bytes: u64,
)
    requires
        before.is_consistent(),
    ensures
        ({
            let key = slot_of(descriptor);
            match before.reserved(descriptor, origin, maximum, space, available_bytes) {
                Ok(_) => true,
                Err(CatalogError::ReplicaRetired) => before.retirements.contains_key(key.0)
                    && before.retirements[key.0] >= key.1,
                Err(CatalogError::ConflictingReplica) => before.replicas.contains_key(key) && (
                before.replicas[key].descriptor != descriptor || before.replicas[key].origin
                    != origin),
                Err(CatalogError::TooManyReplicaSlots { actual, maximum: limit }) => maximum
                    == Some(limit) && actual > limit && actual >= before.replicas.dom().len()
                    + before.retirements.dom().len(),
                Err(CatalogError::NotEnoughFreeSpace { available_bytes: free, required_bytes }) =>
                    free == available_bytes && required_bytes == space.data() + space.metadata()
                        && required_bytes > free,
                Err(CatalogError::NotEnoughSpace { available_bytes: free, required_bytes }) =>
                    required_bytes == space.data() + space.metadata() && required_bytes > free
                        && free == before.stored.managed_bytes - before.stored.data_bytes
                        - before.stored.metadata_bytes,
                Err(CatalogError::SpaceOverflow) => before.stored.data_bytes
                    + before.stored.metadata_bytes + space.data() + space.metadata() > u64::MAX,
                Err(CatalogError::ReplicaCountOverflow) => before.replicas.dom().len()
                    + before.retirements.dom().len() >= u64::MAX,
                Err(_) => false,
            }
        }),
{
}

/// Reserving more space for a row changes its reservation to the requested one and the
/// totals by the difference, and nothing else; a target that is reserved already changes
/// nothing. A target below the applied capacity is refused.
pub proof fn law_capacity_reservation(
    before: CatalogView,
    key: Slot,
    target: VolumeCapacity,
    requested: ReservedSpace,
    available_bytes: u64,
)
    ensures
        ({
            let out = before.capacity_reserved(key, target, requested, available_bytes);
            let row = before.replicas[key];
            &&& out is Ok ==> {
                let after = out->Ok_0;
                &&& before.replicas.contains_key(key)
                &&& target.size() >= row.descriptor.capacity_of().size()
                &&& keeps_other_rows(before, after, key)
                &&& after.retirements == before.retirements
                &&& target.size() <= row.reserved.data() ==> after == before
                &&& target.size() > row.reserved.data() ==> {
                    &&& after.replicas.contains_key(key)
                    &&& after.replicas[key] == (ReplicaView { reserved: requested, ..row })
                    &&& requested.data() >= row.reserved.data()
                    &&& requested.metadata() >= row.reserved.metadata()
                    &&& after.stored.data_bytes - before.stored.data_bytes == requested.data()
                        - row.reserved.data()
                    &&& after.stored.metadata_bytes - before.stored.metadata_bytes
                        == requested.metadata() - row.reserved.metadata()
                    &&& requested.data() - row.reserved.data() + requested.metadata()
                        - row.reserved.metadata() <= available_bytes
                    &&& after.stored.data_bytes + after.stored.metadata_bytes
                        <= after.stored.managed_bytes
                }
            }
            &&& !before.replicas.contains_key(key) ==> out == Err::<CatalogView, CatalogError>(
                CatalogError::ReplicaNotFound,
            )
            &&& before.replicas.contains_key(key) && target.size()
                < row.descriptor.capacity_of().size() ==> out == Err::<CatalogView, CatalogError>(
                CatalogError::ReservationBelowAppliedCapacity,
            )
            &&& before.replicas.contains_key(key) && target.size()
                >= row.descriptor.capacity_of().size() && (target.size() <= row.reserved.data() || (
            requested.data() >= row.reserved.data() && requested.metadata()
                >= row.reserved.metadata() && requested.data() - row.reserved.data()
                + requested.metadata() - row.reserved.metadata() <= available_bytes
                && before.stored.data_bytes + requested.data() - row.reserved.data()
                + before.stored.metadata_bytes + requested.metadata() - row.reserved.metadata()
                <= before.stored.managed_bytes)) ==> out is Ok
        }),
{
}

/// Reducing a reservation changes it to the requested one and gives the difference back, and
/// changes nothing else; a target at or above the reservation changes nothing.
pub proof fn law_reservation_reduction(
    before: CatalogView,
    key: Slot,
    target: VolumeCapacity,
    requested: ReservedSpace,
)
    requires
        before.is_consistent(),
        before.replicas.contains_key(key) && target.size() < before.replicas[key].reserved.data()
            ==> requested.data() <= before.replicas[key].reserved.data() && requested.metadata()
            <= before.replicas[key].reserved.metadata(),
    ensures
        ({
            let out = before.reservation_reduced(key, target, requested);
            let row = before.replicas[key];
            &&& out is Ok <==> before.replicas.contains_key(key) && target.size()
                >= row.descriptor.capacity_of().size()
            &&& out is Ok ==> {
                let after = out->Ok_0;
                &&& keeps_other_rows(before, after, key)
                &&& after.retirements == before.retirements
                &&& target.size() >= row.reserved.data() ==> after == before
                &&& target.size() < row.reserved.data() ==> {
                    &&& after.replicas.contains_key(key)
                    &&& after.replicas[key] == (ReplicaView { reserved: requested, ..row })
                    &&& before.stored.data_bytes - after.stored.data_bytes == row.reserved.data()
                        - requested.data()
                    &&& before.stored.metadata_bytes - after.stored.metadata_bytes
                        == row.reserved.metadata() - requested.metadata()
                }
            }
        }),
{
    if before.replicas.contains_key(key) {
        super::rules::lemma_total_of_row(before.replicas, key, false);
        super::rules::lemma_total_of_row(before.replicas, key, true);
    }
}

/// Applying a capacity gives the row exactly that capacity and changes nothing else. It is
/// owed from the present capacity up to the reserved one, for whole blocks.
pub proof fn law_capacity_application(before: CatalogView, key: Slot, target: VolumeCapacity)
    ensures
        ({
            let out = before.capacity_applied(key, target);
            let row = before.replicas[key];
            &&& out is Ok ==> {
                let after = out->Ok_0;
                &&& after.replicas.contains_key(key)
                &&& after.replicas[key].descriptor.capacity_of() == target
                &&& same_storage(after.replicas[key].descriptor, row.descriptor)
                &&& after.replicas[key] == (ReplicaView {
                    descriptor: after.replicas[key].descriptor,
                    ..row
                })
                &&& keeps_other_rows(before, after, key)
                &&& keeps_totals(before, after)
                &&& after.retirements == before.retirements
            }
            &&& before.replicas.contains_key(key) && row.descriptor.capacity_of().size()
                < target.size() <= row.reserved.data() && target.size() % 4096 == 0 ==> out is Ok
            &&& before.replicas.contains_key(key) && target.size()
                < row.descriptor.capacity_of().size() ==> out == Err::<CatalogView, CatalogError>(
                CatalogError::CapacityCannotShrink,
            )
            &&& before.replicas.contains_key(key) && target.size()
                >= row.descriptor.capacity_of().size() && target.size() > row.reserved.data()
                ==> out == Err::<CatalogView, CatalogError>(
                CatalogError::CapacityExceedsReservation,
            )
            &&& !before.replicas.contains_key(key) ==> out == Err::<CatalogView, CatalogError>(
                CatalogError::ReplicaNotFound,
            )
        }),
{
    before.replicas[key].descriptor.lemma_resized(target);
}

/// A replacement starts a row over: it is being prepared and healthy, with the given
/// descriptor and origin and no filesystem format, in the same directory and space. It is
/// owed to a replacement origin for a row that is being prepared or ready and not attached,
/// of the same storage and with room for the capacity.
pub proof fn law_replacement_starts_over(
    before: CatalogView,
    key: Slot,
    descriptor: VolumeDescriptor,
    origin: OriginView,
)
    ensures
        ({
            let out = before.replacement_begun(key, descriptor, origin);
            let row = before.replicas[key];
            &&& out is Ok ==> {
                let after = out->Ok_0;
                &&& after.replicas.contains_key(key)
                &&& after.replicas[key].state == ReplicaState::Preparing
                &&& after.replicas[key].health == ReplicaHealth::Healthy
                &&& after.replicas[key].descriptor == descriptor
                &&& after.replicas[key].origin == origin
                &&& after.replicas[key].filesystem_format is None
                &&& after.replicas[key].reserved == row.reserved
                &&& after.replicas[key].directory_name == row.directory_name
                &&& keeps_other_rows(before, after, key)
                &&& keeps_totals(before, after)
                &&& after.retirements == before.retirements
            }
            &&& out is Ok <==> {
                &&& !(origin is Bootstrap)
                &&& before.replicas.contains_key(key)
                &&& !before.attachments.contains_key(key)
                &&& slot_of(descriptor) == key
                &&& row.descriptor.id() == descriptor.id()
                &&& row.descriptor.generation_of() == descriptor.generation_of()
                &&& row.descriptor.sizes() == descriptor.sizes()
                &&& row.descriptor.capacity_of().size() <= descriptor.capacity_of().size()
                &&& descriptor.capacity_of().size() <= row.reserved.data()
                &&& row.state == ReplicaState::Preparing || row.state == ReplicaState::Ready
            }
        }),
{
}

/// A state change gives the row exactly the requested state and changes nothing else. No
/// state goes back to preparing; ready follows preparing and retained; retained follows
/// ready alone; deleting and retiring follow any of these three; and every state follows
/// itself.
pub proof fn law_state_changes(before: CatalogView, key: Slot, requested: ReplicaState)
    ensures
        ({
            let out = before.state_set(key, requested);
            let row = before.replicas[key];
            &&& out is Ok ==> {
                let after = out->Ok_0;
                &&& after.replicas.contains_key(key)
                &&& after.replicas[key].state == requested
                &&& after.replicas[key] == (ReplicaView {
                    state: after.replicas[key].state,
                    ..row
                })
                &&& keeps_other_rows(before, after, key)
                &&& keeps_totals(before, after)
                &&& after.retirements == before.retirements
            }
            &&& out is Ok <==> before.replicas.contains_key(key) && match requested {
                ReplicaState::Preparing => row.state == ReplicaState::Preparing,
                ReplicaState::Ready => row.state == ReplicaState::Preparing || row.state
                    == ReplicaState::Ready || row.state == ReplicaState::Retained,
                ReplicaState::Deleting => row.state != ReplicaState::Retiring,
                ReplicaState::Retiring => row.state != ReplicaState::Deleting,
                ReplicaState::Retained => row.state == ReplicaState::Ready || row.state
                    == ReplicaState::Retained,
            }
            &&& before.replicas.contains_key(key) && out is Err ==> out == Err::<
                CatalogView,
                CatalogError,
            >(CatalogError::InvalidStateChange { current: row.state, requested })
        }),
{
}

/// A health change gives the row exactly the requested health and changes nothing else.
pub proof fn law_health_changes(before: CatalogView, key: Slot, requested: ReplicaHealth)
    ensures
        ({
            let out = before.health_set(key, requested);
            &&& out is Ok <==> before.replicas.contains_key(key)
            &&& out is Ok ==> {
                let after = out->Ok_0;
                &&& after.replicas.contains_key(key)
                &&& after.replicas[key].health == requested
                &&& after.replicas[key] == (ReplicaView {
                    health: after.replicas[key].health,
                    ..before.replicas[key]
                })
                &&& keeps_other_rows(before, after, key)
                &&& keeps_totals(before, after)
                &&& after.retirements == before.retirements
            }
            &&& out is Err ==> out->Err_0 == CatalogError::ReplicaNotFound
        }),
{
}

/// A saved format is the one that the row has afterwards, and clearing leaves none; either
/// changes nothing else, and each is refused exactly where the row has another format.
pub proof fn law_formats(before: CatalogView, key: Slot, format: FormatView)
    requires
        before.replicas.contains_key(key),
    ensures
        ({
            let saved = before.format_saved(key, format);
            let cleared = before.format_cleared(key, format);
            let row = before.replicas[key];
            let other = row.filesystem_format is Some && row.filesystem_format->0 != format;
            &&& saved is Ok <==> !other
            &&& cleared is Ok <==> !other
            &&& saved is Err ==> saved->Err_0 == CatalogError::FilesystemFormatChanged
            &&& cleared is Err ==> cleared->Err_0 == CatalogError::FilesystemFormatChanged
            &&& saved is Ok ==> {
                let after = saved->Ok_0;
                &&& after.replicas.contains_key(key)
                &&& after.replicas[key].filesystem_format == Some(format)
                &&& after.replicas[key] == (ReplicaView {
                    filesystem_format: after.replicas[key].filesystem_format,
                    ..row
                })
                &&& keeps_other_rows(before, after, key)
                &&& keeps_totals(before, after)
                &&& after.retirements == before.retirements
            }
            &&& cleared is Ok ==> {
                let after = cleared->Ok_0;
                &&& after.replicas.contains_key(key)
                &&& after.replicas[key].filesystem_format is None
                &&& after.replicas[key] == (ReplicaView {
                    filesystem_format: after.replicas[key].filesystem_format,
                    ..row
                })
                &&& keeps_other_rows(before, after, key)
                &&& keeps_totals(before, after)
                &&& after.retirements == before.retirements
            }
        }),
{
}

/// The row, if there was one, is gone, and exactly its space was given back.
pub open spec fn is_released(before: CatalogView, after: CatalogView, key: Slot) -> bool {
    let row = before.replicas[key];
    &&& !after.replicas.contains_key(key)
    &&& before.replicas.contains_key(key) ==> before.stored.data_bytes - after.stored.data_bytes
        == row.reserved.data() && before.stored.metadata_bytes - after.stored.metadata_bytes
        == row.reserved.metadata()
    &&& !before.replicas.contains_key(key) ==> keeps_totals(before, after)
}

/// Deletion removes a row that is being deleted, without attachment and without format, and
/// gives its space back. A proof of retirement for this or an older generation goes with it,
/// one for a newer generation stays.
pub proof fn law_deletion(before: CatalogView, key: Slot)
    requires
        before.is_consistent(),
    ensures
        ({
            let out = before.deleted(key);
            let row = before.replicas[key];
            &&& out is Ok ==> {
                let after = out->Ok_0;
                &&& is_released(before, after, key)
                &&& keeps_other_rows(before, after, key)
                &&& keeps_other_retirements(before, after, key.0)
                &&& after.retirements.contains_key(key.0) <==> before.retirements.contains_key(
                    key.0,
                ) && before.retirements[key.0] > key.1
                &&& after.retirements.contains_key(key.0) ==> after.retirements[key.0]
                    == before.retirements[key.0]
            }
            &&& out is Ok <==> before.replicas.contains_key(key) ==> row.state
                == ReplicaState::Deleting && !before.attachments.contains_key(key)
                && row.filesystem_format is None
            &&& out is Err ==> match out->Err_0 {
                CatalogError::ReplicaNotDeleting => row.state != ReplicaState::Deleting,
                CatalogError::ReplicaStillAttached => before.attachments.contains_key(key)
                    || row.filesystem_format is Some,
                _ => false,
            }
        }),
{
    if before.replicas.contains_key(key) {
        super::rules::lemma_total_of_row(before.replicas, key, false);
        super::rules::lemma_total_of_row(before.replicas, key, true);
    }
}

/// Retirement removes a row that is being retired, without attachment and without format,
/// gives its space back and keeps the proof of its generation. It is owed again as long as
/// the proof, or one of a newer generation, is there.
pub proof fn law_retirement(before: CatalogView, key: Slot)
    requires
        before.is_consistent(),
    ensures
        ({
            let out = before.retired(key);
            let row = before.replicas[key];
            let proven = before.retirements.contains_key(key.0) && before.retirements[key.0]
                >= key.1;
            &&& out is Ok ==> {
                let after = out->Ok_0;
                &&& is_released(before, after, key)
                &&& keeps_other_rows(before, after, key)
                &&& keeps_other_retirements(before, after, key.0)
                &&& after.retirements.contains_key(key.0)
                &&& proven ==> after == before
                &&& !proven ==> after.retirements[key.0] == key.1
            }
            &&& out is Ok <==> if proven {
                !before.replicas.contains_key(key)
            } else {
                before.replicas.contains_key(key) && row.state == ReplicaState::Retiring
                    && !before.attachments.contains_key(key) && row.filesystem_format is None
            }
            &&& out is Err ==> match out->Err_0 {
                CatalogError::ConflictingReplica => proven && before.replicas.contains_key(key),
                CatalogError::ReplicaNotFound => !before.replicas.contains_key(key),
                CatalogError::ReplicaNotRetiring => row.state != ReplicaState::Retiring,
                CatalogError::ReplicaStillAttached => before.attachments.contains_key(key)
                    || row.filesystem_format is Some,
                _ => false,
            }
        }),
{
    if before.replicas.contains_key(key) {
        super::rules::lemma_total_of_row(before.replicas, key, false);
        super::rules::lemma_total_of_row(before.replicas, key, true);
    }
}

/// Recording the retirement of a missing replica keeps a proof for at least its generation,
/// lowers none, changes no row, and needs a slot only where the volume has no proof yet.
pub proof fn law_missing_retirement(before: CatalogView, key: Slot, maximum: usize)
    ensures
        ({
            let out = before.missing_retired(key, maximum);
            let slots = before.replicas.dom().len() + before.retirements.dom().len() + (
            if before.retirements.contains_key(key.0) {
                0int
            } else {
                1int
            });
            let proven = before.retirements.contains_key(key.0) && before.retirements[key.0]
                >= key.1;
            &&& out is Ok ==> {
                let after = out->Ok_0;
                &&& after.replicas == before.replicas
                &&& after.attachments == before.attachments
                &&& keeps_totals(before, after)
                &&& keeps_other_retirements(before, after, key.0)
                &&& after.retirements.contains_key(key.0)
                &&& after.retirements[key.0] == if proven {
                    before.retirements[key.0]
                } else {
                    key.1
                }
            }
            &&& out is Ok <==> !before.replicas.contains_key(key)
                && !before.attachments.contains_key(key) && (proven || (slots <= maximum && slots
                <= u64::MAX))
        }),
{
}

/// A newer generation forgets the retirement of an older one of its volume, and nothing
/// else.
pub proof fn law_newer_generation_forgets(before: CatalogView, current: Slot)
    ensures
        ({
            let after = before.forgotten_before(current);
            &&& after.replicas == before.replicas
            &&& after.attachments == before.attachments
            &&& after.stored == before.stored
            &&& keeps_other_retirements(before, after, current.0)
            &&& after.retirements.contains_key(current.0) <==> before.retirements.contains_key(
                current.0,
            ) && before.retirements[current.0] >= current.1
            &&& after.retirements.contains_key(current.0) ==> after.retirements[current.0]
                == before.retirements[current.0]
        }),
{
}

} // verus!
