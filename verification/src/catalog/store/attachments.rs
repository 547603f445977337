//! Durable attachments: writer sessions, their devices and their mounts.

use vstd::prelude::*;
use vstd::std_specs::btree::*;
use vstd::std_specs::iter::IteratorSpec;

use super::{lemma_slot_order, slot_less, slot_number, slot_number_of, ReplicaCatalog};
use crate::catalog::attachment::{
    holds_device, lemma_ordered_elements, lemma_replaced_elements, lemma_without_elements,
    replaced, AttachmentView, LocalAttachmentRecord,
};
use crate::catalog::error::CatalogError;
use crate::catalog::model::{ReplicaKey, SavedMountState, SavedUblkDevice, SavedVolumeMount};
use crate::catalog::rules::{
    all_serve, clashes, fit_replica, serves_capacity, serves_session, slot, slot_of, CatalogView,
    Slot,
};
use crate::volume::descriptor::{capacity_error, VolumeCapacity, VolumeDescriptor};
use crate::volume::identity::{DriverSessionId, FenceEpoch};

verus! {

broadcast use {
    vstd::std_specs::btree::group_btree_axioms,
    vstd::laws_cmp::group_laws_cmp,
    SavedUblkDevice::lemma_fenced,
};

/// The rows stand in the order of their slots, and they are all rows.
pub open spec fn lists_attachments(
    rows: Seq<AttachmentView>,
    all: Map<Slot, AttachmentView>,
) -> bool {
    &&& forall|i: int, j: int|
        #![trigger rows[i], rows[j]]
        0 <= i < j < rows.len() ==> slot_less(
            slot_of(rows[i].descriptor),
            slot_of(rows[j].descriptor),
        )
    &&& forall|i: int|
        #![trigger rows[i]]
        0 <= i < rows.len() ==> all.contains_key(slot_of(rows[i].descriptor))
            && all[slot_of(rows[i].descriptor)] == rows[i]
    &&& forall|key: Slot| #[trigger] all.contains_key(key) ==> rows.contains(all[key])
}

/// Attachment records as plain values.
pub open spec fn attachment_record_views(records: Seq<LocalAttachmentRecord>) -> Seq<
    AttachmentView,
> {
    records.map_values(|record: LocalAttachmentRecord| record@)
}

/// Returns whether one of the devices has the capacity.
pub(super) fn has_capacity(devices: &[SavedUblkDevice], capacity: VolumeCapacity) -> (out: bool)
    ensures
        out == serves_capacity(devices@, capacity),
{
    let mut i: usize = 0;
    while i < devices.len()
        invariant
            i <= devices@.len(),
            forall|k: int| #![trigger devices@[k]] 0 <= k < i ==> devices@[k].capacity_of() != capacity,
        decreases devices@.len() - i,
    {
        if devices[i].capacity() == capacity {
            return true;
        }
        i += 1;
    }
    false
}

/// Returns whether one of the devices belongs to the session and the fence of a mount.
fn has_session(devices: &[SavedUblkDevice], mount: &SavedVolumeMount) -> (out: bool)
    ensures
        out == serves_session(devices@, mount@.session_id, mount@.fence),
{
    let mut i: usize = 0;
    while i < devices.len()
        invariant
            i <= devices@.len(),
            forall|k: int|
                #![trigger devices@[k]]
                0 <= k < i ==> !(devices@[k].session_of() == mount@.session_id && devices@[k].fence_of()
                    == mount@.fence),
        decreases devices@.len() - i,
    {
        if devices[i].fence() == mount.fence() && devices[i].session_id() == mount.session_id() {
            return true;
        }
        i += 1;
    }
    false
}

/// Returns whether one of the devices, other than an expected one, has the number or the
/// capacity.
fn has_clash(
    devices: &[SavedUblkDevice],
    except: Option<SavedUblkDevice>,
    device: SavedUblkDevice,
) -> (out: bool)
    ensures
        out == clashes(devices@, except, device),
{
    let mut i: usize = 0;
    while i < devices.len()
        invariant
            i <= devices@.len(),
            forall|k: int|
                #![trigger devices@[k]]
                0 <= k < i ==> Some(devices@[k]) == except || !(devices@[k].id_of() == device.id_of()
                    || devices@[k].capacity_of() == device.capacity_of()),
        decreases devices@.len() - i,
    {
        let saved = devices[i];
        let is_other = match except {
            Some(expected) => saved != expected,
            None => true,
        };
        if is_other && (saved.id() == device.id() || saved.capacity() == device.capacity()) {
            return true;
        }
        i += 1;
    }
    false
}

/// Checks every saved local resource against one attachment fence.
fn check_attachment_resource_fence(record: &LocalAttachmentRecord, fence: FenceEpoch) -> (out:
    Result<(), CatalogError>)
    ensures
        match out {
            Ok(()) => record@.is_fenced(fence),
            Err(error) => !record@.is_fenced(fence) && error
                == CatalogError::AttachmentFenceChanged,
        },
{
    let devices = record.ublk_devices();
    let mut i: usize = 0;
    while i < devices.len()
        invariant
            i <= devices@.len(),
            devices@ == record@.ublk_devices,
            forall|k: int|
                #![trigger devices@[k]]
                0 <= k < i ==> devices@[k].session_of() == record@.session_id && devices@[k].fence_of()
                    == fence,
        decreases devices@.len() - i,
    {
        if devices[i].session_id() != record.session_id() || devices[i].fence() != fence {
            proof { assert(!all_serve(devices@, record@.session_id, fence)); }
            return Err(CatalogError::AttachmentFenceChanged);
        }
        i += 1;
    }
    if let Some(mount) = record.volume_mount() {
        if mount.session_id() != record.session_id() || mount.fence() != fence {
            return Err(CatalogError::AttachmentFenceChanged);
        }
    }
    Ok(())
}

/// Checks a device against the durable session and committed fence.
fn check_device_fence(record: &LocalAttachmentRecord, device: SavedUblkDevice) -> (out: Result<
    (),
    CatalogError,
>)
    ensures
        match out {
            Ok(()) => record@.owns_device(device),
            Err(error) => !record@.owns_device(device) && error
                == CatalogError::AttachmentFenceChanged,
        },
{
    let granted = match record.granted_fence() {
        Some(fence) => fence == device.fence(),
        None => false,
    };
    if record.session_id() != device.session_id() || !granted {
        return Err(CatalogError::AttachmentFenceChanged);
    }
    Ok(())
}

/// Devices that all come from fitting ones, or are a fitting one, fit.
proof fn lemma_fit_from(
    devices: Seq<SavedUblkDevice>,
    more: Seq<SavedUblkDevice>,
    replica: VolumeDescriptor,
)
    requires
        fit_replica(devices, replica),
        forall|i: int|
            #![trigger more[i]]
            0 <= i < more.len() ==> devices.contains(more[i]) || (capacity_error(
                more[i].capacity_of().size(),
            ) is None && more[i].capacity_of().size() <= replica.capacity_of().size()),
    ensures
        fit_replica(more, replica),
{
    assert forall|i: int| #![trigger more[i]] 0 <= i < more.len() implies capacity_error(
        more[i].capacity_of().size(),
    ) is None && more[i].capacity_of().size() <= replica.capacity_of().size() by {
        if devices.contains(more[i]) {
            let k = devices.index_of(more[i]);
            assert(devices[k] == more[i]);
        }
    }
}

impl ReplicaCatalog {
    /// Creates or reopens the one durable attachment session for a generation.
    pub fn open_or_create_attachment(
        &mut self,
        descriptor: VolumeDescriptor,
        session_id: DriverSessionId,
    ) -> (out: Result<LocalAttachmentRecord, CatalogError>)
        ensures
            final(self)@.is_consistent(),
            match out {
                Ok(record) => old(self)@.attached(descriptor, session_id)
                    == Ok::<CatalogView, CatalogError>(final(self)@) && record@
                    == final(self)@.attachments[slot_of(descriptor)],
                Err(error) => old(self)@.attached(descriptor, session_id)
                    == Err::<CatalogView, CatalogError>(error) && final(self)@ == old(self)@,
            },
    {
        proof { use_type_invariant(&*self); }
        let slot = slot_number_of(&descriptor);
        let replica = match self.rows.find_replica(slot) {
            Some(row) => *row.descriptor(),
            None => {
                return Err(CatalogError::ReplicaNotFound);
            },
        };
        if !replica.has_same_storage_identity(&descriptor) || descriptor.capacity().bytes()
            > replica.capacity().bytes() {
            return Err(CatalogError::ConflictingReplica);
        }
        if let Some(row) = self.rows.find_attachment(slot) {
            if !row.descriptor().has_same_storage_identity(&descriptor)
                || row.descriptor().capacity().bytes() > replica.capacity().bytes()
                || row.session_id() != session_id {
                return Err(CatalogError::AttachmentChanged);
            }
            return Ok(row.clone());
        }
        let record = LocalAttachmentRecord::new(descriptor, session_id);
        self.put_attachment(slot, record.clone());
        Ok(record)
    }

    /// Returns one durable attachment without consulting public cluster state.
    pub fn attachment(&self, key: ReplicaKey) -> (out: Option<LocalAttachmentRecord>)
        ensures
            match out {
                Some(record) => self@.attachments.contains_key(slot(key)) && record@
                    == self@.attachments[slot(key)],
                None => !self@.attachments.contains_key(slot(key)),
            },
    {
        match self.rows.find_attachment(slot_number(key)) {
            Some(row) => Some(row.clone()),
            None => None,
        }
    }

    /// Loads every unfinished local attachment for restart reconciliation.
    pub fn discover_attachments(&self, maximum: usize) -> (out: Result<
        Vec<LocalAttachmentRecord>,
        CatalogError,
    >)
        ensures
            match out {
                Ok(records) => self@.attachments.dom().len() <= maximum && lists_attachments(
                    attachment_record_views(records@),
                    self@.attachments,
                ),
                Err(error) => self@.attachments.dom().len() > maximum && error
                    == (CatalogError::TooManyAttachments {
                    actual: self@.attachments.dom().len() as u64,
                    maximum,
                }),
            },
    {
        proof {
            use_type_invariant(self);
            lemma_slot_order();
            assert(self@.attachments.dom() =~= self.rows.attachments@.dom());
        }
        let count: u64 = self.rows.attachments.len() as u64;
        if count > maximum as u64 {
            return Err(CatalogError::TooManyAttachments { actual: count, maximum });
        }
        let mut records: Vec<LocalAttachmentRecord> = Vec::new();
        for entry in it: self.rows.attachments.iter()
            invariant
                it.seq() == spec_btree_map_iter(&self.rows.attachments).remaining(),
                increasing_seq(it.seq().map_values(|kv: (&Slot, &LocalAttachmentRecord)| *kv.0)),
                records@.len() == it.index(),
                forall|k: int|
                    #![trigger records@[k]]
                    0 <= k < it.index() ==> records@[k]@ == (*it.seq()[k].1)@,
        {
            records.push(entry.1.clone());
        }
        proof {
            lemma_slot_order();
            let all = spec_btree_map_iter(&self.rows.attachments).remaining();
            let keys = all.map_values(|kv: (&Slot, &LocalAttachmentRecord)| *kv.0);
            let rows = attachment_record_views(records@);
            let map = self.rows.attachments@;
            assert forall|i: int| #![trigger rows[i]] 0 <= i < rows.len() implies rows[i]
                == map[keys[i]]@ && map.contains_key(keys[i]) && slot_of(rows[i].descriptor)
                == keys[i] by {
                assert(rows[i] == records@[i]@);
                assert(all.contains(all[i]));
                assert(self@.attachments.contains_key(keys[i]));
            }
            assert forall|i: int, j: int|
                #![trigger rows[i], rows[j]]
                0 <= i < j < rows.len() implies slot_less(
                slot_of(rows[i].descriptor),
                slot_of(rows[j].descriptor),
            ) by {
                assert(crate::store::order::less(keys[i], keys[j]));
            }
            assert forall|key: Slot| #[trigger]
                self@.attachments.contains_key(key) implies rows.contains(
                self@.attachments[key],
            ) by {
                assert(map.contains_key(key));
                assert(all.contains((&key, &map[key])));
                let i = choose|i: int| 0 <= i < all.len() && all[i] == (&key, &map[key]);
                assert(keys[i] == key);
                assert(rows[i] == records@[i]@);
            }
        }
        Ok(records)
    }

    /// Records monotonic cleanup intent and advances any saved mount.
    pub fn begin_attachment_detach(&mut self, key: ReplicaKey)
        ensures
            final(self)@.is_consistent(),
            final(self)@ == old(self)@.detach_begun(slot(key)),
    {
        proof { use_type_invariant(&*self); }
        let slot = slot_number(key);
        let mut record = match self.rows.find_attachment(slot) {
            Some(row) => row.clone(),
            None => {
                return;
            },
        };
        record.begin_detach();
        let unmounting = match record.volume_mount() {
            Some(mount) => match mount.with_state(SavedMountState::Unmounting) {
                Ok(unmounting) => Some(unmounting),
                Err(_) => None,
            },
            None => None,
        };
        if let Some(unmounting) = unmounting {
            record.set_volume_mount(unmounting);
        }
        self.put_attachment(slot, record);
    }

    /// Saves the exact committed fence granted to the durable session.
    pub fn save_attachment_fence(
        &mut self,
        key: ReplicaKey,
        session_id: DriverSessionId,
        fence: FenceEpoch,
    ) -> (out: Result<(), CatalogError>)
        ensures
            final(self)@.is_consistent(),
            match out {
                Ok(()) => old(self)@.attachment_updated(
                    slot(key),
                    old(self)@.attachments[slot(key)].fence_saved(session_id, fence),
                )
                    == Ok::<CatalogView, CatalogError>(final(self)@),
                Err(error) => old(self)@.attachment_updated(
                    slot(key),
                    old(self)@.attachments[slot(key)].fence_saved(session_id, fence),
                )
                    == Err::<CatalogView, CatalogError>(error) && final(self)@ == old(self)@,
            },
    {
        proof { use_type_invariant(&*self); }
        let slot = slot_number(key);
        let mut record = match self.rows.find_attachment(slot) {
            Some(row) => row.clone(),
            None => {
                return Err(CatalogError::AttachmentNotFound);
            },
        };
        if record.session_id() != session_id {
            return Err(CatalogError::AttachmentChanged);
        }
        match record.granted_fence() {
            Some(saved) => {
                if saved != fence {
                    return Err(CatalogError::AttachmentFenceChanged);
                }
                proof { assert(self@.with_attachment(slot, record@) =~= self@); }
            },
            None => {
                record.set_granted_fence(fence);
                self.put_attachment(slot, record);
            },
        }
        Ok(())
    }

    /// Advances one session and all of its saved local resources together.
    pub fn advance_attachment_fence(
        &mut self,
        key: ReplicaKey,
        session_id: DriverSessionId,
        expected: FenceEpoch,
        next: FenceEpoch,
    ) -> (out: Result<(), CatalogError>)
        ensures
            final(self)@.is_consistent(),
            next.value() <= expected.value() ==> out == Err::<(), CatalogError>(
                CatalogError::AttachmentFenceChanged,
            ) && final(self)@ == old(self)@,
            next.value() > expected.value() ==> match out {
                Ok(()) => old(self)@.attachment_updated(
                    slot(key),
                    old(self)@.attachments[slot(key)].fence_advanced(session_id, expected, next),
                )
                    == Ok::<CatalogView, CatalogError>(final(self)@),
                Err(error) => old(self)@.attachment_updated(
                    slot(key),
                    old(self)@.attachments[slot(key)].fence_advanced(session_id, expected, next),
                )
                    == Err::<CatalogView, CatalogError>(error) && final(self)@ == old(self)@,
            },
    {
        proof { use_type_invariant(&*self); }
        if next.get() <= expected.get() {
            return Err(CatalogError::AttachmentFenceChanged);
        }
        let slot = slot_number(key);
        let mut record = match self.rows.find_attachment(slot) {
            Some(row) => row.clone(),
            None => {
                return Err(CatalogError::AttachmentNotFound);
            },
        };
        if record.session_id() != session_id {
            return Err(CatalogError::AttachmentChanged);
        }
        let current = match record.granted_fence() {
            Some(current) => current,
            None => {
                return Err(CatalogError::AttachmentFenceChanged);
            },
        };
        if current == next {
            proof { assert(self@.with_attachment(slot, record@) =~= self@); }
            return check_attachment_resource_fence(&record, next);
        }
        if current != expected {
            return Err(CatalogError::AttachmentFenceChanged);
        }
        match check_attachment_resource_fence(&record, expected) {
            Err(error) => {
                return Err(error);
            },
            Ok(()) => {},
        }
        record.set_granted_fence(next);
        record.set_ublk_device_fence(next);
        let moved = match record.volume_mount() {
            Some(mount) => Some(mount.with_fence(next)),
            None => None,
        };
        if let Some(mount) = moved {
            record.set_volume_mount(mount);
        }
        self.put_attachment(slot, record);
        Ok(())
    }

    /// Records a larger descriptor after device mapper proves it active.
    pub fn advance_attachment_capacity(
        &mut self,
        key: ReplicaKey,
        target: VolumeDescriptor,
    ) -> (out: Result<(), CatalogError>)
        ensures
            final(self)@.is_consistent(),
            match out {
                Ok(()) => old(self)@.attachment_grown(slot(key), target)
                    == Ok::<CatalogView, CatalogError>(final(self)@),
                Err(error) => old(self)@.attachment_grown(slot(key), target)
                    == Err::<CatalogView, CatalogError>(error) && final(self)@ == old(self)@,
            },
    {
        proof { use_type_invariant(&*self); }
        let slot = slot_number(key);
        let replica = match self.rows.find_replica(slot) {
            Some(row) => *row.descriptor(),
            None => {
                return Err(CatalogError::ReplicaNotFound);
            },
        };
        let mut attachment = match self.rows.find_attachment(slot) {
            Some(row) => row.clone(),
            None => {
                return Err(CatalogError::AttachmentNotFound);
            },
        };
        let saved = *attachment.descriptor();
        if !saved.has_same_storage_identity(&target) || !replica.has_same_storage_identity(
            &target,
        ) {
            return Err(CatalogError::AttachmentChanged);
        }
        if target.capacity().bytes() < saved.capacity().bytes() {
            return Err(CatalogError::CapacityCannotShrink);
        }
        if target.capacity().bytes() > replica.capacity().bytes() {
            return Err(CatalogError::CapacityExceedsReservation);
        }
        if target.capacity().bytes() > saved.capacity().bytes() && !has_capacity(
            attachment.ublk_devices(),
            target.capacity(),
        ) {
            return Err(CatalogError::UblkDeviceChanged);
        }
        attachment.set_descriptor(target);
        self.put_attachment(slot, attachment);
        Ok(())
    }

    /// Checks that the replica can carry a device of the capacity.
    fn check_device_capacity(&self, key: Slot, device: SavedUblkDevice) -> (out: Result<
        (),
        CatalogError,
    >)
        ensures
            match out {
                Ok(()) => self@.device_error(key, device) is None,
                Err(error) => self@.device_error(key, device) == Some(error),
            },
    {
        let replica = match self.rows.find_replica(key) {
            Some(row) => *row.descriptor(),
            None => {
                return Err(CatalogError::ReplicaNotFound);
            },
        };
        match replica.with_capacity(device.capacity()) {
            Ok(_) => {},
            Err(error) => {
                return Err(CatalogError::Descriptor(error));
            },
        }
        if device.capacity().bytes() > replica.capacity().bytes() {
            return Err(CatalogError::CapacityExceedsReservation);
        }
        Ok(())
    }

    /// Saves one active ublk device without replacing a different device.
    pub fn save_ublk_device(&mut self, key: ReplicaKey, device: SavedUblkDevice) -> (out: Result<
        (),
        CatalogError,
    >)
        ensures
            final(self)@.is_consistent(),
            match out {
                Ok(()) => old(self)@.device_saved(slot(key), device)
                    == Ok::<CatalogView, CatalogError>(final(self)@),
                Err(error) => old(self)@.device_saved(slot(key), device)
                    == Err::<CatalogView, CatalogError>(error) && final(self)@ == old(self)@,
            },
    {
        proof { use_type_invariant(&*self); }
        match self.check_device_capacity(slot_number(key), device) {
            Err(error) => {
                return Err(error);
            },
            Ok(()) => {},
        }
        let slot = slot_number(key);
        let mut record = match self.rows.find_attachment(slot) {
            Some(row) => row.clone(),
            None => {
                return Err(CatalogError::AttachmentNotFound);
            },
        };
        match check_device_fence(&record, device) {
            Err(error) => {
                return Err(error);
            },
            Ok(()) => {},
        }
        if holds_device(record.ublk_devices(), device) {
            proof { assert(self@.with_attachment(slot, record@) =~= self@); }
            return Ok(());
        }
        if record.ublk_devices().len() >= 2 || has_clash(record.ublk_devices(), None, device) {
            return Err(CatalogError::UblkDeviceChanged);
        }
        let ghost before = record@.ublk_devices;
        record.add_ublk_device(device);
        proof {
            let pushed = before.push(device);
            let more = record@.ublk_devices;
            lemma_ordered_elements(pushed);
            assert forall|i: int| #![trigger more[i]] 0 <= i < more.len() implies before.contains(
                more[i],
            ) || more[i] == device by {
                assert(more.contains(more[i]));
                let k = pushed.index_of(more[i]);
                if k < before.len() {
                    assert(before[k] == more[i]);
                }
            }
            lemma_fit_from(before, more, self@.replicas[slot].descriptor);
        }
        self.put_attachment(slot, record);
        Ok(())
    }

    /// Replaces one exact saved device after the old kernel device disappeared.
    pub fn replace_ublk_device(
        &mut self,
        key: ReplicaKey,
        expected: SavedUblkDevice,
        device: SavedUblkDevice,
    ) -> (out: Result<(), CatalogError>)
        ensures
            final(self)@.is_consistent(),
            match out {
                Ok(()) => old(self)@.device_replaced(slot(key), expected, device)
                    == Ok::<CatalogView, CatalogError>(final(self)@),
                Err(error) => old(self)@.device_replaced(slot(key), expected, device)
                    == Err::<CatalogView, CatalogError>(error) && final(self)@ == old(self)@,
            },
    {
        proof { use_type_invariant(&*self); }
        match self.check_device_capacity(slot_number(key), device) {
            Err(error) => {
                return Err(error);
            },
            Ok(()) => {},
        }
        let slot = slot_number(key);
        let mut record = match self.rows.find_attachment(slot) {
            Some(row) => row.clone(),
            None => {
                return Err(CatalogError::AttachmentNotFound);
            },
        };
        match check_device_fence(&record, device) {
            Err(error) => {
                return Err(error);
            },
            Ok(()) => {},
        }
        if holds_device(record.ublk_devices(), device) {
            proof { assert(self@.with_attachment(slot, record@) =~= self@); }
            return Ok(());
        }
        if !holds_device(record.ublk_devices(), expected) || has_clash(
            record.ublk_devices(),
            Some(expected),
            device,
        ) {
            return Err(CatalogError::UblkDeviceChanged);
        }
        let mismatch = match record.volume_mount() {
            Some(mount) => device.fence() != mount.fence() || device.session_id()
                != mount.session_id(),
            None => false,
        };
        if mismatch {
            return Err(CatalogError::VolumeMountDeviceMismatch);
        }
        let ghost before = record@.ublk_devices;
        record.replace_ublk_device(expected, device);
        proof {
            let swapped = replaced(before, expected, device);
            let more = record@.ublk_devices;
            lemma_replaced_elements(before, expected, device);
            lemma_ordered_elements(swapped);
            assert forall|i: int| #![trigger more[i]] 0 <= i < more.len() implies before.contains(
                more[i],
            ) || more[i] == device by {
                assert(more.contains(more[i]));
                let k = swapped.index_of(more[i]);
                assert(swapped[k] == more[i]);
                assert(before.contains(before[k]));
            }
            lemma_fit_from(before, more, self@.replicas[slot].descriptor);
        }
        self.put_attachment(slot, record);
        Ok(())
    }

    /// Clears one exact saved device after it is no longer in the kernel.
    pub fn clear_ublk_device(&mut self, key: ReplicaKey, expected: SavedUblkDevice) -> (out:
        Result<(), CatalogError>)
        ensures
            final(self)@.is_consistent(),
            match out {
                Ok(()) => old(self)@.attachment_updated(
                    slot(key),
                    old(self)@.attachments[slot(key)].device_cleared(expected),
                )
                    == Ok::<CatalogView, CatalogError>(final(self)@),
                Err(error) => old(self)@.attachment_updated(
                    slot(key),
                    old(self)@.attachments[slot(key)].device_cleared(expected),
                )
                    == Err::<CatalogView, CatalogError>(error) && final(self)@ == old(self)@,
            },
    {
        proof { use_type_invariant(&*self); }
        let slot = slot_number(key);
        let mut record = match self.rows.find_attachment(slot) {
            Some(row) => row.clone(),
            None => {
                return Err(CatalogError::AttachmentNotFound);
            },
        };
        if !holds_device(record.ublk_devices(), expected) {
            if record.ublk_devices().len() != 0 {
                return Err(CatalogError::UblkDeviceChanged);
            }
            proof { assert(self@.with_attachment(slot, record@) =~= self@); }
            return Ok(());
        }
        if record.volume_mount().is_some() && (record.ublk_devices().len() == 1
            || expected.capacity() == record.descriptor().capacity()) {
            return Err(CatalogError::VolumeMountDeviceMismatch);
        }
        let ghost before = record@.ublk_devices;
        record.remove_ublk_device(expected);
        proof {
            let more = record@.ublk_devices;
            lemma_without_elements(before, expected);
            assert forall|i: int| #![trigger more[i]] 0 <= i < more.len() implies before.contains(
                more[i],
            ) by {
                assert(more.contains(more[i]));
            }
            lemma_fit_from(before, more, self@.replicas[slot].descriptor);
        }
        self.put_attachment(slot, record);
        Ok(())
    }

    /// Saves one mount only for the matching durable attachment.
    pub fn save_volume_mount(&mut self, key: ReplicaKey, volume_mount: SavedVolumeMount) -> (out:
        Result<(), CatalogError>)
        ensures
            final(self)@.is_consistent(),
            match out {
                Ok(()) => old(self)@.attachment_updated(
                    slot(key),
                    old(self)@.attachments[slot(key)].mount_saved(volume_mount@),
                )
                    == Ok::<CatalogView, CatalogError>(final(self)@),
                Err(error) => old(self)@.attachment_updated(
                    slot(key),
                    old(self)@.attachments[slot(key)].mount_saved(volume_mount@),
                )
                    == Err::<CatalogView, CatalogError>(error) && final(self)@ == old(self)@,
            },
    {
        proof { use_type_invariant(&*self); }
        let slot = slot_number(key);
        let mut record = match self.rows.find_attachment(slot) {
            Some(row) => row.clone(),
            None => {
                return Err(CatalogError::AttachmentNotFound);
            },
        };
        if volume_mount.filesystem_expanded_to_bytes() > record.descriptor().capacity().bytes() {
            return Err(CatalogError::FilesystemCapacityExceedsDevice);
        }
        if !has_session(record.ublk_devices(), &volume_mount) {
            return Err(CatalogError::VolumeMountDeviceMismatch);
        }
        let saved = match record.volume_mount() {
            Some(saved) => {
                if !saved.same(&volume_mount) {
                    return Err(CatalogError::VolumeMountChanged);
                }
                true
            },
            None => false,
        };
        if saved {
            proof { assert(self@.with_attachment(slot, record@) =~= self@); }
            return Ok(());
        }
        if volume_mount.state() != SavedMountState::Mounting {
            return Err(CatalogError::VolumeMountChanged);
        }
        record.set_volume_mount(volume_mount);
        self.put_attachment(slot, record);
        Ok(())
    }

    /// Replaces one exact saved mount after its next local step completes.
    pub fn replace_volume_mount(
        &mut self,
        key: ReplicaKey,
        expected: &SavedVolumeMount,
        volume_mount: SavedVolumeMount,
    ) -> (out: Result<(), CatalogError>)
        ensures
            final(self)@.is_consistent(),
            match out {
                Ok(()) => old(self)@.attachment_updated(
                    slot(key),
                    old(self)@.attachments[slot(key)].mount_replaced(expected@, volume_mount@),
                )
                    == Ok::<CatalogView, CatalogError>(final(self)@),
                Err(error) => old(self)@.attachment_updated(
                    slot(key),
                    old(self)@.attachments[slot(key)].mount_replaced(expected@, volume_mount@),
                )
                    == Err::<CatalogView, CatalogError>(error) && final(self)@ == old(self)@,
            },
    {
        proof { use_type_invariant(&*self); }
        let slot = slot_number(key);
        let mut record = match self.rows.find_attachment(slot) {
            Some(row) => row.clone(),
            None => {
                return Err(CatalogError::AttachmentNotFound);
            },
        };
        let exact = match record.volume_mount() {
            Some(saved) => saved.same(expected),
            None => false,
        };
        if !exact || !expected.can_advance_to(&volume_mount) {
            return Err(CatalogError::VolumeMountChanged);
        }
        if volume_mount.filesystem_expanded_to_bytes() > record.descriptor().capacity().bytes() {
            return Err(CatalogError::FilesystemCapacityExceedsDevice);
        }
        if !has_session(record.ublk_devices(), &volume_mount) {
            return Err(CatalogError::VolumeMountDeviceMismatch);
        }
        if volume_mount.state() == SavedMountState::Unmounting {
            record.begin_detach();
        }
        record.set_volume_mount(volume_mount);
        self.put_attachment(slot, record);
        Ok(())
    }

    /// Clears one exact saved mount after the kernel mount was removed.
    pub fn clear_volume_mount(&mut self, key: ReplicaKey, expected: &SavedVolumeMount) -> (out:
        Result<(), CatalogError>)
        ensures
            final(self)@.is_consistent(),
            match out {
                Ok(()) => old(self)@.attachment_updated(
                    slot(key),
                    old(self)@.attachments[slot(key)].mount_cleared(expected@),
                )
                    == Ok::<CatalogView, CatalogError>(final(self)@),
                Err(error) => old(self)@.attachment_updated(
                    slot(key),
                    old(self)@.attachments[slot(key)].mount_cleared(expected@),
                )
                    == Err::<CatalogView, CatalogError>(error) && final(self)@ == old(self)@,
            },
    {
        proof { use_type_invariant(&*self); }
        let slot = slot_number(key);
        let mut record = match self.rows.find_attachment(slot) {
            Some(row) => row.clone(),
            None => {
                return Err(CatalogError::AttachmentNotFound);
            },
        };
        let saved = match record.volume_mount() {
            Some(saved) => {
                if !saved.same(expected) {
                    return Err(CatalogError::VolumeMountChanged);
                }
                true
            },
            None => false,
        };
        if !saved {
            proof { assert(self@.with_attachment(slot, record@) =~= self@); }
            return Ok(());
        }
        record.clear_volume_mount();
        self.put_attachment(slot, record);
        Ok(())
    }

    /// Removes an empty attachment after its mount and device are gone.
    pub fn remove_attachment(&mut self, key: ReplicaKey, session_id: DriverSessionId) -> (out:
        Result<(), CatalogError>)
        ensures
            final(self)@.is_consistent(),
            match out {
                Ok(()) => old(self)@.attachment_removed(slot(key), session_id)
                    == Ok::<CatalogView, CatalogError>(final(self)@),
                Err(error) => old(self)@.attachment_removed(slot(key), session_id)
                    == Err::<CatalogView, CatalogError>(error) && final(self)@ == old(self)@,
            },
    {
        proof { use_type_invariant(&*self); }
        let slot = slot_number(key);
        if let Some(record) = self.rows.find_attachment(slot) {
            if record.session_id() != session_id {
                return Err(CatalogError::AttachmentChanged);
            }
            if record.ublk_devices().len() != 0 || record.volume_mount().is_some() {
                return Err(CatalogError::AttachmentStillActive);
            }
        } else {
            return Ok(());
        }
        self.drop_attachment(slot);
        Ok(())
    }
}

} // verus!
