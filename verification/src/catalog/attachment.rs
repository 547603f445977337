//! Durable local ownership of a writer session and its kernel resources.

use vstd::prelude::*;

use super::model::{MountView, ReplicaKey, SavedUblkDevice, SavedVolumeMount};
use crate::volume::descriptor::VolumeDescriptor;
use crate::volume::identity::{DriverSessionId, FenceEpoch};

verus! {

/// The devices stand in the order of their kernel numbers.
pub open spec fn is_device_order(devices: Seq<SavedUblkDevice>) -> bool {
    forall|i: int, j: int|
        #![trigger devices[i], devices[j]]
        0 <= i < j < devices.len() ==> devices[i].id_of().value() <= devices[j].id_of().value()
}

/// Place of a device among ordered ones: behind all whose number is not larger.
pub open spec fn place_of(devices: Seq<SavedUblkDevice>, device: SavedUblkDevice) -> int
    decreases devices.len(),
{
    if devices.len() == 0 || devices.last().id_of().value() <= device.id_of().value() {
        devices.len() as int
    } else {
        place_of(devices.drop_last(), device)
    }
}

/// The devices in the order of their kernel numbers, equal ones as they came.
pub open spec fn ordered(devices: Seq<SavedUblkDevice>) -> Seq<SavedUblkDevice>
    decreases devices.len(),
{
    if devices.len() == 0 {
        Seq::empty()
    } else {
        let rest = ordered(devices.drop_last());
        rest.insert(place_of(rest, devices.last()), devices.last())
    }
}

/// A place lies within the list.
proof fn lemma_place(devices: Seq<SavedUblkDevice>, device: SavedUblkDevice)
    ensures
        0 <= place_of(devices, device) <= devices.len(),
        forall|k: int|
            #![trigger devices[k]]
            place_of(devices, device) <= k < devices.len() ==> devices[k].id_of().value()
                > device.id_of().value(),
        place_of(devices, device) > 0 ==> devices[place_of(devices, device) - 1].id_of().value()
            <= device.id_of().value(),
    decreases devices.len(),
{
    if devices.len() > 0 && devices.last().id_of().value() > device.id_of().value() {
        lemma_place(devices.drop_last(), device);
        assert forall|k: int|
            #![trigger devices[k]]
            place_of(devices, device) <= k < devices.len() implies devices[k].id_of().value()
            > device.id_of().value() by {
            if k < devices.len() - 1 {
                assert(devices.drop_last()[k] == devices[k]);
            }
        }
    }
}

/// Ordering gives a list in the order of the kernel numbers that holds the same devices.
pub proof fn law_ordered_devices(devices: Seq<SavedUblkDevice>)
    ensures
        is_device_order(ordered(devices)),
        ordered(devices).to_multiset() == devices.to_multiset(),
        ordered(devices).len() == devices.len(),
    decreases devices.len(),
{
    if devices.len() > 0 {
        let rest = ordered(devices.drop_last());
        let last = devices.last();
        let at = place_of(rest, last);
        law_ordered_devices(devices.drop_last());
        lemma_place(rest, last);
        vstd::seq_lib::to_multiset_insert(rest, at, last);
        vstd::seq_lib::to_multiset_build(devices.drop_last(), last);
        assert(devices.drop_last().push(last) =~= devices);
        let whole = ordered(devices);
        assert forall|i: int, j: int|
            #![trigger whole[i], whole[j]]
            0 <= i < j < whole.len() implies whole[i].id_of().value() <= whole[j].id_of().value() by {
            let x = if i < at { i } else { i - 1 };
            let y = if j < at { j } else { j - 1 };
            if i != at {
                assert(whole[i] == rest[x]);
            }
            if j != at {
                assert(whole[j] == rest[y]);
            }
            if j == at {
                assert(rest[x].id_of().value() <= rest[at - 1].id_of().value());
            }
        }
    } else {
        assert(ordered(devices) =~= devices);
    }
}

/// Ordering keeps the devices, and keeps them distinct.
pub proof fn lemma_ordered_elements(devices: Seq<SavedUblkDevice>)
    ensures
        ordered(devices).len() == devices.len(),
        forall|device: SavedUblkDevice| #[trigger]
            ordered(devices).contains(device) <==> devices.contains(device),
        devices.no_duplicates() ==> ordered(devices).no_duplicates(),
    decreases devices.len(),
{
    if devices.len() > 0 {
        let shorter = devices.drop_last();
        let rest = ordered(shorter);
        let last = devices.last();
        let at = place_of(rest, last);
        let whole = ordered(devices);
        lemma_ordered_elements(shorter);
        lemma_place(rest, last);
        assert forall|device: SavedUblkDevice| #[trigger]
            whole.contains(device) <==> devices.contains(device) by {
            if whole.contains(device) {
                let k = whole.index_of(device);
                if k == at {
                    assert(devices[devices.len() - 1] == device);
                } else {
                    assert(rest[if k < at { k } else { k - 1 }] == device);
                    assert(rest.contains(device));
                    assert(devices[shorter.index_of(device)] == device);
                }
            }
            if devices.contains(device) {
                let k = devices.index_of(device);
                if k == devices.len() - 1 {
                    assert(whole[at] == device);
                } else {
                    assert(shorter[k] == device);
                    assert(rest.contains(device));
                    let n = rest.index_of(device);
                    assert(whole[if n < at { n } else { n + 1 }] == device);
                }
            }
        }
        if devices.no_duplicates() {
            assert forall|i: int, j: int|
                0 <= i < shorter.len() && 0 <= j < shorter.len() && i != j implies shorter[i]
                != shorter[j] by {
                assert(devices[i] != devices[j]);
            }
            assert(!rest.contains(last)) by {
                if rest.contains(last) {
                    assert(shorter.contains(last));
                    let k = shorter.index_of(last);
                    assert(devices[k] != devices[devices.len() - 1]);
                }
            }
            assert forall|i: int, j: int|
                0 <= i < whole.len() && 0 <= j < whole.len() && i != j implies whole[i]
                != whole[j] by {
                let x = if i < at { i } else { i - 1 };
                let y = if j < at { j } else { j - 1 };
                if i != at {
                    assert(whole[i] == rest[x]);
                    assert(rest.contains(rest[x]));
                }
                if j != at {
                    assert(whole[j] == rest[y]);
                    assert(rest.contains(rest[y]));
                }
            }
        }
    } else {
        assert(ordered(devices) =~= devices);
    }
}

/// Returns the devices in the order of their kernel numbers.
fn sort_devices(devices: &Vec<SavedUblkDevice>) -> (out: Vec<SavedUblkDevice>)
    ensures
        out@ == ordered(devices@),
{
    let mut out: Vec<SavedUblkDevice> = Vec::new();
    let mut i: usize = 0;
    proof { assert(devices@.take(0) =~= Seq::<SavedUblkDevice>::empty()); }
    while i < devices.len()
        invariant
            i <= devices.len(),
            out@ == ordered(devices@.take(i as int)),
        decreases devices.len() - i,
    {
        let device = devices[i];
        let mut at: usize = out.len();
        proof {
            assert(out@.take(out@.len() as int) =~= out@);
            assert(devices@.take(i + 1).drop_last() =~= devices@.take(i as int));
            assert(devices@.take(i + 1).last() == device);
        }
        while at > 0 && out[at - 1].id().get() > device.id().get()
            invariant
                at <= out@.len(),
                place_of(out@.take(at as int), device) == place_of(out@, device),
            decreases at,
        {
            proof { assert(out@.take(at as int).drop_last() =~= out@.take(at - 1)); }
            at -= 1;
        }
        proof {
            if at > 0 {
                assert(out@.take(at as int).last() == out@[at - 1]);
            }
        }
        out.insert(at, device);
        i += 1;
    }
    proof { assert(devices@.take(devices@.len() as int) =~= devices@); }
    out
}

/// Returns whether the list holds the device.
pub fn holds_device(devices: &[SavedUblkDevice], device: SavedUblkDevice) -> (out: bool)
    ensures
        out == devices@.contains(device),
{
    let mut i: usize = 0;
    while i < devices.len()
        invariant
            i <= devices@.len(),
            forall|k: int| 0 <= k < i ==> devices@[k] != device,
        decreases devices@.len() - i,
    {
        if devices[i] == device {
            return true;
        }
        i += 1;
    }
    false
}

/// The list with the first occurrence of a device replaced.
pub open spec fn replaced(
    devices: Seq<SavedUblkDevice>,
    expected: SavedUblkDevice,
    device: SavedUblkDevice,
) -> Seq<SavedUblkDevice>
    decreases devices.len(),
{
    if devices.len() == 0 {
        devices
    } else if devices.drop_last().contains(expected) {
        replaced(devices.drop_last(), expected, device).push(devices.last())
    } else if devices.last() == expected {
        devices.drop_last().push(device)
    } else {
        devices
    }
}

/// The devices that are not a given one.
pub open spec fn without_device(
    devices: Seq<SavedUblkDevice>,
    expected: SavedUblkDevice,
) -> Seq<SavedUblkDevice> {
    devices.filter(|saved: SavedUblkDevice| saved != expected)
}

/// Replacing a device puts the new one in and leaves the others.
pub proof fn lemma_replaced_elements(
    devices: Seq<SavedUblkDevice>,
    expected: SavedUblkDevice,
    device: SavedUblkDevice,
)
    ensures
        replaced(devices, expected, device).len() == devices.len(),
        forall|i: int|
            #![trigger replaced(devices, expected, device)[i]]
            0 <= i < devices.len() ==> replaced(devices, expected, device)[i] == devices[i] || (
            replaced(devices, expected, device)[i] == device && devices[i] == expected),
        devices.contains(expected) ==> replaced(devices, expected, device).contains(device),
        devices.no_duplicates() && !devices.contains(device) ==> replaced(
            devices,
            expected,
            device,
        ).no_duplicates(),
    decreases devices.len(),
{
    let after = replaced(devices, expected, device);
    if devices.len() > 0 {
        let rest = devices.drop_last();
        lemma_replaced_elements(rest, expected, device);
        assert forall|i: int| #![trigger after[i]] 0 <= i < devices.len() implies after[i]
            == devices[i] || (after[i] == device && devices[i] == expected) by {
            if i < rest.len() {
                assert(rest[i] == devices[i]);
                if rest.contains(expected) {
                    assert(after[i] == replaced(rest, expected, device)[i]);
                }
            }
        }
        if devices.contains(expected) {
            if rest.contains(expected) {
                let k = replaced(rest, expected, device).index_of(device);
                assert(after[k] == device);
            } else {
                let k = devices.index_of(expected);
                if k < rest.len() {
                    assert(rest[k] == expected);
                }
                assert(after[rest.len() as int] == device);
            }
        }
        if devices.no_duplicates() && !devices.contains(device) {
            assert forall|i: int, j: int|
                0 <= i < after.len() && 0 <= j < after.len() && i != j implies after[i]
                != after[j] by {
                assert(devices.contains(devices[i]) && devices.contains(devices[j]));
                assert(devices[i] != devices[j]);
            }
        }
    }
}

/// Clearing a device leaves the others in their order.
pub proof fn lemma_without_elements(devices: Seq<SavedUblkDevice>, expected: SavedUblkDevice)
    ensures
        forall|device: SavedUblkDevice| #[trigger]
            without_device(devices, expected).contains(device) <==> devices.contains(device)
                && device != expected,
        is_device_order(devices) ==> is_device_order(without_device(devices, expected)),
        devices.no_duplicates() ==> without_device(devices, expected).no_duplicates(),
    decreases devices.len(),
{
    let keep = |saved: SavedUblkDevice| saved != expected;
    let after = without_device(devices, expected);
    reveal(Seq::filter);
    if devices.len() > 0 {
        let rest = devices.drop_last();
        let last = devices.last();
        let kept = without_device(rest, expected);
        lemma_without_elements(rest, expected);
        assert(after == if last != expected { kept.push(last) } else { kept });
        assert forall|device: SavedUblkDevice| #[trigger]
            after.contains(device) <==> devices.contains(device) && device != expected by {
            if after.contains(device) {
                let k = after.index_of(device);
                if k < kept.len() {
                    assert(kept[k] == device);
                    assert(kept.contains(device));
                    assert(devices[rest.index_of(device)] == device);
                } else {
                    assert(devices[rest.len() as int] == device);
                }
            }
            if devices.contains(device) && device != expected {
                let k = devices.index_of(device);
                if k < rest.len() {
                    assert(rest[k] == device);
                    assert(kept.contains(device));
                    assert(after[kept.index_of(device)] == device);
                } else {
                    assert(after[kept.len() as int] == device);
                }
            }
        }
        if is_device_order(devices) {
            assert(is_device_order(rest)) by {
                assert forall|i: int, j: int|
                    #![trigger rest[i], rest[j]]
                    0 <= i < j < rest.len() implies rest[i].id_of().value() <= rest[j].id_of().value() by {
                    assert(devices[i] == rest[i] && devices[j] == rest[j]);
                }
            }
            assert forall|i: int, j: int|
                #![trigger after[i], after[j]]
                0 <= i < j < after.len() implies after[i].id_of().value() <= after[j].id_of().value() by {
                assert(after[i] == kept[i]);
                if j < kept.len() {
                    assert(after[j] == kept[j]);
                } else {
                    assert(kept.contains(kept[i]));
                    let k = rest.index_of(kept[i]);
                    assert(devices[k] == kept[i] && devices[rest.len() as int] == last);
                }
            }
        }
        if devices.no_duplicates() {
            assert forall|i: int, j: int|
                0 <= i < rest.len() && 0 <= j < rest.len() && i != j implies rest[i]
                != rest[j] by {
                assert(devices[i] != devices[j]);
            }
            assert(!kept.contains(last)) by {
                if kept.contains(last) {
                    assert(rest.contains(last));
                    let k = rest.index_of(last);
                    assert(devices[k] != devices[rest.len() as int]);
                }
            }
            assert forall|i: int, j: int|
                0 <= i < after.len() && 0 <= j < after.len() && i != j implies after[i]
                != after[j] by {
                if i < kept.len() {
                    assert(kept.contains(kept[i]));
                }
                if j < kept.len() {
                    assert(kept.contains(kept[j]));
                }
            }
        }
    } else {
        assert(after =~= devices);
    }
}

/// Durable local ownership of one writer session and its kernel resources.
#[derive(Debug, PartialEq, Eq)]
pub struct LocalAttachmentRecord {
    descriptor: VolumeDescriptor,
    session_id: DriverSessionId,
    granted_fence: Option<FenceEpoch>,
    ublk_devices: Vec<SavedUblkDevice>,
    volume_mount: Option<SavedVolumeMount>,
    detaching: bool,
}

/// Model of an attachment record.
pub struct AttachmentView {
    pub descriptor: VolumeDescriptor,
    pub session_id: DriverSessionId,
    pub granted_fence: Option<FenceEpoch>,
    pub ublk_devices: Seq<SavedUblkDevice>,
    pub volume_mount: Option<MountView>,
    pub detaching: bool,
}

/// Model of an optional mount.
pub open spec fn mount_view(mount: Option<SavedVolumeMount>) -> Option<MountView> {
    match mount {
        Some(mount) => Some(mount@),
        None => None,
    }
}

impl View for LocalAttachmentRecord {
    type V = AttachmentView;

    closed spec fn view(&self) -> AttachmentView {
        AttachmentView {
            descriptor: self.descriptor,
            session_id: self.session_id,
            granted_fence: self.granted_fence,
            ublk_devices: self.ublk_devices@,
            volume_mount: mount_view(self.volume_mount),
            detaching: self.detaching,
        }
    }
}

impl Clone for LocalAttachmentRecord {
    fn clone(&self) -> (out: Self)
        ensures
            out@ == self@,
    {
        let mut devices: Vec<SavedUblkDevice> = Vec::new();
        let mut i: usize = 0;
        while i < self.ublk_devices.len()
            invariant
                i <= self.ublk_devices.len(),
                devices@ == self.ublk_devices@.take(i as int),
            decreases self.ublk_devices.len() - i,
        {
            devices.push(self.ublk_devices[i]);
            i += 1;
        }
        proof { assert(devices@ =~= self.ublk_devices@); }
        LocalAttachmentRecord {
            descriptor: self.descriptor,
            session_id: self.session_id,
            granted_fence: self.granted_fence,
            ublk_devices: devices,
            volume_mount: match &self.volume_mount {
                Some(mount) => Some(mount.clone()),
                None => None,
            },
            detaching: self.detaching,
        }
    }
}

/// Every device with the given fence.
pub open spec fn refenced(
    devices: Seq<SavedUblkDevice>,
    fence: FenceEpoch,
) -> Seq<SavedUblkDevice> {
    devices.map_values(|device: SavedUblkDevice| device.fenced(fence))
}

impl LocalAttachmentRecord {
    /// Saves a session before requesting distributed writer grant.
    pub fn new(descriptor: VolumeDescriptor, session_id: DriverSessionId) -> (out: Self)
        ensures
            out@ == (AttachmentView {
                descriptor,
                session_id,
                granted_fence: None,
                ublk_devices: Seq::empty(),
                volume_mount: None,
                detaching: false,
            }),
    {
        LocalAttachmentRecord {
            descriptor,
            session_id,
            granted_fence: None,
            ublk_devices: Vec::new(),
            volume_mount: None,
            detaching: false,
        }
    }

    /// Returns the catalog key for this attachment.
    pub fn key(&self) -> (out: ReplicaKey)
        ensures
            out == ReplicaKey::key_of(self@.descriptor),
    {
        ReplicaKey::from_descriptor(&self.descriptor)
    }

    /// Returns the descriptor currently used by the mapped device.
    pub fn descriptor(&self) -> (out: &VolumeDescriptor)
        ensures
            *out == self@.descriptor,
    {
        &self.descriptor
    }

    /// Returns the driver session stored before its writer grant was requested.
    pub fn session_id(&self) -> (out: DriverSessionId)
        ensures
            out == self@.session_id,
    {
        self.session_id
    }

    /// Returns the committed fence installed for the session, when granted.
    pub fn granted_fence(&self) -> (out: Option<FenceEpoch>)
        ensures
            out == self@.granted_fence,
    {
        self.granted_fence
    }

    /// Returns every saved ublk device still owned by this attachment.
    pub fn ublk_devices(&self) -> (out: &[SavedUblkDevice])
        ensures
            out@ == self@.ublk_devices,
    {
        self.ublk_devices.as_slice()
    }

    /// Returns the saved mount operation and path, when present.
    pub fn volume_mount(&self) -> (out: Option<&SavedVolumeMount>)
        ensures
            match out {
                Some(mount) => self@.volume_mount == Some(mount@),
                None => self@.volume_mount is None,
            },
    {
        self.volume_mount.as_ref()
    }

    /// Returns whether local cleanup must finish instead of resuming attachment.
    pub fn is_detaching(&self) -> (out: bool)
        ensures
            out == self@.detaching,
    {
        self.detaching
    }

    /// Saves the exact fence committed for this session.
    pub fn set_granted_fence(&mut self, fence: FenceEpoch)
        ensures
            final(self)@ == (AttachmentView { granted_fence: Some(fence), ..old(self)@ }),
    {
        self.granted_fence = Some(fence);
    }

    /// Records the descriptor proven active in the mapped device.
    pub fn set_descriptor(&mut self, descriptor: VolumeDescriptor)
        ensures
            final(self)@ == (AttachmentView { descriptor, ..old(self)@ }),
    {
        self.descriptor = descriptor;
    }

    /// Adds one checked device while preserving deterministic device order.
    pub fn add_ublk_device(&mut self, device: SavedUblkDevice)
        ensures
            final(self)@ == (AttachmentView {
                ublk_devices: if old(self)@.ublk_devices.contains(device) {
                    old(self)@.ublk_devices
                } else {
                    ordered(old(self)@.ublk_devices.push(device))
                },
                ..old(self)@
            }),
    {
        if !holds_device(self.ublk_devices.as_slice(), device) {
            self.ublk_devices.push(device);
            self.ublk_devices = sort_devices(&self.ublk_devices);
        }
    }

    /// Replaces one exact device after its old kernel identity disappeared.
    pub fn replace_ublk_device(&mut self, expected: SavedUblkDevice, device: SavedUblkDevice)
        ensures
            final(self)@ == (AttachmentView {
                ublk_devices: if old(self)@.ublk_devices.contains(expected) {
                    ordered(replaced(old(self)@.ublk_devices, expected, device))
                } else {
                    old(self)@.ublk_devices
                },
                ..old(self)@
            }),
    {
        if !holds_device(self.ublk_devices.as_slice(), expected) {
            return;
        }
        let mut devices: Vec<SavedUblkDevice> = Vec::new();
        let mut done = false;
        let mut i: usize = 0;
        proof {
            assert(self.ublk_devices@.take(0) =~= Seq::<SavedUblkDevice>::empty());
        }
        while i < self.ublk_devices.len()
            invariant
                i <= self.ublk_devices.len(),
                done == self.ublk_devices@.take(i as int).contains(expected),
                devices@ == replaced(self.ublk_devices@.take(i as int), expected, device),
                !done ==> devices@ == self.ublk_devices@.take(i as int),
            decreases self.ublk_devices.len() - i,
        {
            let saved = self.ublk_devices[i];
            proof {
                let longer = self.ublk_devices@.take(i + 1);
                let shorter = self.ublk_devices@.take(i as int);
                assert(longer.drop_last() =~= shorter);
                assert(longer.last() == saved);
                assert(longer =~= shorter.push(saved));
                if shorter.contains(expected) {
                    let k = shorter.index_of(expected);
                    assert(longer[k] == expected);
                }
                if saved == expected {
                    assert(longer[i as int] == expected);
                }
                if longer.contains(expected) && saved != expected {
                    let k = longer.index_of(expected);
                    assert(shorter[k] == expected);
                }
            }
            if !done && saved == expected {
                devices.push(device);
                done = true;
            } else {
                devices.push(saved);
            }
            i += 1;
        }
        proof {
            assert(self.ublk_devices@.take(self.ublk_devices@.len() as int)
                =~= self.ublk_devices@);
        }
        self.ublk_devices = sort_devices(&devices);
    }

    /// Removes one exact device only after its owner reaches terminal cleanup.
    pub fn remove_ublk_device(&mut self, expected: SavedUblkDevice)
        ensures
            final(self)@ == (AttachmentView {
                ublk_devices: without_device(old(self)@.ublk_devices, expected),
                ..old(self)@
            }),
    {
        let ghost before = self.ublk_devices@;
        let mut devices: Vec<SavedUblkDevice> = Vec::new();
        let mut i: usize = 0;
        proof {
            reveal(Seq::filter);
            assert(before.take(0) =~= Seq::<SavedUblkDevice>::empty());
        }
        while i < self.ublk_devices.len()
            invariant
                i <= self.ublk_devices.len(),
                self.ublk_devices@ == before,
                devices@ == without_device(before.take(i as int), expected),
            decreases self.ublk_devices.len() - i,
        {
            let saved = self.ublk_devices[i];
            proof {
                reveal(Seq::filter);
                assert(before.take(i + 1).drop_last() =~= before.take(i as int));
                assert(before.take(i + 1).last() == saved);
            }
            if saved != expected {
                devices.push(saved);
            }
            i += 1;
        }
        proof {
            assert(before.take(before.len() as int) =~= before);
        }
        self.ublk_devices = devices;
    }

    /// Advances every owned device to the same committed writer fence.
    pub fn set_ublk_device_fence(&mut self, fence: FenceEpoch)
        ensures
            final(self)@ == (AttachmentView {
                ublk_devices: refenced(old(self)@.ublk_devices, fence),
                ..old(self)@
            }),
    {
        let ghost before = self.ublk_devices@;
        let mut devices: Vec<SavedUblkDevice> = Vec::new();
        let mut i: usize = 0;
        while i < self.ublk_devices.len()
            invariant
                i <= self.ublk_devices.len(),
                self.ublk_devices@ == before,
                devices@.len() == i,
                forall|k: int|
                    #![trigger devices@[k]]
                    0 <= k < i ==> devices@[k] == before[k].fenced(fence),
            decreases self.ublk_devices.len() - i,
        {
            devices.push(self.ublk_devices[i].with_fence(fence));
            i += 1;
        }
        proof { assert(devices@ =~= refenced(before, fence)); }
        self.ublk_devices = devices;
    }

    /// Saves one restart-safe mount transition.
    pub fn set_volume_mount(&mut self, volume_mount: SavedVolumeMount)
        ensures
            final(self)@ == (AttachmentView {
                volume_mount: Some(volume_mount@),
                ..old(self)@
            }),
    {
        self.volume_mount = Some(volume_mount);
    }

    /// Clears the mount only after kernel and directory cleanup finish.
    pub fn clear_volume_mount(&mut self)
        ensures
            final(self)@ == (AttachmentView { volume_mount: None, ..old(self)@ }),
    {
        self.volume_mount = None;
    }

    /// Makes cleanup intent durable before any cancellable local work.
    pub fn begin_detach(&mut self)
        ensures
            final(self)@ == (AttachmentView { detaching: true, ..old(self)@ }),
    {
        self.detaching = true;
    }
}

} // verus!
