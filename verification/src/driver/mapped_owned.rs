//! Kernel mappings that Mantissa owns: listing, removing and failing them.

use vstd::prelude::*;

use super::mapped_error::{
    copy_text, optional_text, wrong_layout, MappedErrorView, MappedVolumeError,
};
use super::mapped_identity::{
    is_owned_uuid, name_text, uuid_text, BlockDeviceNumber, MappedVolumeIdentity,
};
use super::mapped_tables::{
    is_table_of, lemma_matching, matching, select_saved_linear_layout, selection, table_view,
    RawTarget, SavedLinearLayout, TargetView,
};
use super::mapped_volume::{
    find_own, foreign_error, layout_views, mapping_views, place_of_name, KernelMapping, LayoutView,
    MappedVolumeLayout, MappingView,
};
use crate::catalog::model::ReplicaKey;
use crate::text::{chars_of, decimal_text, push_decimal, push_text, same_text};
use crate::volume::identity::VolumeNodeId;

verus! {

/// One kernel mapping whose exact UUID proves Mantissa ownership.
#[derive(Debug, PartialEq, Eq)]
pub struct OwnedMappedVolume {
    node_id: VolumeNodeId,
    key: ReplicaKey,
    name: String,
    uuid: String,
    device_number: BlockDeviceNumber,
    backend_device_numbers: Vec<BlockDeviceNumber>,
}

/// Model of an owned mapping.
pub struct OwnedView {
    pub node_id: VolumeNodeId,
    pub key: ReplicaKey,
    pub name: Seq<char>,
    pub uuid: Seq<char>,
    pub device_number: BlockDeviceNumber,
    pub backend_device_numbers: Seq<BlockDeviceNumber>,
}

impl View for OwnedMappedVolume {
    type V = OwnedView;

    closed spec fn view(&self) -> OwnedView {
        OwnedView {
            node_id: self.node_id,
            key: self.key,
            name: self.name@,
            uuid: self.uuid@,
            device_number: self.device_number,
            backend_device_numbers: self.backend_device_numbers@,
        }
    }
}

/// One device number stands before another.
pub open spec fn number_less(a: BlockDeviceNumber, b: BlockDeviceNumber) -> bool {
    a.major < b.major || (a.major == b.major && a.minor < b.minor)
}

/// The numbers stand in increasing order, each of them once.
pub open spec fn is_number_order(numbers: Seq<BlockDeviceNumber>) -> bool {
    forall|i: int, j: int|
        #![trigger numbers[i], numbers[j]]
        0 <= i < j < numbers.len() ==> number_less(numbers[i], numbers[j])
}

/// Puts the numbers in increasing order, each of them once.
fn sorted_numbers(numbers: &[BlockDeviceNumber]) -> (out: Vec<BlockDeviceNumber>)
    ensures
        is_number_order(out@),
        out@.to_set() == numbers@.to_set(),
{
    let mut out: Vec<BlockDeviceNumber> = Vec::new();
    let mut i: usize = 0;
    proof {
        assert(out@.to_set() =~= numbers@.take(0).to_set());
    }
    while i < numbers.len()
        invariant
            i <= numbers@.len(),
            is_number_order(out@),
            out@.to_set() == numbers@.take(i as int).to_set(),
        decreases numbers@.len() - i,
    {
        let number = numbers[i];
        let mut at: usize = 0;
        while at < out.len() && (out[at].major < number.major || (out[at].major == number.major
            && out[at].minor < number.minor))
            invariant
                at <= out@.len(),
                forall|k: int| #![trigger out@[k]] 0 <= k < at ==> number_less(out@[k], number),
            decreases out@.len() - at,
        {
            at += 1;
        }
        let ghost before = out@;
        let present = at < out.len() && out[at] == number;
        if !present {
            out.insert(at, number);
        }
        proof {
            let grown = numbers@.take(i + 1);
            let shorter = numbers@.take(i as int);
            assert(grown =~= shorter.push(number));
            assert forall|x: BlockDeviceNumber| grown.to_set().contains(x) == (
            shorter.to_set().contains(x) || x == number) by {
                if shorter.contains(x) {
                    let k = shorter.index_of(x);
                    assert(grown[k] == x);
                }
                if x == number {
                    assert(grown[i as int] == x);
                }
                if grown.contains(x) && x != number {
                    let k = grown.index_of(x);
                    assert(shorter[k] == x);
                }
            }
            if present {
                assert(before[at as int] == number);
                assert(before.contains(number));
                assert(before.to_set().contains(number));
                assert(out@.to_set() =~= grown.to_set());
            } else {
                assert(out@ =~= before.insert(at as int, number));
                assert forall|x: BlockDeviceNumber| out@.to_set().contains(x) == (
                before.to_set().contains(x) || x == number) by {
                    if before.contains(x) {
                        let k = before.index_of(x);
                        if k < at {
                            assert(out@[k] == x);
                        } else {
                            assert(out@[k + 1] == x);
                        }
                    }
                    if x == number {
                        assert(out@[at as int] == x);
                    }
                    if out@.contains(x) && x != number {
                        let k = out@.index_of(x);
                        if k < at {
                            assert(before[k] == x);
                        } else {
                            assert(before[k - 1] == x);
                        }
                    }
                }
                assert(out@.to_set() =~= grown.to_set());
                assert forall|a: int, b: int|
                    #![trigger out@[a], out@[b]]
                    0 <= a < b < out@.len() implies number_less(out@[a], out@[b]) by {
                    let x = if a < at { a } else { a - 1 };
                    let y = if b < at { b } else { b - 1 };
                    if a != at {
                        assert(out@[a] == before[x]);
                    }
                    if b != at {
                        assert(out@[b] == before[y]);
                    }
                    if a == at {
                        assert(!number_less(before[at as int], number));
                        assert(before[at as int] != number);
                        if y > at {
                            assert(number_less(before[at as int], before[y]));
                        }
                    }
                }
            }
        }
        i += 1;
    }
    proof { assert(numbers@.take(numbers@.len() as int) =~= numbers@); }
    out
}

impl OwnedMappedVolume {
    /// Records one mapping with the backends of its active and inactive tables, if its UUID
    /// proves that Mantissa owns it.
    pub fn of_mapping(mapping: &KernelMapping, dependencies: &[BlockDeviceNumber]) -> (out: Option<
        Self,
    >)
        ensures
            match out {
                Some(owned) => {
                    &&& mapping@.uuid == Some(owned@.uuid)
                    &&& is_owned_uuid(owned@.uuid, owned@.node_id, owned@.key)
                    &&& owned@.name == mapping@.name
                    &&& owned@.device_number == mapping@.device_number
                    &&& is_number_order(owned@.backend_device_numbers)
                    &&& owned@.backend_device_numbers.to_set() == dependencies@.to_set()
                },
                None => mapping@.uuid matches Some(uuid) ==> forall|
                    node_id: VolumeNodeId,
                    key: ReplicaKey,
                |
                    !is_owned_uuid(uuid, node_id, key),
            },
    {
        let uuid = match &mapping.uuid {
            Some(uuid) => uuid,
            None => {
                return None;
            },
        };
        match MappedVolumeIdentity::from_uuid(uuid.as_str()) {
            Some(identity) => Some(
                OwnedMappedVolume {
                    node_id: identity.node_id(),
                    key: identity.key(),
                    name: copy_text(mapping.name.as_str()),
                    uuid: copy_text(uuid.as_str()),
                    device_number: mapping.device_number,
                    backend_device_numbers: sorted_numbers(dependencies),
                },
            ),
            None => None,
        }
    }

    /// Returns the local volume node encoded in the device-mapper UUID.
    #[must_use]
    pub fn node_id(&self) -> (out: VolumeNodeId)
        ensures
            out == self@.node_id,
    {
        self.node_id
    }

    /// Returns the volume generation encoded in the device-mapper UUID.
    #[must_use]
    pub fn key(&self) -> (out: ReplicaKey)
        ensures
            out == self@.key,
    {
        self.key
    }

    /// Returns the actual kernel mapping name.
    #[must_use]
    pub fn name(&self) -> (out: &str)
        ensures
            out@ == self@.name,
    {
        self.name.as_str()
    }

    /// Returns the exact ownership UUID read from the kernel.
    #[must_use]
    pub fn uuid(&self) -> (out: &str)
        ensures
            out@ == self@.uuid,
    {
        self.uuid.as_str()
    }

    /// Returns the mapped device's kernel number.
    #[must_use]
    pub fn device_number(&self) -> (out: BlockDeviceNumber)
        ensures
            out == self@.device_number,
    {
        self.device_number
    }

    /// Returns every backend referenced by its active or inactive table.
    #[must_use]
    pub fn backend_device_numbers(&self) -> (out: &[BlockDeviceNumber])
        ensures
            out@ == self@.backend_device_numbers,
    {
        self.backend_device_numbers.as_slice()
    }
}

/// One text stands before another in the order of their characters.
pub open spec fn text_less(a: Seq<char>, b: Seq<char>) -> bool
    decreases a.len(),
{
    if b.len() == 0 {
        false
    } else if a.len() == 0 {
        true
    } else if a[0] != b[0] {
        a[0] < b[0]
    } else {
        text_less(a.drop_first(), b.drop_first())
    }
}

/// Returns whether one text stands before another.
fn is_text_less(a: &str, b: &str) -> (out: bool)
    ensures
        out == text_less(a@, b@),
{
    let left = chars_of(a);
    let right = chars_of(b);
    let mut i: usize = 0;
    proof {
        assert(left@.skip(0) =~= left@);
        assert(right@.skip(0) =~= right@);
    }
    while i < left.len() && i < right.len()
        invariant
            i <= left@.len(),
            i <= right@.len(),
            left@ == a@,
            right@ == b@,
            text_less(a@, b@) == text_less(left@.skip(i as int), right@.skip(i as int)),
        decreases left@.len() - i,
    {
        proof {
            assert(left@.skip(i as int).drop_first() =~= left@.skip(i + 1));
            assert(right@.skip(i as int).drop_first() =~= right@.skip(i + 1));
        }
        if left[i] != right[i] {
            return left[i] < right[i];
        }
        i += 1;
    }
    i < right.len()
}

/// One owned mapping stands before another: by node, volume, generation and name.
pub open spec fn owned_less(a: OwnedView, b: OwnedView) -> bool {
    let x = (a.node_id.value(), a.key.volume().value(), a.key.generation_of().value());
    let y = (b.node_id.value(), b.key.volume().value(), b.key.generation_of().value());
    x.0 < y.0 || (x.0 == y.0 && (x.1 < y.1 || (x.1 == y.1 && (x.2 < y.2 || (x.2 == y.2
        && text_less(a.name, b.name))))))
}

/// Returns whether one owned mapping stands before another.
fn is_owned_less(a: &OwnedMappedVolume, b: &OwnedMappedVolume) -> (out: bool)
    ensures
        out == owned_less(a@, b@),
{
    let left_node: u128 = a.node_id.as_u128();
    let right_node: u128 = b.node_id.as_u128();
    if left_node != right_node {
        return left_node < right_node;
    }
    let left_volume: u128 = a.key.volume_id().as_u128();
    let right_volume: u128 = b.key.volume_id().as_u128();
    if left_volume != right_volume {
        return left_volume < right_volume;
    }
    let left_generation: u64 = a.key.generation().get();
    let right_generation: u64 = b.key.generation().get();
    if left_generation != right_generation {
        return left_generation < right_generation;
    }
    is_text_less(a.name.as_str(), b.name.as_str())
}

/// Owned mappings as plain values.
pub open spec fn owned_views(owned: Seq<OwnedMappedVolume>) -> Seq<OwnedView> {
    owned.map_values(|device: OwnedMappedVolume| device@)
}

/// No mapping stands before an earlier one.
pub open spec fn is_owned_order(owned: Seq<OwnedView>) -> bool {
    forall|i: int, j: int|
        #![trigger owned[i], owned[j]]
        0 <= i < j < owned.len() ==> !owned_less(owned[j], owned[i])
}

/// The order of texts is transitive where it compares differently.
proof fn lemma_text_order(a: Seq<char>, b: Seq<char>, c: Seq<char>)
    ensures
        text_less(a, b) && text_less(b, c) ==> text_less(a, c),
        !text_less(b, a) && !text_less(c, b) ==> !text_less(c, a),
    decreases a.len() + b.len() + c.len(),
{
    if a.len() > 0 && b.len() > 0 && c.len() > 0 {
        lemma_text_order(a.drop_first(), b.drop_first(), c.drop_first());
    }
}

/// Standing not before is transitive.
proof fn lemma_owned_order(a: OwnedView, b: OwnedView, c: OwnedView)
    requires
        !owned_less(b, a),
        !owned_less(c, b),
    ensures
        !owned_less(c, a),
{
    lemma_text_order(a.name, b.name, c.name);
}

/// A mapping that stands before another does not stand behind it.
proof fn lemma_text_asymmetric(a: Seq<char>, b: Seq<char>)
    requires
        text_less(a, b),
    ensures
        !text_less(b, a),
    decreases a.len(),
{
    if a.len() > 0 && b.len() > 0 && a[0] == b[0] {
        lemma_text_asymmetric(a.drop_first(), b.drop_first());
    }
}

/// Puts owned mappings in the order of node, volume, generation and name.
pub fn sort_owned(owned: Vec<OwnedMappedVolume>) -> (out: Vec<OwnedMappedVolume>)
    ensures
        is_owned_order(owned_views(out@)),
        owned_views(out@).to_multiset() == owned_views(owned@).to_multiset(),
{
    let ghost all = owned_views(owned@);
    let mut left = owned;
    let mut out: Vec<OwnedMappedVolume> = Vec::new();
    proof {
        assert(owned_views(out@) =~= Seq::<OwnedView>::empty());
        assert(owned_views(left@) =~= all);
        assert(owned_views(out@).to_multiset().add(owned_views(left@).to_multiset())
            =~= all.to_multiset()) by {
            broadcast use vstd::multiset::group_multiset_axioms;
            broadcast use vstd::seq_lib::group_to_multiset_ensures;

        }
    }
    while left.len() > 0
        invariant
            is_owned_order(owned_views(out@)),
            owned_views(out@).to_multiset().add(owned_views(left@).to_multiset())
                == all.to_multiset(),
        decreases left@.len(),
    {
        let ghost before_left = owned_views(left@);
        let ghost before_out = owned_views(out@);
        let device = match left.pop() {
            Some(device) => device,
            None => {
                return out;
            },
        };
        let mut at: usize = 0;
        while at < out.len() && is_owned_less(&out[at], &device)
            invariant
                at <= out@.len(),
                before_out == owned_views(out@),
                forall|k: int|
                    #![trigger before_out[k]]
                    0 <= k < at ==> owned_less(before_out[k], device@),
            decreases out@.len() - at,
        {
            proof { assert(before_out[at as int] == out@[at as int]@); }
            at += 1;
        }
        proof {
            if at < out@.len() {
                assert(before_out[at as int] == out@[at as int]@);
            }
        }
        let ghost added = device@;
        out.insert(at, device);
        proof {
            let rest = owned_views(left@);
            assert(before_left =~= rest.push(added));
            assert(owned_views(out@) =~= before_out.insert(at as int, added));
            vstd::seq_lib::to_multiset_build(rest, added);
            vstd::seq_lib::to_multiset_insert(before_out, at as int, added);
            assert(owned_views(out@).to_multiset().add(rest.to_multiset()) =~= all.to_multiset())
                by {
                broadcast use vstd::multiset::group_multiset_axioms;

            }
            let whole = owned_views(out@);
            assert forall|i: int, j: int|
                #![trigger whole[i], whole[j]]
                0 <= i < j < whole.len() implies !owned_less(whole[j], whole[i]) by {
                let x = if i < at { i } else { i - 1 };
                let y = if j < at { j } else { j - 1 };
                if i != at {
                    assert(whole[i] == before_out[x]);
                }
                if j != at {
                    assert(whole[j] == before_out[y]);
                }
                if j == at {
                    assert(owned_less(before_out[x], added));
                    if text_less(before_out[x].name, added.name) {
                        lemma_text_asymmetric(before_out[x].name, added.name);
                    }
                }
                if i == at {
                    assert(!owned_less(before_out[at as int], added));
                    if y > at {
                        lemma_owned_order(added, before_out[at as int], before_out[y]);
                    }
                }
            }
        }
    }
    proof {
        assert(owned_views(left@) =~= Seq::<OwnedView>::empty());
        assert(owned_views(out@).to_multiset() =~= all.to_multiset()) by {
            broadcast use vstd::multiset::group_multiset_axioms;
            broadcast use vstd::seq_lib::group_to_multiset_ensures;

        }
    }
    out
}

/// The mapping belongs to a node and to no saved attachment.
pub open spec fn is_unexpected(
    device: OwnedView,
    node_id: VolumeNodeId,
    expected: Seq<ReplicaKey>,
) -> bool {
    device.node_id == node_id && !expected.contains(device.key)
}

/// Decides whether an owned mapping is not named by a saved local attachment and must be
/// removed.
pub fn remove_unexpected(
    device: &OwnedMappedVolume,
    node_id: VolumeNodeId,
    expected: &[ReplicaKey],
) -> (out: bool)
    ensures
        out == is_unexpected(device@, node_id, expected@),
{
    if device.node_id() != node_id {
        return false;
    }
    let mut i: usize = 0;
    while i < expected.len()
        invariant
            i <= expected@.len(),
            forall|k: int| #![trigger expected@[k]] 0 <= k < i ==> expected@[k] != device@.key,
        decreases expected@.len() - i,
    {
        if expected[i] == device.key() {
            return false;
        }
        i += 1;
    }
    true
}

/// The mapping is the one of a volume generation on a node.
pub open spec fn is_mapping_of(
    device: OwnedView,
    node_id: VolumeNodeId,
    key: ReplicaKey,
) -> bool {
    device.node_id == node_id && device.key == key
}

/// Returns whether the mapping is the one of a volume generation on a node.
pub fn is_owned_by(device: &OwnedMappedVolume, node_id: VolumeNodeId, key: ReplicaKey) -> (out:
    bool)
    ensures
        out == is_mapping_of(device@, node_id, key),
{
    device.node_id() == node_id && device.key() == key
}

/// Checks that no mapping of a volume generation is left after its removal.
pub fn remove(
    identity: &MappedVolumeIdentity,
    owned: &[OwnedMappedVolume],
) -> (out: Result<(), MappedVolumeError>)
    ensures
        ({
            let left = exists|i: int|
                #![trigger owned_views(owned@)[i]]
                0 <= i < owned@.len() && is_mapping_of(
                    owned_views(owned@)[i],
                    identity.node(),
                    identity.volume_key(),
                );
            match out {
                Ok(()) => !left,
                Err(error) => left && error@ == (MappedErrorView::WrongLayout {
                    name: name_text(identity.node(), identity.volume_key()),
                    reason: "owned mapping still exists after removal"@,
                }),
            }
        }),
        out is Ok ==> forall|i: int|
            #![trigger owned@[i]]
            0 <= i < owned@.len() ==> !is_mapping_of(
                owned@[i]@,
                identity.node(),
                identity.volume_key(),
            ),
{
    let ghost all = owned_views(owned@);
    let mut i: usize = 0;
    while i < owned.len()
        invariant
            i <= owned@.len(),
            all == owned_views(owned@),
            forall|k: int|
                #![trigger all[k]]
                0 <= k < i ==> !is_mapping_of(all[k], identity.node(), identity.volume_key()),
        decreases owned@.len() - i,
    {
        proof { assert(all[i as int] == owned@[i as int]@); }
        if is_owned_by(&owned[i], identity.node_id(), identity.key()) {
            return Err(wrong_layout(identity.name(), "owned mapping still exists after removal"));
        }
        i += 1;
    }
    proof {
        assert forall|k: int| #![trigger owned@[k]] 0 <= k < owned@.len() implies !is_mapping_of(
            owned@[k]@,
            identity.node(),
            identity.volume_key(),
        ) by {
            assert(all[k] == owned@[k]@);
        }
    }
    Ok(())
}

/// Change of the kernel before which an owned mapping is looked at again.
#[derive(Clone, Copy, Debug, PartialEq, Eq, Structural)]
pub enum OwnedChange {
    /// The mapping is removed.
    Removal,

    /// The mapping answers with errors.
    FailedIo,
}

/// Checks that an owned mapping is still the one that was listed.
pub fn check_unchanged(
    expected: &OwnedMappedVolume,
    uuid: &Option<String>,
    device_number: BlockDeviceNumber,
    change: OwnedChange,
) -> (out: Result<(), MappedVolumeError>)
    ensures
        ({
            let same = optional_text(*uuid) == Some(expected@.uuid) && device_number
                == expected@.device_number;
            match out {
                Ok(()) => same,
                Err(error) => !same && error@ == (MappedErrorView::WrongLayout {
                    name: expected@.name,
                    reason: match change {
                        OwnedChange::Removal => "mapping identity changed before removal"@,
                        OwnedChange::FailedIo => "mapping identity changed before failing I/O"@,
                    },
                }),
            }
        }),
{
    let same_uuid = match uuid {
        Some(uuid) => same_text(uuid.as_str(), expected.uuid()),
        None => false,
    };
    if !same_uuid || device_number != expected.device_number() {
        return match change {
            OwnedChange::Removal => Err(
                wrong_layout(expected.name(), "mapping identity changed before removal"),
            ),
            OwnedChange::FailedIo => Err(
                wrong_layout(expected.name(), "mapping identity changed before failing I/O"),
            ),
        };
    }
    Ok(())
}

/// Place of the mapping whose I/O must fail, if there is one, or why it must not be touched.
pub open spec fn cleanup_place(
    node_id: VolumeNodeId,
    key: ReplicaKey,
    candidates: Seq<LayoutView>,
    devices: Seq<MappingView>,
) -> Result<Option<int>, MappedErrorView> {
    let name = name_text(node_id, key);
    let uuid = uuid_text(node_id, key);
    if exists|i: int|
        #![trigger candidates[i]]
        0 <= i < candidates.len() && (candidates[i].node_id != node_id || candidates[i].key
            != key) {
        Err(
            MappedErrorView::InvalidIdentity {
                reason: "failed-I/O cleanup mixes volume nodes or generations"@,
            },
        )
    } else if place_of_name(devices, name) is None {
        Ok(None)
    } else if foreign_error(name, uuid, devices) is Some {
        Err(foreign_error(name, uuid, devices)->Some_0)
    } else if candidates.len() == 0 {
        Err(
            MappedErrorView::InvalidIdentity {
                reason: "failed-I/O cleanup has no saved layout for an existing mapping"@,
            },
        )
    } else {
        Ok(place_of_name(devices, name))
    }
}

/// Finds the owned dead-backend mapping whose I/O must fail at once.
///
/// This is used only after durable attachment cleanup has begun and no userspace driver
/// remains to answer the final unmount flush.
pub fn fail_io_for_cleanup(
    node_id: VolumeNodeId,
    key: ReplicaKey,
    candidates: &[MappedVolumeLayout],
    devices: &[KernelMapping],
) -> (out: Result<Option<usize>, MappedVolumeError>)
    ensures
        ({
            let place = cleanup_place(
                node_id,
                key,
                layout_views(candidates@),
                mapping_views(devices@),
            );
            match out {
                Ok(Some(at)) => place == Ok::<Option<int>, MappedErrorView>(Some(at as int)) && at
                    < devices@.len(),
                Ok(None) => place == Ok::<Option<int>, MappedErrorView>(None),
                Err(error) => place == Err::<Option<int>, MappedErrorView>(error@),
            }
        }),
{
    let ghost all = layout_views(candidates@);
    let mut i: usize = 0;
    while i < candidates.len()
        invariant
            i <= candidates@.len(),
            all == layout_views(candidates@),
            forall|k: int|
                #![trigger all[k]]
                0 <= k < i ==> all[k].node_id == node_id && all[k].key == key,
        decreases candidates@.len() - i,
    {
        proof { assert(all[i as int] == candidates@[i as int]@); }
        if candidates[i].node_id() != node_id || candidates[i].key() != key {
            return Err(
                MappedVolumeError::InvalidIdentity {
                    reason: copy_text("failed-I/O cleanup mixes volume nodes or generations"),
                },
            );
        }
        i += 1;
    }
    let identity = match MappedVolumeIdentity::new(node_id, key) {
        Ok(identity) => identity,
        Err(error) => {
            return Err(error);
        },
    };
    match find_own(&identity, devices) {
        Err(error) => Err(error),
        Ok(None) => Ok(None),
        Ok(Some(at)) => {
            if candidates.len() == 0 {
                return Err(
                    MappedVolumeError::InvalidIdentity {
                        reason: copy_text(
                            "failed-I/O cleanup has no saved layout for an existing mapping",
                        ),
                    },
                );
            }
            Ok(Some(at))
        },
    }
}

/// What failing the I/O of an owned mapping still needs.
#[derive(Clone, Copy, Debug, PartialEq, Eq, Structural)]
pub enum FailStep {
    /// The mapping has no table, or it fails already.
    Done,

    /// The table must be shown to belong to one saved layout before it is replaced.
    Compare,
}

/// How the table of an owned mapping is replaced by one whose I/O fails.
#[derive(Clone, Copy, Debug, PartialEq, Eq, Structural)]
pub struct FailReplacement {
    /// Sectors of the active table, all of which fail.
    pub sectors: u64,

    /// The mapping still runs and must be suspended first.
    pub suspend_first: bool,
}

/// One of the layouts has the number of sectors.
pub open spec fn has_sectors(candidates: Seq<LayoutView>, sectors: u64) -> bool {
    exists|i: int|
        #![trigger candidates[i]]
        0 <= i < candidates.len() && candidates[i].sectors() == sectors
}

/// What failing the I/O of an owned mapping still needs, or why it must not be touched.
pub open spec fn fail_step(
    name: Seq<char>,
    active: Seq<TargetView>,
    inactive: Seq<TargetView>,
    suspended: bool,
    candidates: Seq<LayoutView>,
) -> Result<FailStep, MappedErrorView> {
    let target = active[0];
    if active.len() == 0 {
        Ok(FailStep::Done)
    } else if active.len() != 1 {
        Err(
            MappedErrorView::WrongLayout {
                name,
                reason: "cleanup expected one active target, found "@ + decimal_text(active.len()),
            },
        )
    } else if target.0 != 0 || target.1 == 0 {
        Err(
            MappedErrorView::WrongLayout {
                name,
                reason: "cleanup found active target at sector "@ + decimal_text(target.0 as nat)
                    + " with length "@ + decimal_text(target.1 as nat),
            },
        )
    } else if target.2 == "error"@ && target.3.len() == 0 && inactive.len() == 0 && has_sectors(
        candidates,
        target.1,
    ) && !suspended {
        Ok(FailStep::Done)
    } else {
        Ok(FailStep::Compare)
    }
}

/// Decides what failing the I/O of one owned mapping still needs.
pub fn fail_owned_io(
    expected: &OwnedMappedVolume,
    active: &[RawTarget],
    inactive: &[RawTarget],
    suspended: bool,
    candidates: &[MappedVolumeLayout],
) -> (out: Result<FailStep, MappedVolumeError>)
    ensures
        ({
            let step = fail_step(
                expected@.name,
                table_view(active@),
                table_view(inactive@),
                suspended,
                layout_views(candidates@),
            );
            match out {
                Ok(action) => step == Ok::<FailStep, MappedErrorView>(action),
                Err(error) => step == Err::<FailStep, MappedErrorView>(error@),
            }
        }),
{
    if active.len() == 0 {
        return Ok(FailStep::Done);
    }
    if active.len() != 1 {
        let mut reason = String::new();
        push_text(&mut reason, "cleanup expected one active target, found ");
        push_decimal(&mut reason, active.len() as u64);
        proof {
            assert(reason@ =~= "cleanup expected one active target, found "@ + decimal_text(
                active@.len(),
            ));
        }
        return Err(wrong_layout(expected.name(), reason.as_str()));
    }
    let target = &active[0];
    proof { assert(table_view(active@)[0] == super::mapped_tables::target_view(*target)); }
    if target.0 != 0 || target.1 == 0 {
        let mut reason = String::new();
        push_text(&mut reason, "cleanup found active target at sector ");
        push_decimal(&mut reason, target.0);
        push_text(&mut reason, " with length ");
        push_decimal(&mut reason, target.1);
        proof {
            assert(reason@ =~= "cleanup found active target at sector "@ + decimal_text(
                target.0 as nat,
            ) + " with length "@ + decimal_text(target.1 as nat));
        }
        return Err(wrong_layout(expected.name(), reason.as_str()));
    }
    let sectors: u64 = target.1;
    let ghost all = layout_views(candidates@);
    let mut known = false;
    let mut i: usize = 0;
    while i < candidates.len()
        invariant
            i <= candidates@.len(),
            all == layout_views(candidates@),
            known == has_sectors(all.take(i as int), sectors),
        decreases candidates@.len() - i,
    {
        proof {
            let shorter = all.take(i as int);
            let longer = all.take(i + 1);
            assert(all[i as int] == candidates@[i as int]@);
            assert(longer[i as int] == all[i as int]);
            assert(longer =~= shorter.push(all[i as int]));
            if has_sectors(shorter, sectors) {
                let k = choose|k: int|
                    #![trigger shorter[k]]
                    0 <= k < shorter.len() && shorter[k].sectors() == sectors;
                assert(longer[k] == shorter[k]);
            }
            if has_sectors(longer, sectors) && all[i as int].sectors() != sectors {
                let k = choose|k: int|
                    #![trigger longer[k]]
                    0 <= k < longer.len() && longer[k].sectors() == sectors;
                assert(shorter[k] == longer[k]);
            }
        }
        if candidates[i].device_mapper_sectors() == sectors {
            known = true;
        }
        i += 1;
    }
    proof { assert(all.take(all.len() as int) =~= all); }
    let no_parameters = chars_of(target.3.as_str()).len() == 0;
    if same_text(target.2.as_str(), "error") && no_parameters && inactive.len() == 0 && known
        && !suspended {
        return Ok(FailStep::Done);
    }
    Ok(FailStep::Compare)
}

/// How the table of an owned mapping is replaced, or why it must not be touched: the table
/// has to be that of exactly one saved layout, and a pending one that of a larger layout.
pub open spec fn fail_replacement(
    name: Seq<char>,
    active: Seq<TargetView>,
    inactive: Seq<TargetView>,
    suspended: bool,
    saved: Seq<SavedLinearLayout>,
) -> Result<FailReplacement, MappedErrorView> {
    match selection(name, active, inactive, saved) {
        Ok(_) => Ok(FailReplacement { sectors: active[0].1, suspend_first: !suspended }),
        Err(error) => Err(error),
    }
}

/// Decides how the table of one owned mapping is replaced, once it is shown to belong to
/// one saved layout.
pub fn replace_owned_table(
    expected: &OwnedMappedVolume,
    active: &[RawTarget],
    inactive: &[RawTarget],
    suspended: bool,
    saved: &[SavedLinearLayout],
) -> (out: Result<FailReplacement, MappedVolumeError>)
    ensures
        ({
            let step = fail_replacement(
                expected@.name,
                table_view(active@),
                table_view(inactive@),
                suspended,
                saved@,
            );
            match out {
                Ok(replacement) => step == Ok::<FailReplacement, MappedErrorView>(replacement),
                Err(error) => step == Err::<FailReplacement, MappedErrorView>(error@),
            }
        }),
{
    match select_saved_linear_layout(expected.name(), active, inactive, saved) {
        Ok(selected) => {
            proof {
                lemma_matching(table_view(active@), saved@);
                let running = matching(table_view(active@), saved@);
                assert(running[0] == selected as int);
            }
            Ok(FailReplacement { sectors: saved[selected].sectors, suspend_first: !suspended })
        },
        Err(error) => Err(error),
    }
}

/// Table whose I/O fails at once.
pub open spec fn error_table(sectors: u64) -> Seq<TargetView> {
    seq![(0u64, sectors, "error"@, Seq::empty())]
}

/// Returns the table whose I/O fails at once.
pub fn failed_io_table(sectors: u64) -> (out: Vec<RawTarget>)
    ensures
        table_view(out@) == error_table(sectors),
{
    let mut out: Vec<RawTarget> = Vec::new();
    out.push((0, sectors, copy_text("error"), String::new()));
    proof { assert(table_view(out@) =~= error_table(sectors)); }
    out
}

/// Checks that the failing table became active.
pub fn check_failed_io(expected: &OwnedMappedVolume, active: &[RawTarget], sectors: u64) -> (out:
    Result<(), MappedVolumeError>)
    ensures
        match out {
            Ok(()) => table_view(active@) == error_table(sectors),
            Err(error) => table_view(active@) != error_table(sectors) && error@ == (
            MappedErrorView::WrongLayout {
                name: expected@.name,
                reason: "failed-I/O table did not become active"@,
            }),
        },
{
    let ghost view = table_view(active@);
    let exact = active.len() == 1 && active[0].0 == 0 && active[0].1 == sectors && same_text(
        active[0].2.as_str(),
        "error",
    ) && chars_of(active[0].3.as_str()).len() == 0;
    proof {
        if exact {
            assert(view[0] == super::mapped_tables::target_view(active@[0]));
            assert(view[0].3 =~= Seq::<char>::empty());
            assert(view =~= error_table(sectors));
        }
        if view == error_table(sectors) {
            assert(view.len() == 1);
            assert(view[0] == super::mapped_tables::target_view(active@[0]));
            assert(view[0] == (0u64, sectors, "error"@, Seq::<char>::empty()));
        }
    }
    if exact {
        Ok(())
    } else {
        Err(wrong_layout(expected.name(), "failed-I/O table did not become active"))
    }
}

/// Returns whether a block device is among the dependencies of a mapping.
pub fn backend_is_referenced(dependencies: &[BlockDeviceNumber], expected: BlockDeviceNumber) -> (
    out: bool)
    ensures
        out == dependencies@.contains(expected),
{
    let mut i: usize = 0;
    while i < dependencies.len()
        invariant
            i <= dependencies@.len(),
            forall|k: int| 0 <= k < i ==> dependencies@[k] != expected,
        decreases dependencies@.len() - i,
    {
        if dependencies[i] == expected {
            return true;
        }
        i += 1;
    }
    false
}

/// A mapping that fails already stays as it is.
pub proof fn law_failed_mapping_stays(
    name: Seq<char>,
    sectors: u64,
    candidates: Seq<LayoutView>,
)
    requires
        sectors > 0,
        has_sectors(candidates, sectors),
    ensures
        fail_step(name, error_table(sectors), Seq::empty(), false, candidates) == Ok::<
            FailStep,
            MappedErrorView,
        >(FailStep::Done),
{
}

/// Only a table of one saved layout is ever replaced, and all of its sectors fail then.
pub proof fn law_only_saved_tables_are_failed(
    name: Seq<char>,
    active: Seq<TargetView>,
    inactive: Seq<TargetView>,
    suspended: bool,
    saved: Seq<SavedLinearLayout>,
)
    requires
        fail_replacement(name, active, inactive, suspended, saved) is Ok,
    ensures
        exists|i: int|
            #![trigger saved[i]]
            0 <= i < saved.len() && is_table_of(active, saved[i]) && saved[i].sectors
                == fail_replacement(name, active, inactive, suspended, saved)->Ok_0.sectors,
{
    lemma_matching(active, saved);
    let running = matching(active, saved);
    assert(is_table_of(active, saved[running[0]]));
}

} // verus!
