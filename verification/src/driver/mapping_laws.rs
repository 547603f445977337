//! Which mappings are taken for one's own, and what is done with them.

use vstd::prelude::*;

use super::mapped_error::MappedVolumeError;
use super::mapped_identity::{
    is_owned_uuid, name_text, uuid_text, validate_identity_value, BlockDeviceNumber, IdentityField,
    MappedVolumeIdentity,
};
use super::mapped_owned::{
    backend_is_referenced, check_failed_io, check_unchanged, fail_io_for_cleanup, fail_owned_io,
    failed_io_table, is_owned_by, owned_views, remove_unexpected, replace_owned_table, sort_owned,
    text_less, FailReplacement, FailStep, OwnedChange, OwnedMappedVolume,
};
use super::mapped_tables::{
    device_number_of, is_table_of, table_view, words, RawTarget, SavedLinearLayout, TargetView,
};
use super::mapped_volume::{
    active_layout, check_candidates, check_switch_request, find_own, find_required,
    inspect_existing, layout_views, locate_existing, mapping_views, place_of_name, places_of_uuid,
    read_setting, resume_exact, suspend_for_backend_switch, switch_backend, verify_mapped_limit,
    verify_mapped_number, verify_mapped_size, ExistingMapping, KernelMapping, MappedVolumeLayout,
    MappingRun, MappingView, MissingMapping, QueueLimit, ResumeAction, SuspendAction, SwitchAction,
};
use crate::catalog::model::ReplicaKey;
use crate::text::{decimal_value, trimmed};
use crate::volume::descriptor::VolumeDescriptor;
use crate::volume::identity::VolumeNodeId;

verus! {

/// A layout has the number, the generation, the capacity and the block sizes of its
/// descriptor, and one mapper sector for each 512 bytes.
pub proof fn law_layout_calls(
    node_id: VolumeNodeId,
    descriptor: VolumeDescriptor,
    backend_path: Vec<u8>,
    out: Result<MappedVolumeLayout, MappedVolumeError>,
    sectors: u64,
)
    requires
        call_ensures(MappedVolumeLayout::new, (node_id, &descriptor, backend_path), out),
    ensures
        out matches Ok(layout) && {
            &&& layout@.node_id == node_id
            &&& layout@.key.volume() == descriptor.id()
            &&& layout@.key.generation_of() == descriptor.generation_of()
            &&& layout@.capacity_bytes == descriptor.capacity_of().size()
            &&& layout@.block_sizes == descriptor.sizes()
            &&& layout@.backend_path == backend_path@
            &&& call_ensures(MappedVolumeLayout::device_mapper_sectors, (&layout,), sectors)
                ==> 512 * sectors <= layout@.capacity_bytes < 512 * (sectors + 1)
        },
{
    ReplicaKey::lemma_key_of(descriptor);
}

/// The first mapping with a name is the one that is found.
proof fn lemma_place(devices: Seq<MappingView>, name: Seq<char>)
    ensures
        match place_of_name(devices, name) {
            Some(at) => 0 <= at < devices.len() && devices[at].name == name && forall|i: int|
                #![trigger devices[i]]
                0 <= i < at ==> devices[i].name != name,
            None => forall|i: int|
                #![trigger devices[i]]
                0 <= i < devices.len() ==> devices[i].name != name,
        },
    decreases devices.len(),
{
    if devices.len() > 0 {
        let rest = devices.drop_last();
        lemma_place(rest, name);
        assert forall|i: int| #![trigger devices[i]] 0 <= i < rest.len() implies devices[i]
            == rest[i] by {}
        if place_of_name(rest, name) is None {
            assert forall|i: int|
                #![trigger devices[i]]
                0 <= i < devices.len() - 1 implies devices[i].name != name by {
                assert(rest[i] == devices[i]);
            }
        }
    }
}

/// The places of an identifier are those of the mappings that have it.
proof fn lemma_places(devices: Seq<MappingView>, uuid: Seq<char>)
    ensures
        forall|k: int|
            #![trigger places_of_uuid(devices, uuid)[k]]
            0 <= k < places_of_uuid(devices, uuid).len() ==> 0 <= places_of_uuid(devices, uuid)[k]
                < devices.len() && devices[places_of_uuid(devices, uuid)[k]].uuid == Some(uuid),
        forall|i: int|
            #![trigger devices[i]]
            0 <= i < devices.len() && devices[i].uuid == Some(uuid) ==> places_of_uuid(
                devices,
                uuid,
            ).contains(i),
    decreases devices.len(),
{
    if devices.len() > 0 {
        let rest = devices.drop_last();
        let before = places_of_uuid(rest, uuid);
        let all = places_of_uuid(devices, uuid);
        lemma_places(rest, uuid);
        assert forall|k: int| #![trigger all[k]] 0 <= k < all.len() implies 0 <= all[k]
            < devices.len() && devices[all[k]].uuid == Some(uuid) by {
            if k < before.len() {
                assert(all[k] == before[k]);
                assert(rest[before[k]] == devices[before[k]]);
            }
        }
        assert forall|i: int|
            #![trigger devices[i]]
            0 <= i < devices.len() && devices[i].uuid == Some(uuid) implies all.contains(i) by {
            if i < rest.len() {
                assert(rest[i] == devices[i]);
                let k = before.index_of(i);
                assert(all[k] == i);
            } else {
                assert(all[before.len() as int] == i);
            }
        }
    }
}

/// A mapping is one's own only where it has both the name and the identifier; one that has
/// the name alone is refused, and none is found only where none has the name.
pub proof fn law_find_own_call(
    identity: MappedVolumeIdentity,
    devices: &[KernelMapping],
    out: Result<Option<usize>, MappedVolumeError>,
    i: int,
)
    requires
        call_ensures(find_own, (&identity, devices), out),
        0 <= i < devices@.len(),
    ensures
        ({
            let name = name_text(identity.node(), identity.volume_key());
            let uuid = uuid_text(identity.node(), identity.volume_key());
            &&& out matches Ok(Some(at)) ==> at < devices@.len() && devices@[at as int]@.name
                == name && devices@[at as int]@.uuid == Some(uuid)
            &&& out matches Ok(None) ==> devices@[i]@.name != name
            &&& devices@[i]@.name == name && devices@[i]@.uuid != Some(uuid) && (forall|j: int|
                #![trigger devices@[j]]
                0 <= j < i ==> devices@[j]@.name != name) ==> out is Err
        }),
{
    let all = mapping_views(devices@);
    let name = name_text(identity.node(), identity.volume_key());
    lemma_place(all, name);
    assert forall|j: int| #![trigger devices@[j]] #![trigger all[j]] 0 <= j < devices@.len()
        implies all[j] == devices@[j]@ by {}
    if let Some(at) = place_of_name(all, name) {
        assert(all[at] == devices@[at]@);
    }
    assert(all[i] == devices@[i]@);
}

/// A required mapping is found only where it has both the name and the identifier.
pub proof fn law_find_required_call(
    layout: MappedVolumeLayout,
    devices: &[KernelMapping],
    missing: MissingMapping,
    out: Result<usize, MappedVolumeError>,
)
    requires
        call_ensures(find_required, (&layout, devices, missing), out),
    ensures
        out matches Ok(at) ==> at < devices@.len() && devices@[at as int]@.name == layout@.name()
            && devices@[at as int]@.uuid == Some(layout@.uuid()),
        (forall|i: int|
            #![trigger devices@[i]]
            0 <= i < devices@.len() ==> devices@[i]@.name != layout@.name()) ==> out is Err,
{
    let all = mapping_views(devices@);
    lemma_place(all, layout@.name());
    assert forall|j: int| #![trigger devices@[j]] #![trigger all[j]] 0 <= j < devices@.len()
        implies all[j] == devices@[j]@ by {}
    if let Some(at) = place_of_name(all, layout@.name()) {
        assert(all[at] == devices@[at]@);
    }
}

/// An existing mapping is located only where it has both the name and the identifier and no
/// other has the identifier; and it is held absent only where no mapping has either.
pub proof fn law_locate_call(
    layout: MappedVolumeLayout,
    devices: &[KernelMapping],
    out: Result<Option<usize>, MappedVolumeError>,
    i: int,
)
    requires
        call_ensures(locate_existing, (&layout, devices), out),
        0 <= i < devices@.len(),
    ensures
        out matches Ok(Some(at)) ==> {
            &&& at < devices@.len()
            &&& devices@[at as int]@.name == layout@.name()
            &&& devices@[at as int]@.uuid == Some(layout@.uuid())
            &&& devices@[i]@.uuid == Some(layout@.uuid()) ==> i == at
        },
        out matches Ok(None) ==> devices@[i]@.name != layout@.name() && devices@[i]@.uuid != Some(
            layout@.uuid(),
        ),
{
    let all = mapping_views(devices@);
    let name = layout@.name();
    let uuid = layout@.uuid();
    lemma_place(all, name);
    lemma_places(all, uuid);
    assert(all[i] == devices@[i]@);
    let places = places_of_uuid(all, uuid);
    if places.len() > 0 {
        let at = places[0];
        assert(all[at] == devices@[at]@);
    }
    if all[i].uuid == Some(uuid) {
        let k = places.index_of(i);
        assert(places[k] == i);
    }
    if let Some(at) = place_of_name(all, name) {
        assert(all[at] == devices@[at]@);
        if all[at].uuid == Some(uuid) {
            let k = places.index_of(at);
            assert(places[k] == at);
        }
    }
}

/// A mapping is exact only where its active table is the saved one, none is prepared and it
/// is not suspended; it is prepared where the saved table is the only one and not active;
/// and it is empty where there is no table.
pub proof fn law_inspect_call(
    layout: MappedVolumeLayout,
    backend: BlockDeviceNumber,
    active: &[RawTarget],
    inactive: &[RawTarget],
    suspended: bool,
    out: Result<ExistingMapping, MappedVolumeError>,
)
    requires
        call_ensures(inspect_existing, (&layout, backend, active, inactive, suspended), out),
    ensures
        ({
            let saved = SavedLinearLayout {
                sectors: (layout@.capacity_bytes / 512) as u64,
                backend,
            };
            &&& out == Ok::<ExistingMapping, MappedVolumeError>(ExistingMapping::Exact)
                <==> is_table_of(table_view(active@), saved) && inactive@.len() == 0 && !suspended
            &&& out == Ok::<ExistingMapping, MappedVolumeError>(ExistingMapping::Inactive)
                <==> active@.len() == 0 && is_table_of(table_view(inactive@), saved)
            &&& out == Ok::<ExistingMapping, MappedVolumeError>(ExistingMapping::Empty)
                <==> active@.len() == 0 && inactive@.len() == 0
            &&& out != Ok::<ExistingMapping, MappedVolumeError>(ExistingMapping::Absent)
        }),
{
}

/// A saved mapping is resumed only where it is suspended, and verified only where it is
/// not; either way its active table is the saved one and none is prepared.
pub proof fn law_resume_call(
    layout: MappedVolumeLayout,
    backend: BlockDeviceNumber,
    active: &[RawTarget],
    inactive: &[RawTarget],
    suspended: bool,
    out: Result<ResumeAction, MappedVolumeError>,
)
    requires
        call_ensures(resume_exact, (&layout, backend, active, inactive, suspended), out),
    ensures
        ({
            let saved = SavedLinearLayout {
                sectors: (layout@.capacity_bytes / 512) as u64,
                backend,
            };
            &&& out is Ok <==> is_table_of(table_view(active@), saved) && inactive@.len() == 0
            &&& out is Ok ==> (out->Ok_0 == ResumeAction::Resume <==> suspended)
        }),
{
}

/// A switch is allowed exactly to a larger capacity of the same volume on the same node
/// with the same block sizes.
pub proof fn law_switch_request_call(
    current: MappedVolumeLayout,
    larger: MappedVolumeLayout,
    out: Result<(), MappedVolumeError>,
)
    requires
        call_ensures(check_switch_request, (&current, &larger), out),
    ensures
        out is Ok <==> current@.node_id == larger@.node_id && current@.key == larger@.key
            && current@.block_sizes == larger@.block_sizes && larger@.capacity_bytes
            > current@.capacity_bytes,
{
}

/// Before a switch the mapping is suspended exactly where it is neither suspended nor
/// switched already; afterwards the larger one is put in place only over the current one,
/// suspended first where it is not, and a suspended larger one is resumed.
pub proof fn law_switch_steps(
    name: &str,
    active: &[RawTarget],
    inactive: &[RawTarget],
    suspended: bool,
    current: SavedLinearLayout,
    larger: SavedLinearLayout,
    first: Result<SuspendAction, MappedVolumeError>,
    then: Result<SwitchAction, MappedVolumeError>,
)
    requires
        call_ensures(
            suspend_for_backend_switch,
            (name, active, inactive, suspended, current, larger),
            first,
        ),
        call_ensures(
            switch_backend,
            (name, active, inactive, suspended, current, larger),
            then,
        ),
        current != larger,
    ensures
        ({
            let at_current = is_table_of(table_view(active@), current);
            let at_larger = is_table_of(table_view(active@), larger);
            let none = inactive@.len() == 0;
            let prepared = is_table_of(table_view(inactive@), larger);
            &&& first is Ok <==> (at_larger && none) || (at_current && (none || prepared))
            &&& then is Ok <==> first is Ok
            &&& first == Ok::<SuspendAction, MappedVolumeError>(SuspendAction::Suspend)
                <==> at_current && (none || prepared) && !suspended
            &&& first == Ok::<SuspendAction, MappedVolumeError>(SuspendAction::VerifyLarger)
                <==> at_larger && none
            &&& then == Ok::<SwitchAction, MappedVolumeError>(SwitchAction::Load)
                <==> at_current && none
            &&& then == Ok::<SwitchAction, MappedVolumeError>(
                SwitchAction::Activate { suspend_first: !suspended },
            ) <==> at_current && prepared
            &&& then == Ok::<SwitchAction, MappedVolumeError>(SwitchAction::Resume)
                <==> at_larger && none && suspended
            &&& then == Ok::<SwitchAction, MappedVolumeError>(SwitchAction::VerifyLarger)
                <==> at_larger && none && !suspended
        }),
{
    if is_table_of(table_view(active@), current) && is_table_of(table_view(active@), larger) {
        super::mapped_tables::law_tables_tell_layouts_apart(
            table_view(active@),
            current,
            larger,
        );
    }
}

/// Candidates are accepted exactly where they are all of one volume on one node with the
/// same block sizes.
pub proof fn law_candidates_call(
    candidates: &[MappedVolumeLayout],
    out: Result<(), MappedVolumeError>,
    i: int,
    j: int,
)
    requires
        call_ensures(check_candidates, (candidates,), out),
        0 <= i < candidates@.len(),
        0 <= j < candidates@.len(),
    ensures
        out is Ok ==> candidates@[i]@.node_id == candidates@[j]@.node_id && candidates@[i]@.key
            == candidates@[j]@.key && candidates@[i]@.block_sizes == candidates@[j]@.block_sizes,
{
    let all = layout_views(candidates@);
    assert(all[i] == candidates@[i]@ && all[j] == candidates@[j]@);
}

/// The active mapping of some candidates has the name and the identifier of their volume.
pub proof fn law_active_call(
    candidates: &[MappedVolumeLayout],
    devices: &[KernelMapping],
    out: Result<Option<usize>, MappedVolumeError>,
)
    requires
        call_ensures(active_layout, (candidates, devices), out),
    ensures
        candidates@.len() == 0 ==> out == Ok::<Option<usize>, MappedVolumeError>(None),
        out matches Ok(Some(at)) ==> candidates@.len() > 0 && at < devices@.len()
            && devices@[at as int]@.name == candidates@[0]@.name() && devices@[at as int]@.uuid
            == Some(candidates@[0]@.uuid()),
{
    let all = mapping_views(devices@);
    let layouts = layout_views(candidates@);
    if candidates@.len() > 0 {
        assert(layouts[0] == candidates@[0]@);
        lemma_place(all, layouts[0].name());
        if let Some(at) = place_of_name(all, layouts[0].name()) {
            assert(all[at] == devices@[at]@);
        }
    }
}

/// A mapped device is accepted exactly where its number is the expected one, its size is
/// 512 bytes for each sector and each of its limits is a block of 4096 bytes.
pub proof fn law_verification_calls(
    layout: MappedVolumeLayout,
    device: BlockDeviceNumber,
    expected: BlockDeviceNumber,
    sectors: u64,
    limit: QueueLimit,
    actual: u64,
    number: Result<(), MappedVolumeError>,
    size: Result<(), MappedVolumeError>,
    block: Result<(), MappedVolumeError>,
)
    requires
        call_ensures(verify_mapped_number, (&layout, device, expected), number),
        call_ensures(verify_mapped_size, (&layout, sectors), size),
        call_ensures(verify_mapped_limit, (&layout, device, limit, actual), block),
    ensures
        number is Ok <==> device == expected,
        size is Ok <==> 512 * sectors == layout@.capacity_bytes,
        block is Ok <==> actual == 4096,
{
}

/// A mapping is removed as unexpected exactly where it belongs to this node and no expected
/// key names it.
pub proof fn law_unexpected_calls(
    device: OwnedMappedVolume,
    node_id: VolumeNodeId,
    expected: &[ReplicaKey],
    key: ReplicaKey,
    out: bool,
    owned: bool,
)
    requires
        call_ensures(remove_unexpected, (&device, node_id, expected), out),
        call_ensures(is_owned_by, (&device, node_id, key), owned),
    ensures
        out ==> device@.node_id == node_id,
        out && expected@.contains(key) ==> !owned,
        device@.node_id == node_id && !out ==> expected@.contains(device@.key),
        owned <==> device@.node_id == node_id && device@.key == key,
{
}

/// A mapping is unchanged exactly where it has the identifier and the device number that it
/// had.
pub proof fn law_unchanged_call(
    expected: OwnedMappedVolume,
    uuid: Option<String>,
    device_number: BlockDeviceNumber,
    change: OwnedChange,
    out: Result<(), MappedVolumeError>,
)
    requires
        call_ensures(check_unchanged, (&expected, &uuid, device_number, change), out),
    ensures
        out is Ok <==> uuid is Some && uuid->0@ == expected@.uuid && device_number
            == expected@.device_number,
{
}

/// A cleanup names a mapping only where that has the name and the identifier of the volume
/// and every saved layout is of that volume; without a mapping of that name it names none.
pub proof fn law_cleanup_call(
    node_id: VolumeNodeId,
    key: ReplicaKey,
    candidates: &[MappedVolumeLayout],
    devices: &[KernelMapping],
    out: Result<Option<usize>, MappedVolumeError>,
    i: int,
)
    requires
        call_ensures(fail_io_for_cleanup, (node_id, key, candidates, devices), out),
        0 <= i < candidates@.len(),
    ensures
        out matches Ok(Some(at)) ==> at < devices@.len() && devices@[at as int]@.name == name_text(
            node_id,
            key,
        ) && devices@[at as int]@.uuid == Some(uuid_text(node_id, key)),
        out is Ok ==> candidates@[i]@.node_id == node_id && candidates@[i]@.key == key,
{
    let all = mapping_views(devices@);
    let layouts = layout_views(candidates@);
    lemma_place(all, name_text(node_id, key));
    assert(layouts[i] == candidates@[i]@);
    if let Some(at) = place_of_name(all, name_text(node_id, key)) {
        assert(all[at] == devices@[at]@);
    }
}

/// A failed mapping is one error target from the first sector on, over all its sectors, and
/// that alone is accepted as failed.
pub proof fn law_failed_table_calls(
    expected: OwnedMappedVolume,
    active: &[RawTarget],
    sectors: u64,
    table: Vec<RawTarget>,
    out: Result<(), MappedVolumeError>,
)
    requires
        call_ensures(failed_io_table, (sectors,), table),
        call_ensures(check_failed_io, (&expected, active, sectors), out),
    ensures
        table@.len() == 1 && table@[0].0 == 0 && table@[0].1 == sectors && table@[0].2@
            == "error"@ && table@[0].3@.len() == 0,
        out is Ok <==> active@.len() == 1 && active@[0].0 == 0 && active@[0].1 == sectors
            && active@[0].2@ == "error"@ && active@[0].3@.len() == 0,
{
    let loaded = table_view(table@);
    let view = table_view(active@);
    let wanted = super::mapped_owned::error_table(sectors);
    assert(loaded.len() == table@.len() && view.len() == active@.len() && wanted.len() == 1);
    assert(loaded[0] == (table@[0].0, table@[0].1, table@[0].2@, table@[0].3@));
    if active@.len() == 1 {
        assert(view[0] == (active@[0].0, active@[0].1, active@[0].2@, active@[0].3@));
        if active@[0].3@.len() == 0 {
            assert(active@[0].3@ =~= Seq::<char>::empty());
        }
        if view[0] == wanted[0] {
            assert(view =~= wanted);
        }
    }
    if view == wanted {
        assert(active@.len() == 1);
        assert(view[0] == wanted[0]);
    }
}

/// I/O is left alone only where there is no table, or where it fails already over all
/// sectors of a saved layout, with none prepared and not suspended.
pub proof fn law_fail_step_call(
    expected: OwnedMappedVolume,
    active: &[RawTarget],
    inactive: &[RawTarget],
    suspended: bool,
    candidates: &[MappedVolumeLayout],
    out: Result<FailStep, MappedVolumeError>,
)
    requires
        call_ensures(fail_owned_io, (&expected, active, inactive, suspended, candidates), out),
    ensures
        out == Ok::<FailStep, MappedVolumeError>(FailStep::Done) ==> active@.len() == 0 || (
        active@.len() == 1 && active@[0].0 == 0 && active@[0].2@ == "error"@ && active@[0].3@.len()
            == 0 && inactive@.len() == 0 && !suspended && exists|i: int|
            #![trigger candidates@[i]]
            0 <= i < candidates@.len() && active@[0].1 == candidates@[i]@.capacity_bytes / 512),
        active@.len() == 0 ==> out == Ok::<FailStep, MappedVolumeError>(FailStep::Done),
        active@.len() > 1 ==> out is Err,
{
    let view = table_view(active@);
    let layouts = layout_views(candidates@);
    if active@.len() == 1 {
        assert(view[0] == (active@[0].0, active@[0].1, active@[0].2@, active@[0].3@));
        if super::mapped_owned::has_sectors(layouts, active@[0].1) {
            let i = choose|i: int|
                #![trigger layouts[i]]
                0 <= i < layouts.len() && layouts[i].sectors() == active@[0].1;
            assert(layouts[i] == candidates@[i]@);
        }
    }
}

/// A table is replaced only where it is that of a saved layout, over all its sectors, and
/// the mapping is suspended first exactly where it is not.
pub proof fn law_replacement_call(
    expected: OwnedMappedVolume,
    active: &[RawTarget],
    inactive: &[RawTarget],
    suspended: bool,
    saved: &[SavedLinearLayout],
    out: Result<FailReplacement, MappedVolumeError>,
)
    requires
        call_ensures(replace_owned_table, (&expected, active, inactive, suspended, saved), out),
    ensures
        out matches Ok(replacement) ==> replacement.suspend_first == !suspended && exists|i: int|
            #![trigger saved@[i]]
            0 <= i < saved@.len() && is_table_of(table_view(active@), saved@[i])
                && saved@[i].sectors == replacement.sectors,
{
    if out is Ok {
        super::mapped_owned::law_only_saved_tables_are_failed(
            expected@.name,
            table_view(active@),
            table_view(inactive@),
            suspended,
            saved@,
        );
    }
}

/// A backend is referenced exactly where one of the dependencies is it.
pub proof fn law_reference_call(
    dependencies: &[BlockDeviceNumber],
    expected: BlockDeviceNumber,
    out: bool,
    i: int,
)
    requires
        call_ensures(backend_is_referenced, (dependencies, expected), out),
        0 <= i < dependencies@.len(),
    ensures
        dependencies@[i] == expected ==> out,
        out ==> exists|k: int|
            #![trigger dependencies@[k]]
            0 <= k < dependencies@.len() && dependencies@[k] == expected,
{
    if out {
        let k = dependencies@.index_of(expected);
        assert(dependencies@[k] == expected);
    }
}

/// Of two texts the one stands before the other that has the smaller letter where they first
/// differ, or that ends first.
pub proof fn law_text_order(prefix: Seq<char>, x: Seq<char>, y: Seq<char>)
    requires
        x.len() > 0 && y.len() > 0 ==> x[0] != y[0],
    ensures
        x.len() > 0 && y.len() > 0 ==> (text_less(prefix + x, prefix + y) <==> x[0] < y[0]),
        x.len() == 0 ==> (text_less(prefix + x, prefix + y) <==> y.len() > 0),
        x.len() > 0 && y.len() == 0 ==> !text_less(prefix + x, prefix + y),
    decreases prefix.len(),
{
    if prefix.len() > 0 {
        law_text_order(prefix.drop_first(), x, y);
        assert((prefix + x).drop_first() =~= prefix.drop_first() + x);
        assert((prefix + y).drop_first() =~= prefix.drop_first() + y);
    } else {
        assert(prefix + x =~= x && prefix + y =~= y);
    }
}

/// Owned mappings are sorted by node, volume, generation and name, and none is lost or
/// doubled.
pub proof fn law_owned_sorting_call(
    owned: Vec<OwnedMappedVolume>,
    out: Vec<OwnedMappedVolume>,
    i: int,
    j: int,
)
    requires
        call_ensures(sort_owned, (owned,), out),
        0 <= i < j < out@.len(),
    ensures
        out@[i]@.node_id.value() <= out@[j]@.node_id.value(),
        out@[i]@.node_id == out@[j]@.node_id ==> out@[i]@.key.volume().value()
            <= out@[j]@.key.volume().value(),
        out@[i]@.node_id == out@[j]@.node_id && out@[i]@.key.volume() == out@[j]@.key.volume()
            ==> out@[i]@.key.generation_of().value() <= out@[j]@.key.generation_of().value(),
        out@[i]@.node_id == out@[j]@.node_id && out@[i]@.key == out@[j]@.key ==> !text_less(
            out@[j]@.name,
            out@[i]@.name,
        ),
        owned_views(out@).to_multiset() == owned_views(owned@).to_multiset(),
{
    assert(owned_views(out@)[i] == out@[i]@ && owned_views(out@)[j] == out@[j]@);
}

/// A mapping is owned exactly where its identity text is one of ours; its name and number
/// are then kept, and the numbers below it are listed in order, each once.
pub proof fn law_owned_mapping_call(
    mapping: KernelMapping,
    dependencies: &[BlockDeviceNumber],
    out: Option<OwnedMappedVolume>,
    node_id: VolumeNodeId,
    key: ReplicaKey,
    i: int,
    j: int,
)
    requires
        call_ensures(OwnedMappedVolume::of_mapping, (&mapping, dependencies), out),
    ensures
        mapping@.uuid is None ==> out is None,
        node_id.value() != 0 && key.volume().value() != 0 && key.generation_of().value() != 0
            && mapping@.uuid == Some(uuid_text(node_id, key)) ==> out is Some,
        out matches Some(owned) ==> {
            let numbers = owned@.backend_device_numbers;
            &&& owned@.name == mapping@.name
            &&& owned@.device_number == mapping@.device_number
            &&& mapping@.uuid == Some(uuid_text(owned@.node_id, owned@.key))
            &&& forall|number: BlockDeviceNumber|
                #![trigger numbers.contains(number)]
                numbers.contains(number) <==> dependencies@.contains(number)
            &&& 0 <= i < j < numbers.len() ==> numbers[i].major < numbers[j].major || (
            numbers[i].major == numbers[j].major && numbers[i].minor < numbers[j].minor)
        },
{
    if out is Some {
        let numbers = out->0@.backend_device_numbers;
        assert forall|number: BlockDeviceNumber|
            #![trigger numbers.contains(number)]
            numbers.contains(number) <==> dependencies@.contains(number) by {
            assert(numbers.to_set().contains(number) == numbers.contains(number));
            assert(dependencies@.to_set().contains(number) == dependencies@.contains(number));
        }
    } else if mapping@.uuid == Some(uuid_text(node_id, key)) {
        assert(!is_owned_uuid(mapping@.uuid->0, node_id, key));
    }
}

/// A setting is read exactly from a decimal number that fits, blanks around it left out.
pub proof fn law_setting_call(path: &[u8], text: &str, out: Result<u64, MappedVolumeError>)
    requires
        call_ensures(read_setting, (path, text), out),
    ensures
        out matches Ok(value) ==> decimal_value(trimmed(text@)) == Some(value as nat),
        out matches Err(error) ==> error@ is BlockDevice && error@->BlockDevice_path == path@,
        trimmed(text@).len() == 0 ==> out is Err,
{
}

/// An identity text is accepted exactly where it is not empty, has no byte above the seventh
/// bit, and is no longer than allowed.
pub proof fn law_identity_value_call(
    field: IdentityField,
    value: &str,
    maximum_bytes: usize,
    out: Result<(), MappedVolumeError>,
)
    requires
        call_ensures(validate_identity_value, (field, value, maximum_bytes), out),
    ensures
        value@.len() == 0 ==> out is Err,
        vstd::utf8::encode_utf8(value@).len() > maximum_bytes ==> out is Err,
        out is Ok ==> forall|i: int|
            #![trigger value@[i]]
            0 <= i < value@.len() ==> (value@[i] as int) < 128,
        out matches Err(error) ==> error@ is InvalidIdentity,
{
}

/// A mapping is made or switched within four rounds and resumed or suspended within three;
/// each round takes one, and with none left the run fails.
pub proof fn law_round_calls(
    run: MappingRun,
    rounds: u32,
    left: u32,
    layout: MappedVolumeLayout,
    out: Result<u32, MappedVolumeError>,
)
    requires
        call_ensures(MappingRun::rounds, (run,), rounds),
        call_ensures(MappingRun::next_round, (run, left, &layout), out),
    ensures
        run is Ensure || run is Switch ==> rounds == 4,
        run is Resume || run is Suspend ==> rounds == 3,
        out is Ok <==> left > 0,
        out matches Ok(rest) ==> rest + 1 == left,
        out matches Err(error) ==> error@ is WrongLayout,
{
}

/// Candidates of one node, one volume generation and one set of block sizes are accepted.
pub proof fn law_alike_candidates_call(
    candidates: &[MappedVolumeLayout],
    out: Result<(), MappedVolumeError>,
)
    requires
        call_ensures(check_candidates, (candidates,), out),
        forall|i: int|
            #![trigger candidates@[i]]
            0 <= i < candidates@.len() ==> candidates@[i]@.node_id == candidates@[0]@.node_id
                && candidates@[i]@.key == candidates@[0]@.key && candidates@[i]@.block_sizes
                == candidates@[0]@.block_sizes,
    ensures
        out is Ok,
{
    let all = layout_views(candidates@);
    assert forall|i: int| #![trigger all[i]] 0 <= i < all.len() implies all[i].node_id
        == all[0].node_id && all[i].key == all[0].key && all[i].block_sizes
        == all[0].block_sizes by {
        assert(all[i] == candidates@[i]@ && all[0] == candidates@[0]@);
    }
}

/// The one line of a linear table covers all sectors from the first on, and its two words
/// are the number of the device below and the first sector there.
pub proof fn law_linear_tables(table: Seq<TargetView>, layout: SavedLinearLayout)
    requires
        is_table_of(table, layout),
    ensures
        table.len() == 1,
        table[0].0 == 0,
        table[0].1 == layout.sectors,
        words(table[0].3).len() == 2,
        device_number_of(words(table[0].3)[0]) == Some(layout.backend),
        decimal_value(words(table[0].3)[1]) == Some(0nat),
{
}

/// A cleanup that finds nothing says so only where no mapping has the name of the volume,
/// and it is never given the layouts of another volume.
pub proof fn law_cleanup_finds_what_stands(
    node_id: VolumeNodeId,
    key: ReplicaKey,
    candidates: &[MappedVolumeLayout],
    devices: &[KernelMapping],
    out: Result<Option<usize>, MappedVolumeError>,
    i: int,
)
    requires
        call_ensures(fail_io_for_cleanup, (node_id, key, candidates, devices), out),
    ensures
        out == Ok::<Option<usize>, MappedVolumeError>(None) && 0 <= i < devices@.len()
            ==> devices@[i]@.name != name_text(node_id, key),
        out is Ok && 0 <= i < candidates@.len() ==> candidates@[i]@.node_id == node_id
            && candidates@[i]@.key == key,
        out matches Ok(Some(_)) ==> candidates@.len() > 0,
{
    let all = mapping_views(devices@);
    let layouts = layout_views(candidates@);
    lemma_named_place(all, name_text(node_id, key));
    if 0 <= i < devices@.len() {
        assert(all[i] == devices@[i]@);
    }
    if 0 <= i < candidates@.len() {
        assert(layouts[i] == candidates@[i]@);
    }
}

/// A name has a place wherever a mapping has it.
proof fn lemma_named_place(devices: Seq<MappingView>, name: Seq<char>)
    ensures
        place_of_name(devices, name) is None ==> forall|i: int|
            #![trigger devices[i]]
            0 <= i < devices.len() ==> devices[i].name != name,
    decreases devices.len(),
{
    if devices.len() > 0 {
        let low = devices.drop_last();
        lemma_named_place(low, name);
        assert forall|i: int|
            #![trigger devices[i]]
            place_of_name(devices, name) is None && 0 <= i < devices.len() implies devices[i].name
            != name by {
            if i < low.len() {
                assert(low[i] == devices[i]);
            }
        }
    }
}

} // verus!
