//! What kernel devices and mapping tables are taken for, and what is done with them.

use vstd::prelude::*;

use super::inventory::{
    absent, by_number, check_recovery_settings, control_id, is_comparison, present, saved_numbers,
    KernelDevice, RemovalStep, UblkError, UblkSystem,
};
use super::mapped_error::MappedVolumeError;
use super::mapped_identity::BlockDeviceNumber;
use super::mapped_tables::{
    classify_backend_switch, is_table_of, matching, select_saved_linear_layout, table_view,
    validate_linear_table, BackendSwitchAction, RawTarget, SavedLinearLayout, TargetView,
};
use super::settings::UblkSettings;
use super::ublk_types::{UblkDeviceCheck, UblkDeviceId, UblkDeviceInfo, UblkDeviceState, UblkFeatures};

verus! {

/// The kernel serves a device as it was saved: every size, queue and limit is equal, and
/// requests are issued again after a recovery.
pub open spec fn is_served_as_saved(device: UblkDeviceInfo, settings: UblkSettings) -> bool {
    &&& device.capacity_bytes == settings@.capacity_bytes
    &&& device.logical_sector_bytes == settings@.logical_sector_bytes
    &&& device.physical_block_bytes == settings@.physical_block_bytes
    &&& device.minimum_io_bytes == settings@.minimum_io_bytes
    &&& device.queue_count == settings@.queue_count
    &&& device.queue_depth == settings@.queue_depth
    &&& device.max_request_bytes == settings@.max_request_bytes
    &&& device.reissues_requests_after_recovery
}

/// Recovery settings are accepted exactly where the kernel serves the device as it was
/// saved, and a mismatch names two values that differ.
pub proof fn law_recovery_settings_call(
    device: UblkDeviceInfo,
    settings: UblkSettings,
    out: Result<(), UblkError>,
)
    requires
        call_ensures(check_recovery_settings, (&device, settings), out),
    ensures
        out is Ok <==> is_served_as_saved(device, settings),
        out matches Err(error) ==> (error matches UblkError::RecoverySettingMismatch {
            field: _,
            saved,
            kernel,
        } && saved != kernel),
{
}

/// A recovery is admitted exactly for a device that waits for one, that the kernel serves
/// as it was saved, and whose number the control interface can name; it is then called by
/// that number.
pub proof fn law_recovery_call(
    system: UblkSystem,
    id: UblkDeviceId,
    existing: Option<&UblkDeviceInfo>,
    settings: UblkSettings,
    out: Result<i32, UblkError>,
)
    requires
        call_ensures(UblkSystem::admit_recovery, (&system, id, existing, settings), out),
    ensures
        out is Ok ==> existing is Some && existing->0.state == UblkDeviceState::NeedsRecovery
            && is_served_as_saved(*existing->0, settings),
        existing is Some && existing->0.state == UblkDeviceState::NeedsRecovery
            && is_served_as_saved(*existing->0, settings) && id.value() <= 0x7fff_ffff ==> out
            is Ok,
        out matches Ok(number) ==> number == id.value(),
        existing is None ==> out == Err::<i32, UblkError>(UblkError::DeviceNotFound { id }),
{
}

/// A running device is never removed; any other is removed by its number; and nothing is
/// done where there is none.
pub proof fn law_removal_call(
    system: UblkSystem,
    id: UblkDeviceId,
    device: Option<&UblkDeviceInfo>,
    out: Result<RemovalStep, UblkError>,
)
    requires
        call_ensures(UblkSystem::remove, (&system, id, device), out),
    ensures
        device is None ==> out == Ok::<RemovalStep, UblkError>(RemovalStep::Nothing),
        device is Some && device->0.state == UblkDeviceState::Running ==> out is Err,
        device is Some && device->0.state != UblkDeviceState::Running && id.value() <= 0x7fff_ffff
            ==> out == Ok::<RemovalStep, UblkError>(RemovalStep::Delete(id.value() as i32)),
{
}

/// The control interface names a device by its number where that is a positive number of 32
/// bits with a sign.
pub proof fn law_control_number_call(id: UblkDeviceId, out: Result<i32, UblkError>)
    requires
        call_ensures(control_id, (id,), out),
    ensures
        out is Ok <==> id.value() <= 0x7fff_ffff,
        out matches Ok(number) ==> number == id.value(),
{
}

/// A kernel device is shown exactly where it carries the owner's mark. Its capacity is 512
/// bytes for each sector, its process is named only while it runs, and one is running,
/// waiting for recovery or stopped by the numbers one, two and zero.
pub proof fn law_device_call(
    system: UblkSystem,
    id: UblkDeviceId,
    found: Option<KernelDevice>,
    out: Result<Option<UblkDeviceInfo>, UblkError>,
)
    requires
        call_ensures(UblkSystem::device, (&system, id, found), out),
    ensures
        out == Ok::<Option<UblkDeviceInfo>, UblkError>(None) <==> found is None
            || found->0.owner_flags != system.owner().value(),
        out matches Ok(Some(info)) ==> {
            let raw = found->0;
            &&& info.id == id
            &&& info.capacity_bytes == 512 * raw.dev_sectors
            &&& info.state == UblkDeviceState::Running <==> raw.state == 1
            &&& info.state == UblkDeviceState::NeedsRecovery <==> raw.state == 2
            &&& info.state == UblkDeviceState::Stopped <==> raw.state == 0
            &&& info.server_pid is Some <==> raw.state == 1 && raw.server_pid > 0
            &&& info.server_pid is Some ==> info.server_pid->0 == raw.server_pid
            &&& info.block_path@ == raw.block_path@
            &&& info.queue_count == raw.queue_count
            &&& info.queue_depth == raw.queue_depth
            &&& info.max_request_bytes == raw.max_request_bytes
            &&& info.reissues_requests_after_recovery <==> (raw.flags / 16) % 2 == 1
        },
        found is Some && found->0.owner_flags == system.owner().value() && 512
            * found->0.dev_sectors <= u64::MAX && found->0.logical_bs_shift < 32
            && found->0.physical_bs_shift < 32 && found->0.io_min_shift < 32 ==> out is Ok,
{
    if let Some(raw) = found {
        let flags = raw.flags;
        assert((flags & 16 != 0) == ((flags / 16) % 2 == 1)) by (bit_vector);
    }
}

/// The required features are the bits worth eight and sixteen of what the kernel reports.
pub proof fn law_required_features_call(
    system: UblkSystem,
    control_exists: bool,
    reported: Option<u64>,
    out: Result<UblkFeatures, UblkError>,
)
    requires
        call_ensures(UblkSystem::require_features, (&system, control_exists, reported), out),
    ensures
        out is Ok <==> control_exists && reported is Some && (reported->0 / 8) % 2 == 1 && (
        reported->0 / 16) % 2 == 1,
        out matches Ok(features) ==> reported == Some(features.bits()),
{
    if let Some(bits) = reported {
        assert((bits & 8 != 0) == ((bits / 8) % 2 == 1)) by (bit_vector);
        assert((bits & 16 != 0) == ((bits / 16) % 2 == 1)) by (bit_vector);
    }
}

/// What is present of some numbers are the devices that have one of them.
proof fn lemma_present(numbers: Seq<u128>, devices: Map<u128, UblkDeviceInfo>)
    ensures
        forall|i: int|
            #![trigger numbers[i]]
            0 <= i < numbers.len() && devices.contains_key(numbers[i]) ==> present(
                numbers,
                devices,
            ).contains(devices[numbers[i]]),
        forall|info: UblkDeviceInfo| #[trigger]
            present(numbers, devices).contains(info) ==> exists|i: int|
                #![trigger numbers[i]]
                0 <= i < numbers.len() && devices.contains_key(numbers[i]) && devices[numbers[i]]
                    == info,
        forall|number: u128| #[trigger]
            absent(numbers, devices).contains(number) <==> numbers.contains(number)
                && !devices.contains_key(number),
    decreases numbers.len(),
{
    let shown = present(numbers, devices);
    let gone = absent(numbers, devices);
    if numbers.len() > 0 {
        let rest = numbers.drop_last();
        let last = numbers.last();
        lemma_present(rest, devices);
        let before = present(rest, devices);
        let missing = absent(rest, devices);
        assert forall|i: int|
            #![trigger numbers[i]]
            0 <= i < numbers.len() && devices.contains_key(numbers[i]) implies shown.contains(
            devices[numbers[i]],
        ) by {
            if i < rest.len() {
                assert(rest[i] == numbers[i]);
                let k = before.index_of(devices[numbers[i]]);
                assert(shown[k] == devices[numbers[i]]);
            } else {
                assert(shown[before.len() as int] == devices[last]);
            }
        }
        assert forall|info: UblkDeviceInfo| #[trigger] shown.contains(info) implies exists|i: int|
            #![trigger numbers[i]]
            0 <= i < numbers.len() && devices.contains_key(numbers[i]) && devices[numbers[i]]
                == info by {
            let k = shown.index_of(info);
            if k < before.len() {
                assert(before[k] == info);
                assert(before.contains(info));
                let i = choose|i: int|
                    #![trigger rest[i]]
                    0 <= i < rest.len() && devices.contains_key(rest[i]) && devices[rest[i]]
                        == info;
                assert(numbers[i] == rest[i]);
            } else {
                assert(numbers[numbers.len() - 1] == last);
            }
        }
        assert forall|number: u128| #[trigger] gone.contains(number) <==> numbers.contains(number)
            && !devices.contains_key(number) by {
            if gone.contains(number) {
                let k = gone.index_of(number);
                if k < missing.len() {
                    assert(missing[k] == number);
                    assert(missing.contains(number));
                    let i = rest.index_of(number);
                    assert(numbers[i] == number);
                } else {
                    assert(numbers[numbers.len() - 1] == number);
                }
            }
            if numbers.contains(number) && !devices.contains_key(number) {
                let i = numbers.index_of(number);
                if i < rest.len() {
                    assert(rest[i] == number);
                    assert(missing.contains(number));
                    let k = missing.index_of(number);
                    assert(gone[k] == number);
                } else {
                    assert(gone[missing.len() as int] == number);
                }
            }
        }
    }
}

/// A comparison finds each saved number that a device has, misses each that none has, and
/// calls every other device unexpected.
pub proof fn law_comparison_call(
    system: UblkSystem,
    expected: &[UblkDeviceId],
    devices: Vec<UblkDeviceInfo>,
    out: UblkDeviceCheck,
    number: u128,
)
    requires
        call_ensures(UblkSystem::check_devices, (&system, expected, devices), out),
    ensures
        ({
            let shown = by_number(devices@);
            let saved = exists|i: int|
                #![trigger expected@[i]]
                0 <= i < expected@.len() && expected@[i].value() == number;
            &&& shown.contains_key(number) && saved ==> out.found@.contains(shown[number])
            &&& shown.contains_key(number) && !saved ==> out.unexpected@.contains(shown[number])
            &&& (exists|k: int|
                #![trigger out.missing@[k]]
                0 <= k < out.missing@.len() && out.missing@[k].value() == number) <==> saved
                && !shown.contains_key(number)
        }),
{
    let shown = by_number(devices@);
    let (saved, others) = choose|saved: Seq<u128>, others: Seq<u128>| #[trigger]
        is_comparison(out, expected@, shown, saved, others);
    lemma_present(saved, shown);
    lemma_present(others, shown);
    let wanted = saved_numbers(expected@);
    let rest = shown.dom().difference(wanted);
    let missing = out.missing@.map_values(|id: UblkDeviceId| id.value() as u128);
    if wanted.contains(number) {
        assert(saved.contains(number));
        let i = saved.index_of(number);
        assert(saved[i] == number);
    }
    if rest.contains(number) {
        assert(others.contains(number));
        let i = others.index_of(number);
        assert(others[i] == number);
    }
    if saved.contains(number) {
        let i = saved.index_of(number);
        assert(wanted.contains(saved[i]));
    }
    assert(absent(saved, shown).contains(number) <==> saved.contains(number)
        && !shown.contains_key(number));
    if exists|k: int|
        #![trigger out.missing@[k]]
        0 <= k < out.missing@.len() && out.missing@[k].value() == number {
        let k = choose|k: int|
            #![trigger out.missing@[k]]
            0 <= k < out.missing@.len() && out.missing@[k].value() == number;
        assert(missing[k] == number);
        assert(missing.contains(number));
    }
    if missing.contains(number) {
        let k = missing.index_of(number);
        assert(out.missing@[k].value() == number);
    }
}

/// A table is that of a layout only where it is one linear target from the first sector on,
/// over all sectors of the layout.
pub proof fn law_layout_tables(table: Seq<TargetView>, layout: SavedLinearLayout)
    ensures
        is_table_of(table, layout) ==> table.len() == 1 && table[0].0 == 0 && table[0].1
            == layout.sectors && table[0].2 == "linear"@,
{
}

/// A table is accepted exactly where it is that of the sectors and the backend.
pub proof fn law_validation_call(
    name: &str,
    table: &[RawTarget],
    sectors: u64,
    backend: BlockDeviceNumber,
    out: Result<(), MappedVolumeError>,
)
    requires
        call_ensures(validate_linear_table, (name, table, sectors, backend), out),
    ensures
        out is Ok <==> is_table_of(table_view(table@), SavedLinearLayout { sectors, backend }),
{
}

/// Matching layouts are exactly those whose table it is.
proof fn lemma_all_matching(
    table: Seq<TargetView>,
    candidates: Seq<SavedLinearLayout>,
    i: int,
)
    requires
        0 <= i < candidates.len(),
    ensures
        matching(table, candidates).contains(i) <==> is_table_of(table, candidates[i]),
    decreases candidates.len(),
{
    let rest = candidates.drop_last();
    let all = matching(table, candidates);
    let before = matching(table, rest);
    super::mapped_tables::lemma_matching(table, candidates);
    if all.contains(i) {
        let k = all.index_of(i);
        assert(is_table_of(table, candidates[all[k]]));
    }
    if is_table_of(table, candidates[i]) {
        if i < rest.len() {
            lemma_all_matching(table, rest, i);
            assert(rest[i] == candidates[i]);
            let k = before.index_of(i);
            assert(all[k] == i);
        } else {
            assert(all[before.len() as int] == i);
        }
    }
}

/// A saved layout is selected only where the active table is its own, and where a larger
/// one is prepared, that one is larger; and it is the only layout with that table.
pub proof fn law_selection_call(
    name: &str,
    active: &[RawTarget],
    inactive: &[RawTarget],
    candidates: &[SavedLinearLayout],
    out: Result<usize, MappedVolumeError>,
    j: int,
)
    requires
        call_ensures(select_saved_linear_layout, (name, active, inactive, candidates), out),
        0 <= j < candidates@.len(),
    ensures
        out matches Ok(index) ==> {
            &&& index < candidates@.len()
            &&& is_table_of(table_view(active@), candidates@[index as int])
            &&& is_table_of(table_view(active@), candidates@[j]) ==> j == index
            &&& inactive@.len() > 0 && is_table_of(table_view(inactive@), candidates@[j])
                ==> candidates@[j].sectors > candidates@[index as int].sectors
        },
        (forall|i: int|
            #![trigger candidates@[i]]
            0 <= i < candidates@.len() ==> !is_table_of(table_view(active@), candidates@[i]))
            ==> out is Err,
{
    let running = matching(table_view(active@), candidates@);
    let pending = matching(table_view(inactive@), candidates@);
    super::mapped_tables::lemma_matching(table_view(active@), candidates@);
    super::mapped_tables::lemma_matching(table_view(inactive@), candidates@);
    lemma_all_matching(table_view(active@), candidates@, j);
    lemma_all_matching(table_view(inactive@), candidates@, j);
    if let Ok(index) = out {
        assert(running[0] == index);
    }
}

/// A switch loads the larger table only over the current one with none prepared, activates
/// it only where it is prepared over the current one, and finishes only where it is active
/// with none prepared.
pub proof fn law_switch_call(
    name: &str,
    active: &[RawTarget],
    inactive: &[RawTarget],
    suspended: bool,
    current: SavedLinearLayout,
    larger: SavedLinearLayout,
    out: Result<BackendSwitchAction, MappedVolumeError>,
)
    requires
        call_ensures(
            classify_backend_switch,
            (name, active, inactive, suspended, current, larger),
            out,
        ),
        current != larger,
    ensures
        ({
            let at_current = is_table_of(table_view(active@), current);
            let at_larger = is_table_of(table_view(active@), larger);
            &&& out == Ok::<BackendSwitchAction, MappedVolumeError>(BackendSwitchAction::Finish)
                <==> at_larger && inactive@.len() == 0
            &&& out == Ok::<BackendSwitchAction, MappedVolumeError>(BackendSwitchAction::LoadLarger)
                <==> at_current && inactive@.len() == 0
            &&& out == Ok::<BackendSwitchAction, MappedVolumeError>(
                BackendSwitchAction::ActivateLarger,
            ) <==> at_current && is_table_of(table_view(inactive@), larger)
        }),
{
    if is_table_of(table_view(active@), current) && is_table_of(table_view(active@), larger) {
        super::mapped_tables::law_tables_tell_layouts_apart(
            table_view(active@),
            current,
            larger,
        );
    }
}

} // verus!
