use mantissa::catalog::model::ReplicaKey;
use mantissa::driver::inventory::{
    control_id, inventory_id, KernelDevice, RemovalStep, UblkError, UblkSystem,
};
use mantissa::driver::mapped_error::MappedVolumeError;
use mantissa::driver::mapped_identity::BlockDeviceNumber;
use mantissa::driver::mapped_owned::{
    backend_is_referenced, check_failed_io, check_unchanged, fail_owned_io, failed_io_table,
    remove_unexpected, replace_owned_table, sort_owned, FailReplacement, FailStep, OwnedChange,
    OwnedMappedVolume,
};
use mantissa::driver::mapped_tables::{
    expected_table, parse_device_number, RawTarget, SavedLinearLayout,
};
use mantissa::driver::mapped_volume::{
    active_layout, check_switch_request, ensure, find_own, inspect_existing, locate_existing,
    read_setting, switch_backend, EnsureAction, ExistingMapping, KernelMapping, MappedVolumeLayout,
    SwitchAction,
};
use mantissa::driver::progress::RequestProgress;
use mantissa::driver::requests::device_parameters;
use mantissa::driver::settings::{UblkQueueSettings, UblkSettings};
use mantissa::driver::ublk_types::{UblkDeviceId, UblkDeviceState, UblkOwnerId};
use mantissa::volume::block_sizes::VolumeBlockSizes;
use mantissa::volume::descriptor::VolumeDescriptor;
use mantissa::volume::identity::{VolumeGeneration, VolumeId, VolumeNodeId};

fn node(value: u128) -> VolumeNodeId {
    VolumeNodeId::new(value).expect("node")
}

fn descriptor(volume: u128, capacity: u64) -> VolumeDescriptor {
    VolumeDescriptor::new(
        VolumeId::new(volume).expect("volume"),
        VolumeGeneration::new(3).expect("generation"),
        capacity,
        VolumeBlockSizes::supported(),
    )
    .expect("descriptor")
}

fn layout(node_id: u128, volume: u128, capacity: u64) -> MappedVolumeLayout {
    MappedVolumeLayout::new(node(node_id), &descriptor(volume, capacity), b"/dev/ublkb1".to_vec())
        .expect("layout")
}

fn mapping(name: &str, uuid: Option<&str>) -> KernelMapping {
    KernelMapping {
        name: name.to_string(),
        uuid: uuid.map(str::to_string),
        device_number: BlockDeviceNumber::new(253, 4),
        suspended: false,
    }
}

fn owned(node_id: u128, volume: u128) -> OwnedMappedVolume {
    let layout = layout(node_id, volume, 1 << 20);
    OwnedMappedVolume::of_mapping(
        &mapping(layout.name(), Some(layout.uuid())),
        &[BlockDeviceNumber::new(259, 9), BlockDeviceNumber::new(259, 2)],
    )
    .expect("owned mapping")
}

#[test]
fn own_mapping_is_found_by_name_and_uuid() {
    let layout = layout(1, 2, 1 << 20);
    let own = mapping(layout.name(), Some(layout.uuid()));
    let other = mapping("swap", None);
    assert_eq!(find_own(layout.identity(), &[]), Ok(None));
    assert_eq!(locate_existing(&layout, &[other, own]), Ok(Some(1)));
}

#[test]
fn foreign_and_misnamed_mappings_are_refused() {
    let layout = layout(1, 2, 1 << 20);
    let foreign = find_own(layout.identity(), &[mapping(layout.name(), Some("LVM-\"x\""))])
        .expect_err("foreign mapping");
    assert_eq!(
        foreign.message(),
        format!(
            "mapped volume name '{}' belongs to foreign device-mapper UUID Some(\"LVM-\\\"x\\\"\")",
            layout.name()
        )
    );
    let unnamed = find_own(layout.identity(), &[mapping(layout.name(), None)])
        .expect_err("mapping without UUID");
    assert!(unnamed.message().ends_with("foreign device-mapper UUID None"));
    assert_eq!(
        locate_existing(&layout, &[mapping("other", Some(layout.uuid()))]),
        Err(MappedVolumeError::WrongName {
            uuid: layout.uuid().to_string(),
            actual_name: "other".to_string()
        })
    );
    assert_eq!(
        locate_existing(
            &layout,
            &[
                mapping("a", Some(layout.uuid())),
                mapping("b", Some(layout.uuid()))
            ]
        ),
        Err(MappedVolumeError::DuplicateUuid { uuid: layout.uuid().to_string(), count: 2 })
    );
}

#[test]
fn active_mapping_of_saved_candidates_is_found() {
    let small = layout(1, 2, 1 << 20);
    let own = mapping(small.name(), Some(small.uuid()));
    let candidates = [layout(1, 2, 1 << 20), layout(1, 2, 2 << 20)];
    assert_eq!(active_layout(&[], &[]), Ok(None));
    assert_eq!(active_layout(&candidates, &[mapping("swap", None)]), Ok(None));
    assert_eq!(active_layout(&candidates, &[mapping("swap", None), own]), Ok(Some(1)));
    assert_eq!(
        active_layout(&candidates, &[mapping(small.name(), Some("LVM-x"))]),
        Err(MappedVolumeError::ForeignName {
            name: small.name().to_string(),
            actual_uuid: Some("LVM-x".to_string())
        })
    );
    assert_eq!(
        active_layout(&[layout(1, 2, 1 << 20), layout(1, 3, 1 << 20)], &[]),
        Err(MappedVolumeError::WrongLayout {
            name: small.name().to_string(),
            reason: "saved layout candidates do not describe one mapped volume".to_string()
        })
    );
}

#[test]
fn failures_name_the_device() {
    let failure = MappedVolumeError::BlockDevice {
        path: b"/dev/\xffx".to_vec(),
        message: "gone".to_string(),
    };
    assert_eq!(failure.message(), "check block device '/dev/\u{fffd}x': gone");
    assert_eq!(
        MappedVolumeError::CapacityNotSectorAligned { capacity_bytes: 7 }.message(),
        "mapped volume capacity 7 is not aligned to a 512-byte sector"
    );
}

#[test]
fn existing_tables_decide_the_next_step() {
    let layout = layout(1, 2, 1 << 20);
    let backend = BlockDeviceNumber::new(259, 1);
    let table = expected_table(layout.saved_layout(backend));
    assert_eq!(table, vec![(0, 2048, "linear".to_string(), "259:1 0".to_string())]);
    let none: Vec<RawTarget> = Vec::new();
    let state = |active: &[RawTarget], inactive: &[RawTarget]| {
        inspect_existing(&layout, backend, active, inactive, false).expect("known state")
    };
    assert_eq!(ensure(state(&none, &none)), EnsureAction::Load);
    assert_eq!(ensure(state(&none, &table)), EnsureAction::Activate);
    assert_eq!(ensure(state(&table, &none)), EnsureAction::Verify);
    assert_eq!(ensure(ExistingMapping::Absent), EnsureAction::Create);
}

#[test]
fn backend_switches_step_by_step() {
    let small = layout(1, 2, 1 << 20);
    let large = layout(1, 2, 2 << 20);
    check_switch_request(&small, &large).expect("larger backend");
    assert!(check_switch_request(&large, &small).is_err());
    let current: SavedLinearLayout = small.saved_layout(BlockDeviceNumber::new(259, 1));
    let larger = large.saved_layout(BlockDeviceNumber::new(259, 2));
    let old = expected_table(current);
    let new = expected_table(larger);
    let step = |active: &[RawTarget], inactive: &[RawTarget], suspended: bool| {
        switch_backend("m", active, inactive, suspended, current, larger).expect("known state")
    };
    assert_eq!(step(&old, &[], false), SwitchAction::Load);
    assert_eq!(step(&old, &new, false), SwitchAction::Activate { suspend_first: true });
    assert_eq!(step(&old, &new, true), SwitchAction::Activate { suspend_first: false });
    assert_eq!(step(&new, &[], true), SwitchAction::Resume);
    assert_eq!(step(&new, &[], false), SwitchAction::VerifyLarger);
}

#[test]
fn owned_mappings_are_sorted_and_told_apart() {
    let sorted = sort_owned(vec![owned(2, 1), owned(1, 9), owned(1, 3)]);
    let order: Vec<(u128, u128)> = sorted
        .iter()
        .map(|device| (device.node_id().as_u128(), device.key().volume_id().as_u128()))
        .collect();
    assert_eq!(order, vec![(1, 3), (1, 9), (2, 1)]);
    assert_eq!(
        sorted[0].backend_device_numbers(),
        &[BlockDeviceNumber::new(259, 2), BlockDeviceNumber::new(259, 9)]
    );
    assert!(OwnedMappedVolume::of_mapping(&mapping("swap", None), &[]).is_none());

    let kept = [ReplicaKey::from_descriptor(&descriptor(3, 1 << 20))];
    assert!(!remove_unexpected(&sorted[0], node(1), &kept));
    assert!(remove_unexpected(&sorted[1], node(1), &kept));
    assert!(!remove_unexpected(&sorted[2], node(1), &kept));
}

#[test]
fn changed_owner_is_refused() {
    let device = owned(1, 2);
    let uuid = Some(device.uuid().to_string());
    check_unchanged(&device, &uuid, device.device_number(), OwnedChange::Removal)
        .expect("unchanged mapping");
    assert!(check_unchanged(&device, &None, device.device_number(), OwnedChange::Removal).is_err());
    assert!(check_unchanged(
        &device,
        &uuid,
        BlockDeviceNumber::new(253, 5),
        OwnedChange::FailedIo
    )
    .is_err());
}

#[test]
fn failed_io_replaces_the_whole_table() {
    let device = owned(1, 2);
    let candidates = [layout(1, 2, 1 << 20)];
    let table = expected_table(candidates[0].saved_layout(BlockDeviceNumber::new(259, 2)));
    let failed = failed_io_table(2048);
    assert_eq!(failed, vec![(0, 2048, "error".to_string(), String::new())]);
    assert_eq!(
        fail_owned_io(&device, &table, &[], false, &candidates),
        Ok(FailStep::Compare)
    );
    let saved = [candidates[0].saved_layout(BlockDeviceNumber::new(259, 2))];
    assert_eq!(
        replace_owned_table(&device, &table, &[], false, &saved),
        Ok(FailReplacement { sectors: 2048, suspend_first: true })
    );
    assert_eq!(
        replace_owned_table(&device, &table, &[], true, &saved),
        Ok(FailReplacement { sectors: 2048, suspend_first: false })
    );
    let foreign =
        expected_table(candidates[0].saved_layout(BlockDeviceNumber::new(259, 3)));
    assert!(matches!(
        replace_owned_table(&device, &foreign, &[], false, &saved),
        Err(MappedVolumeError::WrongLayout { .. })
    ));
    assert_eq!(fail_owned_io(&device, &failed, &[], false, &candidates), Ok(FailStep::Done));
    check_failed_io(&device, &failed, 2048).expect("failing table");
    assert!(check_failed_io(&device, &table, 2048).is_err());
    let numbers = [BlockDeviceNumber::new(259, 2)];
    assert!(backend_is_referenced(&numbers, BlockDeviceNumber::new(259, 2)));
    assert!(!backend_is_referenced(&numbers, BlockDeviceNumber::new(259, 3)));
}

#[test]
fn device_numbers_are_read_exactly() {
    let read = |text: &str| parse_device_number(&text.chars().collect::<Vec<_>>());
    assert_eq!(read("259:17"), Some(BlockDeviceNumber::new(259, 17)));
    assert_eq!(read("4294967296:1"), None);
    assert_eq!(read("259"), None);
    assert_eq!(read("259:"), None);
}

fn settings() -> UblkSettings {
    UblkSettings::new(
        &descriptor(2, 1 << 20),
        UblkQueueSettings {
            queue_count: 1,
            queue_depth: 4,
            max_request_bytes: 64 << 10,
            memory_limit_bytes: 256 << 10,
        },
        4096,
    )
    .expect("settings")
}

fn kernel_device(owner: u64, state: u16) -> KernelDevice {
    KernelDevice {
        owner_flags: owner,
        state,
        server_pid: 77,
        block_path: "/dev/ublkb3".to_string(),
        dev_sectors: 2048,
        logical_bs_shift: 12,
        physical_bs_shift: 12,
        io_min_shift: 12,
        queue_count: 1,
        queue_depth: 4,
        max_request_bytes: 64 << 10,
        flags: u64::MAX,
    }
}

#[test]
fn only_own_devices_are_listed() {
    let system = UblkSystem::system(UblkOwnerId::new(5));
    let id = UblkDeviceId::new(3);
    assert_eq!(system.device(id, None), Ok(None));
    assert_eq!(system.device(id, Some(kernel_device(6, 2))), Ok(None));
    let info = system.device(id, Some(kernel_device(5, 2))).expect("device").expect("owned");
    assert_eq!(info.capacity_bytes(), 1 << 20);
    assert_eq!(info.logical_sector_bytes(), 4096);
    assert_eq!(system.admit_recovery(id, Some(&info), settings()), Ok(3));
    assert_eq!(
        system.admit_recovery(id, None, settings()),
        Err(UblkError::DeviceNotFound { id })
    );
    let mut broken = kernel_device(5, 2);
    broken.logical_bs_shift = 40;
    assert!(matches!(
        system.device(id, Some(broken)),
        Err(UblkError::InvalidBlockSize { .. })
    ));
    let mut huge = kernel_device(5, 2);
    huge.dev_sectors = u64::MAX;
    assert_eq!(system.device(id, Some(huge)), Err(UblkError::CapacityOverflow));
}

#[test]
fn running_devices_are_not_removed() {
    let system = UblkSystem::system(UblkOwnerId::new(5));
    let id = UblkDeviceId::new(3);
    let mut info = system.device(id, Some(kernel_device(5, 2))).expect("device").expect("owned");
    assert_eq!(system.remove(id, None), Ok(RemovalStep::Nothing));
    assert_eq!(system.remove(id, Some(&info)), Ok(RemovalStep::Delete(3)));
    info.state = UblkDeviceState::Running;
    assert_eq!(system.remove(id, Some(&info)), Err(UblkError::DeviceStillRunning { id }));
    assert!(matches!(
        system.admit_recovery(id, Some(&info), settings()),
        Err(UblkError::DeviceNotRecoverable { .. })
    ));
}

#[test]
fn recovery_needs_the_saved_settings() {
    let system = UblkSystem::system(UblkOwnerId::new(5));
    let id = UblkDeviceId::new(3);
    let mut info = system.device(id, Some(kernel_device(5, 2))).expect("device").expect("owned");
    info.queue_depth = 8;
    let failure = system.admit_recovery(id, Some(&info), settings()).expect_err("other depth");
    assert!(matches!(
        failure,
        UblkError::RecoverySettingMismatch { saved: 4, kernel: 8, .. }
    ));
}

#[test]
fn expected_devices_are_compared_with_the_kernel() {
    let system = UblkSystem::system(UblkOwnerId::new(5));
    let device = |id: u32| {
        system
            .device(UblkDeviceId::new(id), Some(kernel_device(5, 2)))
            .expect("device")
            .expect("owned")
    };
    let listed = system.devices(vec![device(9), device(3)]);
    assert_eq!(listed[0].id(), UblkDeviceId::new(3));
    let check = system.check_devices(&[UblkDeviceId::new(3), UblkDeviceId::new(4)], listed);
    assert_eq!(check.found().len(), 1);
    assert_eq!(check.missing(), &[UblkDeviceId::new(4)]);
    assert_eq!(check.unexpected()[0].id(), UblkDeviceId::new(9));
}

#[test]
fn missing_kernel_features_are_named() {
    let system = UblkSystem::system(UblkOwnerId::new(5));
    let reason = |failure: UblkError| match failure {
        UblkError::Unavailable { reason } => reason,
        _ => String::new(),
    };
    assert_eq!(
        reason(system.features(false, None).expect_err("no control device")),
        "/dev/ublk-control is missing"
    );
    assert_eq!(
        reason(system.features(true, None).expect_err("no answer")),
        "the kernel rejected the feature query"
    );
    assert!(system.require_features(true, Some(u64::MAX)).is_ok());
    assert!(system.require_features(true, Some(0)).is_err());
}

#[test]
fn device_names_carry_their_number() {
    assert_eq!(inventory_id("ublkc12"), Ok(Some(UblkDeviceId::new(12))));
    assert_eq!(inventory_id("sda"), Ok(None));
    assert!(inventory_id("ublkcx").is_err());
    assert_eq!(control_id(UblkDeviceId::new(7)), Ok(7));
    assert!(control_id(UblkDeviceId::new(u32::MAX)).is_err());
}

#[test]
fn device_parameters_follow_the_settings() {
    let parameters = device_parameters(settings());
    assert_eq!(parameters.logical_bs_shift, 12);
    assert_eq!(parameters.dev_sectors, 2048);
    assert_eq!(parameters.max_sectors, 128);
    assert_eq!(parameters.discard_granularity, 4096);
}

#[test]
fn request_progress_counts_up() {
    let mut progress = RequestProgress::default();
    assert_eq!(progress.request_after(0), None);
    progress.request_finished();
    assert_eq!(progress.completed_requests(), 1);
    assert_eq!(progress.request_after(0), Some(1));
    assert_eq!(progress.request_after(1), None);
}

#[test]
fn owner_tag_is_the_head_of_the_derived_key() {
    let key = blake3::derive_key("mantissa ublk owner v1", &[7; 16]);
    let mut head = [0u8; 8];
    head.copy_from_slice(&key[..8]);
    assert_eq!(UblkOwnerId::for_node(&[7; 16]).get(), u64::from_be_bytes(head));
}

#[test]
fn kernel_settings_are_trimmed_decimal_numbers() {
    let path = b"/sys/dev/block/252:0/size";
    assert_eq!(read_setting(path, " 2048\n").expect("number"), 2048);
    for (text, reason) in [
        ("\n", "cannot parse integer from empty string"),
        ("12 4", "invalid digit found in string"),
        ("18446744073709551616\n", "number too large to fit in target type"),
    ] {
        match read_setting(path, text) {
            Err(MappedVolumeError::BlockDevice { path: named, message }) => {
                assert_eq!(named, path.to_vec());
                assert_eq!(message, format!("invalid decimal value: {reason}"));
            }
            other => panic!("{other:?}"),
        }
    }
}
