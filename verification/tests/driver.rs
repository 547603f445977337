use mantissa::catalog::mounts::{dax_is_enabled, decode_mount_bytes, option_has_dax};
use mantissa::driver::block_io::{block_error, BlockIoError};
use mantissa::driver::mapped_identity::{
    BlockDeviceNumber, MappedVolumeIdentity, DEVICE_MAPPER_NAME_MAX_BYTES,
    DEVICE_MAPPER_UUID_MAX_BYTES,
};
use mantissa::driver::mapped_tables::{
    classify_backend_switch, select_saved_linear_layout, validate_linear_table,
    BackendSwitchAction, RawTarget, SavedLinearLayout,
};
use mantissa::driver::mapped_volume::MappedVolumeLayout;
use mantissa::driver::requests::{
    admit_request, answer_request, parse_request, BlockAction, Request, FLAG_NOUNMAP, OP_DISCARD,
    OP_FLUSH, OP_READ, OP_WRITE, OP_WRITE_ZEROES,
};
use mantissa::driver::settings::{
    DriverLimitSettings, DriverLimits, InvalidDriverLimits, InvalidUblkSettings,
    UblkQueueSettings, UblkSettings,
};
use mantissa::driver::ublk_types::UblkOwnerId;
use mantissa::volume::block_sizes::VolumeBlockSizes;
use mantissa::volume::descriptor::VolumeDescriptor;
use mantissa::volume::identity::{VolumeGeneration, VolumeId, VolumeNodeId};

/// Page size that the host reports.
const PAGE: i64 = 4096;

/// Returns the local node encoded in deterministic test mappings.
fn node_id() -> VolumeNodeId {
    VolumeNodeId::new(0x87654321_4321_8765_abcd_ef0123456789).expect("non-zero volume node ID")
}

/// Creates one checked descriptor for identity and table tests.
fn descriptor(generation: u64) -> VolumeDescriptor {
    VolumeDescriptor::new(
        VolumeId::new(0x12345678_1234_5678_9abc_def012345678).expect("non-zero volume ID"),
        VolumeGeneration::new(generation).expect("non-zero generation"),
        10 * 1024 * 1024,
        VolumeBlockSizes::supported(),
    )
    .expect("valid descriptor")
}

fn backend() -> Vec<u8> {
    b"/dev/ublkb42".to_vec()
}

#[test]
fn identity_is_deterministic_and_parseable() {
    let layout =
        MappedVolumeLayout::new(node_id(), &descriptor(7), backend()).expect("valid mapped layout");
    assert_eq!(
        layout.name(),
        "mantissa-rv-8765432143218765abcdef0123456789-12345678123456789abcdef012345678-g7"
    );
    assert_eq!(
        layout.uuid(),
        "MANTISSA-RV-8765432143218765abcdef0123456789-V12345678123456789abcdef012345678-G7"
    );
    assert_eq!(
        layout.expected_path(),
        "/dev/mapper/mantissa-rv-8765432143218765abcdef0123456789-12345678123456789abcdef012345678-g7"
    );
    assert_eq!(
        MappedVolumeIdentity::from_uuid(layout.uuid()).as_ref(),
        Some(layout.identity())
    );
}

#[test]
fn identity_is_scoped_to_one_local_volume_node() {
    let first =
        MappedVolumeLayout::new(node_id(), &descriptor(7), backend()).expect("first node mapping");
    let second_node = VolumeNodeId::new(0x11111111_2222_3333_4444_555555555555)
        .expect("second non-zero volume node ID");
    let second = MappedVolumeLayout::new(second_node, &descriptor(7), backend())
        .expect("second node mapping");

    assert_eq!(first.key(), second.key());
    assert_ne!(first.expected_path(), second.expected_path());
    assert_ne!(first.uuid(), second.uuid());
    assert_eq!(
        MappedVolumeIdentity::from_uuid(second.uuid()).as_ref(),
        Some(second.identity())
    );
}

#[test]
fn maximum_generation_fits_kernel_identity_limits() {
    let layout = MappedVolumeLayout::new(node_id(), &descriptor(u64::MAX), backend())
        .expect("maximum generation fits");
    assert!(layout.name().len() <= DEVICE_MAPPER_NAME_MAX_BYTES);
    assert!(layout.uuid().len() <= DEVICE_MAPPER_UUID_MAX_BYTES);
}

#[test]
fn foreign_uuid_formats_are_not_owned() {
    assert!(MappedVolumeIdentity::from_uuid("foreign").is_none());
    assert!(MappedVolumeIdentity::from_uuid(
        "MANTISSA-RV-8765432143218765abcdef0123456789-V12345678123456789abcdef012345678-G0"
    )
    .is_none());
    assert!(MappedVolumeIdentity::from_uuid(
        "MANTISSA-RV-8765432143218765abcdef0123456789-V12345678123456789ABCDEF012345678-G1"
    )
    .is_none());
}

#[test]
fn exact_linear_table_is_required() {
    let backend = BlockDeviceNumber::new(259, 17);
    let exact = vec![(0, 2048, "linear".to_string(), "259:17 0".to_string())];
    validate_linear_table("test", &exact, 2048, backend).expect("exact table");

    for wrong in [
        vec![],
        vec![(1, 2048, "linear".to_string(), "259:17 0".to_string())],
        vec![(0, 1024, "linear".to_string(), "259:17 0".to_string())],
        vec![(0, 2048, "error".to_string(), String::new())],
        vec![(0, 2048, "linear".to_string(), "259:18 0".to_string())],
        vec![(0, 2048, "linear".to_string(), "259:17 1".to_string())],
        vec![(0, 2048, "linear".to_string(), "259:17 0 extra".to_string())],
    ] {
        assert!(validate_linear_table("test", &wrong, 2048, backend).is_err());
    }
}

/// Builds the exact raw table row used by the pure recovery-state tests.
fn linear_table(sectors: u64, backend: BlockDeviceNumber) -> Vec<RawTarget> {
    vec![(0, sectors, "linear".to_string(), format!("{} 0", backend.to_text()))]
}

fn saved(sectors: u64, minor: u32) -> SavedLinearLayout {
    SavedLinearLayout { sectors, backend: BlockDeviceNumber::new(259, minor) }
}

/// Restores either side of the atomic table activation without guessing.
#[test]
fn saved_layout_selection_accepts_every_interrupted_switch_boundary() {
    let old = saved(2048, 17);
    let larger = saved(4096, 18);
    let candidates = [old, larger];

    assert_eq!(
        select_saved_linear_layout(
            "test",
            &linear_table(old.sectors, old.backend),
            &linear_table(larger.sectors, larger.backend),
            &candidates,
        )
        .expect("old active table and pending larger table are recoverable"),
        0
    );
    assert_eq!(
        select_saved_linear_layout(
            "test",
            &linear_table(larger.sectors, larger.backend),
            &[],
            &candidates,
        )
        .expect("larger active table is recoverable"),
        1
    );
}

/// Rejects kernel tables that cannot be tied to one exact saved backend.
#[test]
fn saved_layout_selection_rejects_unknown_or_ambiguous_tables() {
    let old = saved(2048, 17);
    let larger = saved(4096, 18);
    let unknown = saved(8192, 19);

    assert!(select_saved_linear_layout(
        "test",
        &linear_table(unknown.sectors, unknown.backend),
        &[],
        &[old, larger],
    )
    .is_err());
    assert!(
        select_saved_linear_layout(
            "test",
            &linear_table(larger.sectors, larger.backend),
            &linear_table(old.sectors, old.backend),
            &[old, larger],
        )
        .is_err(),
        "startup must reject a smaller inactive table behind a larger active table"
    );
    assert!(select_saved_linear_layout(
        "test",
        &linear_table(old.sectors, old.backend),
        &linear_table(unknown.sectors, unknown.backend),
        &[old, larger],
    )
    .is_err());
    assert!(select_saved_linear_layout(
        "test",
        &linear_table(old.sectors, old.backend),
        &[],
        &[old, old],
    )
    .is_err());
}

/// Accepts only the three states produced by a monotonic backend switch.
#[test]
fn backend_switch_classification_is_retryable_and_fail_closed() {
    let old = saved(2048, 17);
    let larger = saved(4096, 18);
    let old_table = linear_table(old.sectors, old.backend);
    let larger_table = linear_table(larger.sectors, larger.backend);

    assert_eq!(
        classify_backend_switch("test", &old_table, &[], false, old, larger)
            .expect("initial state is valid"),
        BackendSwitchAction::LoadLarger
    );
    for suspended in [false, true] {
        assert_eq!(
            classify_backend_switch("test", &old_table, &larger_table, suspended, old, larger)
                .expect("loaded larger table is valid"),
            BackendSwitchAction::ActivateLarger
        );
        assert_eq!(
            classify_backend_switch("test", &larger_table, &[], suspended, old, larger)
                .expect("activated larger table is valid"),
            BackendSwitchAction::Finish
        );
    }

    assert_eq!(
        classify_backend_switch("test", &old_table, &[], true, old, larger)
            .expect("a suspended old table is retryable"),
        BackendSwitchAction::LoadLarger
    );
    assert!(
        classify_backend_switch("test", &larger_table, &old_table, false, old, larger).is_err()
    );
}

#[test]
fn capacity_must_use_whole_device_mapper_sectors() {
    let invalid = VolumeDescriptor::new(
        VolumeId::new(1).expect("non-zero volume ID"),
        VolumeGeneration::new(1).expect("non-zero generation"),
        4097,
        VolumeBlockSizes::supported(),
    );
    assert!(invalid.is_err(), "descriptor rejects this before mapper layout");
}

/// Decodes spaces and literal backslashes from Linux mount paths.
#[test]
fn mount_path_escapes_are_decoded() {
    assert_eq!(
        b"/pool with\\slash".as_slice(),
        decode_mount_bytes(br"/pool\040with\134slash").as_slice()
    );
}

/// Finds only complete DAX mount options.
#[test]
fn dax_options_are_explicit() {
    assert!(option_has_dax(b"rw,dax=always,noatime"));
    assert!(option_has_dax(b"dax"));
    assert!(!option_has_dax(b"rw,nodax,noatime"));
}

/// The deepest mount that holds a path decides.
#[test]
fn deepest_mount_decides_about_dax() {
    let mounts = b"1 0 8:1 / / rw,relatime - ext4 /dev/sda1 rw\n2 1 8:2 / /pool rw,dax - xfs /dev/pmem0 rw\n";
    assert_eq!(dax_is_enabled(b"/pool/replicas", mounts), Some(true));
    assert_eq!(dax_is_enabled(b"/poolside", mounts), Some(false));
    assert_eq!(dax_is_enabled(b"/pool", b""), None);
}

/// Creates one small valid descriptor for queue-setting tests.
fn queue_descriptor() -> VolumeDescriptor {
    VolumeDescriptor::new(
        VolumeId::new(1).expect("fixed volume ID must be valid"),
        VolumeGeneration::new(1).expect("fixed generation must be valid"),
        64 * 1024 * 1024,
        VolumeBlockSizes::supported(),
    )
    .expect("fixed descriptor must be valid")
}

#[test]
fn queue_memory_is_exact_and_caller_limited() {
    let queues = UblkQueueSettings {
        queue_count: 2,
        queue_depth: 32,
        max_request_bytes: 128 * 1024,
        memory_limit_bytes: 8 * 1024 * 1024,
    };
    let settings = UblkSettings::new(&queue_descriptor(), queues, PAGE)
        .expect("settings must fit exactly");
    assert_eq!(8 * 1024 * 1024, settings.queue_buffer_bytes());

    let error = UblkSettings::new(
        &queue_descriptor(),
        UblkQueueSettings {
            memory_limit_bytes: settings.queue_buffer_bytes() - 1,
            ..queues
        },
        PAGE,
    )
    .expect_err("one byte below the exact allocation must fail");
    assert_eq!(
        InvalidUblkSettings::QueueMemoryLimit {
            required_bytes: 8 * 1024 * 1024,
            limit_bytes: 8 * 1024 * 1024 - 1,
        },
        error
    );
}

#[test]
fn pending_requests_and_copied_buffers_are_bounded() {
    let queues = UblkQueueSettings {
        queue_count: 2,
        queue_depth: 32,
        max_request_bytes: 128 * 1024,
        memory_limit_bytes: 8 * 1024 * 1024,
    };
    let valid = DriverLimitSettings {
        queues,
        max_pending_requests: 8,
        max_pending_buffer_bytes: 1024 * 1024,
    };
    let limits = DriverLimits::new(valid, PAGE).expect("driver limits must be valid");
    assert_eq!(8, limits.max_pending_requests());
    assert_eq!(1024 * 1024, limits.max_pending_buffer_bytes());

    assert_eq!(
        InvalidDriverLimits::ZeroPendingRequests,
        DriverLimits::new(DriverLimitSettings { max_pending_requests: 0, ..valid }, PAGE)
            .expect_err("zero waiting requests must fail")
    );
    assert_eq!(
        InvalidDriverLimits::PendingBufferLimit {
            maximum_request_bytes: 128 * 1024,
            buffer_limit_bytes: 128 * 1024 - 1,
        },
        DriverLimits::new(
            DriverLimitSettings { max_pending_buffer_bytes: 128 * 1024 - 1, ..valid },
            PAGE
        )
        .expect_err("one maximum request must fit")
    );
}

#[test]
fn zero_and_misaligned_queue_values_fail_before_ublk() {
    let valid = UblkQueueSettings {
        queue_count: 1,
        queue_depth: 1,
        max_request_bytes: 4 * 1024,
        memory_limit_bytes: 4 * 1024,
    };
    let cases = [
        (
            UblkQueueSettings { queue_count: 0, ..valid },
            InvalidUblkSettings::ZeroQueueCount,
        ),
        (
            UblkQueueSettings { queue_depth: 0, ..valid },
            InvalidUblkSettings::ZeroQueueDepth,
        ),
        (
            UblkQueueSettings {
                max_request_bytes: 4097,
                memory_limit_bytes: 4097,
                ..valid
            },
            InvalidUblkSettings::InvalidRequestSize {
                requested_bytes: 4097,
                alignment_bytes: 4096,
            },
        ),
    ];

    for (settings, expected) in cases {
        assert_eq!(
            expected,
            UblkSettings::new(&queue_descriptor(), settings, PAGE)
                .expect_err("invalid queue settings must fail")
        );
    }
}

/// A host that reports no page size is refused.
#[test]
fn unknown_page_size_is_refused() {
    let valid = UblkQueueSettings {
        queue_count: 1,
        queue_depth: 1,
        max_request_bytes: 4 * 1024,
        memory_limit_bytes: 4 * 1024,
    };
    assert_eq!(
        UblkSettings::new(&queue_descriptor(), valid, -1).expect_err("no page size"),
        InvalidUblkSettings::HostPageSizeUnavailable
    );
}

/// Creates fixed settings with one 128 KiB request buffer.
fn settings() -> UblkSettings {
    UblkSettings::new(
        &queue_descriptor(),
        UblkQueueSettings {
            queue_count: 1,
            queue_depth: 1,
            max_request_bytes: 128 * 1024,
            memory_limit_bytes: 128 * 1024,
        },
        PAGE,
    )
    .expect("fixed ublk settings must be valid")
}

/// Creates one checked request without constructing a kernel descriptor.
fn request(operation: u32, offset: u64, length: usize, fua: bool) -> Request {
    Request {
        operation,
        offset,
        length,
        force_unit_access: fua,
        allow_discard: true,
    }
}

#[derive(Debug, PartialEq)]
enum SeenRequest {
    Read(u64, usize),
    Write(u64, Vec<u8>, bool),
    Flush,
    Discard(u64, u64),
    WriteZeroes(u64, u64, bool, bool),
}

/// Performs an action on a queue buffer and records it.
fn perform(action: BlockAction, buffer: &mut [u8], seen: &mut Vec<SeenRequest>) {
    seen.push(match action {
        BlockAction::Flush => SeenRequest::Flush,
        BlockAction::Read { offset, length } => {
            buffer[..length].fill(0x5a);
            SeenRequest::Read(offset, length)
        }
        BlockAction::Write { offset, length, force_unit_access } => {
            SeenRequest::Write(offset, buffer[..length].to_vec(), force_unit_access)
        }
        BlockAction::Discard { offset, length } => SeenRequest::Discard(offset, length),
        BlockAction::WriteZeroes { offset, length, force_unit_access, allow_discard } => {
            SeenRequest::WriteZeroes(offset, length, force_unit_access, allow_discard)
        }
    });
}

#[test]
fn every_supported_request_reaches_the_small_handler_interface() {
    let mut seen = Vec::new();
    let mut buffer = vec![0u8; 128 * 1024];
    buffer[..4096].fill(0xa5);
    let mut handle = |request: Request, buffer: &mut Vec<u8>| {
        let action = admit_request(settings(), request, buffer.len()).expect("must pass");
        perform(action, buffer, &mut seen);
        answer_request(action, &Ok(()))
    };

    assert_eq!(4096, handle(request(OP_WRITE, 4096, 4096, true), &mut buffer));
    assert_eq!(4096, handle(request(OP_READ, 8192, 4096, false), &mut buffer));
    assert!(buffer[..4096].iter().all(|byte| *byte == 0x5a));
    assert_eq!(0, handle(request(OP_FLUSH, 0, 0, false), &mut buffer));
    assert_eq!(4096, handle(request(OP_DISCARD, 12_288, 4096, false), &mut buffer));
    assert_eq!(4096, handle(request(OP_WRITE_ZEROES, 16_384, 4096, true), &mut buffer));

    assert_eq!(
        vec![
            SeenRequest::Write(4096, vec![0xa5; 4096], true),
            SeenRequest::Read(8192, 4096),
            SeenRequest::Flush,
            SeenRequest::Discard(12_288, 4096),
            SeenRequest::WriteZeroes(16_384, 4096, true, true),
        ],
        seen
    );
}

#[test]
fn invalid_requests_fail_before_the_handler() {
    let cases = [
        request(OP_READ, 1, 4096, false),
        request(OP_WRITE, 0, 1, false),
        request(OP_READ, settings().capacity_bytes(), 4096, false),
        request(u32::MAX, 0, 4096, false),
    ];
    for request in cases {
        assert_eq!(
            BlockIoError::InvalidRequest,
            admit_request(settings(), request, 128 * 1024)
                .expect_err("invalid request must fail")
        );
    }
}

#[test]
fn flush_ignores_the_kernel_unused_sector_value() {
    let request = parse_request(OP_FLUSH, u64::MAX, 0).expect("flush sentinel must parse");
    assert_eq!(OP_FLUSH, request.operation);
    assert_eq!(0, request.offset);
    assert_eq!(0, request.length);
}

#[test]
fn write_zeroes_preserves_the_kernel_discard_choice() {
    let request = parse_request(OP_WRITE_ZEROES | FLAG_NOUNMAP, 0, 8)
        .expect("write zeroes request must parse");
    assert!(!request.allow_discard);
}

#[test]
fn handler_errors_map_to_deliberate_linux_errors() {
    assert_eq!(-libc::EINVAL, block_error(&BlockIoError::InvalidRequest));
    assert_eq!(-libc::ENOSPC, block_error(&BlockIoError::OutOfSpace));
    assert_eq!(-libc::EIO, block_error(&BlockIoError::NotServing));
    assert_eq!(-libc::EIO, block_error(&BlockIoError::failed("test")));
}

/// Node-derived owner tags are stable and keep different nodes separate.
#[test]
fn owner_id_follows_node_identity() {
    let first = UblkOwnerId::for_node(&[1; 16]);
    assert_eq!(first, UblkOwnerId::for_node(&[1; 16]));
    assert_ne!(first, UblkOwnerId::for_node(&[2; 16]));
}
