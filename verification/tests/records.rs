use mantissa::catalog::attachment::LocalAttachmentRecord;
use mantissa::catalog::encoding::{
    check_message, encode_attachment, encode_pool, encode_replica, encode_retirement,
    finish_message, MAX_CATALOG_RECORD_BYTES,
};
use mantissa::catalog::error::{CatalogError, PoolAction, PoolCheck, PoolError};
use mantissa::catalog::model::{
    InvalidLocalReplicaOrigin, InvalidSavedVolumeMount, LocalReplicaOrigin,
    LocalReplicaRetirement, ReplicaKey, ReplicaRecord, ReplicatedVolumeFilesystem, ReservedSpace,
    SavedFilesystemFormat, SavedMountState, SavedUblkDevice, SavedVolumeMount,
};
use mantissa::catalog::paths::directory_name;
use mantissa::catalog::pool::{
    PoolFilesystem, PoolProbe, PoolProgress, PoolReply, PoolStep, ReplicaPool, SpaceReport,
    EXT4_MAGIC, XFS_MAGIC,
};
use mantissa::catalog::protocol::{
    CatalogProtocolError, StoredEnum, StoredField, StoredPool, StoredUnion,
};
use mantissa::catalog::records::{
    decode_attachment, decode_pool, decode_replica, decode_retirement,
};
use mantissa::catalog::sparse::{
    check_required_features, SparseAction, SparseCheck, SparseReply,
};
use mantissa::catalog::voters::VoterSet;
use mantissa::driver::settings::{UblkQueueSettings, UblkSettings};
use mantissa::driver::ublk_types::UblkDeviceId;
use mantissa::volume::block_sizes::VolumeBlockSizes;
use mantissa::volume::descriptor::VolumeDescriptor;
use mantissa::volume::identity::{
    DriverSessionId, FenceEpoch, FilesystemId, IdentityError, ReplacementId, VolumeGeneration,
    VolumeId,
};

fn descriptor() -> VolumeDescriptor {
    VolumeDescriptor::new(
        VolumeId::new(0x12345678_1234_5678_9abc_def012345678).expect("volume"),
        VolumeGeneration::new(5).expect("generation"),
        64 << 20,
        VolumeBlockSizes::supported(),
    )
    .expect("descriptor")
}

fn key() -> ReplicaKey {
    ReplicaKey::from_descriptor(&descriptor())
}

fn record() -> ReplicaRecord {
    let origin = LocalReplicaOrigin::replacement(
        ReplacementId::new(9).expect("replacement"),
        VoterSet::of(&[3, 1]),
    )
    .expect("origin");
    let mut record = ReplicaRecord::new(
        descriptor(),
        origin,
        directory_name(key()),
        ReservedSpace::new(64 << 20, 1 << 20),
    );
    record.set_filesystem_format(SavedFilesystemFormat::new(
        ReplicatedVolumeFilesystem::Xfs,
        FilesystemId::new(77).expect("filesystem"),
        [3; 32],
    ));
    record
}

fn session() -> DriverSessionId {
    DriverSessionId::new(40).expect("session")
}

fn fence(value: u64) -> FenceEpoch {
    FenceEpoch::new(value).expect("fence")
}

fn device() -> SavedUblkDevice {
    let settings = UblkSettings::new(
        &descriptor(),
        UblkQueueSettings {
            queue_count: 2,
            queue_depth: 32,
            max_request_bytes: 128 << 10,
            memory_limit_bytes: 8 << 20,
        },
        4096,
    )
    .expect("settings");
    SavedUblkDevice::new(UblkDeviceId::new(4), fence(6), session(), settings)
}

fn attachment() -> LocalAttachmentRecord {
    let mut record = LocalAttachmentRecord::new(descriptor(), session());
    record.set_granted_fence(fence(6));
    record.add_ublk_device(device());
    record.set_volume_mount(
        SavedVolumeMount::mounting(
            fence(6),
            session(),
            b"/mnt/volume".to_vec(),
            1,
            2,
            0o770,
            ReplicatedVolumeFilesystem::Ext4,
        )
        .expect("mount"),
    );
    record
}

#[test]
fn directory_names_are_hyphenated() {
    assert_eq!(directory_name(key()), "12345678-1234-5678-9abc-def012345678-5");
}

#[test]
fn replica_rows_come_back_whole() {
    let stored = encode_replica(&record());
    assert_eq!(stored.origin.voter_node_ids.len(), 2);
    assert_eq!(decode_replica(&stored).expect("replica"), record());
}

#[test]
fn attachment_rows_come_back_whole() {
    let stored = encode_attachment(&attachment());
    assert_eq!(decode_attachment(&stored, 4096).expect("attachment"), attachment());
}

#[test]
fn retirement_and_pool_rows_come_back_whole() {
    let retirement = LocalReplicaRetirement::new(key());
    assert_eq!(
        decode_retirement(&encode_retirement(retirement)).expect("retirement"),
        retirement
    );
    let pool = ReplicaPool::from_checked(b"/pool".to_vec(), 3, PoolFilesystem::Xfs, 1 << 30);
    let stored = StoredPool::new(&pool);
    let read = decode_pool(&encode_pool(&stored)).expect("pool");
    assert!(read.matches(&pool));
    assert_eq!(read.managed_bytes, 1 << 30);
}

#[test]
fn malformed_replica_rows_are_refused() {
    let mut row = encode_replica(&record());
    row.format_version = 2;
    assert_eq!(
        decode_replica(&row),
        Err(CatalogProtocolError::UnsupportedVersion { actual: 2 })
    );

    let mut row = encode_replica(&record());
    row.state = Err(9);
    assert_eq!(
        decode_replica(&row),
        Err(CatalogProtocolError::UnknownEnum { name: StoredEnum::ReplicaState, value: 9 })
    );

    let mut row = encode_replica(&record());
    row.origin.id = Err(7);
    assert_eq!(
        decode_replica(&row),
        Err(CatalogProtocolError::UnknownUnion { name: StoredUnion::ReplicaOrigin, value: 7 })
    );

    let mut row = encode_replica(&record());
    row.origin.voter_node_ids[1] = row.origin.voter_node_ids[0].clone();
    assert_eq!(decode_replica(&row), Err(CatalogProtocolError::DuplicateOriginVoter));

    let mut row = encode_replica(&record());
    row.directory_name = None;
    assert_eq!(decode_replica(&row), Err(CatalogProtocolError::Text));
}

#[test]
fn malformed_attachment_rows_are_refused() {
    let mut row = encode_attachment(&attachment());
    row.session_id = vec![0; 15];
    assert_eq!(
        decode_attachment(&row, 4096),
        Err(CatalogProtocolError::InvalidFieldLength {
            field: StoredField::DriverSession,
            expected: 16,
            actual: 15
        })
    );

    let mut row = encode_attachment(&attachment());
    row.session_id = vec![0; 16];
    assert_eq!(
        decode_attachment(&row, 4096),
        Err(CatalogProtocolError::Identity(IdentityError::Nil))
    );

    let mut row = encode_attachment(&attachment());
    row.ublk_devices[0].fence = 5;
    assert_eq!(
        decode_attachment(&row, 4096),
        Err(CatalogProtocolError::AttachmentFenceMismatch)
    );

    let mut row = encode_attachment(&attachment());
    row.ublk_devices[0].device_id = u32::MAX;
    assert_eq!(
        decode_attachment(&row, 4096),
        Err(CatalogProtocolError::InvalidUblkDeviceId { actual: u32::MAX })
    );

    let mut row = encode_attachment(&attachment());
    row.ublk_devices.clear();
    assert_eq!(
        decode_attachment(&row, 4096),
        Err(CatalogProtocolError::VolumeMountDeviceMismatch)
    );
}

#[test]
fn stored_messages_are_whole_and_bounded() {
    let mut message = capnp::message::Builder::new_default();
    message.set_root("local record").expect("text root");
    let bytes = capnp::serialize::write_message_to_words(&message);
    assert_eq!(check_message(&bytes), Ok(()));

    let mut longer = bytes.clone();
    longer.extend_from_slice(&[0; 8]);
    assert_eq!(
        check_message(&longer),
        Err(CatalogProtocolError::TrailingBytes { actual: 8 })
    );
    assert_eq!(check_message(&bytes[..bytes.len() - 1]), Err(CatalogProtocolError::Capnp));
    let large = vec![0u8; MAX_CATALOG_RECORD_BYTES + 1];
    assert_eq!(
        check_message(&large),
        Err(CatalogProtocolError::RecordTooLarge {
            actual: MAX_CATALOG_RECORD_BYTES + 1,
            maximum: MAX_CATALOG_RECORD_BYTES
        })
    );
    assert_eq!(finish_message(bytes.clone()), Ok(bytes));
    assert!(finish_message(large).is_err());
}

#[test]
fn origins_and_mounts_are_checked() {
    let id = ReplacementId::new(9).expect("replacement");
    assert_eq!(
        LocalReplicaOrigin::replacement(id, VoterSet::of(&[1])),
        Err(InvalidLocalReplicaOrigin::InvalidVoterCount { actual: 1 })
    );
    assert_eq!(
        LocalReplicaOrigin::replacement(id, VoterSet::of(&[0, 1])),
        Err(InvalidLocalReplicaOrigin::ZeroVoter)
    );
    let mount = |path: &[u8], mode: u32| {
        SavedVolumeMount::mounting(
            fence(6),
            session(),
            path.to_vec(),
            0,
            0,
            mode,
            ReplicatedVolumeFilesystem::Xfs,
        )
    };
    assert_eq!(mount(b"mnt", 0o700), Err(InvalidSavedVolumeMount::PathNotAbsolute));
    assert!(matches!(
        mount(b"/mnt", 0o10000),
        Err(InvalidSavedVolumeMount::InvalidMode { .. })
    ));
    let mounted = mount(b"/mnt", 0o700)
        .expect("mount")
        .with_state(SavedMountState::Mounted)
        .expect("mounted");
    assert_eq!(
        mounted.with_state(SavedMountState::Mounting),
        Err(InvalidSavedVolumeMount::StateMovedBackwards)
    );
}

#[test]
fn failures_have_their_texts() {
    assert_eq!(
        PoolError::UnsupportedBlockSize { actual_bytes: 512 }.message(),
        "replica pool filesystem block size is 512; expected 4096 bytes"
    );
    assert_eq!(
        PoolError::RequiredFeature { check: PoolCheck::SeekDataAndHole }.message(),
        "replica pool failed the SEEK_DATA and SEEK_HOLE check"
    );
    assert_eq!(
        CatalogError::Pool(PoolError::DaxEnabled).message(),
        PoolError::DaxEnabled.message()
    );
}

/// Answers each operation as a filesystem with sparse files does.
fn sparse_answer(action: SparseAction, punched: bool) -> SparseReply {
    match action {
        SparseAction::SetLength { .. }
        | SparseAction::Write { .. }
        | SparseAction::Sync
        | SparseAction::PunchHole { .. }
        | SparseAction::Finish => SparseReply::Done,
        SparseAction::Inspect => SparseReply::Blocks(if punched { 0 } else { 8 }),
        SparseAction::SeekData { .. } => SparseReply::Offset(524288),
        SparseAction::SeekHole { from } => SparseReply::Offset(from + 4096),
        SparseAction::Read { bytes, .. } => SparseReply::Bytes(vec![0; bytes as usize]),
    }
}

fn run_sparse(change: impl Fn(SparseAction, SparseReply) -> SparseReply) -> Result<(), PoolError> {
    let mut check = SparseCheck::check_sparse_file();
    let mut punched = false;
    for _ in 0..20 {
        let action = check.action();
        if action == SparseAction::Finish {
            return Ok(());
        }
        if matches!(action, SparseAction::PunchHole { .. }) {
            punched = true;
        }
        check = check.advance(&change(action, sparse_answer(action, punched)))?;
    }
    panic!("the check does not end");
}

#[test]
fn sparse_files_are_checked() {
    assert_eq!(run_sparse(|_, reply| reply), Ok(()));
    let full = |_: SparseAction, reply: SparseReply| match reply {
        SparseReply::Blocks(8) => SparseReply::Blocks(2048),
        other => other,
    };
    assert_eq!(
        run_sparse(full),
        Err(PoolError::RequiredFeature { check: PoolCheck::SparseAllocation })
    );
    let dirty = |_: SparseAction, reply: SparseReply| match reply {
        SparseReply::Bytes(bytes) => SparseReply::Bytes(vec![0x5a; bytes.len()]),
        other => other,
    };
    assert_eq!(
        run_sparse(dirty),
        Err(PoolError::RequiredFeature { check: PoolCheck::PunchedZeroReads })
    );
    let held = |_: SparseAction, reply: SparseReply| match reply {
        SparseReply::Blocks(_) => SparseReply::Blocks(8),
        other => other,
    };
    assert_eq!(
        run_sparse(held),
        Err(PoolError::RequiredFeature { check: PoolCheck::PunchedSpaceRelease })
    );
    let blind = |_: SparseAction, reply: SparseReply| match reply {
        SparseReply::Offset(_) => SparseReply::Offset(0),
        other => other,
    };
    assert_eq!(
        run_sparse(blind),
        Err(PoolError::RequiredFeature { check: PoolCheck::SeekDataAndHole })
    );
    let broken = |action: SparseAction, reply: SparseReply| match action {
        SparseAction::PunchHole { .. } => SparseReply::Failed,
        _ => reply,
    };
    assert_eq!(run_sparse(broken), Err(PoolError::Io { action: PoolAction::PunchHole }));
}

#[test]
fn check_file_is_always_removed() {
    assert_eq!(check_required_features(Ok(()), true, Ok(())), Ok(()));
    assert_eq!(
        check_required_features(Ok(()), false, Ok(())),
        Err(PoolError::Io { action: PoolAction::RemoveCheckFile })
    );
    assert_eq!(
        check_required_features(Err(PoolError::DaxEnabled), false, Ok(())),
        Err(PoolError::DaxEnabled)
    );
}

fn probe_reply(step: PoolStep) -> PoolReply {
    match step {
        PoolStep::Resolve => PoolReply::Resolved(b"/pool".to_vec()),
        PoolStep::Inspect => PoolReply::Inspected { is_directory: true, device_id: 8 },
        PoolStep::ReadFilesystem => {
            PoolReply::Filesystem { filesystem_type: XFS_MAGIC, block_bytes: 4096 }
        }
        PoolStep::ReadMounts => {
            PoolReply::Mounts(b"1 0 8:1 / / rw - xfs /dev/sda1 rw\n".to_vec())
        }
        PoolStep::ReadAttributes => PoolReply::Attributes { known: 0, set: 0 },
        PoolStep::CheckFeatures => PoolReply::Features(Ok(())),
        PoolStep::ReadSpace => {
            PoolReply::Space(SpaceReport { block_bytes: 4096, available_blocks: 10 })
        }
    }
}

fn run_probe(change: impl Fn(PoolStep, PoolReply) -> PoolReply) -> Result<ReplicaPool, PoolError> {
    let mut probe: PoolProbe = ReplicaPool::check();
    for _ in 0..10 {
        let step = probe.step();
        match probe.advance(change(step, probe_reply(step)))? {
            PoolProgress::Next(next) => probe = next,
            PoolProgress::Checked(pool) => return Ok(pool),
        }
    }
    panic!("the probe does not end");
}

#[test]
fn pools_are_probed_step_by_step() {
    let pool = run_probe(|_, reply| reply).expect("usable pool");
    assert_eq!(pool.root(), b"/pool");
    assert_eq!(pool.device_id(), 8);
    assert_eq!(pool.filesystem(), PoolFilesystem::Xfs);
    assert_eq!(pool.managed_bytes(), 40960);
    let ext4 = run_probe(|_, reply| match reply {
        PoolReply::Filesystem { block_bytes, .. } => {
            PoolReply::Filesystem { filesystem_type: EXT4_MAGIC, block_bytes }
        }
        other => other,
    });
    assert_eq!(ext4.expect("usable pool").filesystem(), PoolFilesystem::Ext4);
}

#[test]
fn unusable_pools_are_refused() {
    let refused = |from: PoolStep, to: fn() -> PoolReply| {
        run_probe(move |step, reply| if step == from { to() } else { reply })
            .expect_err("unusable pool")
    };
    assert_eq!(
        refused(PoolStep::Inspect, || PoolReply::Inspected { is_directory: false, device_id: 1 }),
        PoolError::NotDirectory
    );
    assert_eq!(
        refused(PoolStep::ReadFilesystem, || PoolReply::Filesystem {
            filesystem_type: 1,
            block_bytes: 4096
        }),
        PoolError::UnsupportedFilesystem
    );
    assert_eq!(
        refused(PoolStep::ReadFilesystem, || PoolReply::Filesystem {
            filesystem_type: XFS_MAGIC,
            block_bytes: 1024
        }),
        PoolError::UnsupportedBlockSize { actual_bytes: 1024 }
    );
    assert_eq!(
        refused(PoolStep::ReadMounts, || PoolReply::Mounts(
            b"1 0 8:1 / / rw,dax - xfs /dev/sda1 rw\n".to_vec()
        )),
        PoolError::DaxEnabled
    );
    assert_eq!(
        refused(PoolStep::ReadAttributes, || PoolReply::Attributes {
            known: u64::MAX,
            set: u64::MAX
        }),
        PoolError::DaxEnabled
    );
    assert_eq!(
        refused(PoolStep::ReadSpace, || PoolReply::Space(SpaceReport {
            block_bytes: u64::MAX,
            available_blocks: 2
        })),
        PoolError::SizeOverflow
    );
    assert_eq!(
        refused(PoolStep::Resolve, || PoolReply::Failed),
        PoolError::Io { action: PoolAction::ResolvePath }
    );
}

#[test]
fn message_framing_is_exact() {
    // One segment of one word, then two segments of one word each.
    let one = [0u8, 0, 0, 0, 1, 0, 0, 0, 9, 9, 9, 9, 9, 9, 9, 9];
    assert_eq!(check_message(&one), Ok(()));
    assert_eq!(check_message(&one[..15]), Err(CatalogProtocolError::Capnp));
    let two = [
        1u8, 0, 0, 0, 1, 0, 0, 0, 1, 0, 0, 0, 0, 0, 0, 0, 9, 9, 9, 9, 9, 9, 9, 9, 8, 8, 8, 8, 8, 8,
        8, 8,
    ];
    assert_eq!(check_message(&two), Ok(()));
    assert_eq!(check_message(&two[..24]), Err(CatalogProtocolError::Capnp));
    // No bytes, half a table, too many segments, more words than a record may have.
    assert_eq!(check_message(&[]), Err(CatalogProtocolError::Capnp));
    assert_eq!(check_message(&[0, 0, 0, 0]), Err(CatalogProtocolError::Capnp));
    let mut many = vec![0u8; 4096];
    many[0] = 255;
    many[1] = 1;
    assert_eq!(check_message(&many), Err(CatalogProtocolError::Capnp));
    assert_eq!(
        check_message(&[255, 255, 255, 255, 0, 0, 0, 0]),
        Err(CatalogProtocolError::Capnp)
    );
    let mut wide = vec![0u8; 8192];
    wide[4] = 1;
    wide[5] = 4;
    assert_eq!(check_message(&wide), Err(CatalogProtocolError::Capnp));
    // Four segments, the last of one word.
    let mut four = vec![0u8; 32];
    four[0] = 3;
    four[16] = 1;
    assert_eq!(check_message(&four), Ok(()));
}
