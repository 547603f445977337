//! Rejections of the local pool and of the local catalog.

use vstd::prelude::*;

use super::model::ReplicaState;
use super::protocol::CatalogProtocolError;
use crate::text::{decimal_text, push_decimal, push_text};
use crate::volume::descriptor::DescriptorError;

verus! {

/// Step of a pool check that the operating system can fail.
#[derive(Clone, Copy, Debug, PartialEq, Eq, Structural)]
pub enum PoolAction {
    /// Asked to resolve the replica pool path.
    ResolvePath,
    /// Asked to inspect the replica pool path.
    InspectPath,
    /// Asked to read the replica pool filesystem type.
    ReadFilesystemType,
    /// Asked to read free space from the replica pool.
    ReadFreeSpace,
    /// Asked to read Linux mount information.
    ReadMounts,
    /// Asked to find the replica pool mount.
    FindMount,
    /// Asked to check the replica pool DAX file attribute.
    CheckDaxAttribute,
    /// Asked to create the replica pool check file.
    CreateCheckFile,
    /// Asked to remove the replica pool check file.
    RemoveCheckFile,
    /// Asked to create a sparse replica pool check file.
    CreateSparseFile,
    /// Asked to write the replica pool check file.
    WriteCheckFile,
    /// Asked to sync the replica pool check file.
    SyncCheckFile,
    /// Asked to inspect sparse file allocation.
    InspectSparseFile,
    /// Asked to find data in a sparse replica file.
    FindData,
    /// Asked to punch a hole in the replica pool check file.
    PunchHole,
    /// Asked to sync a punched replica file.
    SyncPunchedFile,
    /// Asked to read a punched replica file.
    ReadPunchedFile,
    /// Asked to inspect punched file allocation.
    InspectPunchedFile,
    /// Asked to open the replica pool directory.
    OpenDirectory,
    /// Asked to sync the replica pool directory.
    SyncDirectory,
    /// Asked to convert the replica pool path.
    ConvertPath,
}

impl PoolAction {
    /// Short description of the step.
    pub open spec fn text(self) -> Seq<char> {
        match self {
            PoolAction::ResolvePath => "resolve the replica pool path"@,
            PoolAction::InspectPath => "inspect the replica pool path"@,
            PoolAction::ReadFilesystemType => "read the replica pool filesystem type"@,
            PoolAction::ReadFreeSpace => "read free space from the replica pool"@,
            PoolAction::ReadMounts => "read Linux mount information"@,
            PoolAction::FindMount => "find the replica pool mount"@,
            PoolAction::CheckDaxAttribute => "check the replica pool DAX file attribute"@,
            PoolAction::CreateCheckFile => "create the replica pool check file"@,
            PoolAction::RemoveCheckFile => "remove the replica pool check file"@,
            PoolAction::CreateSparseFile => "create a sparse replica pool check file"@,
            PoolAction::WriteCheckFile => "write the replica pool check file"@,
            PoolAction::SyncCheckFile => "sync the replica pool check file"@,
            PoolAction::InspectSparseFile => "inspect sparse file allocation"@,
            PoolAction::FindData => "find data in a sparse replica file"@,
            PoolAction::PunchHole => "punch a hole in the replica pool check file"@,
            PoolAction::SyncPunchedFile => "sync a punched replica file"@,
            PoolAction::ReadPunchedFile => "read a punched replica file"@,
            PoolAction::InspectPunchedFile => "inspect punched file allocation"@,
            PoolAction::OpenDirectory => "open the replica pool directory"@,
            PoolAction::SyncDirectory => "sync the replica pool directory"@,
            PoolAction::ConvertPath => "convert the replica pool path"@,
        }
    }

    /// Returns the short description of the step.
    pub fn name(self) -> (out: &'static str)
        ensures
            out@ == self.text(),
    {
        match self {
            PoolAction::ResolvePath => "resolve the replica pool path",
            PoolAction::InspectPath => "inspect the replica pool path",
            PoolAction::ReadFilesystemType => "read the replica pool filesystem type",
            PoolAction::ReadFreeSpace => "read free space from the replica pool",
            PoolAction::ReadMounts => "read Linux mount information",
            PoolAction::FindMount => "find the replica pool mount",
            PoolAction::CheckDaxAttribute => "check the replica pool DAX file attribute",
            PoolAction::CreateCheckFile => "create the replica pool check file",
            PoolAction::RemoveCheckFile => "remove the replica pool check file",
            PoolAction::CreateSparseFile => "create a sparse replica pool check file",
            PoolAction::WriteCheckFile => "write the replica pool check file",
            PoolAction::SyncCheckFile => "sync the replica pool check file",
            PoolAction::InspectSparseFile => "inspect sparse file allocation",
            PoolAction::FindData => "find data in a sparse replica file",
            PoolAction::PunchHole => "punch a hole in the replica pool check file",
            PoolAction::SyncPunchedFile => "sync a punched replica file",
            PoolAction::ReadPunchedFile => "read a punched replica file",
            PoolAction::InspectPunchedFile => "inspect punched file allocation",
            PoolAction::OpenDirectory => "open the replica pool directory",
            PoolAction::SyncDirectory => "sync the replica pool directory",
            PoolAction::ConvertPath => "convert the replica pool path",
        }
    }
}

/// Filesystem behavior that replica files need.
#[derive(Clone, Copy, Debug, PartialEq, Eq, Structural)]
pub enum PoolCheck {
    /// The sparse file allocation.
    SparseAllocation,
    /// The SEEK_DATA and SEEK_HOLE.
    SeekDataAndHole,
    /// The hole-punch zero reads.
    PunchedZeroReads,
    /// The hole-punch space release.
    PunchedSpaceRelease,
}

impl PoolCheck {
    /// Short name of the behavior.
    pub open spec fn text(self) -> Seq<char> {
        match self {
            PoolCheck::SparseAllocation => "sparse file allocation"@,
            PoolCheck::SeekDataAndHole => "SEEK_DATA and SEEK_HOLE"@,
            PoolCheck::PunchedZeroReads => "hole-punch zero reads"@,
            PoolCheck::PunchedSpaceRelease => "hole-punch space release"@,
        }
    }

    /// Returns the short name of the behavior.
    pub fn name(self) -> (out: &'static str)
        ensures
            out@ == self.text(),
    {
        match self {
            PoolCheck::SparseAllocation => "sparse file allocation",
            PoolCheck::SeekDataAndHole => "SEEK_DATA and SEEK_HOLE",
            PoolCheck::PunchedZeroReads => "hole-punch zero reads",
            PoolCheck::PunchedSpaceRelease => "hole-punch space release",
        }
    }
}

/// Explains why a local directory cannot be used as a replica pool.
#[derive(Clone, Copy, Debug, PartialEq, Eq, Structural)]
pub enum PoolError {
    /// A filesystem or path check could not be completed.
    Io {
        /// The failed step.
        action: PoolAction,
    },

    /// The configured path does not name a directory.
    NotDirectory,

    /// Only the two filesystems measured for the replica format are accepted.
    UnsupportedFilesystem,

    /// The selected format requires one exact filesystem allocation size.
    UnsupportedBlockSize {
        /// Block size reported by the filesystem.
        actual_bytes: u64,
    },

    /// Direct-access storage bypasses the durability path tested by this format.
    DaxEnabled,

    /// One required sparse-file or sync operation did not behave as required.
    RequiredFeature {
        /// The failed filesystem behavior.
        check: PoolCheck,
    },

    /// Filesystem byte counts did not fit the pool accounting type.
    SizeOverflow,
}

impl PoolError {
    /// Text of the rejection.
    pub open spec fn text(self) -> Seq<char> {
        match self {
            PoolError::Io { action } => "could not "@ + action.text(),
            PoolError::NotDirectory => "replica pool path is not a directory"@,
            PoolError::UnsupportedFilesystem => "replica pool must use local ext4 or XFS storage"@,
            PoolError::UnsupportedBlockSize { actual_bytes } => "replica pool filesystem block size is "@ + decimal_text(actual_bytes as nat) + "; expected 4096 bytes"@,
            PoolError::DaxEnabled => "replica pool must not use DAX"@,
            PoolError::RequiredFeature { check } => "replica pool failed the "@ + check.text() + " check"@,
            PoolError::SizeOverflow => "replica pool size exceeds the 64-bit accounting range"@,
        }
    }

    /// Returns the text of the rejection.
    pub fn message(&self) -> (out: String)
        ensures
            out@ == self.text(),
    {
        let mut out = String::new();
        match self {
            PoolError::Io { action } => {
                push_text(&mut out, "could not ");
                push_text(&mut out, action.name());
            },
            PoolError::NotDirectory => {
                push_text(&mut out, "replica pool path is not a directory");
            },
            PoolError::UnsupportedFilesystem => {
                push_text(&mut out, "replica pool must use local ext4 or XFS storage");
            },
            PoolError::UnsupportedBlockSize { actual_bytes } => {
                push_text(&mut out, "replica pool filesystem block size is ");
                push_decimal(&mut out, *actual_bytes);
                push_text(&mut out, "; expected 4096 bytes");
            },
            PoolError::DaxEnabled => {
                push_text(&mut out, "replica pool must not use DAX");
            },
            PoolError::RequiredFeature { check } => {
                push_text(&mut out, "replica pool failed the ");
                push_text(&mut out, check.name());
                push_text(&mut out, " check");
            },
            PoolError::SizeOverflow => {
                push_text(&mut out, "replica pool size exceeds the 64-bit accounting range");
            },
        }
        proof { assert(out@ =~= self.text()); }
        out
    }
}

/// Rejects unsafe local catalog changes and unreadable durable records.
#[derive(Clone, Copy, Debug, PartialEq, Eq, Structural)]
pub enum CatalogError {
    /// The checked storage pool could not report its current free space.
    Pool(PoolError),

    /// A durable record was invalid.
    Protocol(CatalogProtocolError),

    /// A requested capacity does not fit the volume's fixed block layout.
    Descriptor(DescriptorError),

    /// The saved pool belongs to a different path, device, or filesystem.
    PoolChanged,

    /// Saved totals do not match the replica rows that own the space.
    SpaceTotalsMismatch,

    /// The requested replica is not present.
    ReplicaNotFound,

    /// A stored row key does not match the descriptor inside the row.
    ReplicaIdentityMismatch,

    /// A stored attachment key does not match its descriptor.
    AttachmentIdentityMismatch,

    /// A stored retirement key does not match its generation.
    RetirementIdentityMismatch,

    /// An idempotent reservation found different fixed properties.
    ConflictingReplica,

    /// A reservation change tried to release space already committed by Raft.
    ReservationBelowAppliedCapacity,

    /// Raft capacity cannot be applied before this node reserves the space.
    CapacityExceedsReservation,

    /// Applied replica capacity is monotonic within one generation.
    CapacityCannotShrink,

    /// An immutable bootstrap plan cannot recreate a copy removed by control state.
    ReplicaRetired,

    /// The requested attachment is not present.
    AttachmentNotFound,

    /// One generation already owns another durable attachment session.
    AttachmentChanged,

    /// The session already records another committed writer fence.
    AttachmentFenceChanged,

    /// Another ublk device is already saved for this replica.
    UblkDeviceChanged,

    /// Another mount is already saved for this replica.
    VolumeMountChanged,

    /// A mount must use the same writer session as its saved ublk device.
    VolumeMountDeviceMismatch,

    /// A filesystem-expansion receipt cannot exceed the mapped device.
    FilesystemCapacityExceedsDevice,

    /// Another unfinished format is already saved for this replica.
    FilesystemFormatChanged,

    /// Replica-file discovery was asked to exceed its caller-provided limit.
    TooManyReplicas {
        /// Number of durable replica rows.
        actual: u64,

        /// Largest number the caller permits discovery to return.
        maximum: usize,
    },

    /// Replica files and bootstrap-suppression proofs would exceed their shared limit.
    TooManyReplicaSlots {
        /// Number of durable replica rows plus retirement proofs.
        actual: u64,

        /// Largest combined slot count the caller permits.
        maximum: usize,
    },

    /// Durable replica and retirement table counts could not be combined.
    ReplicaCountOverflow,

    /// Startup discovery was asked to return fewer attachments than are stored.
    TooManyAttachments {
        /// Number of durable attachment rows.
        actual: u64,

        /// Largest number the caller permits discovery to return.
        maximum: usize,
    },

    /// Checked addition or subtraction failed.
    SpaceOverflow,

    /// The pool cannot promise all existing space plus this request.
    NotEnoughSpace {
        /// Bytes still available to catalog reservations.
        available_bytes: u64,

        /// Bytes required by the requested change.
        required_bytes: u64,
    },

    /// Actual free space is below the amount required to start local work.
    NotEnoughFreeSpace {
        /// Bytes currently available from the filesystem.
        available_bytes: u64,

        /// Additional free bytes needed by the request.
        required_bytes: u64,
    },

    /// A local file-state change skipped or reversed a required state.
    InvalidStateChange {
        /// State currently stored in the catalog.
        current: ReplicaState,

        /// State requested by the caller.
        requested: ReplicaState,
    },

    /// A replica cannot be removed until its state records deletion.
    ReplicaNotDeleting,

    /// A former member must record retirement before releasing its files.
    ReplicaNotRetiring,

    /// Replica files cannot be removed while local filesystem work is active.
    ReplicaStillAttached,

    /// An attachment row remains until its mount and saved ublk device are gone.
    AttachmentStillActive,
}

impl CatalogError {
    /// Text of the rejection.
    pub open spec fn text(self) -> Seq<char> {
        match self {
            CatalogError::Pool(error) => error.text(),
            CatalogError::Protocol(error) => error.text(),
            CatalogError::Descriptor(error) => error.text(),
            CatalogError::PoolChanged => "local replica catalog belongs to a different storage pool"@,
            CatalogError::SpaceTotalsMismatch => "local replica catalog space totals do not match its replica records"@,
            CatalogError::ReplicaNotFound => "local replica is not present in the catalog"@,
            CatalogError::ReplicaIdentityMismatch => "local replica catalog key does not match its stored descriptor"@,
            CatalogError::AttachmentIdentityMismatch => "local attachment catalog key does not match its stored descriptor"@,
            CatalogError::RetirementIdentityMismatch => "local retirement catalog key does not match its stored generation"@,
            CatalogError::ConflictingReplica => "local replica reservation conflicts with the existing descriptor"@,
            CatalogError::ReservationBelowAppliedCapacity => "replica reservation cannot be smaller than its applied capacity"@,
            CatalogError::CapacityExceedsReservation => "replica capacity exceeds its durable local reservation"@,
            CatalogError::CapacityCannotShrink => "replica capacity cannot shrink"@,
            CatalogError::ReplicaRetired => "local replica was retired from the current group"@,
            CatalogError::AttachmentNotFound => "local volume attachment is not present in the catalog"@,
            CatalogError::AttachmentChanged => "local volume attachment conflicts with the existing session"@,
            CatalogError::AttachmentFenceChanged => "local volume attachment control-state changed"@,
            CatalogError::UblkDeviceChanged => "local replica already has a different ublk device"@,
            CatalogError::VolumeMountChanged => "local replica already has a different volume mount"@,
            CatalogError::VolumeMountDeviceMismatch => "local volume mount does not match the saved ublk device session"@,
            CatalogError::FilesystemCapacityExceedsDevice => "saved filesystem capacity exceeds the mapped device capacity"@,
            CatalogError::FilesystemFormatChanged => "local replica already has a different filesystem format"@,
            CatalogError::TooManyReplicas { actual, maximum } => "local catalog would contain "@ + decimal_text(actual as nat) + " replicas; limit is "@ + decimal_text(maximum as nat),
            CatalogError::TooManyReplicaSlots { actual, maximum } => "local catalog would contain "@ + decimal_text(actual as nat) + " replica slots; limit is "@ + decimal_text(maximum as nat),
            CatalogError::ReplicaCountOverflow => "local replica catalog row count overflowed"@,
            CatalogError::TooManyAttachments { actual, maximum } => "local catalog contains "@ + decimal_text(actual as nat) + " attachments; discovery limit is "@ + decimal_text(maximum as nat),
            CatalogError::SpaceOverflow => "local replica space accounting overflowed"@,
            CatalogError::NotEnoughSpace { available_bytes, required_bytes } => "replica pool has "@ + decimal_text(available_bytes as nat) + " reservable bytes, but this change needs "@ + decimal_text(required_bytes as nat) + " bytes"@,
            CatalogError::NotEnoughFreeSpace { available_bytes, required_bytes } => "replica pool has "@ + decimal_text(available_bytes as nat) + " free bytes, but this work needs "@ + decimal_text(required_bytes as nat) + " bytes"@,
            CatalogError::InvalidStateChange { current, requested } => "cannot change local replica state from "@ + current.text() + " to "@ + requested.text(),
            CatalogError::ReplicaNotDeleting => "local replica must be in the deleting state before it is removed"@,
            CatalogError::ReplicaNotRetiring => "local replica must be in the retiring state before it is removed"@,
            CatalogError::ReplicaStillAttached => "local replica still has an active ublk device or filesystem operation"@,
            CatalogError::AttachmentStillActive => "local volume attachment still owns kernel resources"@,
        }
    }

    /// Returns the text of the rejection.
    pub fn message(&self) -> (out: String)
        ensures
            out@ == self.text(),
    {
        let mut out = String::new();
        match self {
            CatalogError::Pool(error) => {
                push_text(&mut out, error.message().as_str());
            },
            CatalogError::Protocol(error) => {
                push_text(&mut out, error.message().as_str());
            },
            CatalogError::Descriptor(error) => {
                push_text(&mut out, error.message().as_str());
            },
            CatalogError::PoolChanged => {
                push_text(&mut out, "local replica catalog belongs to a different storage pool");
            },
            CatalogError::SpaceTotalsMismatch => {
                push_text(&mut out, "local replica catalog space totals do not match its replica records");
            },
            CatalogError::ReplicaNotFound => {
                push_text(&mut out, "local replica is not present in the catalog");
            },
            CatalogError::ReplicaIdentityMismatch => {
                push_text(&mut out, "local replica catalog key does not match its stored descriptor");
            },
            CatalogError::AttachmentIdentityMismatch => {
                push_text(&mut out, "local attachment catalog key does not match its stored descriptor");
            },
            CatalogError::RetirementIdentityMismatch => {
                push_text(&mut out, "local retirement catalog key does not match its stored generation");
            },
            CatalogError::ConflictingReplica => {
                push_text(&mut out, "local replica reservation conflicts with the existing descriptor");
            },
            CatalogError::ReservationBelowAppliedCapacity => {
                push_text(&mut out, "replica reservation cannot be smaller than its applied capacity");
            },
            CatalogError::CapacityExceedsReservation => {
                push_text(&mut out, "replica capacity exceeds its durable local reservation");
            },
            CatalogError::CapacityCannotShrink => {
                push_text(&mut out, "replica capacity cannot shrink");
            },
            CatalogError::ReplicaRetired => {
                push_text(&mut out, "local replica was retired from the current group");
            },
            CatalogError::AttachmentNotFound => {
                push_text(&mut out, "local volume attachment is not present in the catalog");
            },
            CatalogError::AttachmentChanged => {
                push_text(&mut out, "local volume attachment conflicts with the existing session");
            },
            CatalogError::AttachmentFenceChanged => {
                push_text(&mut out, "local volume attachment control-state changed");
            },
            CatalogError::UblkDeviceChanged => {
                push_text(&mut out, "local replica already has a different ublk device");
            },
            CatalogError::VolumeMountChanged => {
                push_text(&mut out, "local replica already has a different volume mount");
            },
            CatalogError::VolumeMountDeviceMismatch => {
                push_text(&mut out, "local volume mount does not match the saved ublk device session");
            },
            CatalogError::FilesystemCapacityExceedsDevice => {
                push_text(&mut out, "saved filesystem capacity exceeds the mapped device capacity");
            },
            CatalogError::FilesystemFormatChanged => {
                push_text(&mut out, "local replica already has a different filesystem format");
            },
            CatalogError::TooManyReplicas { actual, maximum } => {
                push_text(&mut out, "local catalog would contain ");
                push_decimal(&mut out, *actual);
                push_text(&mut out, " replicas; limit is ");
                push_decimal(&mut out, *maximum as u64);
            },
            CatalogError::TooManyReplicaSlots { actual, maximum } => {
                push_text(&mut out, "local catalog would contain ");
                push_decimal(&mut out, *actual);
                push_text(&mut out, " replica slots; limit is ");
                push_decimal(&mut out, *maximum as u64);
            },
            CatalogError::ReplicaCountOverflow => {
                push_text(&mut out, "local replica catalog row count overflowed");
            },
            CatalogError::TooManyAttachments { actual, maximum } => {
                push_text(&mut out, "local catalog contains ");
                push_decimal(&mut out, *actual);
                push_text(&mut out, " attachments; discovery limit is ");
                push_decimal(&mut out, *maximum as u64);
            },
            CatalogError::SpaceOverflow => {
                push_text(&mut out, "local replica space accounting overflowed");
            },
            CatalogError::NotEnoughSpace { available_bytes, required_bytes } => {
                push_text(&mut out, "replica pool has ");
                push_decimal(&mut out, *available_bytes);
                push_text(&mut out, " reservable bytes, but this change needs ");
                push_decimal(&mut out, *required_bytes);
                push_text(&mut out, " bytes");
            },
            CatalogError::NotEnoughFreeSpace { available_bytes, required_bytes } => {
                push_text(&mut out, "replica pool has ");
                push_decimal(&mut out, *available_bytes);
                push_text(&mut out, " free bytes, but this work needs ");
                push_decimal(&mut out, *required_bytes);
                push_text(&mut out, " bytes");
            },
            CatalogError::InvalidStateChange { current, requested } => {
                push_text(&mut out, "cannot change local replica state from ");
                push_text(&mut out, current.name());
                push_text(&mut out, " to ");
                push_text(&mut out, requested.name());
            },
            CatalogError::ReplicaNotDeleting => {
                push_text(&mut out, "local replica must be in the deleting state before it is removed");
            },
            CatalogError::ReplicaNotRetiring => {
                push_text(&mut out, "local replica must be in the retiring state before it is removed");
            },
            CatalogError::ReplicaStillAttached => {
                push_text(&mut out, "local replica still has an active ublk device or filesystem operation");
            },
            CatalogError::AttachmentStillActive => {
                push_text(&mut out, "local volume attachment still owns kernel resources");
            },
        }
        proof { assert(out@ =~= self.text()); }
        out
    }
}

} // verus!
