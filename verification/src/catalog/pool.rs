//! Checks that a local directory must pass before it stores replica files.

use vstd::prelude::*;

use super::error::{PoolAction, PoolError};
use super::mounts::{dax_is_enabled, mount_dax};
use crate::bytes::copy_bytes;

verus! {

/// Filesystem type number of ext4.
pub const EXT4_MAGIC: i64 = 0xef53;

/// Filesystem type number of XFS.
pub const XFS_MAGIC: i64 = 0x5846_5342;

/// Filesystem block size that the replica format requires.
pub const POOL_BLOCK_BYTES: u32 = 4096;

/// Size of the file on which sparse operations are tried.
pub const PROBE_FILE_BYTES: u64 = 1048576;

/// Place of the one written block in that file.
pub const PROBE_DATA_OFFSET: u64 = 524288;

/// Byte with which that block is filled.
pub const PROBE_BYTE: u8 = 0x5a;

/// File attribute that marks direct access.
pub const DAX_ATTRIBUTE: u64 = 0x0020_0000;

/// Local filesystem accepted for replica files.
#[derive(Clone, Copy, Debug, PartialEq, Eq, Structural)]
pub enum PoolFilesystem {
    /// Linux ext4 with 4 KiB filesystem blocks.
    Ext4,

    /// Linux XFS with 4 KiB filesystem blocks.
    Xfs,
}

/// Space that a filesystem reports.
#[derive(Clone, Copy, Debug, PartialEq, Eq, Structural)]
pub struct SpaceReport {
    /// Allocation block size.
    pub block_bytes: u64,

    /// Blocks available to this process.
    pub available_blocks: u64,
}

/// Checked node-local directory used for replica files.
#[derive(Debug, PartialEq, Eq)]
pub struct ReplicaPool {
    root: Vec<u8>,
    device_id: u64,
    filesystem: PoolFilesystem,
    block_bytes: u32,
    managed_bytes: u64,
}

/// Model of a checked pool.
pub struct PoolView {
    pub root: Seq<u8>,
    pub device_id: u64,
    pub filesystem: PoolFilesystem,
    pub block_bytes: u32,
    pub managed_bytes: u64,
}

impl View for ReplicaPool {
    type V = PoolView;

    closed spec fn view(&self) -> PoolView {
        PoolView {
            root: self.root@,
            device_id: self.device_id,
            filesystem: self.filesystem,
            block_bytes: self.block_bytes,
            managed_bytes: self.managed_bytes,
        }
    }
}

impl Clone for ReplicaPool {
    fn clone(&self) -> (out: Self)
        ensures
            out@ == self@,
    {
        ReplicaPool {
            root: copy_bytes(&self.root),
            device_id: self.device_id,
            filesystem: self.filesystem,
            block_bytes: self.block_bytes,
            managed_bytes: self.managed_bytes,
        }
    }
}

/// Bytes that a space report leaves to this process, if they can be counted.
pub open spec fn free_bytes(report: SpaceReport) -> Option<u64> {
    if report.available_blocks * report.block_bytes <= u64::MAX {
        Some((report.available_blocks * report.block_bytes) as u64)
    } else {
        None
    }
}

/// Returns the bytes that a space report leaves to this process.
pub fn filesystem_space(report: SpaceReport) -> (out: Result<u64, PoolError>)
    ensures
        match out {
            Ok(bytes) => free_bytes(report) == Some(bytes),
            Err(error) => free_bytes(report) is None && error == PoolError::SizeOverflow,
        },
{
    match report.available_blocks.checked_mul(report.block_bytes) {
        Some(bytes) => Ok(bytes),
        None => Err(PoolError::SizeOverflow),
    }
}

impl ReplicaPool {
    /// Records a directory whose filesystem passed every check.
    pub fn from_checked(
        root: Vec<u8>,
        device_id: u64,
        filesystem: PoolFilesystem,
        managed_bytes: u64,
    ) -> (out: Self)
        ensures
            out@ == (PoolView {
                root: root@,
                device_id,
                filesystem,
                block_bytes: POOL_BLOCK_BYTES,
                managed_bytes,
            }),
    {
        ReplicaPool { root, device_id, filesystem, block_bytes: POOL_BLOCK_BYTES, managed_bytes }
    }

    /// Begins the checks of one pool path.
    pub fn check() -> (out: PoolProbe)
        ensures
            out@ == PoolProbeView::start(),
    {
        PoolProbe {
            step: PoolStep::Resolve,
            root: Vec::new(),
            device_id: 0,
            filesystem: PoolFilesystem::Ext4,
        }
    }

    /// Returns the resolved pool path.
    #[must_use]
    pub fn root(&self) -> (out: &[u8])
        ensures
            out@ == self@.root,
    {
        self.root.as_slice()
    }

    /// Returns the Linux device number checked for this path.
    #[must_use]
    pub fn device_id(&self) -> (out: u64)
        ensures
            out == self@.device_id,
    {
        self.device_id
    }

    /// Returns the checked local filesystem type.
    #[must_use]
    pub fn filesystem(&self) -> (out: PoolFilesystem)
        ensures
            out == self@.filesystem,
    {
        self.filesystem
    }

    /// Returns the checked filesystem allocation block size.
    #[must_use]
    pub fn block_bytes(&self) -> (out: u32)
        ensures
            out == self@.block_bytes,
    {
        self.block_bytes
    }

    /// Returns the durable capacity that may be promised when the pool is new.
    #[must_use]
    pub fn managed_bytes(&self) -> (out: u64)
        ensures
            out == self@.managed_bytes,
    {
        self.managed_bytes
    }

    /// Returns bytes currently available to the daemon from what the filesystem reports.
    pub fn available_bytes(&self, report: SpaceReport) -> (out: Result<u64, PoolError>)
        ensures
            match out {
                Ok(bytes) => free_bytes(report) == Some(bytes),
                Err(error) => free_bytes(report) is None && error == PoolError::SizeOverflow,
            },
    {
        filesystem_space(report)
    }
}

/// Next operation of a pool check.
#[derive(Clone, Copy, Debug, PartialEq, Eq, Structural)]
pub enum PoolStep {
    /// Resolve the configured path.
    Resolve,

    /// Read what the resolved path names.
    Inspect,

    /// Read the filesystem type and its preferred block size.
    ReadFilesystem,

    /// Read the mount table.
    ReadMounts,

    /// Read the file attributes of the resolved path.
    ReadAttributes,

    /// Try every required sparse-file and sync operation.
    CheckFeatures,

    /// Read the space of the filesystem.
    ReadSpace,
}

/// What the operating system answered.
#[derive(Debug, PartialEq, Eq)]
pub enum PoolReply {
    /// The operation failed.
    Failed,

    /// The path cannot be handed to the operating system.
    PathRefused,

    /// Resolved path.
    Resolved(Vec<u8>),

    /// What the resolved path names.
    Inspected { is_directory: bool, device_id: u64 },

    /// Filesystem type number and preferred block size.
    Filesystem { filesystem_type: i64, block_bytes: i64 },

    /// Content of the mount table.
    Mounts(Vec<u8>),

    /// Attributes that the filesystem knows, and those that are set.
    Attributes { known: u64, set: u64 },

    /// Outcome of the sparse-file and sync operations.
    Features(Result<(), PoolError>),

    /// Space of the filesystem.
    Space(SpaceReport),
}

/// Model of a reply.
pub enum PoolReplyView {
    Failed,
    PathRefused,
    Resolved(Seq<u8>),
    Inspected { is_directory: bool, device_id: u64 },
    Filesystem { filesystem_type: i64, block_bytes: i64 },
    Mounts(Seq<u8>),
    Attributes { known: u64, set: u64 },
    Features(Result<(), PoolError>),
    Space(SpaceReport),
}

impl View for PoolReply {
    type V = PoolReplyView;

    open spec fn view(&self) -> PoolReplyView {
        match self {
            PoolReply::Failed => PoolReplyView::Failed,
            PoolReply::PathRefused => PoolReplyView::PathRefused,
            PoolReply::Resolved(root) => PoolReplyView::Resolved(root@),
            PoolReply::Inspected { is_directory, device_id } => PoolReplyView::Inspected {
                is_directory: *is_directory,
                device_id: *device_id,
            },
            PoolReply::Filesystem { filesystem_type, block_bytes } => PoolReplyView::Filesystem {
                filesystem_type: *filesystem_type,
                block_bytes: *block_bytes,
            },
            PoolReply::Mounts(table) => PoolReplyView::Mounts(table@),
            PoolReply::Attributes { known, set } => PoolReplyView::Attributes {
                known: *known,
                set: *set,
            },
            PoolReply::Features(outcome) => PoolReplyView::Features(*outcome),
            PoolReply::Space(report) => PoolReplyView::Space(*report),
        }
    }
}

/// Checks of one pool path that are under way.
#[derive(Debug, PartialEq, Eq)]
pub struct PoolProbe {
    step: PoolStep,
    root: Vec<u8>,
    device_id: u64,
    filesystem: PoolFilesystem,
}

/// Model of checks that are under way.
pub struct PoolProbeView {
    pub step: PoolStep,
    pub root: Seq<u8>,
    pub device_id: u64,
    pub filesystem: PoolFilesystem,
}

impl View for PoolProbe {
    type V = PoolProbeView;

    closed spec fn view(&self) -> PoolProbeView {
        PoolProbeView {
            step: self.step,
            root: self.root@,
            device_id: self.device_id,
            filesystem: self.filesystem,
        }
    }
}

/// Where a pool check stands after a reply.
#[derive(Debug, PartialEq, Eq)]
pub enum PoolProgress {
    /// Another operation follows.
    Next(PoolProbe),

    /// Every check passed.
    Checked(ReplicaPool),
}

/// Model of the progress of a pool check.
pub enum PoolProgressView {
    Next(PoolProbeView),
    Checked(PoolView),
}

impl View for PoolProgress {
    type V = PoolProgressView;

    open spec fn view(&self) -> PoolProgressView {
        match self {
            PoolProgress::Next(probe) => PoolProgressView::Next(probe@),
            PoolProgress::Checked(pool) => PoolProgressView::Checked(pool@),
        }
    }
}

/// The reply answers the operation.
pub open spec fn answers_step(step: PoolStep, reply: PoolReplyView) -> bool {
    match step {
        PoolStep::Resolve => reply is Failed || reply is Resolved,
        PoolStep::Inspect => reply is Failed || reply is Inspected,
        PoolStep::ReadFilesystem => reply is Failed || reply is PathRefused || reply is Filesystem,
        PoolStep::ReadMounts => reply is Failed || reply is Mounts,
        PoolStep::ReadAttributes => reply is Failed || reply is PathRefused || reply is Attributes,
        PoolStep::CheckFeatures => reply is Features,
        PoolStep::ReadSpace => reply is Failed || reply is PathRefused || reply is Space,
    }
}

/// Step that failed when the operating system reports a failure.
pub open spec fn failed_action(step: PoolStep) -> PoolAction {
    match step {
        PoolStep::Resolve => PoolAction::ResolvePath,
        PoolStep::Inspect => PoolAction::InspectPath,
        PoolStep::ReadFilesystem => PoolAction::ReadFilesystemType,
        PoolStep::ReadMounts => PoolAction::ReadMounts,
        PoolStep::ReadAttributes => PoolAction::CheckDaxAttribute,
        PoolStep::CheckFeatures => PoolAction::CreateCheckFile,
        PoolStep::ReadSpace => PoolAction::ReadFreeSpace,
    }
}

/// Filesystem that a type number stands for, if replica files may use it.
pub open spec fn filesystem_of(filesystem_type: i64) -> Option<PoolFilesystem> {
    if filesystem_type == EXT4_MAGIC {
        Some(PoolFilesystem::Ext4)
    } else if filesystem_type == XFS_MAGIC {
        Some(PoolFilesystem::Xfs)
    } else {
        None
    }
}

impl PoolProbeView {
    /// Checks of a path that have not begun.
    pub open spec fn start() -> PoolProbeView {
        PoolProbeView {
            step: PoolStep::Resolve,
            root: Seq::empty(),
            device_id: 0,
            filesystem: PoolFilesystem::Ext4,
        }
    }

    /// Where the checks stand after a reply.
    pub open spec fn after(self, reply: PoolReplyView) -> Result<PoolProgressView, PoolError> {
        match reply {
            PoolReplyView::Failed => Err(PoolError::Io { action: failed_action(self.step) }),
            PoolReplyView::PathRefused => Err(PoolError::Io { action: PoolAction::ConvertPath }),
            PoolReplyView::Resolved(root) => Ok(
                PoolProgressView::Next(PoolProbeView { step: PoolStep::Inspect, root, ..self }),
            ),
            PoolReplyView::Inspected { is_directory, device_id } => if is_directory {
                Ok(
                    PoolProgressView::Next(
                        PoolProbeView { step: PoolStep::ReadFilesystem, device_id, ..self },
                    ),
                )
            } else {
                Err(PoolError::NotDirectory)
            },
            PoolReplyView::Filesystem { filesystem_type, block_bytes } => if block_bytes < 0 {
                Err(PoolError::SizeOverflow)
            } else if filesystem_of(filesystem_type) is None {
                Err(PoolError::UnsupportedFilesystem)
            } else if block_bytes != POOL_BLOCK_BYTES {
                Err(PoolError::UnsupportedBlockSize { actual_bytes: block_bytes as u64 })
            } else {
                Ok(
                    PoolProgressView::Next(
                        PoolProbeView {
                            step: PoolStep::ReadMounts,
                            filesystem: filesystem_of(filesystem_type)->Some_0,
                            ..self
                        },
                    ),
                )
            },
            PoolReplyView::Mounts(table) => match mount_dax(self.root, table) {
                None => Err(PoolError::Io { action: PoolAction::FindMount }),
                Some(true) => Err(PoolError::DaxEnabled),
                Some(false) => Ok(
                    PoolProgressView::Next(
                        PoolProbeView { step: PoolStep::ReadAttributes, ..self },
                    ),
                ),
            },
            PoolReplyView::Attributes { known, set } => if known & DAX_ATTRIBUTE != 0 && set
                & DAX_ATTRIBUTE != 0 {
                Err(PoolError::DaxEnabled)
            } else {
                Ok(
                    PoolProgressView::Next(
                        PoolProbeView { step: PoolStep::CheckFeatures, ..self },
                    ),
                )
            },
            PoolReplyView::Features(outcome) => match outcome {
                Err(error) => Err(error),
                Ok(()) => Ok(
                    PoolProgressView::Next(PoolProbeView { step: PoolStep::ReadSpace, ..self }),
                ),
            },
            PoolReplyView::Space(report) => match free_bytes(report) {
                None => Err(PoolError::SizeOverflow),
                Some(managed_bytes) => if report.block_bytes != POOL_BLOCK_BYTES {
                    Err(PoolError::UnsupportedBlockSize { actual_bytes: report.block_bytes })
                } else {
                    Ok(
                        PoolProgressView::Checked(
                            PoolView {
                                root: self.root,
                                device_id: self.device_id,
                                filesystem: self.filesystem,
                                block_bytes: POOL_BLOCK_BYTES,
                                managed_bytes,
                            },
                        ),
                    )
                },
            },
        }
    }
}

/// Returns the step that failed when the operating system reports a failure.
fn action_of(step: PoolStep) -> (out: PoolAction)
    ensures
        out == failed_action(step),
{
    match step {
        PoolStep::Resolve => PoolAction::ResolvePath,
        PoolStep::Inspect => PoolAction::InspectPath,
        PoolStep::ReadFilesystem => PoolAction::ReadFilesystemType,
        PoolStep::ReadMounts => PoolAction::ReadMounts,
        PoolStep::ReadAttributes => PoolAction::CheckDaxAttribute,
        PoolStep::CheckFeatures => PoolAction::CreateCheckFile,
        PoolStep::ReadSpace => PoolAction::ReadFreeSpace,
    }
}

impl PoolProbe {
    /// Returns the operation that comes next.
    #[must_use]
    pub fn step(&self) -> (out: PoolStep)
        ensures
            out == self@.step,
    {
        self.step
    }

    /// Returns the resolved path, which is empty until it is known.
    #[must_use]
    pub fn root(&self) -> (out: &[u8])
        ensures
            out@ == self@.root,
    {
        self.root.as_slice()
    }

    /// Judges the reply to the current operation: path, filesystem type, block size, DAX
    /// setting, sparse-file operations and free space, in this order.
    pub fn advance(self, reply: PoolReply) -> (out: Result<PoolProgress, PoolError>)
        requires
            answers_step(self@.step, reply@),
        ensures
            match out {
                Ok(progress) => self@.after(reply@) == Ok::<PoolProgressView, PoolError>(progress@),
                Err(error) => self@.after(reply@) == Err::<PoolProgressView, PoolError>(error),
            },
    {
        match reply {
            PoolReply::Failed => Err(PoolError::Io { action: action_of(self.step) }),
            PoolReply::PathRefused => Err(PoolError::Io { action: PoolAction::ConvertPath }),
            PoolReply::Resolved(root) => Ok(
                PoolProgress::Next(PoolProbe { step: PoolStep::Inspect, root, ..self }),
            ),
            PoolReply::Inspected { is_directory, device_id } => {
                if !is_directory {
                    return Err(PoolError::NotDirectory);
                }
                Ok(
                    PoolProgress::Next(
                        PoolProbe { step: PoolStep::ReadFilesystem, device_id, ..self },
                    ),
                )
            },
            PoolReply::Filesystem { filesystem_type, block_bytes } => {
                if block_bytes < 0 {
                    return Err(PoolError::SizeOverflow);
                }
                let filesystem = if filesystem_type == EXT4_MAGIC {
                    PoolFilesystem::Ext4
                } else if filesystem_type == XFS_MAGIC {
                    PoolFilesystem::Xfs
                } else {
                    return Err(PoolError::UnsupportedFilesystem);
                };
                if block_bytes as u64 != POOL_BLOCK_BYTES as u64 {
                    return Err(
                        PoolError::UnsupportedBlockSize { actual_bytes: block_bytes as u64 },
                    );
                }
                Ok(
                    PoolProgress::Next(
                        PoolProbe { step: PoolStep::ReadMounts, filesystem, ..self },
                    ),
                )
            },
            PoolReply::Mounts(table) => match dax_is_enabled(&self.root, &table) {
                None => Err(PoolError::Io { action: PoolAction::FindMount }),
                Some(true) => Err(PoolError::DaxEnabled),
                Some(false) => Ok(
                    PoolProgress::Next(PoolProbe { step: PoolStep::ReadAttributes, ..self }),
                ),
            },
            PoolReply::Attributes { known, set } => {
                if known & DAX_ATTRIBUTE != 0 && set & DAX_ATTRIBUTE != 0 {
                    return Err(PoolError::DaxEnabled);
                }
                Ok(PoolProgress::Next(PoolProbe { step: PoolStep::CheckFeatures, ..self }))
            },
            PoolReply::Features(outcome) => match outcome {
                Err(error) => Err(error),
                Ok(()) => Ok(
                    PoolProgress::Next(PoolProbe { step: PoolStep::ReadSpace, ..self }),
                ),
            },
            PoolReply::Space(report) => {
                let managed_bytes: u64 = match filesystem_space(report) {
                    Ok(bytes) => bytes,
                    Err(error) => {
                        return Err(error);
                    },
                };
                if report.block_bytes != POOL_BLOCK_BYTES as u64 {
                    return Err(
                        PoolError::UnsupportedBlockSize { actual_bytes: report.block_bytes },
                    );
                }
                Ok(
                    PoolProgress::Checked(
                        ReplicaPool::from_checked(
                            self.root,
                            self.device_id,
                            self.filesystem,
                            managed_bytes,
                        ),
                    ),
                )
            },
        }
    }
}

} // verus!
