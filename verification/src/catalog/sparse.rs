//! Sparse-file operations that a pool filesystem must support.

use vstd::prelude::*;

use super::error::{PoolAction, PoolCheck, PoolError};
use super::pool::{POOL_BLOCK_BYTES, PROBE_BYTE, PROBE_DATA_OFFSET, PROBE_FILE_BYTES};

verus! {

/// Operation on the file that is tried.
#[derive(Clone, Copy, Debug, PartialEq, Eq, Structural)]
pub enum SparseStep {
    /// Give the empty file its length.
    SetLength,

    /// Write one block in the middle.
    WriteData,

    /// Sync the written block.
    SyncData,

    /// Read how much the file has allocated.
    InspectSparse,

    /// Seek the first data from the start.
    SeekData,

    /// Seek the first hole from the data.
    SeekHole,

    /// Punch a hole where the block was written.
    PunchHole,

    /// Sync the punched file.
    SyncPunched,

    /// Read the punched block.
    ReadBack,

    /// Read how much the punched file has allocated.
    InspectPunched,

    /// Every operation did what it must.
    Passed,
}

/// Operation with the values it is called with.
#[derive(Clone, Copy, Debug, PartialEq, Eq, Structural)]
pub enum SparseAction {
    SetLength { bytes: u64 },
    Write { offset: u64, bytes: u32, value: u8 },
    Sync,
    Inspect,
    SeekData { from: i64 },
    SeekHole { from: i64 },
    PunchHole { offset: u64, bytes: u32 },
    Read { offset: u64, bytes: u32 },
    Finish,
}

/// What the operating system answered.
#[derive(Debug, PartialEq, Eq)]
pub enum SparseReply {
    /// The operation failed.
    Failed,

    /// The operation succeeded and returned nothing.
    Done,

    /// Number of 512-byte blocks that the file has allocated.
    Blocks(u64),

    /// Offset that a seek returned; negative ones report a failure.
    Offset(i64),

    /// Bytes that were read.
    Bytes(Vec<u8>),
}

/// Model of a reply.
pub enum SparseReplyView {
    Failed,
    Done,
    Blocks(u64),
    Offset(i64),
    Bytes(Seq<u8>),
}

impl View for SparseReply {
    type V = SparseReplyView;

    open spec fn view(&self) -> SparseReplyView {
        match self {
            SparseReply::Failed => SparseReplyView::Failed,
            SparseReply::Done => SparseReplyView::Done,
            SparseReply::Blocks(blocks) => SparseReplyView::Blocks(*blocks),
            SparseReply::Offset(offset) => SparseReplyView::Offset(*offset),
            SparseReply::Bytes(bytes) => SparseReplyView::Bytes(bytes@),
        }
    }
}

/// Check of sparse allocation, data and hole seeking, hole punching and data sync.
#[derive(Clone, Copy, Debug, PartialEq, Eq, Structural)]
pub struct SparseCheck {
    pub step: SparseStep,

    /// Bytes allocated before the hole was punched.
    pub allocated_before: u64,

    /// Offset of the first data.
    pub data_offset: i64,
}

/// The reply answers the operation.
pub open spec fn answers_sparse(step: SparseStep, reply: SparseReplyView) -> bool {
    match step {
        SparseStep::SetLength | SparseStep::WriteData | SparseStep::SyncData
        | SparseStep::PunchHole | SparseStep::SyncPunched => reply is Failed || reply is Done,
        SparseStep::InspectSparse | SparseStep::InspectPunched => reply is Failed
            || reply is Blocks,
        SparseStep::SeekData | SparseStep::SeekHole => reply is Offset,
        SparseStep::ReadBack => reply is Failed || reply is Bytes,
        SparseStep::Passed => false,
    }
}

/// Step that failed when the operating system reports a failure.
pub open spec fn sparse_action(step: SparseStep) -> PoolAction {
    match step {
        SparseStep::SetLength => PoolAction::CreateSparseFile,
        SparseStep::WriteData => PoolAction::WriteCheckFile,
        SparseStep::SyncData => PoolAction::SyncCheckFile,
        SparseStep::InspectSparse => PoolAction::InspectSparseFile,
        SparseStep::SeekData | SparseStep::SeekHole => PoolAction::FindData,
        SparseStep::PunchHole => PoolAction::PunchHole,
        SparseStep::SyncPunched => PoolAction::SyncPunchedFile,
        SparseStep::ReadBack => PoolAction::ReadPunchedFile,
        SparseStep::InspectPunched | SparseStep::Passed => PoolAction::InspectPunchedFile,
    }
}

/// Every byte is zero.
pub open spec fn all_zero(bytes: Seq<u8>) -> bool {
    forall|i: int| #![trigger bytes[i]] 0 <= i < bytes.len() ==> bytes[i] == 0
}

impl SparseCheck {
    /// The check before its first operation.
    pub open spec fn start() -> SparseCheck {
        SparseCheck { step: SparseStep::SetLength, allocated_before: 0, data_offset: 0 }
    }

    /// Where the check stands after a reply.
    pub open spec fn after(self, reply: SparseReplyView) -> Result<SparseCheck, PoolError> {
        match reply {
            SparseReplyView::Failed => Err(PoolError::Io { action: sparse_action(self.step) }),
            SparseReplyView::Done => Ok(
                SparseCheck {
                    step: match self.step {
                        SparseStep::SetLength => SparseStep::WriteData,
                        SparseStep::WriteData => SparseStep::SyncData,
                        SparseStep::SyncData => SparseStep::InspectSparse,
                        SparseStep::PunchHole => SparseStep::SyncPunched,
                        _ => SparseStep::ReadBack,
                    },
                    ..self
                },
            ),
            SparseReplyView::Blocks(blocks) => if blocks * 512 > u64::MAX {
                Err(PoolError::SizeOverflow)
            } else if self.step == SparseStep::InspectSparse {
                if blocks * 512 >= PROBE_FILE_BYTES {
                    Err(PoolError::RequiredFeature { check: PoolCheck::SparseAllocation })
                } else {
                    Ok(
                        SparseCheck {
                            step: SparseStep::SeekData,
                            allocated_before: (blocks * 512) as u64,
                            ..self
                        },
                    )
                }
            } else if blocks * 512 >= self.allocated_before {
                Err(PoolError::RequiredFeature { check: PoolCheck::PunchedSpaceRelease })
            } else {
                Ok(SparseCheck { step: SparseStep::Passed, ..self })
            },
            SparseReplyView::Offset(offset) => if self.step == SparseStep::SeekData {
                if offset < 0 {
                    Err(PoolError::Io { action: PoolAction::FindData })
                } else {
                    Ok(
                        SparseCheck {
                            step: SparseStep::SeekHole,
                            data_offset: offset,
                            ..self
                        },
                    )
                }
            } else if offset <= self.data_offset {
                Err(PoolError::RequiredFeature { check: PoolCheck::SeekDataAndHole })
            } else {
                Ok(SparseCheck { step: SparseStep::PunchHole, ..self })
            },
            SparseReplyView::Bytes(bytes) => if !all_zero(bytes) {
                Err(PoolError::RequiredFeature { check: PoolCheck::PunchedZeroReads })
            } else {
                Ok(SparseCheck { step: SparseStep::InspectPunched, ..self })
            },
        }
    }

    /// Operation that comes next, with its values.
    pub open spec fn next_action(self) -> SparseAction {
        match self.step {
            SparseStep::SetLength => SparseAction::SetLength { bytes: PROBE_FILE_BYTES },
            SparseStep::WriteData => SparseAction::Write {
                offset: PROBE_DATA_OFFSET,
                bytes: POOL_BLOCK_BYTES,
                value: PROBE_BYTE,
            },
            SparseStep::SyncData | SparseStep::SyncPunched => SparseAction::Sync,
            SparseStep::InspectSparse | SparseStep::InspectPunched => SparseAction::Inspect,
            SparseStep::SeekData => SparseAction::SeekData { from: 0 },
            SparseStep::SeekHole => SparseAction::SeekHole { from: self.data_offset },
            SparseStep::PunchHole => SparseAction::PunchHole {
                offset: PROBE_DATA_OFFSET,
                bytes: POOL_BLOCK_BYTES,
            },
            SparseStep::ReadBack => SparseAction::Read {
                offset: PROBE_DATA_OFFSET,
                bytes: POOL_BLOCK_BYTES,
            },
            SparseStep::Passed => SparseAction::Finish,
        }
    }

    /// Begins the check on an empty file.
    pub fn check_sparse_file() -> (out: Self)
        ensures
            out == Self::start(),
    {
        SparseCheck { step: SparseStep::SetLength, allocated_before: 0, data_offset: 0 }
    }

    /// Returns the operation that comes next, with its values.
    pub fn action(&self) -> (out: SparseAction)
        ensures
            out == self.next_action(),
    {
        match self.step {
            SparseStep::SetLength => SparseAction::SetLength { bytes: PROBE_FILE_BYTES },
            SparseStep::WriteData => SparseAction::Write {
                offset: PROBE_DATA_OFFSET,
                bytes: POOL_BLOCK_BYTES,
                value: PROBE_BYTE,
            },
            SparseStep::SyncData => SparseAction::Sync,
            SparseStep::SyncPunched => SparseAction::Sync,
            SparseStep::InspectSparse => SparseAction::Inspect,
            SparseStep::InspectPunched => SparseAction::Inspect,
            SparseStep::SeekData => SparseAction::SeekData { from: 0 },
            SparseStep::SeekHole => SparseAction::SeekHole { from: self.data_offset },
            SparseStep::PunchHole => SparseAction::PunchHole {
                offset: PROBE_DATA_OFFSET,
                bytes: POOL_BLOCK_BYTES,
            },
            SparseStep::ReadBack => SparseAction::Read {
                offset: PROBE_DATA_OFFSET,
                bytes: POOL_BLOCK_BYTES,
            },
            SparseStep::Passed => SparseAction::Finish,
        }
    }

    /// Judges the reply to the current operation.
    pub fn advance(self, reply: &SparseReply) -> (out: Result<Self, PoolError>)
        requires
            answers_sparse(self.step, reply@),
        ensures
            out == self.after(reply@),
    {
        match reply {
            SparseReply::Failed => Err(PoolError::Io { action: action_of(self.step) }),
            SparseReply::Done => {
                let step = match self.step {
                    SparseStep::SetLength => SparseStep::WriteData,
                    SparseStep::WriteData => SparseStep::SyncData,
                    SparseStep::SyncData => SparseStep::InspectSparse,
                    SparseStep::PunchHole => SparseStep::SyncPunched,
                    _ => SparseStep::ReadBack,
                };
                Ok(SparseCheck { step, ..self })
            },
            SparseReply::Blocks(blocks) => {
                let allocated: u64 = match blocks.checked_mul(512) {
                    Some(allocated) => allocated,
                    None => {
                        return Err(PoolError::SizeOverflow);
                    },
                };
                if self.step == SparseStep::InspectSparse {
                    if allocated >= PROBE_FILE_BYTES {
                        return Err(
                            PoolError::RequiredFeature { check: PoolCheck::SparseAllocation },
                        );
                    }
                    return Ok(
                        SparseCheck {
                            step: SparseStep::SeekData,
                            allocated_before: allocated,
                            ..self
                        },
                    );
                }
                if allocated >= self.allocated_before {
                    return Err(
                        PoolError::RequiredFeature { check: PoolCheck::PunchedSpaceRelease },
                    );
                }
                Ok(SparseCheck { step: SparseStep::Passed, ..self })
            },
            SparseReply::Offset(offset) => {
                if self.step == SparseStep::SeekData {
                    if *offset < 0 {
                        return Err(PoolError::Io { action: PoolAction::FindData });
                    }
                    return Ok(
                        SparseCheck {
                            step: SparseStep::SeekHole,
                            data_offset: *offset,
                            ..self
                        },
                    );
                }
                if *offset <= self.data_offset {
                    return Err(PoolError::RequiredFeature { check: PoolCheck::SeekDataAndHole });
                }
                Ok(SparseCheck { step: SparseStep::PunchHole, ..self })
            },
            SparseReply::Bytes(bytes) => {
                if !is_all_zero(bytes) {
                    return Err(PoolError::RequiredFeature { check: PoolCheck::PunchedZeroReads });
                }
                Ok(SparseCheck { step: SparseStep::InspectPunched, ..self })
            },
        }
    }
}

/// Returns the step that failed when the operating system reports a failure.
fn action_of(step: SparseStep) -> (out: PoolAction)
    ensures
        out == sparse_action(step),
{
    match step {
        SparseStep::SetLength => PoolAction::CreateSparseFile,
        SparseStep::WriteData => PoolAction::WriteCheckFile,
        SparseStep::SyncData => PoolAction::SyncCheckFile,
        SparseStep::InspectSparse => PoolAction::InspectSparseFile,
        SparseStep::SeekData => PoolAction::FindData,
        SparseStep::SeekHole => PoolAction::FindData,
        SparseStep::PunchHole => PoolAction::PunchHole,
        SparseStep::SyncPunched => PoolAction::SyncPunchedFile,
        SparseStep::ReadBack => PoolAction::ReadPunchedFile,
        SparseStep::InspectPunched => PoolAction::InspectPunchedFile,
        SparseStep::Passed => PoolAction::InspectPunchedFile,
    }
}

/// Returns whether every byte is zero.
fn is_all_zero(bytes: &Vec<u8>) -> (out: bool)
    ensures
        out == all_zero(bytes@),
{
    let mut i: usize = 0;
    while i < bytes.len()
        invariant
            i <= bytes@.len(),
            forall|k: int| #![trigger bytes@[k]] 0 <= k < i ==> bytes@[k] == 0,
        decreases bytes@.len() - i,
    {
        if bytes[i] != 0 {
            return false;
        }
        i += 1;
    }
    true
}

/// First failure among the sparse-file check, the removal of its file and the sync of its
/// directory.
pub open spec fn features_outcome(
    checked: Result<(), PoolError>,
    removed: bool,
    synced: Result<(), PoolError>,
) -> Result<(), PoolError> {
    if checked is Err {
        checked
    } else if !removed {
        Err(PoolError::Io { action: PoolAction::RemoveCheckFile })
    } else {
        synced
    }
}

/// Combines the sparse-file check with the removal of its file and the sync of its
/// directory, which happen whatever the check found.
pub fn check_required_features(
    checked: Result<(), PoolError>,
    removed: bool,
    synced: Result<(), PoolError>,
) -> (out: Result<(), PoolError>)
    ensures
        out == features_outcome(checked, removed, synced),
{
    if checked.is_err() {
        return checked;
    }
    if !removed {
        return Err(PoolError::Io { action: PoolAction::RemoveCheckFile });
    }
    synced
}

/// Where a check stands after some replies, as long as each answers its operation.
pub open spec fn sparse_run(
    check: SparseCheck,
    replies: Seq<SparseReplyView>,
) -> Result<SparseCheck, PoolError>
    decreases replies.len(),
{
    if replies.len() == 0 || !answers_sparse(check.step, replies[0]) {
        Ok(check)
    } else {
        match check.after(replies[0]) {
            Ok(next) => sparse_run(next, replies.skip(1)),
            Err(error) => Err(error),
        }
    }
}

/// The replies of a filesystem that supports every operation.
pub open spec fn supports_sparse_files(replies: Seq<SparseReplyView>) -> bool {
    &&& replies.len() == 10
    &&& replies[0] is Done && replies[1] is Done && replies[2] is Done
    &&& replies[3] matches SparseReplyView::Blocks(before) && replies[4]
        matches SparseReplyView::Offset(data) && replies[5] matches SparseReplyView::Offset(hole)
        && replies[8] matches SparseReplyView::Bytes(bytes) && replies[9]
        matches SparseReplyView::Blocks(after) && {
        &&& before * 512 < PROBE_FILE_BYTES
        &&& 0 <= data < hole
        &&& all_zero(bytes)
        &&& after < before
    }
    &&& replies[6] is Done && replies[7] is Done
}

/// A run of ten replies passes the check exactly when the file was sparse, its data was
/// found before a hole, and punching it gave zeros and released space.
pub proof fn law_sparse_check_is_exact(replies: Seq<SparseReplyView>)
    requires
        replies.len() == 10,
    ensures
        (sparse_run(SparseCheck::start(), replies) matches Ok(check) && check.step
            == SparseStep::Passed) <==> supports_sparse_files(replies),
{
    reveal_with_fuel(sparse_run, 11);
    let r1 = replies.skip(1);
    let r2 = r1.skip(1);
    let r3 = r2.skip(1);
    let r4 = r3.skip(1);
    let r5 = r4.skip(1);
    let r6 = r5.skip(1);
    let r7 = r6.skip(1);
    let r8 = r7.skip(1);
    let r9 = r8.skip(1);
    assert(r1[0] == replies[1] && r2[0] == replies[2] && r3[0] == replies[3]);
    assert(r4[0] == replies[4] && r5[0] == replies[5] && r6[0] == replies[6]);
    assert(r7[0] == replies[7] && r8[0] == replies[8] && r9[0] == replies[9]);
}

} // verus!
