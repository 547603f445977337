//! Failures of block requests and the Linux errors that stand for them.

use vstd::prelude::*;

use crate::text::push_text;

verus! {

/// Linux error number of an invalid argument.
pub const EINVAL: i32 = 22;

/// Linux error number of exhausted space.
pub const ENOSPC: i32 = 28;

/// Linux error number of failed input or output.
pub const EIO: i32 = 5;

/// Maps a block-handler failure to one deliberate Linux block error.
#[derive(Clone, Debug, PartialEq, Eq)]
pub enum BlockIoError {
    /// The request is invalid for the current volume or session.
    InvalidRequest,

    /// The replica file cannot reserve enough local capacity.
    OutOfSpace,

    /// This driver is no longer allowed to serve the volume.
    NotServing,

    /// The current handler is changing and this request should be tried again.
    Retry,

    /// Storage, integrity, or another required operation failed.
    Failed {
        /// Short context safe to place in local logs.
        message: String,
    },
}

impl BlockIoError {
    /// Text of the failure.
    pub open spec fn text(self) -> Seq<char> {
        match self {
            BlockIoError::InvalidRequest => "invalid block request"@,
            BlockIoError::OutOfSpace => "block storage is out of space"@,
            BlockIoError::NotServing => "block driver is not serving"@,
            BlockIoError::Retry => "block request should be tried again"@,
            BlockIoError::Failed { message } => "block request failed: "@ + message@,
        }
    }

    /// Creates a failed-I/O result with short local context.
    #[must_use]
    pub fn failed(message: &str) -> (out: Self)
        ensures
            out matches BlockIoError::Failed { message: context } && context@ == message@,
    {
        let mut context = String::new();
        push_text(&mut context, message);
        proof { assert(context@ =~= message@); }
        BlockIoError::Failed { message: context }
    }

    /// Returns the text of the failure.
    pub fn message(&self) -> (out: String)
        ensures
            out@ == self.text(),
    {
        let mut out = String::new();
        match self {
            BlockIoError::InvalidRequest => {
                push_text(&mut out, "invalid block request");
            },
            BlockIoError::OutOfSpace => {
                push_text(&mut out, "block storage is out of space");
            },
            BlockIoError::NotServing => {
                push_text(&mut out, "block driver is not serving");
            },
            BlockIoError::Retry => {
                push_text(&mut out, "block request should be tried again");
            },
            BlockIoError::Failed { message } => {
                push_text(&mut out, "block request failed: ");
                push_text(&mut out, message.as_str());
            },
        }
        proof { assert(out@ =~= self.text()); }
        out
    }
}

/// Reply to the kernel for a failure.
pub open spec fn error_reply(error: BlockIoError) -> i32 {
    match error {
        BlockIoError::InvalidRequest => (-22) as i32,
        BlockIoError::OutOfSpace => (-28) as i32,
        BlockIoError::NotServing => (-5) as i32,
        BlockIoError::Retry => (-5) as i32,
        BlockIoError::Failed { message: _ } => (-5) as i32,
    }
}

/// Maps one deliberate handler failure to a Linux block error.
pub fn block_error(error: &BlockIoError) -> (out: i32)
    ensures
        out == error_reply(*error),
        out < 0,
{
    match error {
        BlockIoError::InvalidRequest => -EINVAL,
        BlockIoError::OutOfSpace => -ENOSPC,
        BlockIoError::NotServing => -EIO,
        BlockIoError::Retry => -EIO,
        BlockIoError::Failed { message: _ } => -EIO,
    }
}

} // verus!
