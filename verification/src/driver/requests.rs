//! Kernel block requests: reading, checking and answering them.

use vstd::prelude::*;

use super::block_io::{block_error, error_reply, BlockIoError};
use super::settings::{UblkSettings, UblkSettingsView, LIBUBLK_MAX_REQUEST_BYTES};

verus! {

/// Size of the sectors that the kernel counts in.
pub const SECTOR_BYTES: u64 = 512;

/// Operation number of a read.
pub const OP_READ: u32 = 0;

/// Operation number of a write.
pub const OP_WRITE: u32 = 1;

/// Operation number of a flush.
pub const OP_FLUSH: u32 = 2;

/// Operation number of a discard.
pub const OP_DISCARD: u32 = 3;

/// Operation number of writing zeroes.
pub const OP_WRITE_ZEROES: u32 = 5;

/// Request flag: the change must be durable when it returns.
pub const FLAG_FUA: u32 = 8192;

/// Request flag: zeroes must not release physical storage.
pub const FLAG_NOUNMAP: u32 = 32768;

/// One request that the kernel handed out.
#[derive(Clone, Copy, Debug, PartialEq, Eq, Structural)]
pub struct Request {
    pub operation: u32,
    pub offset: u64,
    pub length: usize,
    pub force_unit_access: bool,
    pub allow_discard: bool,
}

/// Request that a kernel descriptor stands for, if its range can be represented.
pub open spec fn described_request(
    operation_flags: u32,
    start_sector: u64,
    sector_count: u32,
) -> Option<Request> {
    let operation = operation_flags & 0xff;
    if operation == OP_FLUSH {
        Some(
            Request {
                operation,
                offset: 0,
                length: 0,
                force_unit_access: false,
                allow_discard: false,
            },
        )
    } else if start_sector * 512 > u64::MAX || sector_count * 512 > usize::MAX {
        None
    } else {
        Some(
            Request {
                operation,
                offset: (start_sector * 512) as u64,
                length: (sector_count * 512) as usize,
                force_unit_access: operation_flags & FLAG_FUA != 0,
                allow_discard: operation_flags & FLAG_NOUNMAP == 0,
            },
        )
    }
}

/// Converts the kernel descriptor without allowing integer overflow.
pub fn parse_request(operation_flags: u32, start_sector: u64, sector_count: u32) -> (out: Result<
    Request,
    BlockIoError,
>)
    ensures
        match out {
            Ok(request) => described_request(operation_flags, start_sector, sector_count) == Some(
                request,
            ),
            Err(error) => described_request(operation_flags, start_sector, sector_count) is None
                && error == BlockIoError::InvalidRequest,
        },
{
    let operation: u32 = operation_flags & 0xff;
    if operation == OP_FLUSH {
        return Ok(
            Request {
                operation,
                offset: 0,
                length: 0,
                force_unit_access: false,
                allow_discard: false,
            },
        );
    }
    let offset: u64 = match start_sector.checked_mul(SECTOR_BYTES) {
        Some(offset) => offset,
        None => {
            return Err(BlockIoError::InvalidRequest);
        },
    };
    let length: u64 = sector_count as u64 * SECTOR_BYTES;
    if length > usize::MAX as u64 {
        return Err(BlockIoError::InvalidRequest);
    }
    Ok(
        Request {
            operation,
            offset,
            length: length as usize,
            force_unit_access: operation_flags & FLAG_FUA != 0,
            allow_discard: operation_flags & FLAG_NOUNMAP == 0,
        },
    )
}

/// What a checked request asks of the block handler.
#[derive(Clone, Copy, Debug, PartialEq, Eq, Structural)]
pub enum BlockAction {
    /// Make every earlier successful write durable.
    Flush,

    /// Fill the first `length` bytes of the queue buffer.
    Read { offset: u64, length: usize },

    /// Write the first `length` bytes of the queue buffer.
    Write { offset: u64, length: usize, force_unit_access: bool },

    /// Release the complete byte range.
    Discard { offset: u64, length: u64 },

    /// Replace the complete byte range with zeroes.
    WriteZeroes { offset: u64, length: u64, force_unit_access: bool, allow_discard: bool },
}

/// The range is made of whole blocks inside the volume and fits the request buffer.
pub open spec fn is_range_valid(
    settings: UblkSettingsView,
    offset: u64,
    length: usize,
    buffer_bytes: usize,
) -> bool {
    &&& 0 < length <= settings.max_request_bytes
    &&& length <= buffer_bytes
    &&& offset % (settings.logical_sector_bytes as u64) == 0
    &&& length as u64 % (settings.logical_sector_bytes as u64) == 0
    &&& offset + length <= settings.capacity_bytes
}

/// Action that a request asks for, if it may reach the handler.
pub open spec fn admitted_action(
    settings: UblkSettingsView,
    request: Request,
    buffer_bytes: usize,
) -> Option<BlockAction> {
    if request.operation == OP_FLUSH {
        if request.length == 0 { Some(BlockAction::Flush) } else { None }
    } else if !is_range_valid(settings, request.offset, request.length, buffer_bytes) {
        None
    } else if request.operation == OP_READ {
        Some(BlockAction::Read { offset: request.offset, length: request.length })
    } else if request.operation == OP_WRITE {
        Some(
            BlockAction::Write {
                offset: request.offset,
                length: request.length,
                force_unit_access: request.force_unit_access,
            },
        )
    } else if request.operation == OP_DISCARD {
        Some(BlockAction::Discard { offset: request.offset, length: request.length as u64 })
    } else if request.operation == OP_WRITE_ZEROES {
        Some(
            BlockAction::WriteZeroes {
                offset: request.offset,
                length: request.length as u64,
                force_unit_access: request.force_unit_access,
                allow_discard: request.allow_discard,
            },
        )
    } else {
        None
    }
}

/// Validates one request before exposing a queue buffer to the block handler.
pub fn admit_request(settings: UblkSettings, request: Request, buffer_bytes: usize) -> (out: Result<
    BlockAction,
    BlockIoError,
>)
    ensures
        match out {
            Ok(action) => admitted_action(settings@, request, buffer_bytes) == Some(action),
            Err(error) => admitted_action(settings@, request, buffer_bytes) is None && error
                == BlockIoError::InvalidRequest,
        },
{
    if request.operation == OP_FLUSH {
        if request.length != 0 {
            return Err(BlockIoError::InvalidRequest);
        }
        return Ok(BlockAction::Flush);
    }
    let length: u64 = request.length as u64;
    let sector: u64 = settings.logical_sector_bytes() as u64;
    let past_end = match request.offset.checked_add(length) {
        Some(end) => end > settings.capacity_bytes(),
        None => true,
    };
    if request.length == 0 || length > settings.max_request_bytes() as u64 || request.offset
        % sector != 0 || length % sector != 0 || past_end || request.length > buffer_bytes {
        return Err(BlockIoError::InvalidRequest);
    }
    if request.operation == OP_READ {
        Ok(BlockAction::Read { offset: request.offset, length: request.length })
    } else if request.operation == OP_WRITE {
        Ok(
            BlockAction::Write {
                offset: request.offset,
                length: request.length,
                force_unit_access: request.force_unit_access,
            },
        )
    } else if request.operation == OP_DISCARD {
        Ok(BlockAction::Discard { offset: request.offset, length })
    } else if request.operation == OP_WRITE_ZEROES {
        Ok(
            BlockAction::WriteZeroes {
                offset: request.offset,
                length,
                force_unit_access: request.force_unit_access,
                allow_discard: request.allow_discard,
            },
        )
    } else {
        Err(BlockIoError::InvalidRequest)
    }
}

/// Bytes that an action moves, none for a flush.
pub open spec fn moved_bytes(action: BlockAction) -> int {
    match action {
        BlockAction::Flush => 0,
        BlockAction::Read { offset: _, length } => length as int,
        BlockAction::Write { offset: _, length, force_unit_access: _ } => length as int,
        BlockAction::Discard { offset: _, length } => length as int,
        BlockAction::WriteZeroes { offset: _, length, force_unit_access: _, allow_discard: _ } =>
            length as int,
    }
}

/// Answers the kernel: the bytes that the handler moved, or its failure as a Linux error.
pub fn answer_request(action: BlockAction, outcome: &Result<(), BlockIoError>) -> (out: i32)
    ensures
        out == match *outcome {
            Ok(()) => if moved_bytes(action) <= i32::MAX {
                moved_bytes(action) as i32
            } else {
                error_reply(BlockIoError::InvalidRequest)
            },
            Err(error) => error_reply(error),
        },
{
    if let Err(error) = outcome {
        return block_error(error);
    }
    let length: u64 = match action {
        BlockAction::Flush => 0,
        BlockAction::Read { offset: _, length } => length as u64,
        BlockAction::Write { offset: _, length, force_unit_access: _ } => length as u64,
        BlockAction::Discard { offset: _, length } => length,
        BlockAction::WriteZeroes {
            offset: _,
            length,
            force_unit_access: _,
            allow_discard: _,
        } => length,
    };
    if length > i32::MAX as u64 {
        return block_error(&BlockIoError::InvalidRequest);
    }
    length as i32
}

/// Values that a device reports to the kernel before it starts.
#[derive(Clone, Copy, Debug, PartialEq, Eq, Structural)]
pub struct DeviceParameters {
    /// Power of two of the logical sector size.
    pub logical_bs_shift: u8,

    /// Power of two of the physical block size.
    pub physical_bs_shift: u8,

    /// Power of two of the minimum I/O size.
    pub io_min_shift: u8,

    /// Largest request in kernel sectors.
    pub max_sectors: u32,

    /// Capacity in kernel sectors.
    pub dev_sectors: u64,

    /// Smallest range that can be discarded.
    pub discard_granularity: u32,
}

/// Returns what a device with these settings reports to the kernel.
pub fn device_parameters(settings: UblkSettings) -> (out: DeviceParameters)
    ensures
        1u32 << out.logical_bs_shift == settings@.logical_sector_bytes,
        1u32 << out.physical_bs_shift == settings@.physical_block_bytes,
        1u32 << out.io_min_shift == settings@.minimum_io_bytes,
        out.max_sectors == settings@.max_request_bytes / 512,
        out.dev_sectors == settings@.capacity_bytes / 512,
        out.discard_granularity == settings@.logical_sector_bytes,
{
    let capacity: u64 = settings.capacity_bytes();
    let request: u32 = settings.max_request_bytes();
    let logical: u32 = settings.logical_sector_bytes();
    let physical: u32 = settings.physical_block_bytes();
    let minimum: u32 = settings.minimum_io_bytes();
    proof {
        assert(capacity >> 9 == capacity / 512) by (bit_vector);
        assert(request >> 9 == request / 512) by (bit_vector);
        assert(1u32 << 12u8 == 4096u32) by (bit_vector);
    }
    DeviceParameters {
        logical_bs_shift: size_shift(logical),
        physical_bs_shift: size_shift(physical),
        io_min_shift: size_shift(minimum),
        max_sectors: request >> 9,
        dev_sectors: capacity >> 9,
        discard_granularity: logical,
    }
}

/// Returns the power of two of the block size that the format requires.
fn size_shift(bytes: u32) -> (out: u8)
    requires
        bytes == crate::volume::block_sizes::REQUIRED_BLOCK_BYTES,
    ensures
        out == 12,
{
    let zeros: u32 = bytes.trailing_zeros();
    proof {
        broadcast use vstd::std_specs::bits::group_bits_axioms;
        assert(zeros < 32 && (4096u32 >> zeros) & 1u32 == 1u32 ==> zeros == 12) by (bit_vector);
    }
    zeros as u8
}

/// Every admitted request lies inside the volume, on block boundaries, and within the
/// largest request, so its length can be answered to the kernel as it is.
pub proof fn law_admitted_requests_stay_inside(
    settings: UblkSettingsView,
    request: Request,
    buffer_bytes: usize,
    action: BlockAction,
)
    requires
        admitted_action(settings, request, buffer_bytes) == Some(action),
        settings.max_request_bytes <= LIBUBLK_MAX_REQUEST_BYTES,
    ensures
        moved_bytes(action) <= i32::MAX,
        !(action is Flush) ==> 0 < moved_bytes(action) == request.length && request.offset
            + request.length <= settings.capacity_bytes && request.length <= buffer_bytes,
{
}

} // verus!
