//! How kernel requests, byte ranges and answers belong together.

use vstd::prelude::*;

use super::block_io::BlockIoError;
use super::progress::RequestProgress;
use super::requests::{
    admit_request, admitted_action, answer_request, described_request, device_parameters,
    parse_request, BlockAction, DeviceParameters, Request,
};
use super::settings::{
    queue_error, DriverLimitSettings, DriverLimits, InvalidDriverLimits, InvalidUblkSettings,
    UblkQueueSettings, UblkSettings, UblkSettingsView,
};
use crate::volume::descriptor::VolumeDescriptor;

verus! {

/// The low byte of a descriptor is its operation, and the two flags are single bits of it.
proof fn lemma_flag_bits(operation_flags: u32)
    ensures
        operation_flags & 0xff == operation_flags % 256,
        (operation_flags & 8192 != 0) == ((operation_flags / 8192) % 2 == 1),
        (operation_flags & 32768 == 0) == ((operation_flags / 32768) % 2 == 0),
{
    assert(operation_flags & 0xff == operation_flags % 256) by (bit_vector);
    assert((operation_flags & 8192 != 0) == ((operation_flags / 8192) % 2 == 1)) by (bit_vector);
    assert((operation_flags & 32768 == 0) == ((operation_flags / 32768) % 2 == 0)) by (bit_vector);
}

/// A kernel sector is 512 bytes: but for a flush, which names no range, a request covers the
/// bytes from 512 times its first sector on, 512 for each of its sectors, and it is refused
/// only where these numbers cannot be represented. Its operation is the low byte, and the
/// two flags are taken from their bits.
pub proof fn law_requests_count_sectors_of_512_bytes(
    operation_flags: u32,
    start_sector: u64,
    sector_count: u32,
    out: Result<Request, BlockIoError>,
)
    requires
        call_ensures(parse_request, (operation_flags, start_sector, sector_count), out),
    ensures
        operation_flags % 256 != 2 ==> (out is Err <==> 512 * start_sector > u64::MAX || 512
            * sector_count > usize::MAX),
        operation_flags % 256 == 2 ==> out is Ok,
        out is Err ==> out->Err_0 == BlockIoError::InvalidRequest,
        out matches Ok(request) ==> {
            &&& request.operation == operation_flags % 256
            &&& request.operation != 2 ==> {
                &&& request.offset == 512 * start_sector
                &&& request.length == 512 * sector_count
                &&& request.force_unit_access == ((operation_flags / 8192) % 2 == 1)
                &&& request.allow_discard == ((operation_flags / 32768) % 2 == 0)
            }
            &&& request.operation == 2 ==> request.offset == 0 && request.length == 0
                && !request.force_unit_access && !request.allow_discard
        },
{
    lemma_flag_bits(operation_flags);
}

/// Neighbouring sector ranges are neighbouring byte ranges, whatever the two operations.
pub proof fn law_neighbouring_sectors_are_neighbouring_bytes(
    first_flags: u32,
    second_flags: u32,
    start_sector: u64,
    first_count: u32,
    second_count: u32,
    first: Request,
    second: Request,
)
    requires
        start_sector + first_count <= u64::MAX,
        first_flags % 256 != 2,
        second_flags % 256 != 2,
        described_request(first_flags, start_sector, first_count) == Some(first),
        described_request(second_flags, (start_sector + first_count) as u64, second_count) == Some(
            second,
        ),
    ensures
        second.offset == first.offset + first.length,
        first_count < second_count ==> first.length < second.length,
{
    lemma_flag_bits(first_flags);
    lemma_flag_bits(second_flags);
}

/// The sectors that a device reports to the kernel are those that requests are counted in:
/// a request from the first sector behind the device would begin at the capacity, and a
/// request of the largest reported size has the largest length.
pub proof fn law_reported_sectors_match_requests(
    settings: UblkSettings,
    parameters: DeviceParameters,
    operation_flags: u32,
    behind: Request,
)
    requires
        call_ensures(device_parameters, (settings,), parameters),
        settings@.capacity_bytes % 512 == 0,
        settings@.max_request_bytes % 512 == 0,
        operation_flags % 256 != 2,
        described_request(operation_flags, parameters.dev_sectors, parameters.max_sectors) == Some(
            behind,
        ),
    ensures
        behind.offset == settings@.capacity_bytes,
        behind.length == settings@.max_request_bytes,
        parameters.dev_sectors * 512 == settings@.capacity_bytes,
        parameters.max_sectors * 512 == settings@.max_request_bytes,
        parameters.discard_granularity == settings@.logical_sector_bytes,
{
    lemma_flag_bits(operation_flags);
}

/// The bytes are whole blocks inside the volume, not more than one request may have and not
/// more than the buffer holds.
pub open spec fn fits(
    settings: UblkSettingsView,
    offset: int,
    length: int,
    buffer_bytes: usize,
) -> bool {
    &&& 0 < length <= settings.max_request_bytes
    &&& length <= buffer_bytes
    &&& offset % (settings.logical_sector_bytes as int) == 0
    &&& length % (settings.logical_sector_bytes as int) == 0
    &&& 0 <= offset && offset + length <= settings.capacity_bytes
}

/// A request that reaches the handler asks for exactly what the kernel asked: operation 0
/// reads, 1 writes, 2 flushes, 3 discards and 5 writes zeroes, over the same bytes and with
/// the same flags. Every such request that fits is admitted, and no other is.
pub proof fn law_admitted_actions_are_what_was_asked(
    settings: UblkSettingsView,
    request: Request,
    buffer_bytes: usize,
)
    requires
        settings.logical_sector_bytes > 0,
    ensures
        ({
            let action = admitted_action(settings, request, buffer_bytes);
            let known = request.operation == 0 || request.operation == 1 || request.operation == 3
                || request.operation == 5;
            &&& request.operation == 2 ==> (action is Some <==> request.length == 0)
            &&& request.operation != 2 ==> (action is Some <==> known && fits(
                settings,
                request.offset as int,
                request.length as int,
                buffer_bytes,
            ))
            &&& action is Some ==> match action->0 {
                BlockAction::Flush => request.operation == 2,
                BlockAction::Read { offset, length } => request.operation == 0 && offset
                    == request.offset && length == request.length,
                BlockAction::Write { offset, length, force_unit_access } => request.operation == 1
                    && offset == request.offset && length == request.length && force_unit_access
                    == request.force_unit_access,
                BlockAction::Discard { offset, length } => request.operation == 3 && offset
                    == request.offset && length == request.length,
                BlockAction::WriteZeroes { offset, length, force_unit_access, allow_discard } =>
                    request.operation == 5 && offset == request.offset && length == request.length
                        && force_unit_access == request.force_unit_access && allow_discard
                        == request.allow_discard,
            }
        }),
{
}

/// A request that was served is answered with the bytes that it covered, a flush with zero.
/// A failure is answered with a negative Linux error: 22 for an invalid request, 28 for
/// exhausted space, 5 for anything else.
pub proof fn law_answers(action: BlockAction, outcome: Result<(), BlockIoError>, out: i32)
    requires
        call_ensures(answer_request, (action, &outcome), out),
    ensures
        match outcome {
            Ok(()) => match action {
                BlockAction::Flush => out == 0,
                BlockAction::Read { offset: _, length } => length <= i32::MAX ==> out == length,
                BlockAction::Write { offset: _, length, force_unit_access: _ } => length
                    <= i32::MAX ==> out == length,
                BlockAction::Discard { offset: _, length } => length <= i32::MAX ==> out == length,
                BlockAction::WriteZeroes {
                    offset: _,
                    length,
                    force_unit_access: _,
                    allow_discard: _,
                } => length <= i32::MAX ==> out == length,
            },
            Err(BlockIoError::InvalidRequest) => out + 22 == 0,
            Err(BlockIoError::OutOfSpace) => out + 28 == 0,
            Err(_) => out + 5 == 0,
        },
{
}

/// Queue settings are accepted exactly where one to 4096 queues hold one to 4096 requests
/// of whole sectors and whole pages, at most 32 MiB each, and all buffers together stay
/// within the memory limit.
pub proof fn law_accepted_queues(
    queues: UblkQueueSettings,
    logical_sector_bytes: u32,
    reported_page_bytes: i64,
)
    requires
        logical_sector_bytes > 0,
    ensures
        queue_error(queues, logical_sector_bytes, reported_page_bytes) is None <==> {
            &&& 1 <= queues.queue_count <= 4096
            &&& 1 <= queues.queue_depth <= 4096
            &&& 0 < reported_page_bytes <= u32::MAX
            &&& 0 < queues.max_request_bytes <= 32 * 1024 * 1024
            &&& queues.max_request_bytes as int % logical_sector_bytes as int == 0
            &&& queues.max_request_bytes as int % reported_page_bytes as int == 0
            &&& queues.queue_count * queues.queue_depth * queues.max_request_bytes
                <= queues.memory_limit_bytes
        },
{
}

/// Whoever admits a request gets exactly the admitted action.
pub proof fn law_admit_call(
    settings: UblkSettings,
    request: Request,
    buffer_bytes: usize,
    out: Result<BlockAction, BlockIoError>,
)
    requires
        call_ensures(admit_request, (settings, request, buffer_bytes), out),
        settings@.logical_sector_bytes > 0,
    ensures
        out is Ok && request.operation != 2 ==> fits(
            settings@,
            request.offset as int,
            request.length as int,
            buffer_bytes,
        ),
        request.operation == 0 && fits(
            settings@,
            request.offset as int,
            request.length as int,
            buffer_bytes,
        ) ==> out == Ok::<BlockAction, BlockIoError>(
            BlockAction::Read { offset: request.offset, length: request.length },
        ),
        request.operation == 1 && fits(
            settings@,
            request.offset as int,
            request.length as int,
            buffer_bytes,
        ) ==> out == Ok::<BlockAction, BlockIoError>(
            BlockAction::Write {
                offset: request.offset,
                length: request.length,
                force_unit_access: request.force_unit_access,
            },
        ),
        out is Err ==> out->Err_0 == BlockIoError::InvalidRequest,
{
    law_admitted_actions_are_what_was_asked(settings@, request, buffer_bytes);
}

/// Device settings have the capacity of the descriptor, blocks of 4096 bytes, the given
/// queues, and one buffer for each request of each queue.
pub proof fn law_settings_call(
    descriptor: VolumeDescriptor,
    queues: UblkQueueSettings,
    page_bytes: i64,
    out: Result<UblkSettings, InvalidUblkSettings>,
)
    requires
        call_ensures(UblkSettings::new, (&descriptor, queues, page_bytes), out),
    ensures
        out matches Ok(settings) ==> {
            &&& settings@.capacity_bytes == descriptor.capacity_of().size()
            &&& settings@.logical_sector_bytes == 4096
            &&& settings@.physical_block_bytes == 4096
            &&& settings@.minimum_io_bytes == 4096
            &&& settings@.queue_count == queues.queue_count
            &&& settings@.queue_depth == queues.queue_depth
            &&& settings@.max_request_bytes == queues.max_request_bytes
            &&& settings@.queue_buffer_bytes == queues.queue_count * queues.queue_depth
                * queues.max_request_bytes
            &&& settings@.queue_buffer_bytes <= queues.memory_limit_bytes
            &&& queues.max_request_bytes as int % 4096 == 0
        },
{
    law_accepted_queues(queues, 4096, page_bytes);
}

/// Driver limits are accepted exactly where the queues are, at least one request may wait,
/// and one request fits the copied buffers; they are then kept as given.
pub proof fn law_limits_call(
    settings: DriverLimitSettings,
    page_bytes: i64,
    out: Result<DriverLimits, InvalidDriverLimits>,
)
    requires
        call_ensures(DriverLimits::new, (settings, page_bytes), out),
    ensures
        out is Ok <==> queue_error(settings.queues, 4096, page_bytes) is None
            && settings.max_pending_requests > 0 && settings.queues.max_request_bytes
            <= settings.max_pending_buffer_bytes,
        out matches Ok(limits) ==> limits.settings() == settings,
{
}

/// A finished request is counted once, round the largest number, and a change of the count
/// is seen exactly where it differs from the one before.
pub proof fn law_progress_calls(
    progress: &mut RequestProgress,
    done: (),
    seen: RequestProgress,
    previous: u64,
    change: Option<u64>,
)
    requires
        call_ensures(RequestProgress::request_finished, (progress,), done),
        call_ensures(RequestProgress::request_after, (&seen, previous), change),
    ensures
        final(progress).count() != old(progress).count(),
        old(progress).count() < 0xffff_ffff_ffff_ffff ==> final(progress).count()
            == old(progress).count() + 1,
        change is None <==> seen.count() == previous,
        change matches Some(count) ==> count == seen.count(),
{
}

} // verus!
