//! Checked queue and request limits of one block device.

use vstd::prelude::*;

use crate::text::{decimal_text, push_decimal, push_text};
use crate::volume::block_sizes::{VolumeBlockSizes, REQUIRED_BLOCK_BYTES};
use crate::volume::descriptor::VolumeDescriptor;

verus! {

/// Largest request buffer that the kernel driver library accepts.
pub const LIBUBLK_MAX_REQUEST_BYTES: u32 = 33554432;

/// Largest number of queues in the kernel interface.
pub const UBLK_MAX_QUEUE_COUNT: u32 = 4096;

/// Largest depth of one queue in the kernel interface.
pub const UBLK_MAX_QUEUE_DEPTH: u32 = 4096;

/// Caller-selected queue and memory limits for one ublk device.
#[derive(Clone, Copy, Debug, PartialEq, Eq, Structural)]
pub struct UblkQueueSettings {
    /// Number of independent kernel queues.
    pub queue_count: u16,

    /// Largest number of requests held by each queue.
    pub queue_depth: u16,

    /// Largest request buffer allocated for one queue entry.
    pub max_request_bytes: u32,

    /// Largest total allocation allowed for all queue request buffers.
    pub memory_limit_bytes: u64,
}

/// Caller-selected limits for one running block driver.
#[derive(Clone, Copy, Debug, PartialEq, Eq, Structural)]
pub struct DriverLimitSettings {
    /// ublk queue count, depth, request size, and queue-buffer limit.
    pub queues: UblkQueueSettings,

    /// Largest number of requests waiting for or running on the shared worker.
    pub max_pending_requests: usize,

    /// Largest combined size of request data copied by the block handler.
    pub max_pending_buffer_bytes: usize,
}

/// Rejects ublk queue settings that are invalid or exceed caller limits.
#[derive(Clone, Copy, Debug, PartialEq, Eq, Structural)]
pub enum InvalidUblkSettings {
    /// The saved capacity does not fit the volume's fixed block layout.
    InvalidCapacity,

    /// A device needs at least one queue.
    ZeroQueueCount,

    /// The queue count exceeds the kernel API.
    TooManyQueues {
        /// Queue count supplied by the caller.
        requested: u16,

        /// Largest queue count accepted by the ublk API.
        maximum: u32,
    },

    /// Each queue needs at least one request entry.
    ZeroQueueDepth,

    /// The requested queue depth exceeds the kernel API.
    QueueTooDeep {
        /// Queue depth supplied by the caller.
        requested: u16,

        /// Largest queue depth accepted by the ublk API.
        maximum: u32,
    },

    /// Request buffers must be non-zero whole logical sectors.
    InvalidRequestSize {
        /// Request size supplied by the caller.
        requested_bytes: u32,

        /// Logical-sector alignment required by this volume.
        alignment_bytes: u32,
    },

    /// libublk rejects request buffers larger than 32 MiB.
    RequestTooLarge {
        /// Request size supplied by the caller.
        requested_bytes: u32,

        /// Largest request buffer accepted by this libublk version.
        maximum_bytes: u32,
    },

    /// Queue count, depth, and request size overflowed their memory calculation.
    QueueMemoryOverflow,

    /// Queue buffers exceed the memory limit selected by the caller.
    QueueMemoryLimit {
        /// Exact queue buffer allocation.
        required_bytes: u64,

        /// Maximum allocation allowed by the caller.
        limit_bytes: u64,
    },

    /// The operating-system page size could not be represented safely.
    HostPageSizeUnavailable,
}

impl InvalidUblkSettings {
    /// Text of the rejection.
    pub open spec fn text(self) -> Seq<char> {
        match self {
            InvalidUblkSettings::InvalidCapacity =>
                "ublk capacity does not fit the volume block layout"@,
            InvalidUblkSettings::ZeroQueueCount => "ublk queue count must be greater than zero"@,
            InvalidUblkSettings::TooManyQueues { requested, maximum } => "ublk queue count "@
                + decimal_text(requested as nat) + " exceeds the kernel maximum of "@
                + decimal_text(maximum as nat),
            InvalidUblkSettings::ZeroQueueDepth => "ublk queue depth must be greater than zero"@,
            InvalidUblkSettings::QueueTooDeep { requested, maximum } => "ublk queue depth "@
                + decimal_text(requested as nat) + " exceeds the kernel maximum of "@
                + decimal_text(maximum as nat),
            InvalidUblkSettings::InvalidRequestSize { requested_bytes, alignment_bytes } =>
                "ublk request size "@ + decimal_text(requested_bytes as nat)
                    + " is not a non-zero multiple of "@ + decimal_text(alignment_bytes as nat)
                    + " bytes"@,
            InvalidUblkSettings::RequestTooLarge { requested_bytes, maximum_bytes } =>
                "ublk request size "@ + decimal_text(requested_bytes as nat)
                    + " exceeds the libublk maximum of "@ + decimal_text(maximum_bytes as nat)
                    + " bytes"@,
            InvalidUblkSettings::QueueMemoryOverflow =>
                "ublk queue buffer memory calculation overflowed"@,
            InvalidUblkSettings::QueueMemoryLimit { required_bytes, limit_bytes } =>
                "ublk queues require "@ + decimal_text(required_bytes as nat)
                    + " buffer bytes, exceeding the caller limit of "@ + decimal_text(
                    limit_bytes as nat,
                ) + " bytes"@,
            InvalidUblkSettings::HostPageSizeUnavailable =>
                "could not read a valid host page size"@,
        }
    }

    /// Appends the text of the rejection.
    fn write_to(&self, out: &mut String)
        ensures
            final(out)@ == old(out)@ + self.text(),
    {
        let ghost before = out@;
        match self {
            InvalidUblkSettings::InvalidCapacity => {
                push_text(out, "ublk capacity does not fit the volume block layout");
            },
            InvalidUblkSettings::ZeroQueueCount => {
                push_text(out, "ublk queue count must be greater than zero");
            },
            InvalidUblkSettings::TooManyQueues { requested, maximum } => {
                push_text(out, "ublk queue count ");
                push_decimal(out, *requested as u64);
                push_text(out, " exceeds the kernel maximum of ");
                push_decimal(out, *maximum as u64);
            },
            InvalidUblkSettings::ZeroQueueDepth => {
                push_text(out, "ublk queue depth must be greater than zero");
            },
            InvalidUblkSettings::QueueTooDeep { requested, maximum } => {
                push_text(out, "ublk queue depth ");
                push_decimal(out, *requested as u64);
                push_text(out, " exceeds the kernel maximum of ");
                push_decimal(out, *maximum as u64);
            },
            InvalidUblkSettings::InvalidRequestSize { requested_bytes, alignment_bytes } => {
                push_text(out, "ublk request size ");
                push_decimal(out, *requested_bytes as u64);
                push_text(out, " is not a non-zero multiple of ");
                push_decimal(out, *alignment_bytes as u64);
                push_text(out, " bytes");
            },
            InvalidUblkSettings::RequestTooLarge { requested_bytes, maximum_bytes } => {
                push_text(out, "ublk request size ");
                push_decimal(out, *requested_bytes as u64);
                push_text(out, " exceeds the libublk maximum of ");
                push_decimal(out, *maximum_bytes as u64);
                push_text(out, " bytes");
            },
            InvalidUblkSettings::QueueMemoryOverflow => {
                push_text(out, "ublk queue buffer memory calculation overflowed");
            },
            InvalidUblkSettings::QueueMemoryLimit { required_bytes, limit_bytes } => {
                push_text(out, "ublk queues require ");
                push_decimal(out, *required_bytes);
                push_text(out, " buffer bytes, exceeding the caller limit of ");
                push_decimal(out, *limit_bytes);
                push_text(out, " bytes");
            },
            InvalidUblkSettings::HostPageSizeUnavailable => {
                push_text(out, "could not read a valid host page size");
            },
        }
        proof { assert(out@ =~= before + self.text()); }
    }

    /// Returns the text of the rejection.
    pub fn message(&self) -> (out: String)
        ensures
            out@ == self.text(),
    {
        let mut out = String::new();
        self.write_to(&mut out);
        proof { assert(out@ =~= self.text()); }
        out
    }
}

/// Rejects unsafe request-worker and queue limits.
#[derive(Clone, Copy, Debug, PartialEq, Eq, Structural)]
pub enum InvalidDriverLimits {
    /// The underlying ublk queue settings are invalid.
    Ublk(InvalidUblkSettings),

    /// A bounded worker must accept at least one waiting request.
    ZeroPendingRequests,

    /// One maximum-size request must fit in the copied-buffer limit.
    PendingBufferLimit {
        /// Largest request accepted from ublk.
        maximum_request_bytes: u32,

        /// Combined copied-buffer limit selected by the caller.
        buffer_limit_bytes: usize,
    },
}

impl InvalidDriverLimits {
    /// Text of the rejection.
    pub open spec fn text(self) -> Seq<char> {
        match self {
            InvalidDriverLimits::Ublk(error) => error.text(),
            InvalidDriverLimits::ZeroPendingRequests =>
                "driver pending request count must be greater than zero"@,
            InvalidDriverLimits::PendingBufferLimit {
                maximum_request_bytes,
                buffer_limit_bytes,
            } => "driver request size "@ + decimal_text(maximum_request_bytes as nat)
                + " exceeds the copied-buffer limit of "@ + decimal_text(buffer_limit_bytes as nat)
                + " bytes"@,
        }
    }

    /// Returns the text of the rejection.
    pub fn message(&self) -> (out: String)
        ensures
            out@ == self.text(),
    {
        let mut out = String::new();
        match self {
            InvalidDriverLimits::Ublk(error) => {
                error.write_to(&mut out);
            },
            InvalidDriverLimits::ZeroPendingRequests => {
                push_text(&mut out, "driver pending request count must be greater than zero");
            },
            InvalidDriverLimits::PendingBufferLimit {
                maximum_request_bytes,
                buffer_limit_bytes,
            } => {
                push_text(&mut out, "driver request size ");
                push_decimal(&mut out, *maximum_request_bytes as u64);
                push_text(&mut out, " exceeds the copied-buffer limit of ");
                push_decimal(&mut out, *buffer_limit_bytes as u64);
                push_text(&mut out, " bytes");
            },
        }
        proof { assert(out@ =~= self.text()); }
        out
    }
}

/// The operating system reported a page size that requests can be aligned to.
pub open spec fn is_page_size(reported: i64) -> bool {
    0 < reported <= u32::MAX
}

/// Returns the page-size alignment required by request buffers, given what the operating
/// system reported.
pub fn host_page_bytes(reported: i64) -> (out: Result<u32, InvalidUblkSettings>)
    ensures
        match out {
            Ok(bytes) => is_page_size(reported) && bytes == reported,
            Err(error) => !is_page_size(reported) && error
                == InvalidUblkSettings::HostPageSizeUnavailable,
        },
{
    if reported <= 0 || reported > u32::MAX as i64 {
        return Err(InvalidUblkSettings::HostPageSizeUnavailable);
    }
    Ok(reported as u32)
}

/// Memory that all queue request buffers take together.
pub open spec fn buffer_bytes(queues: UblkQueueSettings) -> int {
    queues.queue_count * queues.queue_depth * queues.max_request_bytes
}

/// First limit that the queue settings break.
pub open spec fn queue_error(
    queues: UblkQueueSettings,
    logical_sector_bytes: u32,
    reported_page_bytes: i64,
) -> Option<InvalidUblkSettings> {
    if queues.queue_count == 0 {
        Some(InvalidUblkSettings::ZeroQueueCount)
    } else if queues.queue_count > UBLK_MAX_QUEUE_COUNT {
        Some(
            InvalidUblkSettings::TooManyQueues {
                requested: queues.queue_count,
                maximum: UBLK_MAX_QUEUE_COUNT,
            },
        )
    } else if queues.queue_depth == 0 {
        Some(InvalidUblkSettings::ZeroQueueDepth)
    } else if queues.queue_depth > UBLK_MAX_QUEUE_DEPTH {
        Some(
            InvalidUblkSettings::QueueTooDeep {
                requested: queues.queue_depth,
                maximum: UBLK_MAX_QUEUE_DEPTH,
            },
        )
    } else if !is_page_size(reported_page_bytes) {
        Some(InvalidUblkSettings::HostPageSizeUnavailable)
    } else if queues.max_request_bytes == 0 || queues.max_request_bytes % logical_sector_bytes
        != 0 {
        Some(
            InvalidUblkSettings::InvalidRequestSize {
                requested_bytes: queues.max_request_bytes,
                alignment_bytes: logical_sector_bytes,
            },
        )
    } else if queues.max_request_bytes % (reported_page_bytes as u32) != 0 {
        Some(
            InvalidUblkSettings::InvalidRequestSize {
                requested_bytes: queues.max_request_bytes,
                alignment_bytes: reported_page_bytes as u32,
            },
        )
    } else if queues.max_request_bytes > LIBUBLK_MAX_REQUEST_BYTES {
        Some(
            InvalidUblkSettings::RequestTooLarge {
                requested_bytes: queues.max_request_bytes,
                maximum_bytes: LIBUBLK_MAX_REQUEST_BYTES,
            },
        )
    } else if buffer_bytes(queues) > queues.memory_limit_bytes {
        Some(
            InvalidUblkSettings::QueueMemoryLimit {
                required_bytes: buffer_bytes(queues) as u64,
                limit_bytes: queues.memory_limit_bytes,
            },
        )
    } else {
        None
    }
}

/// Within the kernel limits the buffer memory fits its accounting type.
proof fn lemma_buffer_bytes_fit(queues: UblkQueueSettings)
    requires
        queues.queue_count <= UBLK_MAX_QUEUE_COUNT,
        queues.queue_depth <= UBLK_MAX_QUEUE_DEPTH,
        queues.max_request_bytes <= LIBUBLK_MAX_REQUEST_BYTES,
    ensures
        0 <= queues.queue_count * queues.queue_depth <= u64::MAX,
        0 <= buffer_bytes(queues) <= u64::MAX,
{
    let count = queues.queue_count as int;
    let depth = queues.queue_depth as int;
    let size = queues.max_request_bytes as int;
    assert(0 <= count * depth <= 4096 * 4096) by (nonlinear_arith)
        requires
            0 <= count <= 4096,
            0 <= depth <= 4096,
    ;
    let slots = count * depth;
    assert(0 <= slots * size <= 4096 * 4096 * 33554432) by (nonlinear_arith)
        requires
            0 <= slots <= 4096 * 4096,
            0 <= size <= 33554432,
    ;
}

/// Checks queue shape, request alignment, and exact allocated memory.
fn check_queue_settings(
    queues: UblkQueueSettings,
    logical_sector_bytes: u32,
    reported_page_bytes: i64,
) -> (out: Result<u64, InvalidUblkSettings>)
    requires
        logical_sector_bytes > 0,
    ensures
        match out {
            Ok(bytes) => queue_error(queues, logical_sector_bytes, reported_page_bytes) is None
                && bytes == buffer_bytes(queues),
            Err(error) => queue_error(queues, logical_sector_bytes, reported_page_bytes) == Some(
                error,
            ),
        },
{
    if queues.queue_count == 0 {
        return Err(InvalidUblkSettings::ZeroQueueCount);
    }
    if queues.queue_count as u32 > UBLK_MAX_QUEUE_COUNT {
        return Err(
            InvalidUblkSettings::TooManyQueues {
                requested: queues.queue_count,
                maximum: UBLK_MAX_QUEUE_COUNT,
            },
        );
    }
    if queues.queue_depth == 0 {
        return Err(InvalidUblkSettings::ZeroQueueDepth);
    }
    if queues.queue_depth as u32 > UBLK_MAX_QUEUE_DEPTH {
        return Err(
            InvalidUblkSettings::QueueTooDeep {
                requested: queues.queue_depth,
                maximum: UBLK_MAX_QUEUE_DEPTH,
            },
        );
    }
    let page_bytes: u32 = match host_page_bytes(reported_page_bytes) {
        Ok(bytes) => bytes,
        Err(error) => {
            return Err(error);
        },
    };
    if queues.max_request_bytes == 0 || queues.max_request_bytes % logical_sector_bytes != 0 {
        return Err(
            InvalidUblkSettings::InvalidRequestSize {
                requested_bytes: queues.max_request_bytes,
                alignment_bytes: logical_sector_bytes,
            },
        );
    }
    if queues.max_request_bytes % page_bytes != 0 {
        return Err(
            InvalidUblkSettings::InvalidRequestSize {
                requested_bytes: queues.max_request_bytes,
                alignment_bytes: page_bytes,
            },
        );
    }
    if queues.max_request_bytes > LIBUBLK_MAX_REQUEST_BYTES {
        return Err(
            InvalidUblkSettings::RequestTooLarge {
                requested_bytes: queues.max_request_bytes,
                maximum_bytes: LIBUBLK_MAX_REQUEST_BYTES,
            },
        );
    }
    proof { lemma_buffer_bytes_fit(queues); }
    let slots: u64 = match (queues.queue_count as u64).checked_mul(queues.queue_depth as u64) {
        Some(slots) => slots,
        None => {
            return Err(InvalidUblkSettings::QueueMemoryOverflow);
        },
    };
    let queue_buffer_bytes: u64 = match slots.checked_mul(queues.max_request_bytes as u64) {
        Some(bytes) => bytes,
        None => {
            return Err(InvalidUblkSettings::QueueMemoryOverflow);
        },
    };
    if queue_buffer_bytes > queues.memory_limit_bytes {
        return Err(
            InvalidUblkSettings::QueueMemoryLimit {
                required_bytes: queue_buffer_bytes,
                limit_bytes: queues.memory_limit_bytes,
            },
        );
    }
    Ok(queue_buffer_bytes)
}

/// Checked queue and pending-request limits for one driver.
#[derive(Clone, Copy, Debug, PartialEq, Eq, Structural)]
pub struct DriverLimits {
    queues: UblkQueueSettings,
    max_pending_requests: usize,
    max_pending_buffer_bytes: usize,
}

/// First driver limit that the settings break.
pub open spec fn limits_error(
    settings: DriverLimitSettings,
    reported_page_bytes: i64,
) -> Option<InvalidDriverLimits> {
    if queue_error(settings.queues, REQUIRED_BLOCK_BYTES, reported_page_bytes) is Some {
        Some(
            InvalidDriverLimits::Ublk(
                queue_error(settings.queues, REQUIRED_BLOCK_BYTES, reported_page_bytes)->0,
            ),
        )
    } else if settings.max_pending_requests == 0 {
        Some(InvalidDriverLimits::ZeroPendingRequests)
    } else if settings.max_pending_buffer_bytes < settings.queues.max_request_bytes {
        Some(
            InvalidDriverLimits::PendingBufferLimit {
                maximum_request_bytes: settings.queues.max_request_bytes,
                buffer_limit_bytes: settings.max_pending_buffer_bytes,
            },
        )
    } else {
        None
    }
}

impl DriverLimits {
    /// The settings that were checked.
    pub closed spec fn settings(self) -> DriverLimitSettings {
        DriverLimitSettings {
            queues: self.queues,
            max_pending_requests: self.max_pending_requests,
            max_pending_buffer_bytes: self.max_pending_buffer_bytes,
        }
    }

    /// Checks every driver limit before a device or request worker starts.
    pub fn new(settings: DriverLimitSettings, reported_page_bytes: i64) -> (out: Result<
        Self,
        InvalidDriverLimits,
    >)
        ensures
            match out {
                Ok(limits) => limits_error(settings, reported_page_bytes) is None
                    && limits.settings() == settings,
                Err(error) => limits_error(settings, reported_page_bytes) == Some(error),
            },
    {
        let sector_bytes: u32 = VolumeBlockSizes::supported().logical_sector().bytes();
        if let Err(error) = check_queue_settings(
            settings.queues,
            sector_bytes,
            reported_page_bytes,
        ) {
            return Err(InvalidDriverLimits::Ublk(error));
        }
        if settings.max_pending_requests == 0 {
            return Err(InvalidDriverLimits::ZeroPendingRequests);
        }
        if settings.max_pending_buffer_bytes < settings.queues.max_request_bytes as usize {
            return Err(
                InvalidDriverLimits::PendingBufferLimit {
                    maximum_request_bytes: settings.queues.max_request_bytes,
                    buffer_limit_bytes: settings.max_pending_buffer_bytes,
                },
            );
        }
        Ok(
            DriverLimits {
                queues: settings.queues,
                max_pending_requests: settings.max_pending_requests,
                max_pending_buffer_bytes: settings.max_pending_buffer_bytes,
            },
        )
    }

    /// Builds the exact ublk settings for one checked volume descriptor.
    pub fn ublk_settings(self, descriptor: &VolumeDescriptor, reported_page_bytes: i64) -> (out:
        Result<UblkSettings, InvalidUblkSettings>)
        ensures
            match out {
                Ok(settings) => queue_error(
                    self.settings().queues,
                    REQUIRED_BLOCK_BYTES,
                    reported_page_bytes,
                ) is None && settings.is_of(*descriptor, self.settings().queues),
                Err(error) => queue_error(
                    self.settings().queues,
                    REQUIRED_BLOCK_BYTES,
                    reported_page_bytes,
                ) == Some(error),
            },
    {
        UblkSettings::new(descriptor, self.queues, reported_page_bytes)
    }

    /// Returns the selected ublk queue settings.
    #[must_use]
    pub fn queues(self) -> (out: UblkQueueSettings)
        ensures
            out == self.settings().queues,
    {
        self.queues
    }

    /// Returns the number of requests allowed to wait for or run on the worker.
    #[must_use]
    pub fn max_pending_requests(self) -> (out: usize)
        ensures
            out == self.settings().max_pending_requests,
    {
        self.max_pending_requests
    }

    /// Returns the combined copied-buffer limit.
    #[must_use]
    pub fn max_pending_buffer_bytes(self) -> (out: usize)
        ensures
            out == self.settings().max_pending_buffer_bytes,
    {
        self.max_pending_buffer_bytes
    }
}

/// Checked capacity, block sizes, and queue limits for one ublk device.
#[derive(Clone, Copy, Debug, PartialEq, Eq, Structural)]
pub struct UblkSettings {
    capacity_bytes: u64,
    logical_sector_bytes: u32,
    physical_block_bytes: u32,
    minimum_io_bytes: u32,
    queue_count: u16,
    queue_depth: u16,
    max_request_bytes: u32,
    queue_buffer_bytes: u64,
}

/// Values of checked ublk settings.
pub struct UblkSettingsView {
    pub capacity_bytes: u64,
    pub logical_sector_bytes: u32,
    pub physical_block_bytes: u32,
    pub minimum_io_bytes: u32,
    pub queue_count: u16,
    pub queue_depth: u16,
    pub max_request_bytes: u32,
    pub queue_buffer_bytes: u64,
}

impl View for UblkSettings {
    type V = UblkSettingsView;

    closed spec fn view(&self) -> UblkSettingsView {
        UblkSettingsView {
            capacity_bytes: self.capacity_bytes,
            logical_sector_bytes: self.logical_sector_bytes,
            physical_block_bytes: self.physical_block_bytes,
            minimum_io_bytes: self.minimum_io_bytes,
            queue_count: self.queue_count,
            queue_depth: self.queue_depth,
            max_request_bytes: self.max_request_bytes,
            queue_buffer_bytes: self.queue_buffer_bytes,
        }
    }
}

impl UblkSettings {
    #[verifier::type_invariant]
    spec fn is_checked(self) -> bool {
        &&& self.capacity_bytes > 0
        &&& self.logical_sector_bytes == REQUIRED_BLOCK_BYTES
        &&& self.physical_block_bytes == REQUIRED_BLOCK_BYTES
        &&& self.minimum_io_bytes == REQUIRED_BLOCK_BYTES
        &&& self.max_request_bytes <= LIBUBLK_MAX_REQUEST_BYTES
    }

    /// The settings are those of a descriptor with the given queues.
    pub open spec fn is_of(self, descriptor: VolumeDescriptor, queues: UblkQueueSettings) -> bool {
        self@ == (UblkSettingsView {
            capacity_bytes: descriptor.capacity_of().size(),
            logical_sector_bytes: REQUIRED_BLOCK_BYTES,
            physical_block_bytes: REQUIRED_BLOCK_BYTES,
            minimum_io_bytes: REQUIRED_BLOCK_BYTES,
            queue_count: queues.queue_count,
            queue_depth: queues.queue_depth,
            max_request_bytes: queues.max_request_bytes,
            queue_buffer_bytes: buffer_bytes(queues) as u64,
        })
    }

    /// Checks caller-selected settings against the descriptor and the kernel limits.
    pub fn new(
        descriptor: &VolumeDescriptor,
        queues: UblkQueueSettings,
        reported_page_bytes: i64,
    ) -> (out: Result<Self, InvalidUblkSettings>)
        ensures
            match out {
                Ok(settings) => queue_error(queues, REQUIRED_BLOCK_BYTES, reported_page_bytes)
                    is None && settings.is_of(*descriptor, queues) && settings@.queue_buffer_bytes
                    == buffer_bytes(queues),
                Err(error) => queue_error(queues, REQUIRED_BLOCK_BYTES, reported_page_bytes)
                    == Some(error),
            },
    {
        let logical_sector_bytes: u32 = descriptor.block_sizes().logical_sector().bytes();
        let queue_buffer_bytes: u64 = match check_queue_settings(
            queues,
            logical_sector_bytes,
            reported_page_bytes,
        ) {
            Ok(bytes) => bytes,
            Err(error) => {
                return Err(error);
            },
        };
        Ok(
            UblkSettings {
                capacity_bytes: descriptor.capacity().bytes(),
                logical_sector_bytes,
                physical_block_bytes: descriptor.block_sizes().physical_block().bytes(),
                minimum_io_bytes: descriptor.block_sizes().minimum_io().bytes(),
                queue_count: queues.queue_count,
                queue_depth: queues.queue_depth,
                max_request_bytes: queues.max_request_bytes,
                queue_buffer_bytes,
            },
        )
    }

    /// Returns the reported device capacity.
    #[must_use]
    pub fn capacity_bytes(self) -> (out: u64)
        ensures
            out == self@.capacity_bytes,
            out > 0,
    {
        proof { use_type_invariant(&self); }
        self.capacity_bytes
    }

    /// Returns the reported logical-sector size.
    #[must_use]
    pub fn logical_sector_bytes(self) -> (out: u32)
        ensures
            out == self@.logical_sector_bytes,
            out == REQUIRED_BLOCK_BYTES,
    {
        proof { use_type_invariant(&self); }
        self.logical_sector_bytes
    }

    /// Returns the reported physical-block size.
    #[must_use]
    pub fn physical_block_bytes(self) -> (out: u32)
        ensures
            out == self@.physical_block_bytes,
            out == REQUIRED_BLOCK_BYTES,
    {
        proof { use_type_invariant(&self); }
        self.physical_block_bytes
    }

    /// Returns the reported minimum-I/O size.
    #[must_use]
    pub fn minimum_io_bytes(self) -> (out: u32)
        ensures
            out == self@.minimum_io_bytes,
            out == REQUIRED_BLOCK_BYTES,
    {
        proof { use_type_invariant(&self); }
        self.minimum_io_bytes
    }

    /// Returns the number of kernel queues.
    #[must_use]
    pub fn queue_count(self) -> (out: u16)
        ensures
            out == self@.queue_count,
    {
        self.queue_count
    }

    /// Returns the request depth of each queue.
    #[must_use]
    pub fn queue_depth(self) -> (out: u16)
        ensures
            out == self@.queue_depth,
    {
        self.queue_depth
    }

    /// Returns the largest accepted kernel request.
    #[must_use]
    pub fn max_request_bytes(self) -> (out: u32)
        ensures
            out == self@.max_request_bytes,
            out <= LIBUBLK_MAX_REQUEST_BYTES,
    {
        proof { use_type_invariant(&self); }
        self.max_request_bytes
    }

    /// Returns the exact allocation required by all queue buffers.
    #[must_use]
    pub fn queue_buffer_bytes(self) -> (out: u64)
        ensures
            out == self@.queue_buffer_bytes,
    {
        self.queue_buffer_bytes
    }
}

} // verus!
