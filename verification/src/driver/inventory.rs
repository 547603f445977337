//! Kernel inventory of ublk devices and the decisions made on it.

use std::collections::BTreeMap;
use vstd::prelude::*;

use super::settings::{InvalidUblkSettings, UblkSettings, UblkSettingsView};
use super::ublk_types::{
    UblkDeviceCheck, UblkDeviceId, UblkDeviceInfo, UblkDeviceState, UblkFeatures, UblkOwnerId,
    REQUEST_REISSUE_FEATURE, USER_RECOVERY_FEATURE,
};
use crate::store::tables::{lists_keys, sorted_keys};
use crate::text::{chars_of, decimal_text, decimal_value, parse_decimal, push_decimal, push_text};

verus! {

broadcast use {vstd::std_specs::btree::group_btree_axioms, vstd::laws_cmp::group_laws_cmp};

/// Kernel number of a device without a running server.
pub const STATE_DEAD: u16 = 0;

/// Kernel number of a running device.
pub const STATE_LIVE: u16 = 1;

/// Kernel number of a device that waits for recovery.
pub const STATE_QUIESCED: u16 = 2;

/// Reports a ublk setup, control, recovery, or server failure.
#[derive(Clone, Debug, PartialEq, Eq)]
pub enum UblkError {
    /// Queue settings failed validation before any kernel call.
    InvalidSettings(InvalidUblkSettings),

    /// The kernel control device or a required kernel feature is unavailable.
    Unavailable {
        /// Short reason detected before device creation.
        reason: String,
    },

    /// One sysfs device name did not contain a valid ID.
    InvalidDeviceName {
        /// File name read from the ublk sysfs class.
        name: String,
    },

    /// A kernel device ID cannot be represented by the control library.
    DeviceIdOutOfRange {
        /// Kernel device ID that could not be converted.
        id: UblkDeviceId,
    },

    /// A saved device no longer exists in the running kernel.
    DeviceNotFound {
        /// Saved device expected by the caller.
        id: UblkDeviceId,
    },

    /// The existing device is live, dead, or otherwise not ready for recovery.
    DeviceNotRecoverable {
        /// Existing kernel device.
        id: UblkDeviceId,

        /// State reported by the kernel.
        state: UblkDeviceState,
    },

    /// Direct deletion was refused because the server must be stopped first.
    DeviceStillRunning {
        /// Device that must first be stopped through its owning handle.
        id: UblkDeviceId,
    },

    /// Saved settings do not match the immutable kernel device.
    RecoverySettingMismatch {
        /// Setting that differs.
        field: RecoverySetting,

        /// Value supplied by saved state.
        saved: u64,

        /// Value reported by the kernel.
        kernel: u64,
    },

    /// Device sectors exceeded the 64-bit byte range.
    CapacityOverflow,

    /// The kernel returned a block-size shift that cannot form a byte size.
    InvalidBlockSize {
        /// Block-size field returned by the kernel.
        field: ShiftField,

        /// Shift returned by the kernel.
        shift: u8,
    },
}

/// Setting that saved state and kernel must agree on before recovery.
#[derive(Clone, Copy, Debug, PartialEq, Eq, Structural)]
pub enum RecoverySetting {
    CapacityBytes,
    LogicalSectorBytes,
    PhysicalBlockBytes,
    MinimumIoBytes,
    QueueCount,
    QueueDepth,
    MaximumRequestBytes,
    ReissueRequests,
}

impl RecoverySetting {
    /// Name shown in errors.
    pub open spec fn text(self) -> Seq<char> {
        match self {
            RecoverySetting::CapacityBytes => "capacity bytes"@,
            RecoverySetting::LogicalSectorBytes => "logical sector bytes"@,
            RecoverySetting::PhysicalBlockBytes => "physical block bytes"@,
            RecoverySetting::MinimumIoBytes => "minimum I/O bytes"@,
            RecoverySetting::QueueCount => "queue count"@,
            RecoverySetting::QueueDepth => "queue depth"@,
            RecoverySetting::MaximumRequestBytes => "maximum request bytes"@,
            RecoverySetting::ReissueRequests => "reissue requests after recovery"@,
        }
    }

    /// Returns the name shown in errors.
    pub fn name(self) -> (out: &'static str)
        ensures
            out@ == self.text(),
    {
        match self {
            RecoverySetting::CapacityBytes => "capacity bytes",
            RecoverySetting::LogicalSectorBytes => "logical sector bytes",
            RecoverySetting::PhysicalBlockBytes => "physical block bytes",
            RecoverySetting::MinimumIoBytes => "minimum I/O bytes",
            RecoverySetting::QueueCount => "queue count",
            RecoverySetting::QueueDepth => "queue depth",
            RecoverySetting::MaximumRequestBytes => "maximum request bytes",
            RecoverySetting::ReissueRequests => "reissue requests after recovery",
        }
    }
}

/// Block-size field that the kernel reports as a power of two.
#[derive(Clone, Copy, Debug, PartialEq, Eq, Structural)]
pub enum ShiftField {
    LogicalSector,
    PhysicalBlock,
    MinimumIo,
}

impl ShiftField {
    /// Name shown in errors.
    pub open spec fn text(self) -> Seq<char> {
        match self {
            ShiftField::LogicalSector => "logical sector"@,
            ShiftField::PhysicalBlock => "physical block"@,
            ShiftField::MinimumIo => "minimum I/O"@,
        }
    }

    /// Returns the name shown in errors.
    pub fn name(self) -> (out: &'static str)
        ensures
            out@ == self.text(),
    {
        match self {
            ShiftField::LogicalSector => "logical sector",
            ShiftField::PhysicalBlock => "physical block",
            ShiftField::MinimumIo => "minimum I/O",
        }
    }
}

impl UblkDeviceState {
    /// Name of the state.
    pub open spec fn text(self) -> Seq<char> {
        match self {
            UblkDeviceState::Running => "Running"@,
            UblkDeviceState::NeedsRecovery => "NeedsRecovery"@,
            UblkDeviceState::Stopped => "Stopped"@,
            UblkDeviceState::Unknown(raw) => "Unknown("@ + decimal_text(raw as nat) + ")"@,
        }
    }
}

impl UblkError {
    /// Text of the failure.
    pub open spec fn text(self) -> Seq<char> {
        match self {
            UblkError::InvalidSettings(error) => error.text(),
            UblkError::Unavailable { reason } => "ublk is unavailable: "@ + reason@,
            UblkError::InvalidDeviceName { name } => "invalid ublk device name "@ + name@,
            UblkError::DeviceIdOutOfRange { id } => "ublk device ID "@ + decimal_text(
                id.value() as nat,
            ) + " exceeds the libublk ID range"@,
            UblkError::DeviceNotFound { id } => "ublk device "@ + decimal_text(id.value() as nat)
                + " does not exist"@,
            UblkError::DeviceNotRecoverable { id, state } => "ublk device "@ + decimal_text(
                id.value() as nat,
            ) + " is "@ + state.text() + ", not ready for recovery"@,
            UblkError::DeviceStillRunning { id } => "ublk device "@ + decimal_text(
                id.value() as nat,
            ) + " is still running"@,
            UblkError::RecoverySettingMismatch { field, saved, kernel } =>
                "ublk recovery setting "@ + field.text() + " is "@ + decimal_text(saved as nat)
                    + " in saved state but "@ + decimal_text(kernel as nat) + " in the kernel"@,
            UblkError::CapacityOverflow => "ublk device capacity exceeds 64-bit bytes"@,
            UblkError::InvalidBlockSize { field, shift } => "ublk returned invalid "@ + field.text()
                + " shift "@ + decimal_text(shift as nat),
        }
    }

    /// Returns the text of the failure.
    pub fn message(&self) -> (out: String)
        ensures
            out@ == self.text(),
    {
        let mut out = String::new();
        match self {
            UblkError::InvalidSettings(error) => {
                let text = error.message();
                push_text(&mut out, text.as_str());
            },
            UblkError::Unavailable { reason } => {
                push_text(&mut out, "ublk is unavailable: ");
                push_text(&mut out, reason.as_str());
            },
            UblkError::InvalidDeviceName { name } => {
                push_text(&mut out, "invalid ublk device name ");
                push_text(&mut out, name.as_str());
            },
            UblkError::DeviceIdOutOfRange { id } => {
                push_text(&mut out, "ublk device ID ");
                push_decimal(&mut out, id.get() as u64);
                push_text(&mut out, " exceeds the libublk ID range");
            },
            UblkError::DeviceNotFound { id } => {
                push_text(&mut out, "ublk device ");
                push_decimal(&mut out, id.get() as u64);
                push_text(&mut out, " does not exist");
            },
            UblkError::DeviceNotRecoverable { id, state } => {
                push_text(&mut out, "ublk device ");
                push_decimal(&mut out, id.get() as u64);
                push_text(&mut out, " is ");
                match state {
                    UblkDeviceState::Running => {
                        push_text(&mut out, "Running");
                    },
                    UblkDeviceState::NeedsRecovery => {
                        push_text(&mut out, "NeedsRecovery");
                    },
                    UblkDeviceState::Stopped => {
                        push_text(&mut out, "Stopped");
                    },
                    UblkDeviceState::Unknown(raw) => {
                        push_text(&mut out, "Unknown(");
                        push_decimal(&mut out, *raw as u64);
                        push_text(&mut out, ")");
                    },
                }
                push_text(&mut out, ", not ready for recovery");
            },
            UblkError::DeviceStillRunning { id } => {
                push_text(&mut out, "ublk device ");
                push_decimal(&mut out, id.get() as u64);
                push_text(&mut out, " is still running");
            },
            UblkError::RecoverySettingMismatch { field, saved, kernel } => {
                push_text(&mut out, "ublk recovery setting ");
                push_text(&mut out, field.name());
                push_text(&mut out, " is ");
                push_decimal(&mut out, *saved);
                push_text(&mut out, " in saved state but ");
                push_decimal(&mut out, *kernel);
                push_text(&mut out, " in the kernel");
            },
            UblkError::CapacityOverflow => {
                push_text(&mut out, "ublk device capacity exceeds 64-bit bytes");
            },
            UblkError::InvalidBlockSize { field, shift } => {
                push_text(&mut out, "ublk returned invalid ");
                push_text(&mut out, field.name());
                push_text(&mut out, " shift ");
                push_decimal(&mut out, *shift as u64);
            },
        }
        proof { assert(out@ =~= self.text()); }
        out
    }
}

/// The error says that the driver is unavailable for this reason.
pub open spec fn is_unavailable(error: UblkError, reason: Seq<char>) -> bool {
    error matches UblkError::Unavailable { reason: given } && given@ == reason
}

/// Returns the error of an unavailable driver.
fn unavailable(reason: &str) -> (out: UblkError)
    ensures
        is_unavailable(out, reason@),
{
    let mut text = String::new();
    push_text(&mut text, reason);
    proof { assert(text@ =~= reason@); }
    UblkError::Unavailable { reason: text }
}

/// Reads and controls the ublk devices of one node.
#[derive(Clone, Copy, Debug, PartialEq, Eq, Structural)]
pub struct UblkSystem {
    owner_id: UblkOwnerId,
}

/// What the kernel returned for one device.
#[derive(Clone, Debug, PartialEq, Eq)]
pub struct KernelDevice {
    /// Owner tag saved when the device was created.
    pub owner_flags: u64,

    /// Kernel number of the device state.
    pub state: u16,

    /// Process ID of the serving process.
    pub server_pid: i32,

    /// Path of the block device.
    pub block_path: String,

    /// Capacity in kernel sectors.
    pub dev_sectors: u64,

    /// Power of two of the logical sector size.
    pub logical_bs_shift: u8,

    /// Power of two of the physical block size.
    pub physical_bs_shift: u8,

    /// Power of two of the minimum I/O size.
    pub io_min_shift: u8,

    /// Number of queues.
    pub queue_count: u16,

    /// Depth of each queue.
    pub queue_depth: u16,

    /// Largest request.
    pub max_request_bytes: u32,

    /// Feature flags of the device.
    pub flags: u64,
}

/// State that a kernel number stands for.
pub open spec fn state_of(raw: u16) -> UblkDeviceState {
    if raw == STATE_LIVE {
        UblkDeviceState::Running
    } else if raw == STATE_QUIESCED {
        UblkDeviceState::NeedsRecovery
    } else if raw == STATE_DEAD {
        UblkDeviceState::Stopped
    } else {
        UblkDeviceState::Unknown(raw)
    }
}

/// Server process of a running device.
pub open spec fn server_of(raw: KernelDevice) -> Option<u32> {
    if state_of(raw.state) == UblkDeviceState::Running && raw.server_pid > 0 {
        Some(raw.server_pid as u32)
    } else {
        None
    }
}

/// Why the values of a device cannot be used.
pub open spec fn device_error(raw: KernelDevice) -> Option<UblkError> {
    if raw.dev_sectors * 512 > u64::MAX {
        Some(UblkError::CapacityOverflow)
    } else if raw.logical_bs_shift >= 32 {
        Some(
            UblkError::InvalidBlockSize {
                field: ShiftField::LogicalSector,
                shift: raw.logical_bs_shift,
            },
        )
    } else if raw.physical_bs_shift >= 32 {
        Some(
            UblkError::InvalidBlockSize {
                field: ShiftField::PhysicalBlock,
                shift: raw.physical_bs_shift,
            },
        )
    } else if raw.io_min_shift >= 32 {
        Some(
            UblkError::InvalidBlockSize { field: ShiftField::MinimumIo, shift: raw.io_min_shift },
        )
    } else {
        None
    }
}

/// The inventory value shows what the kernel returned.
pub open spec fn shows_device(info: UblkDeviceInfo, id: UblkDeviceId, raw: KernelDevice) -> bool {
    &&& info.id == id
    &&& info.state == state_of(raw.state)
    &&& info.server_pid == server_of(raw)
    &&& info.block_path@ == raw.block_path@
    &&& info.capacity_bytes == raw.dev_sectors * 512
    &&& info.logical_sector_bytes == 1u32 << raw.logical_bs_shift
    &&& info.physical_block_bytes == 1u32 << raw.physical_bs_shift
    &&& info.minimum_io_bytes == 1u32 << raw.io_min_shift
    &&& info.queue_count == raw.queue_count
    &&& info.queue_depth == raw.queue_depth
    &&& info.max_request_bytes == raw.max_request_bytes
    &&& info.reissues_requests_after_recovery == (raw.flags & REQUEST_REISSUE_FEATURE != 0)
}

/// Converts one kernel block-size shift to bytes without overflowing.
fn block_size(field: ShiftField, shift: u8) -> (out: Result<u32, UblkError>)
    ensures
        match out {
            Ok(bytes) => shift < 32 && bytes == 1u32 << shift,
            Err(error) => shift >= 32 && error == (UblkError::InvalidBlockSize { field, shift }),
        },
{
    if shift >= 32 {
        return Err(UblkError::InvalidBlockSize { field, shift });
    }
    Ok(1u32 << shift)
}

/// Reads the device number out of a directory entry of the kernel's device class.
///
/// Entries that are no device give none.
pub fn inventory_id(name: &str) -> (out: Result<Option<UblkDeviceId>, UblkError>)
    ensures
        ({
            let is_device = name@.len() >= 5 && name@.take(5) == "ublkc"@;
            let number = decimal_value(name@.skip(5));
            match out {
                Ok(None) => !is_device,
                Ok(Some(id)) => is_device && number == Some(id.value() as nat),
                Err(error) => is_device && (number is None || number->0 > u32::MAX) && (
                error matches UblkError::InvalidDeviceName { name: given } && given@ == name@),
            }
        }),
{
    proof { reveal_strlit("ublkc"); }
    let chars = chars_of(name);
    if chars.len() < 5 || chars[0] != 'u' || chars[1] != 'b' || chars[2] != 'l' || chars[3] != 'k'
        || chars[4] != 'c' {
        proof {
            if name@.len() >= 5 && name@.take(5) == "ublkc"@ {
                assert(name@.take(5)[0] == 'u' && name@.take(5)[1] == 'b' && name@.take(5)[2] == 'l'
                    && name@.take(5)[3] == 'k' && name@.take(5)[4] == 'c');
            }
        }
        return Ok(None);
    }
    proof { assert(name@.take(5) =~= "ublkc"@); }
    let digits = vstd::slice::slice_subrange(chars.as_slice(), 5, chars.len());
    proof { assert(digits@ =~= name@.skip(5)); }
    if let Some(number) = parse_decimal(digits) {
        if number <= u32::MAX as u64 {
            return Ok(Some(UblkDeviceId::new(number as u32)));
        }
    }
    let mut given = String::new();
    push_text(&mut given, name);
    proof { assert(given@ =~= name@); }
    Err(UblkError::InvalidDeviceName { name: given })
}

/// Returns the number under which the control library knows a device.
pub fn control_id(id: UblkDeviceId) -> (out: Result<i32, UblkError>)
    ensures
        match out {
            Ok(number) => number == id.value(),
            Err(error) => id.value() > i32::MAX && error == (UblkError::DeviceIdOutOfRange { id }),
        },
{
    if id.get() > i32::MAX as u32 {
        return Err(UblkError::DeviceIdOutOfRange { id });
    }
    Ok(id.get() as i32)
}

/// Devices by number, the later of two with the same number.
pub open spec fn by_number(devices: Seq<UblkDeviceInfo>) -> Map<u128, UblkDeviceInfo>
    decreases devices.len(),
{
    if devices.len() == 0 {
        Map::empty()
    } else {
        by_number(devices.drop_last()).insert(
            devices.last().id.value() as u128,
            devices.last(),
        )
    }
}

/// Numbers of saved devices.
pub open spec fn saved_numbers(expected: Seq<UblkDeviceId>) -> Set<u128> {
    Set::new(
        |number: u128|
            exists|i: int|
                #![trigger expected[i]]
                0 <= i < expected.len() && expected[i].value() == number,
    )
}

/// The devices of the listed numbers that exist, in order.
pub open spec fn present(
    numbers: Seq<u128>,
    devices: Map<u128, UblkDeviceInfo>,
) -> Seq<UblkDeviceInfo>
    decreases numbers.len(),
{
    if numbers.len() == 0 {
        Seq::empty()
    } else if devices.contains_key(numbers.last()) {
        present(numbers.drop_last(), devices).push(devices[numbers.last()])
    } else {
        present(numbers.drop_last(), devices)
    }
}

/// The listed numbers that no device has, in order.
pub open spec fn absent(numbers: Seq<u128>, devices: Map<u128, UblkDeviceInfo>) -> Seq<u128>
    decreases numbers.len(),
{
    if numbers.len() == 0 {
        Seq::empty()
    } else if devices.contains_key(numbers.last()) {
        absent(numbers.drop_last(), devices)
    } else {
        absent(numbers.drop_last(), devices).push(numbers.last())
    }
}

/// The comparison of saved numbers with existing devices, each list in numeric order.
pub open spec fn is_comparison(
    check: UblkDeviceCheck,
    expected: Seq<UblkDeviceId>,
    devices: Map<u128, UblkDeviceInfo>,
    saved: Seq<u128>,
    others: Seq<u128>,
) -> bool {
    &&& lists_keys(saved, saved_numbers(expected))
    &&& lists_keys(others, devices.dom().difference(saved_numbers(expected)))
    &&& check.found@ == present(saved, devices)
    &&& check.missing@.map_values(|id: UblkDeviceId| id.value() as u128) == absent(saved, devices)
    &&& check.unexpected@ == present(others, devices)
}

/// What removing a device takes.
#[derive(Clone, Copy, Debug, PartialEq, Eq, Structural)]
pub enum RemovalStep {
    /// The device is already gone or belongs to another owner.
    Nothing,

    /// Delete the device under this control number.
    Delete(i32),
}

/// First setting that saved state and kernel disagree on.
pub open spec fn recovery_mismatch(
    device: UblkDeviceInfo,
    settings: UblkSettingsView,
) -> Option<(RecoverySetting, u64, u64)> {
    if settings.capacity_bytes != device.capacity_bytes {
        Some((RecoverySetting::CapacityBytes, settings.capacity_bytes, device.capacity_bytes))
    } else if settings.logical_sector_bytes != device.logical_sector_bytes {
        Some(
            (
                RecoverySetting::LogicalSectorBytes,
                settings.logical_sector_bytes as u64,
                device.logical_sector_bytes as u64,
            ),
        )
    } else if settings.physical_block_bytes != device.physical_block_bytes {
        Some(
            (
                RecoverySetting::PhysicalBlockBytes,
                settings.physical_block_bytes as u64,
                device.physical_block_bytes as u64,
            ),
        )
    } else if settings.minimum_io_bytes != device.minimum_io_bytes {
        Some(
            (
                RecoverySetting::MinimumIoBytes,
                settings.minimum_io_bytes as u64,
                device.minimum_io_bytes as u64,
            ),
        )
    } else if settings.queue_count != device.queue_count {
        Some(
            (
                RecoverySetting::QueueCount,
                settings.queue_count as u64,
                device.queue_count as u64,
            ),
        )
    } else if settings.queue_depth != device.queue_depth {
        Some(
            (
                RecoverySetting::QueueDepth,
                settings.queue_depth as u64,
                device.queue_depth as u64,
            ),
        )
    } else if settings.max_request_bytes != device.max_request_bytes {
        Some(
            (
                RecoverySetting::MaximumRequestBytes,
                settings.max_request_bytes as u64,
                device.max_request_bytes as u64,
            ),
        )
    } else if !device.reissues_requests_after_recovery {
        Some((RecoverySetting::ReissueRequests, 1, 0))
    } else {
        None
    }
}

/// Rejects saved recovery settings that differ from the live kernel device.
#[verifier::loop_isolation(false)]
pub fn check_recovery_settings(device: &UblkDeviceInfo, settings: UblkSettings) -> (out: Result<
    (),
    UblkError,
>)
    ensures
        match out {
            Ok(()) => recovery_mismatch(*device, settings@) is None,
            Err(error) => recovery_mismatch(*device, settings@) matches Some((
                field,
                saved,
                kernel,
            )) && error == (UblkError::RecoverySettingMismatch { field, saved, kernel }),
        },
{
    let reissue: u64 = if device.reissues_requests_after_recovery { 1 } else { 0 };
    let values: [(RecoverySetting, u64, u64); 8] = [
        (RecoverySetting::CapacityBytes, settings.capacity_bytes(), device.capacity_bytes),
        (
            RecoverySetting::LogicalSectorBytes,
            settings.logical_sector_bytes() as u64,
            device.logical_sector_bytes as u64,
        ),
        (
            RecoverySetting::PhysicalBlockBytes,
            settings.physical_block_bytes() as u64,
            device.physical_block_bytes as u64,
        ),
        (
            RecoverySetting::MinimumIoBytes,
            settings.minimum_io_bytes() as u64,
            device.minimum_io_bytes as u64,
        ),
        (RecoverySetting::QueueCount, settings.queue_count() as u64, device.queue_count as u64),
        (RecoverySetting::QueueDepth, settings.queue_depth() as u64, device.queue_depth as u64),
        (
            RecoverySetting::MaximumRequestBytes,
            settings.max_request_bytes() as u64,
            device.max_request_bytes as u64,
        ),
        (RecoverySetting::ReissueRequests, 1, reissue),
    ];
    let ghost listed = values@;
    let mut i: usize = 0;
    while i < 8
        invariant
            i <= 8,
            listed == values@,
            listed.len() == 8,
            forall|k: int| #![trigger listed[k]] 0 <= k < i ==> listed[k].1 == listed[k].2,
        decreases 8 - i,
    {
        let (field, saved, kernel) = values[i];
        if saved != kernel {
            proof {
                assert(i == 0 || listed[0].1 == listed[0].2);
                assert(i <= 1 || listed[1].1 == listed[1].2);
                assert(i <= 2 || listed[2].1 == listed[2].2);
                assert(i <= 3 || listed[3].1 == listed[3].2);
                assert(i <= 4 || listed[4].1 == listed[4].2);
                assert(i <= 5 || listed[5].1 == listed[5].2);
                assert(i <= 6 || listed[6].1 == listed[6].2);
            }
            return Err(UblkError::RecoverySettingMismatch { field, saved, kernel });
        }
        i += 1;
    }
    proof {
        assert(listed[0].1 == listed[0].2 && listed[1].1 == listed[1].2 && listed[2].1
            == listed[2].2 && listed[3].1 == listed[3].2 && listed[4].1 == listed[4].2
            && listed[5].1 == listed[5].2 && listed[6].1 == listed[6].2 && listed[7].1
            == listed[7].2);
    }
    Ok(())
}

impl UblkSystem {
    /// Node whose devices the system controls.
    pub closed spec fn owner(self) -> UblkOwnerId {
        self.owner_id
    }

    /// Controls the devices owned by one node.
    #[must_use]
    pub fn system(owner_id: UblkOwnerId) -> (out: Self)
        ensures
            out.owner() == owner_id,
    {
        UblkSystem { owner_id }
    }

    /// Returns the node whose devices the system controls.
    #[must_use]
    pub fn owner_id(&self) -> (out: UblkOwnerId)
        ensures
            out == self.owner(),
    {
        self.owner_id
    }

    /// Returns the ublk features, given whether the control device exists and what the
    /// kernel answered to the feature query.
    pub fn features(&self, control_exists: bool, reported: Option<u64>) -> (out: Result<
        UblkFeatures,
        UblkError,
    >)
        ensures
            match out {
                Ok(features) => control_exists && reported == Some(features.bits()),
                Err(error) => if !control_exists {
                    is_unavailable(error, "/dev/ublk-control is missing"@)
                } else {
                    reported is None && is_unavailable(
                        error,
                        "the kernel rejected the feature query"@,
                    )
                },
            },
    {
        if !control_exists {
            return Err(unavailable("/dev/ublk-control is missing"));
        }
        match reported {
            Some(raw) => Ok(UblkFeatures::from_raw(raw)),
            None => Err(unavailable("the kernel rejected the feature query")),
        }
    }

    /// Requires recovery and reissue of requests interrupted by server death.
    pub fn require_features(&self, control_exists: bool, reported: Option<u64>) -> (out: Result<
        UblkFeatures,
        UblkError,
    >)
        ensures
            match out {
                Ok(features) => {
                    &&& control_exists
                    &&& reported == Some(features.bits())
                    &&& features.bits() & USER_RECOVERY_FEATURE != 0
                    &&& features.bits() & REQUEST_REISSUE_FEATURE != 0
                },
                Err(error) => if !control_exists {
                    is_unavailable(error, "/dev/ublk-control is missing"@)
                } else if reported is None {
                    is_unavailable(error, "the kernel rejected the feature query"@)
                } else if reported->0 & USER_RECOVERY_FEATURE == 0 {
                    is_unavailable(error, "the kernel does not support ublk user recovery"@)
                } else {
                    reported->0 & REQUEST_REISSUE_FEATURE == 0 && is_unavailable(
                        error,
                        "the kernel cannot reissue requests after ublk recovery"@,
                    )
                },
            },
    {
        let features = match self.features(control_exists, reported) {
            Ok(features) => features,
            Err(error) => {
                return Err(error);
            },
        };
        if !features.supports_user_recovery() {
            return Err(unavailable("the kernel does not support ublk user recovery"));
        }
        if !features.supports_request_reissue() {
            return Err(unavailable("the kernel cannot reissue requests after ublk recovery"));
        }
        Ok(features)
    }

    /// Returns the devices found in the kernel, in the order of their IDs.
    pub fn devices(&self, found: Vec<UblkDeviceInfo>) -> (out: Vec<UblkDeviceInfo>)
        ensures
            out@.to_multiset() == found@.to_multiset(),
            forall|i: int, j: int|
                #![trigger out@[i], out@[j]]
                0 <= i < j < out@.len() ==> out@[i].id.value() <= out@[j].id.value(),
    {
        let ghost all = found@;
        let mut out: Vec<UblkDeviceInfo> = Vec::new();
        proof { assert(out@ =~= all.take(0)); }
        for device in it: found
            invariant
                it.seq() == all,
                out@.to_multiset() == all.take(it.index() as int).to_multiset(),
                forall|i: int, j: int|
                    #![trigger out@[i], out@[j]]
                    0 <= i < j < out@.len() ==> out@[i].id.value() <= out@[j].id.value(),
        {
            let ghost n = it.index() as int;
            let ghost before = out@;
            let mut at: usize = out.len();
            while at > 0 && out[at - 1].id.get() > device.id.get()
                invariant
                    at <= out@.len(),
                    out@ == before,
                    forall|k: int|
                        #![trigger out@[k]]
                        at <= k < out@.len() ==> out@[k].id.value() > device.id.value(),
                decreases at,
            {
                at -= 1;
            }
            proof {
                vstd::seq_lib::to_multiset_insert(before, at as int, device);
                vstd::seq_lib::to_multiset_build(all.take(n), device);
                assert(all.take(n + 1) =~= all.take(n).push(device));
            }
            out.insert(at, device);
            proof {
                assert forall|i: int, j: int|
                    #![trigger out@[i], out@[j]]
                    0 <= i < j < out@.len() implies out@[i].id.value() <= out@[j].id.value() by {
                    let x = if i < at { i } else { i - 1 };
                    let y = if j < at { j } else { j - 1 };
                    if i != at {
                        assert(out@[i] == before[x]);
                    }
                    if j != at {
                        assert(out@[j] == before[y]);
                    }
                    if j == at && at > 0 {
                        assert(before[x].id.value() <= before[at - 1].id.value());
                    }
                }
            }
        }
        proof { assert(all.take(all.len() as int) =~= all); }
        out
    }

    /// Returns one device of this owner from what the kernel returned, or `None` if it is
    /// absent or belongs elsewhere.
    pub fn device(&self, id: UblkDeviceId, found: Option<KernelDevice>) -> (out: Result<
        Option<UblkDeviceInfo>,
        UblkError,
    >)
        ensures
            match out {
                Ok(None) => found is None || found->0.owner_flags != self.owner().value(),
                Ok(Some(info)) => {
                    &&& found is Some
                    &&& found->0.owner_flags == self.owner().value()
                    &&& device_error(found->0) is None
                    &&& shows_device(info, id, found->0)
                },
                Err(error) => {
                    &&& found is Some
                    &&& found->0.owner_flags == self.owner().value()
                    &&& device_error(found->0) == Some(error)
                },
            },
    {
        let raw = match found {
            Some(raw) => raw,
            None => {
                return Ok(None);
            },
        };
        if raw.owner_flags != self.owner_id.get() {
            return Ok(None);
        }
        let capacity_bytes: u64 = match raw.dev_sectors.checked_mul(512) {
            Some(bytes) => bytes,
            None => {
                return Err(UblkError::CapacityOverflow);
            },
        };
        let state = if raw.state == STATE_LIVE {
            UblkDeviceState::Running
        } else if raw.state == STATE_QUIESCED {
            UblkDeviceState::NeedsRecovery
        } else if raw.state == STATE_DEAD {
            UblkDeviceState::Stopped
        } else {
            UblkDeviceState::Unknown(raw.state)
        };
        let server_pid: Option<u32> = if state == UblkDeviceState::Running && raw.server_pid > 0 {
            Some(raw.server_pid as u32)
        } else {
            None
        };
        let logical_sector_bytes: u32 = match block_size(
            ShiftField::LogicalSector,
            raw.logical_bs_shift,
        ) {
            Ok(bytes) => bytes,
            Err(error) => {
                return Err(error);
            },
        };
        let physical_block_bytes: u32 = match block_size(
            ShiftField::PhysicalBlock,
            raw.physical_bs_shift,
        ) {
            Ok(bytes) => bytes,
            Err(error) => {
                return Err(error);
            },
        };
        let minimum_io_bytes: u32 = match block_size(ShiftField::MinimumIo, raw.io_min_shift) {
            Ok(bytes) => bytes,
            Err(error) => {
                return Err(error);
            },
        };
        Ok(
            Some(
                UblkDeviceInfo {
                    id,
                    state,
                    server_pid,
                    block_path: raw.block_path,
                    capacity_bytes,
                    logical_sector_bytes,
                    physical_block_bytes,
                    minimum_io_bytes,
                    queue_count: raw.queue_count,
                    queue_depth: raw.queue_depth,
                    max_request_bytes: raw.max_request_bytes,
                    reissues_requests_after_recovery: raw.flags & REQUEST_REISSUE_FEATURE != 0,
                },
            ),
        )
    }

    /// Decides how one non-running device is removed if it still exists.
    pub fn remove(&self, id: UblkDeviceId, device: Option<&UblkDeviceInfo>) -> (out: Result<
        RemovalStep,
        UblkError,
    >)
        ensures
            match out {
                Ok(RemovalStep::Nothing) => device is None,
                Ok(RemovalStep::Delete(number)) => device is Some && device->0.state
                    != UblkDeviceState::Running && number == id.value(),
                Err(error) => device is Some && if device->0.state == UblkDeviceState::Running {
                    error == (UblkError::DeviceStillRunning { id })
                } else {
                    id.value() > i32::MAX && error == (UblkError::DeviceIdOutOfRange { id })
                },
            },
    {
        let device = match device {
            Some(device) => device,
            None => {
                return Ok(RemovalStep::Nothing);
            },
        };
        if device.state == UblkDeviceState::Running {
            return Err(UblkError::DeviceStillRunning { id });
        }
        match control_id(id) {
            Ok(number) => Ok(RemovalStep::Delete(number)),
            Err(error) => Err(error),
        }
    }

    /// Decides whether a device left after process death may be recovered with the saved
    /// settings, and under which control number.
    pub fn admit_recovery(
        &self,
        id: UblkDeviceId,
        existing: Option<&UblkDeviceInfo>,
        settings: UblkSettings,
    ) -> (out: Result<i32, UblkError>)
        ensures
            match out {
                Ok(number) => {
                    &&& existing is Some
                    &&& existing->0.state == UblkDeviceState::NeedsRecovery
                    &&& recovery_mismatch(*existing->0, settings@) is None
                    &&& number == id.value()
                },
                Err(error) => if existing is None {
                    error == (UblkError::DeviceNotFound { id })
                } else if existing->0.state != UblkDeviceState::NeedsRecovery {
                    error == (UblkError::DeviceNotRecoverable { id, state: existing->0.state })
                } else if recovery_mismatch(*existing->0, settings@) is Some {
                    let (field, saved, kernel) = recovery_mismatch(*existing->0, settings@)->0;
                    error == (UblkError::RecoverySettingMismatch { field, saved, kernel })
                } else {
                    id.value() > i32::MAX && error == (UblkError::DeviceIdOutOfRange { id })
                },
            },
    {
        let existing = match existing {
            Some(existing) => existing,
            None => {
                return Err(UblkError::DeviceNotFound { id });
            },
        };
        if existing.state != UblkDeviceState::NeedsRecovery {
            return Err(UblkError::DeviceNotRecoverable { id, state: existing.state });
        }
        if let Err(error) = check_recovery_settings(existing, settings) {
            return Err(error);
        }
        control_id(id)
    }

    /// Compares saved IDs with the current kernel devices of this owner.
    pub fn check_devices(&self, expected: &[UblkDeviceId], devices: Vec<UblkDeviceInfo>) -> (out:
        UblkDeviceCheck)
        ensures
            exists|saved: Seq<u128>, others: Seq<u128>| #[trigger]
                is_comparison(out, expected@, by_number(devices@), saved, others),
    {
        let ghost all = by_number(devices@);
        let ghost listed = devices@;
        proof { crate::store::tables::lemma_key_order(); }
        let mut actual: BTreeMap<u128, UblkDeviceInfo> = BTreeMap::new();
        for device in it: devices
            invariant
                it.seq() == listed,
                actual@ == by_number(listed.take(it.index() as int)),
        {
            proof {
                crate::store::tables::lemma_key_order();
                let n = it.index() as int;
                assert(listed.take(n + 1).drop_last() =~= listed.take(n));
            }
            actual.insert(device.id.get() as u128, device);
        }
        proof { assert(listed.take(listed.len() as int) =~= listed); }
        let mut wanted: BTreeMap<u128, ()> = BTreeMap::new();
        let mut i: usize = 0;
        while i < expected.len()
            invariant
                i <= expected@.len(),
                forall|number: u128| #[trigger]
                    wanted@.contains_key(number) <==> exists|k: int|
                        #![trigger expected@[k]]
                        0 <= k < i && expected@[k].value() == number,
            decreases expected@.len() - i,
        {
            proof { crate::store::tables::lemma_key_order(); }
            let ghost before = wanted@;
            let number: u128 = expected[i].get() as u128;
            wanted.insert(number, ());
            proof {
                assert forall|n: u128| #[trigger] wanted@.contains_key(n) <==> exists|k: int|
                    #![trigger expected@[k]]
                    0 <= k < i + 1 && expected@[k].value() == n by {
                    assert(before.contains_key(n) <==> exists|k: int|
                        #![trigger expected@[k]]
                        0 <= k < i && expected@[k].value() == n);
                    if n == number {
                        assert(expected@[i as int].value() == n);
                    }
                    if before.contains_key(n) {
                        let k = choose|k: int|
                            #![trigger expected@[k]]
                            0 <= k < i && expected@[k].value() == n;
                        assert(expected@[k].value() == n);
                    }
                }
            }
            i += 1;
        }
        let saved = sorted_keys(&wanted);
        let mut check = UblkDeviceCheck::default();
        let ghost show = |id: UblkDeviceId| id.value() as u128;
        let ghost all_saved = saved@;
        proof {
            assert(wanted@.dom() =~= saved_numbers(expected@));
            assert(check.missing@.map_values(show) =~= Seq::<u128>::empty());
            assert(actual@ =~= all.remove_keys(saved@.take(0).to_set()));
        }
        i = 0;
        while i < saved.len()
            invariant
                i <= saved.len(),
                saved@ == all_saved,
                lists_keys(saved@, saved_numbers(expected@)),
                show == |id: UblkDeviceId| id.value() as u128,
                actual@ == all.remove_keys(saved@.take(i as int).to_set()),
                check.found@ == present(saved@.take(i as int), all),
                check.missing@.map_values(show) == absent(saved@.take(i as int), all),
                check.unexpected@.len() == 0,
            decreases saved.len() - i,
        {
            let number: u128 = saved[i];
            proof {
                crate::store::tables::lemma_key_order();
                assert(saved@.take(i + 1).drop_last() =~= saved@.take(i as int));
                assert(saved@.take(i + 1).last() == number);
                assert(saved_numbers(expected@).contains(saved@[i as int]));
                assert(number <= u32::MAX) by {
                    let k = choose|k: int|
                        #![trigger expected@[k]]
                        0 <= k < expected@.len() && expected@[k].value() == number;
                    assert(expected@[k].value() == number);
                }
                assert(!saved@.take(i as int).to_set().contains(number)) by {
                    if saved@.take(i as int).contains(number) {
                        let k = saved@.take(i as int).index_of(number);
                        assert(saved@[k] < saved@[i as int]);
                    }
                }
                assert(saved@.take(i + 1).to_set() =~= saved@.take(i as int).to_set().insert(
                    number,
                )) by {
                    assert(saved@.take(i + 1) =~= saved@.take(i as int).push(number));
                    crate::store::mst_store::lemma_push_contains(saved@.take(i as int), number);
                }
            }
            let ghost missing = check.missing@;
            let ghost before = actual@;
            match actual.remove(&number) {
                Some(device) => {
                    check.found.push(device);
                },
                None => {
                    check.missing.push(UblkDeviceId::new(number as u32));
                    proof {
                        assert(check.missing@.map_values(show) =~= missing.map_values(show).push(
                            number,
                        ));
                    }
                },
            }
            proof {
                assert(actual@ =~= before.remove(number));
                assert(before.remove(number) =~= all.remove_keys(saved@.take(i + 1).to_set()));
            }
            i += 1;
        }
        let others = sorted_keys(&actual);
        let ghost left = actual@;
        proof {
            assert(saved@.take(saved@.len() as int) =~= saved@);
            assert(left.dom() =~= all.dom().difference(saved_numbers(expected@))) by {
                assert forall|n: u128| #[trigger] left.dom().contains(n) <==> all.dom().difference(
                    saved_numbers(expected@),
                ).contains(n) by {
                    assert(saved@.to_set().contains(n) == saved@.contains(n));
                    if saved@.contains(n) {
                        let k = saved@.index_of(n);
                        assert(saved_numbers(expected@).contains(saved@[k]));
                    }
                }
            }
        }
        i = 0;
        while i < others.len()
            invariant
                i <= others.len(),
                lists_keys(others@, left.dom()),
                forall|n: u128| #[trigger]
                    left.contains_key(n) ==> all.contains_key(n) && left[n] == all[n],
                forall|k: int|
                    #![trigger others@[k]]
                    i <= k < others@.len() ==> actual@.contains_key(others@[k])
                        && actual@[others@[k]] == all[others@[k]],
                check.found@ == present(saved@, all),
                check.missing@.map_values(show) == absent(saved@, all),
                check.unexpected@ == present(others@.take(i as int), all),
            decreases others.len() - i,
        {
            let number: u128 = others[i];
            proof {
                crate::store::tables::lemma_key_order();
                assert(others@.take(i + 1).drop_last() =~= others@.take(i as int));
                assert(others@.take(i + 1).last() == number);
                assert(left.dom().contains(others@[i as int]));
            }
            let ghost before = actual@;
            if let Some(device) = actual.remove(&number) {
                check.unexpected.push(device);
            }
            proof {
                assert forall|k: int|
                    #![trigger others@[k]]
                    i + 1 <= k < others@.len() implies actual@.contains_key(others@[k])
                    && actual@[others@[k]] == all[others@[k]] by {
                    assert(others@[i as int] < others@[k]);
                }
            }
            i += 1;
        }
        proof {
            assert(others@.take(others@.len() as int) =~= others@);
            assert(is_comparison(check, expected@, all, saved@, others@));
        }
        check
    }
}

} // verus!
