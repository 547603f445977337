//! Platform-neutral identities and inventory values for ublk devices.

use vstd::prelude::*;

use crate::bytes::{be_value, read_be};

verus! {

/// Kernel feature bit: a device survives the death of its server.
pub const USER_RECOVERY_FEATURE: u64 = 8;

/// Kernel feature bit: interrupted requests are sent to the new server.
pub const REQUEST_REISSUE_FEATURE: u64 = 16;

/// Key that BLAKE3's key derivation gives for a context and some key material.
pub uninterp spec fn derived_key(context: Seq<char>, material: Seq<u8>) -> Seq<u8>;

/// Calls `blake3::derive_key`: the thirty-two bytes depend on nothing but the context
/// string and the key material.
#[verifier::external_body]
fn derive_key(context: &str, material: &[u8]) -> (out: [u8; 32])
    ensures
        out@ == derived_key(context@, material@),
{
    blake3::derive_key(context, material)
}

/// Stable identifier of the node that owns one kernel device.
#[derive(Clone, Copy, Debug, PartialEq, Eq, PartialOrd, Ord, Structural)]
pub struct UblkOwnerId(u64);

impl UblkOwnerId {
    /// Tag saved by the kernel.
    pub closed spec fn value(self) -> u64 {
        self.0
    }

    /// Derives one compact kernel tag from a stable node identity.
    #[must_use]
    pub fn for_node(node_id: &[u8]) -> (out: Self)
        ensures
            out.value() == be_value(derived_key("mantissa ublk owner v1"@, node_id@).take(8)),
    {
        let hash = derive_key("mantissa ublk owner v1", node_id);
        Self::from_hash(&hash)
    }

    /// Takes the tag from the first eight bytes of a derived key.
    #[must_use]
    pub fn from_hash(hash: &[u8; 32]) -> (out: Self)
        ensures
            out.value() == be_value(hash@.take(8)),
    {
        let head: [u8; 8] = [
            hash[0], hash[1], hash[2], hash[3], hash[4], hash[5], hash[6], hash[7],
        ];
        proof {
            assert(head@ =~= hash@.take(8));
            crate::bytes::lemma_byte_ranges();
            crate::bytes::law_be_bytes_of_value(head@);
        }
        UblkOwnerId(read_be(&head) as u64)
    }

    /// Creates an explicit owner for low-level driver tests.
    #[must_use]
    pub fn new(value: u64) -> (out: Self)
        ensures
            out.value() == value,
    {
        UblkOwnerId(value)
    }

    /// Returns the immutable tag saved by the kernel.
    #[must_use]
    pub fn get(self) -> (out: u64)
        ensures
            out == self.value(),
    {
        self.0
    }
}

/// Stable kernel ID of one ublk device until deletion or reboot.
#[derive(Clone, Copy, Debug, PartialEq, Eq, PartialOrd, Ord, Structural)]
pub struct UblkDeviceId(u32);

impl UblkDeviceId {
    /// ID with the given number.
    pub closed spec fn made(value: u32) -> Self {
        UblkDeviceId(value)
    }

    /// An ID is its number.
    pub proof fn lemma_made(value: u32, other: Self)
        ensures
            Self::made(value).value() == value,
            Self::made(other.value()) == other,
    {
    }

    /// Raw kernel ID.
    pub closed spec fn value(self) -> u32 {
        self.0
    }

    /// Creates an ID read from saved local inventory.
    #[must_use]
    pub fn new(value: u32) -> (out: Self)
        ensures
            out.value() == value,
    {
        UblkDeviceId(value)
    }

    /// Returns the raw kernel ID.
    #[must_use]
    pub fn get(self) -> (out: u32)
        ensures
            out == self.value(),
    {
        self.0
    }

    /// Two IDs with the same number are the same.
    pub proof fn lemma_value(a: Self, b: Self)
        ensures
            a.value() == b.value() <==> a == b,
    {
    }
}

/// Current state of one ublk device in the running kernel.
#[derive(Clone, Copy, Debug, PartialEq, Eq, Structural)]
pub enum UblkDeviceState {
    /// The server and queues are running.
    Running,

    /// The old server died and the device is waiting for recovery.
    NeedsRecovery,

    /// The kernel has stopped the device before removing it.
    Stopped,

    /// A newer kernel returned a state this version does not understand.
    Unknown(u16),
}

/// Kernel values needed to check or recover one ublk device.
#[derive(Clone, Debug, PartialEq, Eq)]
pub struct UblkDeviceInfo {
    pub id: UblkDeviceId,
    pub state: UblkDeviceState,
    pub server_pid: Option<u32>,
    pub block_path: String,
    pub capacity_bytes: u64,
    pub logical_sector_bytes: u32,
    pub physical_block_bytes: u32,
    pub minimum_io_bytes: u32,
    pub queue_count: u16,
    pub queue_depth: u16,
    pub max_request_bytes: u32,
    pub reissues_requests_after_recovery: bool,
}

impl UblkDeviceInfo {
    /// Returns the kernel device ID.
    #[must_use]
    pub fn id(&self) -> (out: UblkDeviceId)
        ensures
            out == self.id,
    {
        self.id
    }

    /// Returns the current kernel device state.
    #[must_use]
    pub fn state(&self) -> (out: UblkDeviceState)
        ensures
            out == self.state,
    {
        self.state
    }

    /// Returns the live server process ID when the device is running.
    #[must_use]
    pub fn server_pid(&self) -> (out: Option<u32>)
        ensures
            out == self.server_pid,
    {
        self.server_pid
    }

    /// Returns the kernel block-device path.
    #[must_use]
    pub fn block_path(&self) -> (out: &str)
        ensures
            out@ == self.block_path@,
    {
        self.block_path.as_str()
    }

    /// Returns the capacity reported by the kernel.
    #[must_use]
    pub fn capacity_bytes(&self) -> (out: u64)
        ensures
            out == self.capacity_bytes,
    {
        self.capacity_bytes
    }

    /// Returns the logical-sector size reported by the kernel.
    #[must_use]
    pub fn logical_sector_bytes(&self) -> (out: u32)
        ensures
            out == self.logical_sector_bytes,
    {
        self.logical_sector_bytes
    }

    /// Returns the physical-block size reported by the kernel.
    #[must_use]
    pub fn physical_block_bytes(&self) -> (out: u32)
        ensures
            out == self.physical_block_bytes,
    {
        self.physical_block_bytes
    }

    /// Returns the minimum-I/O size reported by the kernel.
    #[must_use]
    pub fn minimum_io_bytes(&self) -> (out: u32)
        ensures
            out == self.minimum_io_bytes,
    {
        self.minimum_io_bytes
    }

    /// Returns the number of kernel queues.
    #[must_use]
    pub fn queue_count(&self) -> (out: u16)
        ensures
            out == self.queue_count,
    {
        self.queue_count
    }

    /// Returns the request depth of each queue.
    #[must_use]
    pub fn queue_depth(&self) -> (out: u16)
        ensures
            out == self.queue_depth,
    {
        self.queue_depth
    }

    /// Returns the largest request size reported by the kernel.
    #[must_use]
    pub fn max_request_bytes(&self) -> (out: u32)
        ensures
            out == self.max_request_bytes,
    {
        self.max_request_bytes
    }

    /// Returns whether interrupted requests are sent to a recovered server.
    #[must_use]
    pub fn reissues_requests_after_recovery(&self) -> (out: bool)
        ensures
            out == self.reissues_requests_after_recovery,
    {
        self.reissues_requests_after_recovery
    }
}

/// Comparison between saved local IDs and the running kernel.
#[derive(Clone, Debug, PartialEq, Eq)]
pub struct UblkDeviceCheck {
    pub found: Vec<UblkDeviceInfo>,
    pub missing: Vec<UblkDeviceId>,
    pub unexpected: Vec<UblkDeviceInfo>,
}

impl Default for UblkDeviceCheck {
    /// Returns a comparison of nothing.
    fn default() -> (out: Self)
        ensures
            out.found@.len() == 0,
            out.missing@.len() == 0,
            out.unexpected@.len() == 0,
    {
        UblkDeviceCheck { found: Vec::new(), missing: Vec::new(), unexpected: Vec::new() }
    }
}

impl UblkDeviceCheck {
    /// Returns saved devices that still exist in the kernel.
    #[must_use]
    pub fn found(&self) -> (out: &[UblkDeviceInfo])
        ensures
            out@ == self.found@,
    {
        self.found.as_slice()
    }

    /// Returns saved devices lost after deletion or reboot.
    #[must_use]
    pub fn missing(&self) -> (out: &[UblkDeviceId])
        ensures
            out@ == self.missing@,
    {
        self.missing.as_slice()
    }

    /// Returns devices that have no saved local record.
    #[must_use]
    pub fn unexpected(&self) -> (out: &[UblkDeviceInfo])
        ensures
            out@ == self.unexpected@,
    {
        self.unexpected.as_slice()
    }
}

/// Kernel features needed by the ublk driver.
#[derive(Clone, Copy, Debug, PartialEq, Eq, Structural)]
pub struct UblkFeatures {
    raw: u64,
}

impl UblkFeatures {
    /// Feature bits reported by the running kernel.
    pub closed spec fn bits(self) -> u64 {
        self.raw
    }

    /// Creates the portable representation of what the kernel reported.
    #[must_use]
    pub fn from_raw(raw: u64) -> (out: Self)
        ensures
            out.bits() == raw,
    {
        UblkFeatures { raw }
    }

    /// Returns the feature bits reported by the running kernel.
    #[must_use]
    pub fn raw(self) -> (out: u64)
        ensures
            out == self.bits(),
    {
        self.raw
    }

    /// Returns whether a device can survive and recover after server death.
    #[must_use]
    pub fn supports_user_recovery(self) -> (out: bool)
        ensures
            out == (self.bits() & USER_RECOVERY_FEATURE != 0),
    {
        self.raw & USER_RECOVERY_FEATURE != 0
    }

    /// Returns whether interrupted requests can be sent to the new server.
    #[must_use]
    pub fn supports_request_reissue(self) -> (out: bool)
        ensures
            out == (self.bits() & REQUEST_REISSUE_FEATURE != 0),
    {
        self.raw & REQUEST_REISSUE_FEATURE != 0
    }
}

} // verus!
