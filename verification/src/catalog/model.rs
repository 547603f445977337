//! Records of the node-local catalog.

use vstd::prelude::*;

use super::mounts::{components, same_path};
use super::paths::{join, joined};
use super::voters::VoterSet;
use crate::bytes::{copy_bytes, same_bytes};
use crate::driver::settings::{
    queue_error, InvalidUblkSettings, UblkQueueSettings, UblkSettings,
};
use crate::driver::ublk_types::UblkDeviceId;
use crate::text::{decimal_text, push_decimal, push_text};
use crate::volume::block_sizes::REQUIRED_BLOCK_BYTES;
use crate::volume::descriptor::{capacity_error, VolumeCapacity, VolumeDescriptor};
use crate::volume::identity::{
    DriverSessionId, FenceEpoch, FilesystemId, OperationId, ReplacementId, VolumeGeneration,
    VolumeId,
};

verus! {

/// Local catalog key for one volume generation.
#[derive(Clone, Copy, Debug, PartialEq, Eq, PartialOrd, Ord, Hash, Structural)]
pub struct ReplicaKey {
    volume_id: VolumeId,
    generation: VolumeGeneration,
}

impl ReplicaKey {
    /// Stable volume ID.
    pub closed spec fn volume(self) -> VolumeId {
        self.volume_id
    }

    /// Destructive-rebuild generation.
    pub closed spec fn generation_of(self) -> VolumeGeneration {
        self.generation
    }

    /// Key of one descriptor.
    pub closed spec fn key_of(descriptor: VolumeDescriptor) -> Self {
        ReplicaKey { volume_id: descriptor.id(), generation: descriptor.generation_of() }
    }

    /// A key is its volume and its generation.
    pub proof fn lemma_parts(a: Self, b: Self)
        ensures
            a == b <==> a.volume() == b.volume() && a.generation_of() == b.generation_of(),
    {
    }

    /// The key of a descriptor names its volume and its generation.
    pub proof fn lemma_key_of(descriptor: VolumeDescriptor)
        ensures
            Self::key_of(descriptor).volume() == descriptor.id(),
            Self::key_of(descriptor).generation_of() == descriptor.generation_of(),
    {
    }

    /// Creates the key stored for one descriptor.
    #[must_use]
    pub fn new(volume_id: VolumeId, generation: VolumeGeneration) -> (out: Self)
        ensures
            out.volume() == volume_id,
            out.generation_of() == generation,
    {
        ReplicaKey { volume_id, generation }
    }

    /// Builds the local key from a checked descriptor.
    #[must_use]
    pub fn from_descriptor(descriptor: &VolumeDescriptor) -> (out: Self)
        ensures
            out == Self::key_of(*descriptor),
            out.volume() == descriptor.id(),
            out.generation_of() == descriptor.generation_of(),
    {
        ReplicaKey { volume_id: descriptor.volume_id(), generation: descriptor.generation() }
    }

    /// Returns the stable volume ID.
    #[must_use]
    pub fn volume_id(self) -> (out: VolumeId)
        ensures
            out == self.volume(),
    {
        self.volume_id
    }

    /// Returns the destructive-rebuild generation.
    #[must_use]
    pub fn generation(self) -> (out: VolumeGeneration)
        ensures
            out == self.generation_of(),
    {
        self.generation
    }
}

/// State of one local replica directory.
#[derive(Clone, Copy, Debug, PartialEq, Eq, Structural)]
pub enum ReplicaState {
    /// Space is held while the first local files are created.
    Preparing,

    /// The local files are complete and may be opened.
    Ready,

    /// The local files are being removed.
    Deleting,

    /// Current control state removed this node and its files are being released.
    Retiring,

    /// The local files are fenced but kept for an operator.
    Retained,
}

/// The node-local file lifecycle lets one state follow another.
pub open spec fn may_follow(current: ReplicaState, requested: ReplicaState) -> bool {
    ||| current == requested
    ||| current == ReplicaState::Preparing && requested != ReplicaState::Retained
    ||| current == ReplicaState::Ready && requested != ReplicaState::Preparing
    ||| current == ReplicaState::Retained && requested != ReplicaState::Preparing
}

impl ReplicaState {
    /// Plain name of the state.
    pub open spec fn text(self) -> Seq<char> {
        match self {
            ReplicaState::Preparing => "preparing"@,
            ReplicaState::Ready => "ready"@,
            ReplicaState::Deleting => "deleting"@,
            ReplicaState::Retiring => "retiring"@,
            ReplicaState::Retained => "retained"@,
        }
    }

    /// Returns the plain state name used in catalog errors.
    pub fn name(self) -> (out: &'static str)
        ensures
            out@ == self.text(),
    {
        match self {
            ReplicaState::Preparing => "preparing",
            ReplicaState::Ready => "ready",
            ReplicaState::Deleting => "deleting",
            ReplicaState::Retiring => "retiring",
            ReplicaState::Retained => "retained",
        }
    }

    /// Checks the small node-local file lifecycle.
    pub fn can_change_to(self, requested: Self) -> (out: bool)
        ensures
            out == may_follow(self, requested),
    {
        self == requested || match (self, requested) {
            (ReplicaState::Preparing, ReplicaState::Ready) => true,
            (ReplicaState::Preparing, ReplicaState::Deleting) => true,
            (ReplicaState::Preparing, ReplicaState::Retiring) => true,
            (ReplicaState::Ready, ReplicaState::Deleting) => true,
            (ReplicaState::Ready, ReplicaState::Retiring) => true,
            (ReplicaState::Ready, ReplicaState::Retained) => true,
            (ReplicaState::Retained, ReplicaState::Ready) => true,
            (ReplicaState::Retained, ReplicaState::Deleting) => true,
            (ReplicaState::Retained, ReplicaState::Retiring) => true,
            _ => false,
        }
    }
}

/// Durable safety health of one local replica file.
#[derive(Clone, Copy, Debug, PartialEq, Eq, Structural)]
pub enum ReplicaHealth {
    /// The checked local file may serve when local admission also permits it.
    Healthy,

    /// Validation or uncertain I/O requires recovery before serving again.
    NeedsRecovery,
}

impl Default for ReplicaHealth {
    /// Returns the health of a fresh file.
    fn default() -> (out: Self)
        ensures
            out == ReplicaHealth::Healthy,
    {
        ReplicaHealth::Healthy
    }
}

/// Data and metadata space held for one replica.
#[derive(Clone, Copy, Debug, PartialEq, Eq, Structural)]
pub struct ReservedSpace {
    data_bytes: u64,
    metadata_bytes: u64,
}

impl ReservedSpace {
    /// Space promised to logical data.
    pub closed spec fn data(self) -> u64 {
        self.data_bytes
    }

    /// Space promised to replica metadata.
    pub closed spec fn metadata(self) -> u64 {
        self.metadata_bytes
    }

    /// Reserved space is its two parts.
    pub proof fn lemma_parts(a: Self, b: Self)
        ensures
            a == b <==> a.data() == b.data() && a.metadata() == b.metadata(),
    {
    }

    /// Records space read from the local catalog.
    pub fn new(data_bytes: u64, metadata_bytes: u64) -> (out: Self)
        ensures
            out.data() == data_bytes,
            out.metadata() == metadata_bytes,
    {
        ReservedSpace { data_bytes, metadata_bytes }
    }

    /// Returns space promised to logical data.
    #[must_use]
    pub fn data_bytes(self) -> (out: u64)
        ensures
            out == self.data(),
    {
        self.data_bytes
    }

    /// Returns space promised to replica metadata.
    #[must_use]
    pub fn metadata_bytes(self) -> (out: u64)
        ensures
            out == self.metadata(),
    {
        self.metadata_bytes
    }
}

/// Explains why local provisioning provenance cannot support reconciliation.
#[derive(Clone, Copy, Debug, PartialEq, Eq, Structural)]
pub enum InvalidLocalReplicaOrigin {
    /// Replacement needs two or three voters.
    InvalidVoterCount {
        /// Number of unique voter UUIDs supplied.
        actual: usize,
    },

    /// Node identities must never use the nil UUID.
    ZeroVoter,
}

impl InvalidLocalReplicaOrigin {
    /// Text of the rejection.
    pub open spec fn text(self) -> Seq<char> {
        match self {
            InvalidLocalReplicaOrigin::InvalidVoterCount { actual } =>
                "local replica origin has an invalid voter count "@ + decimal_text(actual as nat),
            InvalidLocalReplicaOrigin::ZeroVoter =>
                "local replica origin contains a zero voter UUID"@,
        }
    }

    /// Returns the text of the rejection.
    pub fn message(&self) -> (out: String)
        ensures
            out@ == self.text(),
    {
        let mut out = String::new();
        match self {
            InvalidLocalReplicaOrigin::InvalidVoterCount { actual } => {
                push_text(&mut out, "local replica origin has an invalid voter count ");
                push_decimal(&mut out, *actual as u64);
            },
            InvalidLocalReplicaOrigin::ZeroVoter => {
                push_text(&mut out, "local replica origin contains a zero voter UUID");
            },
        }
        proof { assert(out@ =~= self.text()); }
        out
    }
}

/// Why a voter route cannot become durable local provenance.
pub open spec fn voters_error(voters: Set<u128>) -> Option<InvalidLocalReplicaOrigin> {
    if !(2 <= voters.len() <= 3) {
        Some(InvalidLocalReplicaOrigin::InvalidVoterCount { actual: voters.len() as usize })
    } else if voters.contains(0) {
        Some(InvalidLocalReplicaOrigin::ZeroVoter)
    } else {
        None
    }
}

/// Checks one bounded voter route before it becomes durable local provenance.
fn validate_origin_voters(voters: &VoterSet) -> (out: Result<(), InvalidLocalReplicaOrigin>)
    ensures
        match out {
            Ok(()) => voters_error(voters@) is None,
            Err(error) => voters_error(voters@) == Some(error),
        },
{
    let count: usize = voters.len();
    if count < 2 || count > 3 {
        return Err(InvalidLocalReplicaOrigin::InvalidVoterCount { actual: count });
    }
    if voters.contains(&0) {
        return Err(InvalidLocalReplicaOrigin::ZeroVoter);
    }
    Ok(())
}

/// Durable reason this node created one local data copy.
#[derive(Debug, PartialEq, Eq)]
pub enum LocalReplicaOrigin {
    /// One immutable initial plan available from desired state.
    Bootstrap(OperationId),

    /// One committed replacement and voters able to confirm whether it remains current.
    Replacement { id: ReplacementId, voter_node_ids: VoterSet },
}

/// Model of the reason for a local data copy.
pub enum OriginView {
    Bootstrap(OperationId),
    Replacement { id: ReplacementId, voter_node_ids: Set<u128> },
}

impl View for LocalReplicaOrigin {
    type V = OriginView;

    open spec fn view(&self) -> OriginView {
        match self {
            LocalReplicaOrigin::Bootstrap(id) => OriginView::Bootstrap(*id),
            LocalReplicaOrigin::Replacement { id, voter_node_ids } => OriginView::Replacement {
                id: *id,
                voter_node_ids: voter_node_ids@,
            },
        }
    }
}

impl Clone for LocalReplicaOrigin {
    fn clone(&self) -> (out: Self)
        ensures
            out@ == self@,
    {
        match self {
            LocalReplicaOrigin::Bootstrap(id) => LocalReplicaOrigin::Bootstrap(*id),
            LocalReplicaOrigin::Replacement { id, voter_node_ids } => {
                LocalReplicaOrigin::Replacement {
                    id: *id,
                    voter_node_ids: voter_node_ids.clone(),
                }
            },
        }
    }
}

impl LocalReplicaOrigin {
    /// Creates one replacement origin with the safe voters that granted provisioning.
    pub fn replacement(id: ReplacementId, voter_node_ids: VoterSet) -> (out: Result<
        Self,
        InvalidLocalReplicaOrigin,
    >)
        ensures
            match out {
                Ok(origin) => voters_error(voter_node_ids@) is None && origin@ == (
                OriginView::Replacement { id, voter_node_ids: voter_node_ids@ }),
                Err(error) => voters_error(voter_node_ids@) == Some(error),
            },
    {
        if let Err(error) = validate_origin_voters(&voter_node_ids) {
            return Err(error);
        }
        Ok(LocalReplicaOrigin::Replacement { id, voter_node_ids })
    }

    /// Returns voters that can route a replacement obsolescence check.
    #[must_use]
    pub fn voter_node_ids(&self) -> (out: Option<&VoterSet>)
        ensures
            match out {
                Some(voters) => self@ matches OriginView::Replacement { id: _, voter_node_ids }
                    && voters@ == voter_node_ids,
                None => self@ is Bootstrap,
            },
    {
        match self {
            LocalReplicaOrigin::Bootstrap(_) => None,
            LocalReplicaOrigin::Replacement { id: _, voter_node_ids } => Some(voter_node_ids),
        }
    }

    /// Returns the replacement identity when this row was created by repair.
    #[must_use]
    pub fn replacement_id(&self) -> (out: Option<ReplacementId>)
        ensures
            match out {
                Some(given) => self@ matches OriginView::Replacement { id, voter_node_ids: _ }
                    && given == id,
                None => self@ is Bootstrap,
            },
    {
        match self {
            LocalReplicaOrigin::Bootstrap(_) => None,
            LocalReplicaOrigin::Replacement { id, voter_node_ids: _ } => Some(*id),
        }
    }

    /// Returns whether both reasons are the same.
    pub fn same(&self, other: &Self) -> (out: bool)
        ensures
            out == (self@ == other@),
    {
        match (self, other) {
            (LocalReplicaOrigin::Bootstrap(a), LocalReplicaOrigin::Bootstrap(b)) => *a == *b,
            (
                LocalReplicaOrigin::Replacement { id: a, voter_node_ids: x },
                LocalReplicaOrigin::Replacement { id: b, voter_node_ids: y },
            ) => *a == *b && x.same(y),
            _ => false,
        }
    }
}

/// ublk device and attachment identity saved for one local replica.
#[derive(Clone, Copy, Debug, PartialEq, Eq, Structural)]
pub struct SavedUblkDevice {
    id: UblkDeviceId,
    capacity: VolumeCapacity,
    fence: FenceEpoch,
    session_id: DriverSessionId,
    queue_count: u16,
    queue_depth: u16,
    max_request_bytes: u32,
}

impl SavedUblkDevice {
    /// Device with the given parts.
    pub closed spec fn made(
        id: UblkDeviceId,
        capacity: VolumeCapacity,
        fence: FenceEpoch,
        session_id: DriverSessionId,
        queue_count: u16,
        queue_depth: u16,
        max_request_bytes: u32,
    ) -> Self {
        SavedUblkDevice {
            id,
            capacity,
            fence,
            session_id,
            queue_count,
            queue_depth,
            max_request_bytes,
        }
    }

    /// Kernel ublk device number.
    pub closed spec fn id_of(self) -> UblkDeviceId {
        self.id
    }

    /// Logical capacity fixed when the device started.
    pub closed spec fn capacity_of(self) -> VolumeCapacity {
        self.capacity
    }

    /// Committed attachment number that the device serves.
    pub closed spec fn fence_of(self) -> FenceEpoch {
        self.fence
    }

    /// Driver session that the device serves.
    pub closed spec fn session_of(self) -> DriverSessionId {
        self.session_id
    }

    /// Number of hardware queues.
    pub closed spec fn queue_count_of(self) -> u16 {
        self.queue_count
    }

    /// Requests that one queue holds.
    pub closed spec fn queue_depth_of(self) -> u16 {
        self.queue_depth
    }

    /// Largest data buffer of one request.
    pub closed spec fn max_request_of(self) -> u32 {
        self.max_request_bytes
    }

    /// The device with another fence.
    pub closed spec fn fenced(self, fence: FenceEpoch) -> Self {
        SavedUblkDevice { fence, ..self }
    }

    /// A device is its parts.
    pub broadcast proof fn lemma_made(
        id: UblkDeviceId,
        capacity: VolumeCapacity,
        fence: FenceEpoch,
        session_id: DriverSessionId,
        queue_count: u16,
        queue_depth: u16,
        max_request_bytes: u32,
    )
        ensures
            ({
                let device = #[trigger] Self::made(
                    id,
                    capacity,
                    fence,
                    session_id,
                    queue_count,
                    queue_depth,
                    max_request_bytes,
                );
                &&& device.id_of() == id
                &&& device.capacity_of() == capacity
                &&& device.fence_of() == fence
                &&& device.session_of() == session_id
                &&& device.queue_count_of() == queue_count
                &&& device.queue_depth_of() == queue_depth
                &&& device.max_request_of() == max_request_bytes
            }),
    {
    }

    /// A device is made of its parts.
    pub proof fn lemma_parts(device: Self)
        ensures
            Self::made(
                device.id_of(),
                device.capacity_of(),
                device.fence_of(),
                device.session_of(),
                device.queue_count_of(),
                device.queue_depth_of(),
                device.max_request_of(),
            ) == device,
    {
    }

    /// Another fence changes nothing else.
    pub broadcast proof fn lemma_fenced(device: Self, fence: FenceEpoch)
        ensures
            ({
                let moved = #[trigger] device.fenced(fence);
                &&& moved.id_of() == device.id_of()
                &&& moved.capacity_of() == device.capacity_of()
                &&& moved.fence_of() == fence
                &&& moved.session_of() == device.session_of()
                &&& moved.queue_count_of() == device.queue_count_of()
                &&& moved.queue_depth_of() == device.queue_depth_of()
                &&& moved.max_request_of() == device.max_request_of()
            }),
    {
    }

    /// Going back to the former fence gives back the device.
    pub proof fn lemma_fenced_back(device: Self, fence: FenceEpoch)
        ensures
            device.fenced(fence).fenced(device.fence_of()) == device,
    {
    }

    /// Queue settings that recreate the device, with exactly the memory that they take.
    pub open spec fn queues(self) -> UblkQueueSettings {
        UblkQueueSettings {
            queue_count: self.queue_count_of(),
            queue_depth: self.queue_depth_of(),
            max_request_bytes: self.max_request_of(),
            memory_limit_bytes: (self.queue_count_of() * self.queue_depth_of()
                * self.max_request_of()) as u64,
        }
    }

    /// Creates one local record from a running device and its checked settings.
    #[must_use]
    pub fn new(
        id: UblkDeviceId,
        fence: FenceEpoch,
        session_id: DriverSessionId,
        settings: UblkSettings,
    ) -> (out: Self)
        ensures
            out.id_of() == id,
            out.capacity_of().size() == settings@.capacity_bytes,
            out.fence_of() == fence,
            out.session_of() == session_id,
            out.queue_count_of() == settings@.queue_count,
            out.queue_depth_of() == settings@.queue_depth,
            out.max_request_of() == settings@.max_request_bytes,
    {
        SavedUblkDevice {
            id,
            capacity: VolumeCapacity::from_validated(settings.capacity_bytes()),
            fence,
            session_id,
            queue_count: settings.queue_count(),
            queue_depth: settings.queue_depth(),
            max_request_bytes: settings.max_request_bytes(),
        }
    }

    /// Restores a record from its stored parts; `settings` checks whether it can be recreated.
    pub(crate) fn from_stored_parts(
        id: UblkDeviceId,
        capacity: VolumeCapacity,
        fence: FenceEpoch,
        session_id: DriverSessionId,
        queue_count: u16,
        queue_depth: u16,
        max_request_bytes: u32,
    ) -> (out: Self)
        ensures
            out == Self::made(
                id,
                capacity,
                fence,
                session_id,
                queue_count,
                queue_depth,
                max_request_bytes,
            ),
    {
        SavedUblkDevice {
            id,
            capacity,
            fence,
            session_id,
            queue_count,
            queue_depth,
            max_request_bytes,
        }
    }

    /// Returns the kernel ublk device number.
    #[must_use]
    pub fn id(self) -> (out: UblkDeviceId)
        ensures
            out == self.id_of(),
    {
        self.id
    }

    /// Returns the logical capacity fixed when this ublk device started.
    #[must_use]
    pub fn capacity(self) -> (out: VolumeCapacity)
        ensures
            out == self.capacity_of(),
    {
        self.capacity
    }

    /// Returns the committed attachment number served by the device.
    #[must_use]
    pub fn fence(self) -> (out: FenceEpoch)
        ensures
            out == self.fence_of(),
    {
        self.fence
    }

    /// Returns the driver session served by the device.
    #[must_use]
    pub fn session_id(self) -> (out: DriverSessionId)
        ensures
            out == self.session_of(),
    {
        self.session_id
    }

    /// Returns the number of hardware queues.
    pub(crate) fn queue_count(self) -> (out: u16)
        ensures
            out == self.queue_count_of(),
    {
        self.queue_count
    }

    /// Returns the number of requests that one queue holds.
    pub(crate) fn queue_depth(self) -> (out: u16)
        ensures
            out == self.queue_depth_of(),
    {
        self.queue_depth
    }

    /// Returns the largest data buffer of one request.
    pub(crate) fn max_request_bytes(self) -> (out: u32)
        ensures
            out == self.max_request_of(),
    {
        self.max_request_bytes
    }

    /// Returns the same kernel device serving a later fence for this session.
    pub fn with_fence(self, fence: FenceEpoch) -> (out: Self)
        ensures
            out == self.fenced(fence),
    {
        SavedUblkDevice { fence, ..self }
    }

    /// Rebuilds and checks the immutable ublk settings needed for recovery.
    pub fn settings(self, descriptor: &VolumeDescriptor, reported_page_bytes: i64) -> (out: Result<
        UblkSettings,
        InvalidUblkSettings,
    >)
        ensures
            match out {
                Ok(settings) => {
                    &&& capacity_error(self.capacity_of().size()) is None
                    &&& queue_error(
                        self.queues(),
                        REQUIRED_BLOCK_BYTES,
                        reported_page_bytes,
                    ) is None
                    &&& settings.is_of(descriptor.resized(self.capacity_of()), self.queues())
                },
                Err(error) => if capacity_error(self.capacity_of().size()) is Some {
                    error == InvalidUblkSettings::InvalidCapacity
                } else {
                    queue_error(self.queues(), REQUIRED_BLOCK_BYTES, reported_page_bytes) == Some(
                        error,
                    )
                },
            },
    {
        proof {
            let count = self.queue_count as int;
            let depth = self.queue_depth as int;
            let size = self.max_request_bytes as int;
            assert(0 <= count * depth <= 65535 * 65535) by (nonlinear_arith)
                requires
                    0 <= count <= 65535,
                    0 <= depth <= 65535,
            ;
            let slots = count * depth;
            assert(0 <= slots * size <= 65535 * 65535 * 4294967295) by (nonlinear_arith)
                requires
                    0 <= slots <= 65535 * 65535,
                    0 <= size <= 4294967295,
            ;
        }
        let slots: u64 = match (self.queue_count as u64).checked_mul(self.queue_depth as u64) {
            Some(slots) => slots,
            None => {
                return Err(InvalidUblkSettings::QueueMemoryOverflow);
            },
        };
        let memory_limit_bytes: u64 = match slots.checked_mul(self.max_request_bytes as u64) {
            Some(bytes) => bytes,
            None => {
                return Err(InvalidUblkSettings::QueueMemoryOverflow);
            },
        };
        let device_descriptor = match descriptor.with_capacity(self.capacity) {
            Ok(device_descriptor) => device_descriptor,
            Err(_) => {
                return Err(InvalidUblkSettings::InvalidCapacity);
            },
        };
        UblkSettings::new(
            &device_descriptor,
            UblkQueueSettings {
                queue_count: self.queue_count,
                queue_depth: self.queue_depth,
                max_request_bytes: self.max_request_bytes,
                memory_limit_bytes,
            },
            reported_page_bytes,
        )
    }
}

/// Filesystem that a replicated volume carries.
#[derive(Clone, Copy, Debug, PartialEq, Eq, Structural)]
pub enum ReplicatedVolumeFilesystem {
    /// The ext4 filesystem.
    Ext4,

    /// The XFS filesystem.
    Xfs,
}

/// Last saved step for one local filesystem mount.
#[derive(Clone, Copy, Debug, PartialEq, Eq, Structural)]
pub enum SavedMountState {
    /// The mount is required but may not yet exist in the kernel.
    Mounting,

    /// The mount was found and its ownership was applied.
    Mounted,

    /// The mount must be removed before its mapped device and ublk device.
    Unmounting,
}

/// Place of a mount step in its order.
pub open spec fn mount_step(state: SavedMountState) -> int {
    match state {
        SavedMountState::Mounting => 0,
        SavedMountState::Mounted => 1,
        SavedMountState::Unmounting => 2,
    }
}

/// Explains why one saved mount cannot be trusted after a restart.
#[derive(Clone, Copy, Debug, PartialEq, Eq, Structural)]
pub enum InvalidSavedVolumeMount {
    /// Mount paths must be exact absolute Linux paths.
    PathNotAbsolute,

    /// Only Unix permission bits may be stored.
    InvalidMode {
        /// Invalid mode read from the catalog.
        actual: u32,
    },

    /// Completed mount steps must not move back to earlier work.
    StateMovedBackwards,

    /// A successful filesystem expansion receipt is monotonic.
    FilesystemCapacityMovedBackwards,
}

/// Octal digits of a number.
pub open spec fn octal_text(n: nat) -> Seq<char>
    decreases n,
{
    if n < 8 {
        seq![crate::text::decimal_digit(n)]
    } else {
        octal_text(n / 8).push(crate::text::decimal_digit(n % 8))
    }
}

/// Appends the octal digits of a number.
fn push_octal(out: &mut String, n: u32)
    ensures
        final(out)@ == old(out)@ + octal_text(n as nat),
    decreases n,
{
    if n >= 8 {
        push_octal(out, n / 8);
    }
    push_decimal(out, (n % 8) as u64);
    proof {
        assert(decimal_text((n % 8) as nat) =~= seq![crate::text::decimal_digit((n % 8) as nat)]);
        assert(out@ =~= old(out)@ + octal_text(n as nat));
    }
}

impl InvalidSavedVolumeMount {
    /// Text of the rejection.
    pub open spec fn text(self) -> Seq<char> {
        match self {
            InvalidSavedVolumeMount::PathNotAbsolute =>
                "saved volume mount path must be absolute"@,
            InvalidSavedVolumeMount::InvalidMode { actual } => "saved volume mount mode 0o"@
                + octal_text(actual as nat) + " contains unsupported bits"@,
            InvalidSavedVolumeMount::StateMovedBackwards =>
                "saved volume mount state cannot move backwards"@,
            InvalidSavedVolumeMount::FilesystemCapacityMovedBackwards =>
                "saved filesystem expansion capacity cannot move backwards"@,
        }
    }

    /// Returns the text of the rejection.
    pub fn message(&self) -> (out: String)
        ensures
            out@ == self.text(),
    {
        let mut out = String::new();
        match self {
            InvalidSavedVolumeMount::PathNotAbsolute => {
                push_text(&mut out, "saved volume mount path must be absolute");
            },
            InvalidSavedVolumeMount::InvalidMode { actual } => {
                push_text(&mut out, "saved volume mount mode 0o");
                push_octal(&mut out, *actual);
                push_text(&mut out, " contains unsupported bits");
            },
            InvalidSavedVolumeMount::StateMovedBackwards => {
                push_text(&mut out, "saved volume mount state cannot move backwards");
            },
            InvalidSavedVolumeMount::FilesystemCapacityMovedBackwards => {
                push_text(
                    &mut out,
                    "saved filesystem expansion capacity cannot move backwards",
                );
            },
        }
        proof { assert(out@ =~= self.text()); }
        out
    }
}

/// One filesystem mount saved so it can be restored or removed after a restart.
#[derive(Debug)]
pub struct SavedVolumeMount {
    state: SavedMountState,
    fence: FenceEpoch,
    session_id: DriverSessionId,
    path: Vec<u8>,
    owner_uid: u32,
    owner_gid: u32,
    mode: u32,
    filesystem_expanded_to_bytes: u64,
    filesystem: ReplicatedVolumeFilesystem,
}

/// Model of a saved mount.
#[verifier::ext_equal]
pub struct MountView {
    pub state: SavedMountState,
    pub fence: FenceEpoch,
    pub session_id: DriverSessionId,
    pub path: Seq<u8>,
    pub owner_uid: u32,
    pub owner_gid: u32,
    pub mode: u32,
    pub filesystem_expanded_to_bytes: u64,
    pub filesystem: ReplicatedVolumeFilesystem,
}

impl View for SavedVolumeMount {
    type V = MountView;

    closed spec fn view(&self) -> MountView {
        MountView {
            state: self.state,
            fence: self.fence,
            session_id: self.session_id,
            path: self.path@,
            owner_uid: self.owner_uid,
            owner_gid: self.owner_gid,
            mode: self.mode,
            filesystem_expanded_to_bytes: self.filesystem_expanded_to_bytes,
            filesystem: self.filesystem,
        }
    }
}

impl Clone for SavedVolumeMount {
    fn clone(&self) -> (out: Self)
        ensures
            out@ == self@,
    {
        SavedVolumeMount {
            state: self.state,
            fence: self.fence,
            session_id: self.session_id,
            path: copy_bytes(&self.path),
            owner_uid: self.owner_uid,
            owner_gid: self.owner_gid,
            mode: self.mode,
            filesystem_expanded_to_bytes: self.filesystem_expanded_to_bytes,
            filesystem: self.filesystem,
        }
    }
}

/// Why a mount path and mode cannot be saved.
pub open spec fn mount_error(path: Seq<u8>, mode: u32) -> Option<InvalidSavedVolumeMount> {
    if path.len() == 0 || path[0] != 47 {
        Some(InvalidSavedVolumeMount::PathNotAbsolute)
    } else if mode > 0o7777 {
        Some(InvalidSavedVolumeMount::InvalidMode { actual: mode })
    } else {
        None
    }
}

/// Both are the same mount: every part is equal, and the paths have the same components.
pub open spec fn same_mount(a: MountView, b: MountView) -> bool {
    components(a.path) == components(b.path) && a == (MountView { path: a.path, ..b })
}

/// A replacement of a saved mount changes only monotonic mount progress.
pub open spec fn mount_advances(saved: MountView, next: MountView) -> bool {
    &&& mount_step(saved.state) <= mount_step(next.state)
    &&& saved.filesystem_expanded_to_bytes <= next.filesystem_expanded_to_bytes
    &&& same_mount(
        next,
        MountView {
            state: next.state,
            filesystem_expanded_to_bytes: next.filesystem_expanded_to_bytes,
            ..saved
        },
    )
}

impl SavedVolumeMount {
    /// Creates the first saved step before the mount system call runs.
    pub fn mounting(
        fence: FenceEpoch,
        session_id: DriverSessionId,
        path: Vec<u8>,
        owner_uid: u32,
        owner_gid: u32,
        mode: u32,
        filesystem: ReplicatedVolumeFilesystem,
    ) -> (out: Result<Self, InvalidSavedVolumeMount>)
        ensures
            match out {
                Ok(mount) => mount_error(path@, mode) is None && mount@ == (MountView {
                    state: SavedMountState::Mounting,
                    fence,
                    session_id,
                    path: path@,
                    owner_uid,
                    owner_gid,
                    mode,
                    filesystem_expanded_to_bytes: 0,
                    filesystem,
                }),
                Err(error) => mount_error(path@, mode) == Some(error),
            },
    {
        Self::from_stored_parts(
            SavedMountState::Mounting,
            fence,
            session_id,
            path,
            owner_uid,
            owner_gid,
            mode,
            0,
            filesystem,
        )
    }

    /// Rebuilds and checks one mount read from the local catalog.
    pub fn from_stored_parts(
        state: SavedMountState,
        fence: FenceEpoch,
        session_id: DriverSessionId,
        path: Vec<u8>,
        owner_uid: u32,
        owner_gid: u32,
        mode: u32,
        filesystem_expanded_to_bytes: u64,
        filesystem: ReplicatedVolumeFilesystem,
    ) -> (out: Result<Self, InvalidSavedVolumeMount>)
        ensures
            match out {
                Ok(mount) => mount_error(path@, mode) is None && mount@ == (MountView {
                    state,
                    fence,
                    session_id,
                    path: path@,
                    owner_uid,
                    owner_gid,
                    mode,
                    filesystem_expanded_to_bytes,
                    filesystem,
                }),
                Err(error) => mount_error(path@, mode) == Some(error),
            },
    {
        if path.len() == 0 || path[0] != 47 {
            return Err(InvalidSavedVolumeMount::PathNotAbsolute);
        }
        proof {
            assert(mode & !0o7777u32 != 0 <==> mode > 0o7777u32) by (bit_vector);
        }
        if mode & !0o7777u32 != 0 {
            return Err(InvalidSavedVolumeMount::InvalidMode { actual: mode });
        }
        Ok(
            SavedVolumeMount {
                state,
                fence,
                session_id,
                path,
                owner_uid,
                owner_gid,
                mode,
                filesystem_expanded_to_bytes,
                filesystem,
            },
        )
    }

    /// Returns the last saved mount or unmount step.
    #[must_use]
    pub fn state(&self) -> (out: SavedMountState)
        ensures
            out == self@.state,
    {
        self.state
    }

    /// Returns the committed attachment number that owns the mount.
    #[must_use]
    pub fn fence(&self) -> (out: FenceEpoch)
        ensures
            out == self@.fence,
    {
        self.fence
    }

    /// Returns the driver session that owns the mount.
    #[must_use]
    pub fn session_id(&self) -> (out: DriverSessionId)
        ensures
            out == self@.session_id,
    {
        self.session_id
    }

    /// Returns the bytes of the exact daemon-owned mount directory.
    #[must_use]
    pub fn path(&self) -> (out: &[u8])
        ensures
            out@ == self@.path,
    {
        self.path.as_slice()
    }

    /// Returns the user ID applied to the mounted filesystem root.
    #[must_use]
    pub fn owner_uid(&self) -> (out: u32)
        ensures
            out == self@.owner_uid,
    {
        self.owner_uid
    }

    /// Returns the group ID applied to the mounted filesystem root.
    #[must_use]
    pub fn owner_gid(&self) -> (out: u32)
        ensures
            out == self@.owner_gid,
    {
        self.owner_gid
    }

    /// Returns the Unix permission bits applied to the mounted filesystem root.
    #[must_use]
    pub fn mode(&self) -> (out: u32)
        ensures
            out == self@.mode,
    {
        self.mode
    }

    /// Returns the largest mapped capacity successfully passed to the grow tool.
    #[must_use]
    pub fn filesystem_expanded_to_bytes(&self) -> (out: u64)
        ensures
            out == self@.filesystem_expanded_to_bytes,
    {
        self.filesystem_expanded_to_bytes
    }

    /// Returns the exact filesystem expected at the saved mount.
    #[must_use]
    pub fn filesystem(&self) -> (out: ReplicatedVolumeFilesystem)
        ensures
            out == self@.filesystem,
    {
        self.filesystem
    }

    /// Returns the same mounted filesystem owned by a later session fence.
    pub fn with_fence(&self, fence: FenceEpoch) -> (out: Self)
        ensures
            out@ == (MountView { fence, ..self@ }),
    {
        let mut changed = self.clone();
        changed.fence = fence;
        changed
    }

    /// Returns the same mount after one later step was completed.
    pub fn with_state(&self, state: SavedMountState) -> (out: Result<Self, InvalidSavedVolumeMount>)
        ensures
            match out {
                Ok(mount) => mount_step(self@.state) <= mount_step(state) && mount@ == (MountView {
                    state,
                    ..self@
                }),
                Err(error) => mount_step(self@.state) > mount_step(state) && error
                    == InvalidSavedVolumeMount::StateMovedBackwards,
            },
    {
        let forward = match (self.state, state) {
            (SavedMountState::Mounting, _) => true,
            (SavedMountState::Mounted, SavedMountState::Mounted) => true,
            (SavedMountState::Mounted, SavedMountState::Unmounting) => true,
            (SavedMountState::Unmounting, SavedMountState::Unmounting) => true,
            _ => false,
        };
        if !forward {
            return Err(InvalidSavedVolumeMount::StateMovedBackwards);
        }
        let mut changed = self.clone();
        changed.state = state;
        Ok(changed)
    }

    /// Returns the same mount with a monotonic filesystem-expansion receipt.
    pub fn with_filesystem_expanded_to(&self, capacity_bytes: u64) -> (out: Result<
        Self,
        InvalidSavedVolumeMount,
    >)
        ensures
            match out {
                Ok(mount) => self@.filesystem_expanded_to_bytes <= capacity_bytes && mount@ == (
                MountView { filesystem_expanded_to_bytes: capacity_bytes, ..self@ }),
                Err(error) => self@.filesystem_expanded_to_bytes > capacity_bytes && error
                    == InvalidSavedVolumeMount::FilesystemCapacityMovedBackwards,
            },
    {
        if capacity_bytes < self.filesystem_expanded_to_bytes {
            return Err(InvalidSavedVolumeMount::FilesystemCapacityMovedBackwards);
        }
        let mut changed = self.clone();
        changed.filesystem_expanded_to_bytes = capacity_bytes;
        Ok(changed)
    }

    /// Checks that a replacement changes only monotonic mount progress.
    pub fn can_advance_to(&self, next: &Self) -> (out: bool)
        ensures
            out == mount_advances(self@, next@),
    {
        self.fence == next.fence && self.session_id == next.session_id && same_path(
            &self.path,
            &next.path,
        ) && self.owner_uid == next.owner_uid && self.owner_gid == next.owner_gid && self.mode
            == next.mode && self.filesystem == next.filesystem && self.with_state(
            next.state,
        ).is_ok() && next.filesystem_expanded_to_bytes >= self.filesystem_expanded_to_bytes
    }

    /// Returns whether both saved mounts are the same.
    pub fn same(&self, other: &Self) -> (out: bool)
        ensures
            out == same_mount(self@, other@),
    {
        self.state == other.state && self.fence == other.fence && self.session_id
            == other.session_id && same_path(&self.path, &other.path) && self.owner_uid
            == other.owner_uid && self.owner_gid == other.owner_gid && self.mode == other.mode
            && self.filesystem_expanded_to_bytes == other.filesystem_expanded_to_bytes
            && self.filesystem == other.filesystem
    }
}

impl PartialEq for SavedVolumeMount {
    fn eq(&self, other: &Self) -> (out: bool) {
        self.same(other)
    }
}

impl vstd::std_specs::cmp::PartialEqSpecImpl for SavedVolumeMount {
    open spec fn obeys_eq_spec() -> bool {
        true
    }

    open spec fn eq_spec(&self, other: &Self) -> bool {
        same_mount(self@, other@)
    }
}

impl Eq for SavedVolumeMount {

}

/// One unfinished filesystem format saved across a daemon restart.
#[derive(Clone, Copy, Debug, PartialEq, Eq)]
pub struct SavedFilesystemFormat {
    filesystem_id: FilesystemId,
    profile_hash: [u8; 32],
    filesystem: ReplicatedVolumeFilesystem,
}

/// Model of an unfinished filesystem format.
#[verifier::ext_equal]
pub struct FormatView {
    pub filesystem_id: FilesystemId,
    pub profile_hash: Seq<u8>,
    pub filesystem: ReplicatedVolumeFilesystem,
}

impl View for SavedFilesystemFormat {
    type V = FormatView;

    closed spec fn view(&self) -> FormatView {
        FormatView {
            filesystem_id: self.filesystem_id,
            profile_hash: self.profile_hash@,
            filesystem: self.filesystem,
        }
    }
}

impl SavedFilesystemFormat {
    /// Saves the filesystem, UUID, and profile before mkfs starts.
    #[must_use]
    pub fn new(
        filesystem: ReplicatedVolumeFilesystem,
        filesystem_id: FilesystemId,
        profile_hash: [u8; 32],
    ) -> (out: Self)
        ensures
            out@ == (FormatView { filesystem_id, profile_hash: profile_hash@, filesystem }),
    {
        SavedFilesystemFormat { filesystem_id, profile_hash, filesystem }
    }

    /// Returns the exact filesystem whose format is in progress.
    #[must_use]
    pub fn filesystem(self) -> (out: ReplicatedVolumeFilesystem)
        ensures
            out == self@.filesystem,
    {
        self.filesystem
    }

    /// Returns the UUID that mkfs must write.
    #[must_use]
    pub fn filesystem_id(self) -> (out: FilesystemId)
        ensures
            out == self@.filesystem_id,
    {
        self.filesystem_id
    }

    /// Returns the hash of the exact filesystem format profile.
    #[must_use]
    pub fn profile_hash(self) -> (out: [u8; 32])
        ensures
            out@ == self@.profile_hash,
    {
        self.profile_hash
    }

    /// Returns whether both formats are the same.
    pub fn same(&self, other: &Self) -> (out: bool)
        ensures
            out == (self@ == other@),
    {
        let out = self.filesystem_id == other.filesystem_id && self.filesystem == other.filesystem
            && same_bytes(&self.profile_hash, &other.profile_hash);
        proof {
            if out {
                assert(self@ =~= other@);
            }
        }
        out
    }
}

/// Complete durable node-local record for one replica.
#[derive(Debug, PartialEq, Eq)]
pub struct ReplicaRecord {
    descriptor: VolumeDescriptor,
    origin: LocalReplicaOrigin,
    directory_name: String,
    state: ReplicaState,
    health: ReplicaHealth,
    reserved: ReservedSpace,
    filesystem_format: Option<SavedFilesystemFormat>,
}

/// Model of a replica record.
pub struct ReplicaView {
    pub descriptor: VolumeDescriptor,
    pub origin: OriginView,
    pub directory_name: Seq<char>,
    pub state: ReplicaState,
    pub health: ReplicaHealth,
    pub reserved: ReservedSpace,
    pub filesystem_format: Option<FormatView>,
}

/// Model of an optional format.
pub open spec fn format_view(format: Option<SavedFilesystemFormat>) -> Option<FormatView> {
    match format {
        Some(format) => Some(format@),
        None => None,
    }
}

impl View for ReplicaRecord {
    type V = ReplicaView;

    closed spec fn view(&self) -> ReplicaView {
        ReplicaView {
            descriptor: self.descriptor,
            origin: self.origin@,
            directory_name: self.directory_name@,
            state: self.state,
            health: self.health,
            reserved: self.reserved,
            filesystem_format: format_view(self.filesystem_format),
        }
    }
}

impl Clone for ReplicaRecord {
    fn clone(&self) -> (out: Self)
        ensures
            out@ == self@,
    {
        let mut directory_name = String::new();
        push_text(&mut directory_name, self.directory_name.as_str());
        proof { assert(directory_name@ =~= self.directory_name@); }
        ReplicaRecord {
            descriptor: self.descriptor,
            origin: self.origin.clone(),
            directory_name,
            state: self.state,
            health: self.health,
            reserved: self.reserved,
            filesystem_format: self.filesystem_format,
        }
    }
}

impl ReplicaRecord {
    /// Creates the first local row after its pool space is held.
    pub fn new(
        descriptor: VolumeDescriptor,
        origin: LocalReplicaOrigin,
        directory_name: String,
        reserved: ReservedSpace,
    ) -> (out: Self)
        ensures
            out@ == (ReplicaView {
                descriptor,
                origin: origin@,
                directory_name: directory_name@,
                state: ReplicaState::Preparing,
                health: ReplicaHealth::Healthy,
                reserved,
                filesystem_format: None,
            }),
    {
        ReplicaRecord {
            descriptor,
            origin,
            directory_name,
            state: ReplicaState::Preparing,
            health: ReplicaHealth::Healthy,
            reserved,
            filesystem_format: None,
        }
    }

    /// Returns the local catalog key.
    #[must_use]
    pub fn key(&self) -> (out: ReplicaKey)
        ensures
            out == ReplicaKey::key_of(self@.descriptor),
    {
        ReplicaKey::from_descriptor(&self.descriptor)
    }

    /// Returns the complete path below the checked pool root.
    #[must_use]
    pub fn path(&self, pool_root: &[u8]) -> (out: Vec<u8>)
        ensures
            out@ == joined(
                joined(pool_root@, vstd::utf8::encode_utf8("replicas"@)),
                vstd::utf8::encode_utf8(self@.directory_name),
            ),
    {
        let replicas = join(pool_root, "replicas".as_bytes());
        join(&replicas, self.directory_name.as_str().as_bytes())
    }

    /// Returns the latest descriptor applied to this local copy.
    #[must_use]
    pub fn descriptor(&self) -> (out: &VolumeDescriptor)
        ensures
            *out == self@.descriptor,
    {
        &self.descriptor
    }

    /// Returns the immutable origin that owns this reservation.
    #[must_use]
    pub fn origin(&self) -> (out: &LocalReplicaOrigin)
        ensures
            out@ == self@.origin,
    {
        &self.origin
    }

    /// Returns the node-local file state.
    #[must_use]
    pub fn state(&self) -> (out: ReplicaState)
        ensures
            out == self@.state,
    {
        self.state
    }

    /// Returns whether the checked local file may be admitted to data work.
    #[must_use]
    pub fn health(&self) -> (out: ReplicaHealth)
        ensures
            out == self@.health,
    {
        self.health
    }

    /// Returns the data and metadata space held by this row.
    #[must_use]
    pub fn reserved_space(&self) -> (out: ReservedSpace)
        ensures
            out == self@.reserved,
    {
        self.reserved
    }

    /// Returns one unfinished filesystem format saved on this node.
    #[must_use]
    pub fn filesystem_format(&self) -> (out: Option<SavedFilesystemFormat>)
        ensures
            format_view(out) == self@.filesystem_format,
    {
        self.filesystem_format
    }

    /// Returns the deterministic directory name stored in this row.
    #[must_use]
    pub fn directory_name(&self) -> (out: &str)
        ensures
            out@ == self@.directory_name,
    {
        self.directory_name.as_str()
    }

    /// Stores a checked file-state change.
    pub fn set_state(&mut self, state: ReplicaState)
        ensures
            final(self)@ == (ReplicaView { state, ..old(self)@ }),
    {
        self.state = state;
    }

    /// Stores one fail-closed local file-health observation.
    pub fn set_health(&mut self, health: ReplicaHealth)
        ensures
            final(self)@ == (ReplicaView { health, ..old(self)@ }),
    {
        self.health = health;
    }

    /// Records the replacement grant that now owns this excluded local file slot.
    pub fn set_origin(&mut self, origin: LocalReplicaOrigin)
        ensures
            final(self)@ == (ReplicaView { origin: origin@, ..old(self)@ }),
    {
        self.origin = origin;
    }

    /// Records a capacity already committed for this generation.
    pub fn set_descriptor(&mut self, descriptor: VolumeDescriptor)
        ensures
            final(self)@ == (ReplicaView { descriptor, ..old(self)@ }),
    {
        self.descriptor = descriptor;
    }

    /// Records the complete pool space currently held for this copy.
    pub fn set_reserved_space(&mut self, reserved: ReservedSpace)
        ensures
            final(self)@ == (ReplicaView { reserved, ..old(self)@ }),
    {
        self.reserved = reserved;
    }

    /// Saves one unfinished filesystem format before tool writes begin.
    pub fn set_filesystem_format(&mut self, format: SavedFilesystemFormat)
        ensures
            final(self)@ == (ReplicaView { filesystem_format: Some(format@), ..old(self)@ }),
    {
        self.filesystem_format = Some(format);
    }

    /// Clears a filesystem format after the committed state says it finished.
    pub fn clear_filesystem_format(&mut self)
        ensures
            final(self)@ == (ReplicaView { filesystem_format: None, ..old(self)@ }),
    {
        self.filesystem_format = None;
    }
}

/// Compact local proof that bootstrap no longer owns a live generation copy.
#[derive(Clone, Copy, Debug, PartialEq, Eq, Structural)]
pub struct LocalReplicaRetirement {
    key: ReplicaKey,
}

impl LocalReplicaRetirement {
    /// Retired storage generation.
    pub closed spec fn retired(self) -> ReplicaKey {
        self.key
    }

    /// Creates proof that current control state removed this node's old copy.
    pub fn new(key: ReplicaKey) -> (out: Self)
        ensures
            out.retired() == key,
    {
        LocalReplicaRetirement { key }
    }

    /// Returns the retired storage generation.
    pub fn key(self) -> (out: ReplicaKey)
        ensures
            out == self.retired(),
    {
        self.key
    }
}

/// What the pool can safely start at its current free-space level.
#[derive(Clone, Copy, Debug, PartialEq, Eq, Structural)]
pub enum PoolSpaceState {
    /// New replicas and recovery work may start.
    Ready,

    /// New replicas stop; only work that fits the remaining space may start.
    NoNewReplicas,

    /// No allocation may start; deletion remains allowed.
    DeleteOnly,
}

/// Current durable reservations and actual filesystem free space.
#[derive(Clone, Copy, Debug, PartialEq, Eq, Structural)]
pub struct PoolStatus {
    pub state: PoolSpaceState,
    pub available_bytes: u64,
    pub data_bytes: u64,
    pub metadata_bytes: u64,
}

impl PoolStatus {
    /// Returns what work may start now.
    #[must_use]
    pub fn state(self) -> (out: PoolSpaceState)
        ensures
            out == self.state,
    {
        self.state
    }

    /// Returns space currently available from the filesystem.
    #[must_use]
    pub fn available_bytes(self) -> (out: u64)
        ensures
            out == self.available_bytes,
    {
        self.available_bytes
    }

    /// Returns space promised to replica data.
    #[must_use]
    pub fn data_bytes(self) -> (out: u64)
        ensures
            out == self.data_bytes,
    {
        self.data_bytes
    }

    /// Returns space promised to replica metadata.
    #[must_use]
    pub fn metadata_bytes(self) -> (out: u64)
        ensures
            out == self.metadata_bytes,
    {
        self.metadata_bytes
    }
}

} // verus!
