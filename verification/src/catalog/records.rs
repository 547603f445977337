//! Stored forms of the catalog rows and their decoding.
//!
//! A stored form holds what a message reader returns for each field: byte fields as they
//! came, enumerated fields as a known value or an unknown number.

use vstd::prelude::*;

use super::attachment::{ordered, AttachmentView, LocalAttachmentRecord};
use super::model::{
    mount_error, voters_error, FormatView, InvalidLocalReplicaOrigin, LocalReplicaOrigin,
    LocalReplicaRetirement, MountView, OriginView, ReplicaHealth, ReplicaKey, ReplicaRecord,
    ReplicaState, ReplicaView, ReplicatedVolumeFilesystem, ReservedSpace, SavedFilesystemFormat,
    SavedMountState, SavedUblkDevice, SavedVolumeMount,
};
use super::mounts::pieces_view;
use super::pool::PoolFilesystem;
use super::protocol::{
    CatalogProtocolError, StoredEnum, StoredField, StoredPool, StoredPoolView, StoredUnion,
};
use super::rules::{all_serve, serves_session};
use super::voters::VoterSet;
use crate::bytes::{be_value, copy_bytes, read_be};
use crate::driver::settings::{queue_error, InvalidUblkSettings};
use crate::driver::ublk_types::UblkDeviceId;
use crate::text::push_text;
use crate::volume::block_sizes::REQUIRED_BLOCK_BYTES;
use crate::volume::descriptor::{capacity_error, VolumeCapacity, VolumeDescriptor};
use crate::volume::identity::{
    DriverSessionId, FenceEpoch, FilesystemId, IdentityError, OperationId, ReplacementId,
    VolumeGeneration, VolumeId,
};

verus! {

broadcast use {SavedUblkDevice::lemma_made, SavedUblkDevice::lemma_fenced};

/// Version of the record format.
pub const CATALOG_FORMAT_VERSION: u16 = 1;

/// Why a record of a version cannot be read.
pub open spec fn version_error(version: u16) -> Option<CatalogProtocolError> {
    if version != CATALOG_FORMAT_VERSION {
        Some(CatalogProtocolError::UnsupportedVersion { actual: version })
    } else {
        None
    }
}

/// Checks that a saved record uses the current catalog format.
pub fn check_version(version: u16) -> (out: Result<(), CatalogProtocolError>)
    ensures
        match out {
            Ok(()) => version_error(version) is None,
            Err(error) => version_error(version) == Some(error),
        },
{
    if version != CATALOG_FORMAT_VERSION {
        return Err(CatalogProtocolError::UnsupportedVersion { actual: version });
    }
    Ok(())
}

/// Why a field does not have its fixed width.
pub open spec fn width_error(bytes: Seq<u8>, width: usize, field: StoredField) -> Option<
    CatalogProtocolError,
> {
    if bytes.len() != width {
        Some(
            CatalogProtocolError::InvalidFieldLength {
                field,
                expected: width,
                actual: bytes.len() as usize,
            },
        )
    } else {
        None
    }
}

/// Why a field holds no identity: it has another width, or it is nil.
pub open spec fn identity_error(bytes: Seq<u8>, field: StoredField) -> Option<
    CatalogProtocolError,
> {
    if width_error(bytes, 16, field) is Some {
        width_error(bytes, 16, field)
    } else if be_value(bytes) == 0 {
        Some(CatalogProtocolError::Identity(IdentityError::Nil))
    } else {
        None
    }
}

/// Reads one UUID from its exact byte representation.
pub fn read_uuid(bytes: &[u8], field: StoredField) -> (out: Result<u128, CatalogProtocolError>)
    ensures
        match out {
            Ok(value) => width_error(bytes@, 16, field) is None && value == be_value(bytes@),
            Err(error) => width_error(bytes@, 16, field) == Some(error),
        },
{
    if bytes.len() != 16 {
        return Err(
            CatalogProtocolError::InvalidFieldLength { field, expected: 16, actual: bytes.len() },
        );
    }
    Ok(read_be(bytes))
}

/// Reads one hash of thirty-two bytes.
fn read_hash(bytes: &[u8], field: StoredField) -> (out: Result<[u8; 32], CatalogProtocolError>)
    ensures
        match out {
            Ok(value) => width_error(bytes@, 32, field) is None && value@ == bytes@,
            Err(error) => width_error(bytes@, 32, field) == Some(error),
        },
{
    if bytes.len() != 32 {
        return Err(
            CatalogProtocolError::InvalidFieldLength { field, expected: 32, actual: bytes.len() },
        );
    }
    let mut value: [u8; 32] = [0; 32];
    let mut i: usize = 0;
    while i < 32
        invariant
            i <= 32,
            bytes@.len() == 32,
            value@.len() == 32,
            forall|k: int| 0 <= k < i ==> value@[k] == bytes@[k],
        decreases 32 - i,
    {
        value[i] = bytes[i];
        i += 1;
    }
    proof { assert(value@ =~= bytes@); }
    Ok(value)
}

/// Identifier of the reason for a reservation.
#[derive(Debug, PartialEq, Eq)]
pub enum StoredOriginId {
    Bootstrap(Vec<u8>),
    Replacement(Vec<u8>),
}

/// Model of a stored origin identifier.
pub enum StoredOriginIdView {
    Bootstrap(Seq<u8>),
    Replacement(Seq<u8>),
}

impl View for StoredOriginId {
    type V = StoredOriginIdView;

    open spec fn view(&self) -> StoredOriginIdView {
        match self {
            StoredOriginId::Bootstrap(id) => StoredOriginIdView::Bootstrap(id@),
            StoredOriginId::Replacement(id) => StoredOriginIdView::Replacement(id@),
        }
    }
}

/// Stored reason for a reservation.
#[derive(Debug, PartialEq, Eq)]
pub struct StoredOrigin {
    pub voter_node_ids: Vec<Vec<u8>>,
    pub id: Result<StoredOriginId, u16>,
}

/// Model of a stored origin.
pub struct StoredOriginView {
    pub voter_node_ids: Seq<Seq<u8>>,
    pub id: Result<StoredOriginIdView, u16>,
}

impl View for StoredOrigin {
    type V = StoredOriginView;

    open spec fn view(&self) -> StoredOriginView {
        StoredOriginView {
            voter_node_ids: pieces_view(self.voter_node_ids@),
            id: match self.id {
                Ok(id) => Ok(id@),
                Err(value) => Err(value),
            },
        }
    }
}

/// Voters of a list.
pub open spec fn voters_of(list: Seq<Seq<u8>>) -> Set<u128>
    decreases list.len(),
{
    if list.len() == 0 {
        Set::empty()
    } else {
        voters_of(list.drop_last()).insert(be_value(list.last()) as u128)
    }
}

/// Why a list does not name each voter once: the first failure in its order.
pub open spec fn voter_list_error(list: Seq<Seq<u8>>) -> Option<CatalogProtocolError>
    decreases list.len(),
{
    if list.len() == 0 {
        None
    } else if voter_list_error(list.drop_last()) is Some {
        voter_list_error(list.drop_last())
    } else if width_error(list.last(), 16, StoredField::OriginVoter) is Some {
        width_error(list.last(), 16, StoredField::OriginVoter)
    } else if be_value(list.last()) == 0 {
        Some(CatalogProtocolError::InvalidReplicaOrigin(InvalidLocalReplicaOrigin::ZeroVoter))
    } else if voters_of(list.drop_last()).contains(be_value(list.last()) as u128) {
        Some(CatalogProtocolError::DuplicateOriginVoter)
    } else {
        None
    }
}

/// Why a stored origin cannot be read.
pub open spec fn origin_error(origin: StoredOriginView) -> Option<CatalogProtocolError> {
    let voters = voters_of(origin.voter_node_ids);
    if origin.voter_node_ids.len() > 3 {
        Some(
            CatalogProtocolError::InvalidReplicaOrigin(
                InvalidLocalReplicaOrigin::InvalidVoterCount {
                    actual: origin.voter_node_ids.len() as usize,
                },
            ),
        )
    } else if voter_list_error(origin.voter_node_ids) is Some {
        voter_list_error(origin.voter_node_ids)
    } else {
        match origin.id {
            Err(value) => Some(
                CatalogProtocolError::UnknownUnion { name: StoredUnion::ReplicaOrigin, value },
            ),
            Ok(StoredOriginIdView::Bootstrap(id)) => if origin.voter_node_ids.len() > 0 {
                Some(CatalogProtocolError::UnexpectedBootstrapVoters)
            } else {
                identity_error(id, StoredField::BootstrapId)
            },
            Ok(StoredOriginIdView::Replacement(id)) => if identity_error(
                id,
                StoredField::ReplacementId,
            ) is Some {
                identity_error(id, StoredField::ReplacementId)
            } else {
                match voters_error(voters) {
                    Some(error) => Some(CatalogProtocolError::InvalidReplicaOrigin(error)),
                    None => None,
                }
            },
        }
    }
}

/// Origin that a stored one stands for.
pub open spec fn origin_of(origin: StoredOriginView) -> OriginView {
    match origin.id {
        Ok(StoredOriginIdView::Bootstrap(id)) => OriginView::Bootstrap(
            OperationId::made(be_value(id) as u128),
        ),
        Ok(StoredOriginIdView::Replacement(id)) => OriginView::Replacement {
            id: ReplacementId::made(be_value(id) as u128),
            voter_node_ids: voters_of(origin.voter_node_ids),
        },
        Err(_) => OriginView::Bootstrap(OperationId::made(0)),
    }
}

/// An error among the first voters is the error of all voters.
proof fn lemma_voter_error_grows(list: Seq<Seq<u8>>, upto: int)
    requires
        0 <= upto <= list.len(),
    ensures
        voter_list_error(list.take(upto)) is Some ==> voter_list_error(list) == voter_list_error(
            list.take(upto),
        ),
    decreases list.len(),
{
    if upto < list.len() {
        lemma_voter_error_grows(list.drop_last(), upto);
        assert(list.drop_last().take(upto) =~= list.take(upto));
    } else {
        assert(list.take(upto) =~= list);
    }
}

/// Reads unique non-zero voters from one bounded local record.
fn read_origin_voters(list: &Vec<Vec<u8>>) -> (out: Result<VoterSet, CatalogProtocolError>)
    ensures
        match out {
            Ok(voters) => pieces_view(list@).len() <= 3 && voter_list_error(
                pieces_view(list@),
            ) is None && voters@ == voters_of(pieces_view(list@)),
            Err(error) => if pieces_view(list@).len() > 3 {
                error == CatalogProtocolError::InvalidReplicaOrigin(
                    InvalidLocalReplicaOrigin::InvalidVoterCount {
                        actual: list@.len() as usize,
                    },
                )
            } else {
                voter_list_error(pieces_view(list@)) == Some(error)
            },
        },
{
    let ghost all = pieces_view(list@);
    if list.len() > 3 {
        return Err(
            CatalogProtocolError::InvalidReplicaOrigin(
                InvalidLocalReplicaOrigin::InvalidVoterCount { actual: list.len() },
            ),
        );
    }
    let mut voters = VoterSet::new();
    let mut i: usize = 0;
    proof { assert(all.take(0) =~= Seq::<Seq<u8>>::empty()); }
    while i < list.len()
        invariant
            i <= list@.len(),
            list@.len() <= 3,
            all == pieces_view(list@),
            voter_list_error(all.take(i as int)) is None,
            voters@ == voters_of(all.take(i as int)),
        decreases list@.len() - i,
    {
        proof {
            assert(all.take(i + 1).drop_last() =~= all.take(i as int));
            assert(all.take(i + 1).last() == list@[i as int]@);
            lemma_voter_error_grows(all, i + 1);
        }
        let node_id: u128 = match read_uuid(&list[i], StoredField::OriginVoter) {
            Ok(node_id) => node_id,
            Err(error) => {
                return Err(error);
            },
        };
        if node_id == 0 {
            return Err(
                CatalogProtocolError::InvalidReplicaOrigin(InvalidLocalReplicaOrigin::ZeroVoter),
            );
        }
        if !voters.insert(node_id) {
            return Err(CatalogProtocolError::DuplicateOriginVoter);
        }
        i += 1;
    }
    proof { assert(all.take(all.len() as int) =~= all); }
    Ok(voters)
}

/// The voters of a list are at most as many as the list is long.
proof fn lemma_voter_count(list: Seq<Seq<u8>>)
    ensures
        voters_of(list).finite(),
        voters_of(list).len() <= list.len(),
        list.len() == 0 ==> voters_of(list) == Set::<u128>::empty(),
        list.len() > 0 ==> voters_of(list).len() > 0,
    decreases list.len(),
{
    if list.len() > 0 {
        lemma_voter_count(list.drop_last());
    }
}

/// Reads the immutable reason a local replica was reserved.
pub fn read_replica_origin(origin: &StoredOrigin) -> (out: Result<
    LocalReplicaOrigin,
    CatalogProtocolError,
>)
    ensures
        match out {
            Ok(value) => origin_error(origin@) is None && value@ == origin_of(origin@),
            Err(error) => origin_error(origin@) == Some(error),
        },
{
    let voters = match read_origin_voters(&origin.voter_node_ids) {
        Ok(voters) => voters,
        Err(error) => {
            return Err(error);
        },
    };
    proof { lemma_voter_count(origin@.voter_node_ids); }
    match &origin.id {
        Err(value) => Err(
            CatalogProtocolError::UnknownUnion { name: StoredUnion::ReplicaOrigin, value: *value },
        ),
        Ok(StoredOriginId::Bootstrap(bytes)) => {
            if voters.len() != 0 {
                return Err(CatalogProtocolError::UnexpectedBootstrapVoters);
            }
            let value: u128 = match read_uuid(bytes, StoredField::BootstrapId) {
                Ok(value) => value,
                Err(error) => {
                    return Err(error);
                },
            };
            match OperationId::new(value) {
                Ok(id) => {
                    proof { OperationId::lemma_made(value, id); }
                    Ok(LocalReplicaOrigin::Bootstrap(id))
                },
                Err(error) => Err(CatalogProtocolError::Identity(error)),
            }
        },
        Ok(StoredOriginId::Replacement(bytes)) => {
            let value: u128 = match read_uuid(bytes, StoredField::ReplacementId) {
                Ok(value) => value,
                Err(error) => {
                    return Err(error);
                },
            };
            let id = match ReplacementId::new(value) {
                Ok(id) => id,
                Err(error) => {
                    return Err(CatalogProtocolError::Identity(error));
                },
            };
            proof { ReplacementId::lemma_made(value, id); }
            match LocalReplicaOrigin::replacement(id, voters) {
                Ok(value) => Ok(value),
                Err(error) => Err(CatalogProtocolError::InvalidReplicaOrigin(error)),
            }
        },
    }
}

/// Stored unfinished filesystem format.
#[derive(Debug, PartialEq, Eq)]
pub struct StoredFormat {
    pub filesystem: ReplicatedVolumeFilesystem,
    pub filesystem_id: Vec<u8>,
    pub profile_hash: Vec<u8>,
}

/// Model of a stored format.
pub struct StoredFormatView {
    pub filesystem: ReplicatedVolumeFilesystem,
    pub filesystem_id: Seq<u8>,
    pub profile_hash: Seq<u8>,
}

impl View for StoredFormat {
    type V = StoredFormatView;

    open spec fn view(&self) -> StoredFormatView {
        StoredFormatView {
            filesystem: self.filesystem,
            filesystem_id: self.filesystem_id@,
            profile_hash: self.profile_hash@,
        }
    }
}

/// Why a stored format cannot be read.
pub open spec fn format_error(format: StoredFormatView) -> Option<CatalogProtocolError> {
    if identity_error(format.filesystem_id, StoredField::FilesystemId) is Some {
        identity_error(format.filesystem_id, StoredField::FilesystemId)
    } else {
        width_error(format.profile_hash, 32, StoredField::ProfileHash)
    }
}

/// Format that a stored one stands for.
pub open spec fn format_of(format: StoredFormatView) -> FormatView {
    FormatView {
        filesystem_id: FilesystemId::made(be_value(format.filesystem_id) as u128),
        profile_hash: format.profile_hash,
        filesystem: format.filesystem,
    }
}

/// Reads and checks one unfinished format.
pub fn read_filesystem_format(format: &StoredFormat) -> (out: Result<
    SavedFilesystemFormat,
    CatalogProtocolError,
>)
    ensures
        match out {
            Ok(value) => format_error(format@) is None && value@ == format_of(format@),
            Err(error) => format_error(format@) == Some(error),
        },
{
    let value: u128 = match read_uuid(&format.filesystem_id, StoredField::FilesystemId) {
        Ok(value) => value,
        Err(error) => {
            return Err(error);
        },
    };
    let filesystem_id = match FilesystemId::new(value) {
        Ok(id) => id,
        Err(error) => {
            return Err(CatalogProtocolError::Identity(error));
        },
    };
    proof { FilesystemId::lemma_made(value, filesystem_id); }
    match read_hash(&format.profile_hash, StoredField::ProfileHash) {
        Ok(profile_hash) => Ok(
            SavedFilesystemFormat::new(format.filesystem, filesystem_id, profile_hash),
        ),
        Err(error) => Err(error),
    }
}

/// Stored replica row.
#[derive(Debug, PartialEq, Eq)]
pub struct StoredReplica {
    pub format_version: u16,
    pub descriptor: VolumeDescriptor,
    pub origin: StoredOrigin,

    /// Directory name, absent where its bytes are no text.
    pub directory_name: Option<String>,
    pub state: Result<ReplicaState, u16>,
    pub health: Result<ReplicaHealth, u16>,
    pub data_bytes: u64,
    pub metadata_bytes: u64,
    pub filesystem_format: Option<StoredFormat>,
}

/// Model of a stored replica row.
pub struct StoredReplicaView {
    pub format_version: u16,
    pub descriptor: VolumeDescriptor,
    pub origin: StoredOriginView,
    pub directory_name: Option<Seq<char>>,
    pub state: Result<ReplicaState, u16>,
    pub health: Result<ReplicaHealth, u16>,
    pub data_bytes: u64,
    pub metadata_bytes: u64,
    pub filesystem_format: Option<StoredFormatView>,
}

impl View for StoredReplica {
    type V = StoredReplicaView;

    open spec fn view(&self) -> StoredReplicaView {
        StoredReplicaView {
            format_version: self.format_version,
            descriptor: self.descriptor,
            origin: self.origin@,
            directory_name: match self.directory_name {
                Some(name) => Some(name@),
                None => None,
            },
            state: self.state,
            health: self.health,
            data_bytes: self.data_bytes,
            metadata_bytes: self.metadata_bytes,
            filesystem_format: match self.filesystem_format {
                Some(format) => Some(format@),
                None => None,
            },
        }
    }
}

/// Why a stored replica row cannot be read.
pub open spec fn replica_row_error(row: StoredReplicaView) -> Option<CatalogProtocolError> {
    if version_error(row.format_version) is Some {
        version_error(row.format_version)
    } else if origin_error(row.origin) is Some {
        origin_error(row.origin)
    } else if row.directory_name is None {
        Some(CatalogProtocolError::Text)
    } else if row.state is Err {
        Some(
            CatalogProtocolError::UnknownEnum {
                name: StoredEnum::ReplicaState,
                value: row.state->Err_0,
            },
        )
    } else if row.health is Err {
        Some(
            CatalogProtocolError::UnknownEnum {
                name: StoredEnum::ReplicaHealth,
                value: row.health->Err_0,
            },
        )
    } else {
        match row.filesystem_format {
            Some(format) => format_error(format),
            None => None,
        }
    }
}

/// The record is what the stored row stands for.
pub open spec fn is_replica_of(record: ReplicaView, row: StoredReplicaView) -> bool {
    &&& record.descriptor == row.descriptor
    &&& record.origin == origin_of(row.origin)
    &&& row.directory_name == Some(record.directory_name)
    &&& row.state == Ok::<ReplicaState, u16>(record.state)
    &&& row.health == Ok::<ReplicaHealth, u16>(record.health)
    &&& record.reserved.data() == row.data_bytes
    &&& record.reserved.metadata() == row.metadata_bytes
    &&& record.filesystem_format == match row.filesystem_format {
        Some(format) => Some(format_of(format)),
        None => None,
    }
}

/// Decodes and checks one complete local replica row.
pub fn decode_replica(row: &StoredReplica) -> (out: Result<ReplicaRecord, CatalogProtocolError>)
    ensures
        match out {
            Ok(record) => replica_row_error(row@) is None && is_replica_of(record@, row@),
            Err(error) => replica_row_error(row@) == Some(error),
        },
{
    if let Err(error) = check_version(row.format_version) {
        return Err(error);
    }
    let origin = match read_replica_origin(&row.origin) {
        Ok(origin) => origin,
        Err(error) => {
            return Err(error);
        },
    };
    let mut directory_name = String::new();
    match &row.directory_name {
        Some(name) => {
            push_text(&mut directory_name, name.as_str());
            proof { assert(directory_name@ =~= name@); }
        },
        None => {
            return Err(CatalogProtocolError::Text);
        },
    }
    let state = match row.state {
        Ok(state) => state,
        Err(value) => {
            return Err(
                CatalogProtocolError::UnknownEnum { name: StoredEnum::ReplicaState, value },
            );
        },
    };
    let health = match row.health {
        Ok(health) => health,
        Err(value) => {
            return Err(
                CatalogProtocolError::UnknownEnum { name: StoredEnum::ReplicaHealth, value },
            );
        },
    };
    let reserved = ReservedSpace::new(row.data_bytes, row.metadata_bytes);
    let mut record = ReplicaRecord::new(row.descriptor, origin, directory_name, reserved);
    record.set_state(state);
    record.set_health(health);
    if let Some(format) = &row.filesystem_format {
        match read_filesystem_format(format) {
            Ok(format) => record.set_filesystem_format(format),
            Err(error) => {
                return Err(error);
            },
        }
    }
    Ok(record)
}

/// Stored ublk device.
#[derive(Debug, PartialEq, Eq)]
pub struct StoredDevice {
    pub device_id: u32,
    pub capacity: VolumeCapacity,
    pub fence: u64,
    pub session_id: Vec<u8>,
    pub queue_count: u16,
    pub queue_depth: u16,
    pub max_request_bytes: u32,
}

/// Model of a stored device.
pub struct StoredDeviceView {
    pub device_id: u32,
    pub capacity: VolumeCapacity,
    pub fence: u64,
    pub session_id: Seq<u8>,
    pub queue_count: u16,
    pub queue_depth: u16,
    pub max_request_bytes: u32,
}

impl View for StoredDevice {
    type V = StoredDeviceView;

    open spec fn view(&self) -> StoredDeviceView {
        StoredDeviceView {
            device_id: self.device_id,
            capacity: self.capacity,
            fence: self.fence,
            session_id: self.session_id@,
            queue_count: self.queue_count,
            queue_depth: self.queue_depth,
            max_request_bytes: self.max_request_bytes,
        }
    }
}

/// Why a fence number is none.
pub open spec fn fence_error(fence: u64) -> Option<CatalogProtocolError> {
    if fence == 0 {
        Some(CatalogProtocolError::Identity(IdentityError::Zero))
    } else {
        None
    }
}

/// Device that a stored one stands for.
pub open spec fn device_of(device: StoredDeviceView) -> SavedUblkDevice {
    SavedUblkDevice::made(
        UblkDeviceId::made(device.device_id),
        device.capacity,
        FenceEpoch::made(device.fence),
        DriverSessionId::made(be_value(device.session_id) as u128),
        device.queue_count,
        device.queue_depth,
        device.max_request_bytes,
    )
}

/// Why a stored device cannot be read, or cannot be recreated.
pub open spec fn device_error(device: StoredDeviceView, reported_page_bytes: i64) -> Option<
    CatalogProtocolError,
> {
    let queues = device_of(device).queues();
    if device.device_id > i32::MAX {
        Some(CatalogProtocolError::InvalidUblkDeviceId { actual: device.device_id })
    } else if fence_error(device.fence) is Some {
        fence_error(device.fence)
    } else if identity_error(device.session_id, StoredField::DriverSession) is Some {
        identity_error(device.session_id, StoredField::DriverSession)
    } else if capacity_error(device.capacity.size()) is Some {
        Some(CatalogProtocolError::InvalidUblkSettings(InvalidUblkSettings::InvalidCapacity))
    } else {
        match queue_error(queues, REQUIRED_BLOCK_BYTES, reported_page_bytes) {
            Some(error) => Some(CatalogProtocolError::InvalidUblkSettings(error)),
            None => None,
        }
    }
}

/// Reads one driver session identity.
fn read_session(bytes: &[u8]) -> (out: Result<DriverSessionId, CatalogProtocolError>)
    ensures
        match out {
            Ok(id) => identity_error(bytes@, StoredField::DriverSession) is None && id
                == DriverSessionId::made(be_value(bytes@) as u128),
            Err(error) => identity_error(bytes@, StoredField::DriverSession) == Some(error),
        },
{
    let value: u128 = match read_uuid(bytes, StoredField::DriverSession) {
        Ok(value) => value,
        Err(error) => {
            return Err(error);
        },
    };
    match DriverSessionId::new(value) {
        Ok(id) => {
            proof { DriverSessionId::lemma_made(value, id); }
            Ok(id)
        },
        Err(error) => Err(CatalogProtocolError::Identity(error)),
    }
}

/// Reads one fence number.
fn read_fence(value: u64) -> (out: Result<FenceEpoch, CatalogProtocolError>)
    ensures
        match out {
            Ok(fence) => fence_error(value) is None && fence == FenceEpoch::made(value),
            Err(error) => fence_error(value) == Some(error),
        },
{
    match FenceEpoch::new(value) {
        Ok(fence) => {
            proof { FenceEpoch::lemma_made(value, fence); }
            Ok(fence)
        },
        Err(error) => Err(CatalogProtocolError::Identity(error)),
    }
}

/// Reads one saved ublk device and checks it against the descriptor.
pub fn read_ublk_device(
    device: &StoredDevice,
    descriptor: &VolumeDescriptor,
    reported_page_bytes: i64,
) -> (out: Result<SavedUblkDevice, CatalogProtocolError>)
    ensures
        match out {
            Ok(value) => device_error(device@, reported_page_bytes) is None && value == device_of(
                device@,
            ),
            Err(error) => device_error(device@, reported_page_bytes) == Some(error),
        },
{
    if device.device_id > 0x7fff_ffff {
        return Err(CatalogProtocolError::InvalidUblkDeviceId { actual: device.device_id });
    }
    let id = UblkDeviceId::new(device.device_id);
    proof { UblkDeviceId::lemma_made(device.device_id, id); }
    let fence = match read_fence(device.fence) {
        Ok(fence) => fence,
        Err(error) => {
            return Err(error);
        },
    };
    let session_id = match read_session(&device.session_id) {
        Ok(session_id) => session_id,
        Err(error) => {
            return Err(error);
        },
    };
    let saved = SavedUblkDevice::from_stored_parts(
        id,
        device.capacity,
        fence,
        session_id,
        device.queue_count,
        device.queue_depth,
        device.max_request_bytes,
    );
    proof { SavedUblkDevice::lemma_parts(saved); }
    match saved.settings(descriptor, reported_page_bytes) {
        Ok(_) => Ok(saved),
        Err(error) => Err(CatalogProtocolError::InvalidUblkSettings(error)),
    }
}

/// Stored mount.
#[derive(Debug, PartialEq, Eq)]
pub struct StoredMount {
    pub state: Result<SavedMountState, u16>,
    pub fence: u64,
    pub session_id: Vec<u8>,
    pub path: Vec<u8>,
    pub owner_uid: u32,
    pub owner_gid: u32,
    pub mode: u32,
    pub filesystem_expanded_to_bytes: u64,
    pub filesystem: ReplicatedVolumeFilesystem,
}

/// Model of a stored mount.
pub struct StoredMountView {
    pub state: Result<SavedMountState, u16>,
    pub fence: u64,
    pub session_id: Seq<u8>,
    pub path: Seq<u8>,
    pub owner_uid: u32,
    pub owner_gid: u32,
    pub mode: u32,
    pub filesystem_expanded_to_bytes: u64,
    pub filesystem: ReplicatedVolumeFilesystem,
}

impl View for StoredMount {
    type V = StoredMountView;

    open spec fn view(&self) -> StoredMountView {
        StoredMountView {
            state: self.state,
            fence: self.fence,
            session_id: self.session_id@,
            path: self.path@,
            owner_uid: self.owner_uid,
            owner_gid: self.owner_gid,
            mode: self.mode,
            filesystem_expanded_to_bytes: self.filesystem_expanded_to_bytes,
            filesystem: self.filesystem,
        }
    }
}

/// Why a stored mount cannot be read.
pub open spec fn stored_mount_error(mount: StoredMountView) -> Option<CatalogProtocolError> {
    if mount.state is Err {
        Some(
            CatalogProtocolError::UnknownEnum {
                name: StoredEnum::MountState,
                value: mount.state->Err_0,
            },
        )
    } else if fence_error(mount.fence) is Some {
        fence_error(mount.fence)
    } else if identity_error(mount.session_id, StoredField::DriverSession) is Some {
        identity_error(mount.session_id, StoredField::DriverSession)
    } else {
        match mount_error(mount.path, mount.mode) {
            Some(error) => Some(CatalogProtocolError::InvalidVolumeMount(error)),
            None => None,
        }
    }
}

/// Mount that a stored one stands for.
pub open spec fn mount_of(mount: StoredMountView) -> MountView {
    MountView {
        state: mount.state->Ok_0,
        fence: FenceEpoch::made(mount.fence),
        session_id: DriverSessionId::made(be_value(mount.session_id) as u128),
        path: mount.path,
        owner_uid: mount.owner_uid,
        owner_gid: mount.owner_gid,
        mode: mount.mode,
        filesystem_expanded_to_bytes: mount.filesystem_expanded_to_bytes,
        filesystem: mount.filesystem,
    }
}

/// Reads and checks one restart-safe mount record.
pub fn read_volume_mount(mount: &StoredMount) -> (out: Result<
    SavedVolumeMount,
    CatalogProtocolError,
>)
    ensures
        match out {
            Ok(value) => stored_mount_error(mount@) is None && value@ == mount_of(mount@),
            Err(error) => stored_mount_error(mount@) == Some(error),
        },
{
    let state = match mount.state {
        Ok(state) => state,
        Err(value) => {
            return Err(CatalogProtocolError::UnknownEnum { name: StoredEnum::MountState, value });
        },
    };
    let fence = match read_fence(mount.fence) {
        Ok(fence) => fence,
        Err(error) => {
            return Err(error);
        },
    };
    let session_id = match read_session(&mount.session_id) {
        Ok(session_id) => session_id,
        Err(error) => {
            return Err(error);
        },
    };
    match SavedVolumeMount::from_stored_parts(
        state,
        fence,
        session_id,
        copy_bytes(&mount.path),
        mount.owner_uid,
        mount.owner_gid,
        mount.mode,
        mount.filesystem_expanded_to_bytes,
        mount.filesystem,
    ) {
        Ok(value) => Ok(value),
        Err(error) => Err(CatalogProtocolError::InvalidVolumeMount(error)),
    }
}

/// Stored attachment row.
#[derive(Debug, PartialEq, Eq)]
pub struct StoredAttachment {
    pub format_version: u16,
    pub descriptor: VolumeDescriptor,
    pub session_id: Vec<u8>,

    /// Committed fence, zero where none was granted.
    pub granted_fence: u64,
    pub ublk_devices: Vec<StoredDevice>,
    pub volume_mount: Option<StoredMount>,
    pub detaching: bool,
}

/// Model of a stored attachment row.
pub struct StoredAttachmentView {
    pub format_version: u16,
    pub descriptor: VolumeDescriptor,
    pub session_id: Seq<u8>,
    pub granted_fence: u64,
    pub ublk_devices: Seq<StoredDeviceView>,
    pub volume_mount: Option<StoredMountView>,
    pub detaching: bool,
}

/// Stored devices as plain values.
pub open spec fn stored_devices(devices: Seq<StoredDevice>) -> Seq<StoredDeviceView> {
    devices.map_values(|device: StoredDevice| device@)
}

impl View for StoredAttachment {
    type V = StoredAttachmentView;

    open spec fn view(&self) -> StoredAttachmentView {
        StoredAttachmentView {
            format_version: self.format_version,
            descriptor: self.descriptor,
            session_id: self.session_id@,
            granted_fence: self.granted_fence,
            ublk_devices: stored_devices(self.ublk_devices@),
            volume_mount: match self.volume_mount {
                Some(mount) => Some(mount@),
                None => None,
            },
            detaching: self.detaching,
        }
    }
}

/// Why some stored devices cannot be read: the first failure in their order.
pub open spec fn devices_read_error(
    devices: Seq<StoredDeviceView>,
    reported_page_bytes: i64,
) -> Option<CatalogProtocolError>
    decreases devices.len(),
{
    if devices.len() == 0 {
        None
    } else if devices_read_error(devices.drop_last(), reported_page_bytes) is Some {
        devices_read_error(devices.drop_last(), reported_page_bytes)
    } else {
        device_error(devices.last(), reported_page_bytes)
    }
}

/// Devices that stored ones stand for.
pub open spec fn devices_of(devices: Seq<StoredDeviceView>) -> Seq<SavedUblkDevice> {
    devices.map_values(|device: StoredDeviceView| device_of(device))
}

/// The devices in the order of their kernel numbers, each of them once.
pub open spec fn gathered(devices: Seq<SavedUblkDevice>) -> Seq<SavedUblkDevice>
    decreases devices.len(),
{
    if devices.len() == 0 {
        Seq::empty()
    } else {
        let rest = gathered(devices.drop_last());
        if rest.contains(devices.last()) {
            rest
        } else {
            ordered(rest.push(devices.last()))
        }
    }
}

/// Why a stored attachment row cannot be read.
pub open spec fn attachment_row_error(
    row: StoredAttachmentView,
    reported_page_bytes: i64,
) -> Option<CatalogProtocolError> {
    let session_id = DriverSessionId::made(be_value(row.session_id) as u128);
    let devices = devices_of(row.ublk_devices);
    let mount_failure = match row.volume_mount {
        Some(mount) => stored_mount_error(mount),
        None => None,
    };
    if version_error(row.format_version) is Some {
        version_error(row.format_version)
    } else if identity_error(row.session_id, StoredField::DriverSession) is Some {
        identity_error(row.session_id, StoredField::DriverSession)
    } else if devices_read_error(row.ublk_devices, reported_page_bytes) is Some {
        devices_read_error(row.ublk_devices, reported_page_bytes)
    } else if mount_failure is Some {
        mount_failure
    } else if devices.len() > 0 && (row.granted_fence == 0 || !all_serve(
        devices,
        session_id,
        FenceEpoch::made(row.granted_fence),
    )) {
        Some(CatalogProtocolError::AttachmentFenceMismatch)
    } else if row.volume_mount matches Some(mount) && !serves_session(
        devices,
        mount_of(mount).session_id,
        mount_of(mount).fence,
    ) {
        Some(CatalogProtocolError::VolumeMountDeviceMismatch)
    } else {
        None
    }
}

/// Attachment that a stored row stands for.
pub open spec fn attachment_of(row: StoredAttachmentView) -> AttachmentView {
    AttachmentView {
        descriptor: row.descriptor,
        session_id: DriverSessionId::made(be_value(row.session_id) as u128),
        granted_fence: if row.granted_fence == 0 {
            None
        } else {
            Some(FenceEpoch::made(row.granted_fence))
        },
        ublk_devices: gathered(devices_of(row.ublk_devices)),
        volume_mount: match row.volume_mount {
            Some(mount) => Some(mount_of(mount)),
            None => None,
        },
        detaching: row.detaching || (row.volume_mount matches Some(mount) && mount_of(mount).state
            == SavedMountState::Unmounting),
    }
}

/// An error among the first devices is the error of all devices.
proof fn lemma_device_error_grows(
    devices: Seq<StoredDeviceView>,
    reported_page_bytes: i64,
    upto: int,
)
    requires
        0 <= upto <= devices.len(),
    ensures
        devices_read_error(devices.take(upto), reported_page_bytes) is Some ==> devices_read_error(
            devices,
            reported_page_bytes,
        ) == devices_read_error(devices.take(upto), reported_page_bytes),
    decreases devices.len(),
{
    if upto < devices.len() {
        lemma_device_error_grows(devices.drop_last(), reported_page_bytes, upto);
        assert(devices.drop_last().take(upto) =~= devices.take(upto));
    } else {
        assert(devices.take(upto) =~= devices);
    }
}

/// Reads the saved devices of an attachment.
fn read_ublk_devices(
    stored: &Vec<StoredDevice>,
    descriptor: &VolumeDescriptor,
    reported_page_bytes: i64,
) -> (out: Result<Vec<SavedUblkDevice>, CatalogProtocolError>)
    ensures
        match out {
            Ok(devices) => devices_read_error(stored_devices(stored@), reported_page_bytes) is None
                && devices@ == devices_of(stored_devices(stored@)),
            Err(error) => devices_read_error(stored_devices(stored@), reported_page_bytes) == Some(
                error,
            ),
        },
{
    let ghost all = stored_devices(stored@);
    let mut devices: Vec<SavedUblkDevice> = Vec::new();
    let mut i: usize = 0;
    proof { assert(all.take(0) =~= Seq::<StoredDeviceView>::empty()); }
    while i < stored.len()
        invariant
            i <= stored@.len(),
            all == stored_devices(stored@),
            devices_read_error(all.take(i as int), reported_page_bytes) is None,
            devices@.len() == i,
            forall|k: int| #![trigger devices@[k]] 0 <= k < i ==> devices@[k] == device_of(all[k]),
        decreases stored@.len() - i,
    {
        proof {
            assert(all.take(i + 1).drop_last() =~= all.take(i as int));
            assert(all.take(i + 1).last() == stored@[i as int]@);
            lemma_device_error_grows(all, reported_page_bytes, i + 1);
        }
        match read_ublk_device(&stored[i], descriptor, reported_page_bytes) {
            Ok(device) => devices.push(device),
            Err(error) => {
                return Err(error);
            },
        }
        i += 1;
    }
    proof {
        assert(all.take(all.len() as int) =~= all);
        assert(devices@ =~= devices_of(all));
    }
    Ok(devices)
}

/// Returns whether every device belongs to the session and the fence.
fn all_belong(
    devices: &Vec<SavedUblkDevice>,
    session_id: DriverSessionId,
    fence: FenceEpoch,
) -> (out: bool)
    ensures
        out == all_serve(devices@, session_id, fence),
{
    let mut i: usize = 0;
    while i < devices.len()
        invariant
            i <= devices@.len(),
            forall|k: int|
                #![trigger devices@[k]]
                0 <= k < i ==> devices@[k].session_of() == session_id && devices@[k].fence_of() == fence,
        decreases devices@.len() - i,
    {
        if devices[i].session_id() != session_id || devices[i].fence() != fence {
            return false;
        }
        i += 1;
    }
    true
}

/// Returns whether one device belongs to the session and the fence of a mount.
fn one_belongs(devices: &Vec<SavedUblkDevice>, mount: &SavedVolumeMount) -> (out: bool)
    ensures
        out == serves_session(devices@, mount@.session_id, mount@.fence),
{
    let mut i: usize = 0;
    while i < devices.len()
        invariant
            i <= devices@.len(),
            forall|k: int|
                #![trigger devices@[k]]
                0 <= k < i ==> !(devices@[k].session_of() == mount@.session_id && devices@[k].fence_of()
                    == mount@.fence),
        decreases devices@.len() - i,
    {
        if devices[i].fence() == mount.fence() && devices[i].session_id() == mount.session_id() {
            return true;
        }
        i += 1;
    }
    false
}

/// Decodes and cross-checks one durable local attachment row.
///
/// The caller supplies the page size that the host reports, against which the settings of
/// each saved device are checked.
pub fn decode_attachment(row: &StoredAttachment, reported_page_bytes: i64) -> (out: Result<
    LocalAttachmentRecord,
    CatalogProtocolError,
>)
    ensures
        match out {
            Ok(record) => attachment_row_error(row@, reported_page_bytes) is None && record@
                == attachment_of(row@),
            Err(error) => attachment_row_error(row@, reported_page_bytes) == Some(error),
        },
{
    if let Err(error) = check_version(row.format_version) {
        return Err(error);
    }
    let session_id = match read_session(&row.session_id) {
        Ok(session_id) => session_id,
        Err(error) => {
            return Err(error);
        },
    };
    let granted_fence = if row.granted_fence == 0 {
        None
    } else {
        match read_fence(row.granted_fence) {
            Ok(fence) => Some(fence),
            Err(error) => {
                return Err(error);
            },
        }
    };
    let devices = match read_ublk_devices(&row.ublk_devices, &row.descriptor, reported_page_bytes) {
        Ok(devices) => devices,
        Err(error) => {
            return Err(error);
        },
    };
    let volume_mount = match &row.volume_mount {
        Some(mount) => match read_volume_mount(mount) {
            Ok(mount) => Some(mount),
            Err(error) => {
                return Err(error);
            },
        },
        None => None,
    };
    if devices.len() > 0 {
        let fenced = match granted_fence {
            Some(fence) => all_belong(&devices, session_id, fence),
            None => false,
        };
        if !fenced {
            return Err(CatalogProtocolError::AttachmentFenceMismatch);
        }
    }
    if let Some(mount) = &volume_mount {
        if !one_belongs(&devices, mount) {
            return Err(CatalogProtocolError::VolumeMountDeviceMismatch);
        }
    }
    let mut record = LocalAttachmentRecord::new(row.descriptor, session_id);
    if let Some(fence) = granted_fence {
        record.set_granted_fence(fence);
    }
    let ghost base = record@;
    let mut i: usize = 0;
    proof { assert(devices@.take(0) =~= Seq::<SavedUblkDevice>::empty()); }
    while i < devices.len()
        invariant
            i <= devices@.len(),
            record@ == (AttachmentView {
                ublk_devices: gathered(devices@.take(i as int)),
                ..base
            }),
        decreases devices@.len() - i,
    {
        proof {
            assert(devices@.take(i + 1).drop_last() =~= devices@.take(i as int));
            assert(devices@.take(i + 1).last() == devices@[i as int]);
        }
        record.add_ublk_device(devices[i]);
        i += 1;
    }
    proof { assert(devices@.take(devices@.len() as int) =~= devices@); }
    let mut unmounting = false;
    if let Some(mount) = volume_mount {
        unmounting = mount.state() == SavedMountState::Unmounting;
        record.set_volume_mount(mount);
    }
    if row.detaching || unmounting {
        record.begin_detach();
    }
    Ok(record)
}

/// Stored retirement row.
#[derive(Debug, PartialEq, Eq)]
pub struct StoredRetirement {
    pub format_version: u16,
    pub volume_id: Vec<u8>,
    pub generation: u64,
}

/// Model of a stored retirement row.
pub struct StoredRetirementView {
    pub format_version: u16,
    pub volume_id: Seq<u8>,
    pub generation: u64,
}

impl View for StoredRetirement {
    type V = StoredRetirementView;

    open spec fn view(&self) -> StoredRetirementView {
        StoredRetirementView {
            format_version: self.format_version,
            volume_id: self.volume_id@,
            generation: self.generation,
        }
    }
}

/// Why a stored retirement row cannot be read.
pub open spec fn retirement_row_error(row: StoredRetirementView) -> Option<CatalogProtocolError> {
    if version_error(row.format_version) is Some {
        version_error(row.format_version)
    } else if identity_error(row.volume_id, StoredField::VolumeId) is Some {
        identity_error(row.volume_id, StoredField::VolumeId)
    } else if row.generation == 0 {
        Some(CatalogProtocolError::Identity(IdentityError::Zero))
    } else {
        None
    }
}

/// The key is the one that the stored row retires.
pub open spec fn is_retirement_of(key: ReplicaKey, row: StoredRetirementView) -> bool {
    key.volume().value() == be_value(row.volume_id) && key.generation_of().value()
        == row.generation
}

/// Decodes one former-member proof from the node-local catalog.
pub fn decode_retirement(row: &StoredRetirement) -> (out: Result<
    LocalReplicaRetirement,
    CatalogProtocolError,
>)
    ensures
        match out {
            Ok(retirement) => retirement_row_error(row@) is None && is_retirement_of(
                retirement.retired(),
                row@,
            ),
            Err(error) => retirement_row_error(row@) == Some(error),
        },
{
    if let Err(error) = check_version(row.format_version) {
        return Err(error);
    }
    let value: u128 = match read_uuid(&row.volume_id, StoredField::VolumeId) {
        Ok(value) => value,
        Err(error) => {
            return Err(error);
        },
    };
    let volume_id = match VolumeId::new(value) {
        Ok(volume_id) => volume_id,
        Err(error) => {
            return Err(CatalogProtocolError::Identity(error));
        },
    };
    match VolumeGeneration::new(row.generation) {
        Ok(generation) => Ok(LocalReplicaRetirement::new(ReplicaKey::new(volume_id, generation))),
        Err(error) => Err(CatalogProtocolError::Identity(error)),
    }
}

/// Stored pool row.
#[derive(Debug, PartialEq, Eq)]
pub struct StoredPoolRow {
    pub format_version: u16,
    pub path: Vec<u8>,
    pub device_id: u64,
    pub filesystem: Result<PoolFilesystem, u16>,
    pub block_bytes: u32,
    pub managed_bytes: u64,
    pub data_bytes: u64,
    pub metadata_bytes: u64,
}

/// Why a stored pool row cannot be read.
pub open spec fn pool_row_error(row: StoredPoolRow) -> Option<CatalogProtocolError> {
    if version_error(row.format_version) is Some {
        version_error(row.format_version)
    } else {
        match row.filesystem {
            Err(value) => Some(
                CatalogProtocolError::UnknownEnum { name: StoredEnum::PoolFilesystem, value },
            ),
            Ok(_) => None,
        }
    }
}

/// Pool that a stored row stands for.
pub open spec fn pool_of(row: StoredPoolRow) -> StoredPoolView {
    StoredPoolView {
        path: row.path@,
        device_id: row.device_id,
        filesystem: row.filesystem->Ok_0,
        block_bytes: row.block_bytes,
        managed_bytes: row.managed_bytes,
        data_bytes: row.data_bytes,
        metadata_bytes: row.metadata_bytes,
    }
}

/// Decodes and checks the single durable pool row.
pub fn decode_pool(row: &StoredPoolRow) -> (out: Result<StoredPool, CatalogProtocolError>)
    ensures
        match out {
            Ok(pool) => pool_row_error(*row) is None && pool@ == pool_of(*row),
            Err(error) => pool_row_error(*row) == Some(error),
        },
{
    if let Err(error) = check_version(row.format_version) {
        return Err(error);
    }
    let filesystem = match row.filesystem {
        Ok(filesystem) => filesystem,
        Err(value) => {
            return Err(
                CatalogProtocolError::UnknownEnum { name: StoredEnum::PoolFilesystem, value },
            );
        },
    };
    Ok(
        StoredPool {
            path: copy_bytes(&row.path),
            device_id: row.device_id,
            filesystem,
            block_bytes: row.block_bytes,
            managed_bytes: row.managed_bytes,
            data_bytes: row.data_bytes,
            metadata_bytes: row.metadata_bytes,
        },
    )
}

} // verus!
