//! Durable records of the local catalog.

use vstd::prelude::*;

use super::model::{InvalidLocalReplicaOrigin, InvalidSavedVolumeMount};
use super::mounts::{components, same_path};
use super::pool::{PoolFilesystem, PoolView, ReplicaPool};
use crate::bytes::copy_bytes;
use crate::driver::settings::InvalidUblkSettings;
use crate::text::{decimal_text, push_decimal, push_text};
use crate::volume::identity::IdentityError;

verus! {

/// Durable pool identity and all space totals.
#[derive(Debug, PartialEq, Eq)]
pub struct StoredPool {
    pub path: Vec<u8>,
    pub device_id: u64,
    pub filesystem: PoolFilesystem,
    pub block_bytes: u32,
    pub managed_bytes: u64,
    pub data_bytes: u64,
    pub metadata_bytes: u64,
}

/// Model of the saved pool.
pub struct StoredPoolView {
    pub path: Seq<u8>,
    pub device_id: u64,
    pub filesystem: PoolFilesystem,
    pub block_bytes: u32,
    pub managed_bytes: u64,
    pub data_bytes: u64,
    pub metadata_bytes: u64,
}

impl View for StoredPool {
    type V = StoredPoolView;

    open spec fn view(&self) -> StoredPoolView {
        StoredPoolView {
            path: self.path@,
            device_id: self.device_id,
            filesystem: self.filesystem,
            block_bytes: self.block_bytes,
            managed_bytes: self.managed_bytes,
            data_bytes: self.data_bytes,
            metadata_bytes: self.metadata_bytes,
        }
    }
}

impl StoredPoolView {
    /// First row for an empty catalog in a checked pool.
    pub open spec fn first(pool: PoolView) -> StoredPoolView {
        StoredPoolView {
            path: pool.root,
            device_id: pool.device_id,
            filesystem: pool.filesystem,
            block_bytes: pool.block_bytes,
            managed_bytes: pool.managed_bytes,
            data_bytes: 0,
            metadata_bytes: 0,
        }
    }

    /// The checked pool is the saved one.
    pub open spec fn is_of(self, pool: PoolView) -> bool {
        components(self.path) == components(pool.root) && self.device_id == pool.device_id
            && self.filesystem == pool.filesystem && self.block_bytes == pool.block_bytes
    }
}

impl StoredPool {
    /// Creates the first durable row for a checked empty catalog.
    pub fn new(pool: &ReplicaPool) -> (out: Self)
        ensures
            out@ == StoredPoolView::first(pool@),
    {
        StoredPool {
            path: copy_bytes(pool.root()),
            device_id: pool.device_id(),
            filesystem: pool.filesystem(),
            block_bytes: pool.block_bytes(),
            managed_bytes: pool.managed_bytes(),
            data_bytes: 0,
            metadata_bytes: 0,
        }
    }

    /// Checks that the configured path still names the saved pool.
    pub fn matches(&self, pool: &ReplicaPool) -> (out: bool)
        ensures
            out == self@.is_of(pool@),
    {
        same_path(&self.path, pool.root()) && self.device_id == pool.device_id() && self.filesystem
            == pool.filesystem() && self.block_bytes == pool.block_bytes()
    }
}

/// Fixed-width field of a record.
#[derive(Clone, Copy, Debug, PartialEq, Eq, Structural)]
pub enum StoredField {
    /// The bootstrap ID.
    BootstrapId,
    /// The replacement ID.
    ReplacementId,
    /// The origin voter node ID.
    OriginVoter,
    /// The driver session ID.
    DriverSession,
    /// The filesystem ID.
    FilesystemId,
    /// The filesystem profile hash.
    ProfileHash,
    /// The volume ID.
    VolumeId,
}

impl StoredField {
    /// Plain name of the field.
    pub open spec fn text(self) -> Seq<char> {
        match self {
            StoredField::BootstrapId => "bootstrap ID"@,
            StoredField::ReplacementId => "replacement ID"@,
            StoredField::OriginVoter => "origin voter node ID"@,
            StoredField::DriverSession => "driver session ID"@,
            StoredField::FilesystemId => "filesystem ID"@,
            StoredField::ProfileHash => "filesystem profile hash"@,
            StoredField::VolumeId => "volume ID"@,
        }
    }

    /// Returns the plain name of the field.
    pub fn name(self) -> (out: &'static str)
        ensures
            out@ == self.text(),
    {
        match self {
            StoredField::BootstrapId => "bootstrap ID",
            StoredField::ReplacementId => "replacement ID",
            StoredField::OriginVoter => "origin voter node ID",
            StoredField::DriverSession => "driver session ID",
            StoredField::FilesystemId => "filesystem ID",
            StoredField::ProfileHash => "filesystem profile hash",
            StoredField::VolumeId => "volume ID",
        }
    }
}

/// Enumerated field of a record.
#[derive(Clone, Copy, Debug, PartialEq, Eq, Structural)]
pub enum StoredEnum {
    /// The local replica state.
    ReplicaState,
    /// The local replica health.
    ReplicaHealth,
    /// The local volume mount state.
    MountState,
    /// The local replica pool filesystem.
    PoolFilesystem,
}

impl StoredEnum {
    /// Plain name of the enum field.
    pub open spec fn text(self) -> Seq<char> {
        match self {
            StoredEnum::ReplicaState => "local replica state"@,
            StoredEnum::ReplicaHealth => "local replica health"@,
            StoredEnum::MountState => "local volume mount state"@,
            StoredEnum::PoolFilesystem => "local replica pool filesystem"@,
        }
    }

    /// Returns the plain name of the enum field.
    pub fn name(self) -> (out: &'static str)
        ensures
            out@ == self.text(),
    {
        match self {
            StoredEnum::ReplicaState => "local replica state",
            StoredEnum::ReplicaHealth => "local replica health",
            StoredEnum::MountState => "local volume mount state",
            StoredEnum::PoolFilesystem => "local replica pool filesystem",
        }
    }
}

/// Union field of a record.
#[derive(Clone, Copy, Debug, PartialEq, Eq, Structural)]
pub enum StoredUnion {
    /// The local replica origin.
    ReplicaOrigin,
}

impl StoredUnion {
    /// Plain name of the union field.
    pub open spec fn text(self) -> Seq<char> {
        match self {
            StoredUnion::ReplicaOrigin => "local replica origin"@,
        }
    }

    /// Returns the plain name of the union field.
    pub fn name(self) -> (out: &'static str)
        ensures
            out@ == self.text(),
    {
        match self {
            StoredUnion::ReplicaOrigin => "local replica origin",
        }
    }
}

/// Rejects damaged or unsupported local catalog records.
#[derive(Clone, Copy, Debug, PartialEq, Eq, Structural)]
pub enum CatalogProtocolError {
    /// Cap'n Proto could not read a requested value.
    Capnp,

    /// A text field did not contain valid UTF-8.
    Text,

    /// A stored identity was invalid.
    Identity(IdentityError),

    /// Saved ublk settings cannot recreate or recover the kernel device.
    InvalidUblkSettings(InvalidUblkSettings),

    /// A saved mount path, mode, or step was invalid.
    InvalidVolumeMount(InvalidSavedVolumeMount),

    /// Saved provisioning provenance cannot route safe reconciliation.
    InvalidReplicaOrigin(InvalidLocalReplicaOrigin),

    /// Voter routes must contain each node at most once.
    DuplicateOriginVoter,

    /// Bootstrap routing comes from its immutable desired plan.
    UnexpectedBootstrapVoters,

    /// A mount did not use the saved backend's writer session and fence.
    VolumeMountDeviceMismatch,

    /// A saved device does not match the attachment's committed control state.
    AttachmentFenceMismatch,

    /// libublk represents device numbers as non-negative signed integers.
    InvalidUblkDeviceId {
        /// Device number read from the local record.
        actual: u32,
    },

    /// The saved record uses a catalog format this build cannot read.
    UnsupportedVersion {
        /// Version read from the record.
        actual: u16,
    },

    /// The complete record exceeds its fixed safety limit.
    RecordTooLarge {
        /// Encoded bytes supplied by the record.
        actual: usize,

        /// Largest accepted complete record.
        maximum: usize,
    },

    /// Bytes after the first complete record are never accepted.
    TrailingBytes {
        /// Bytes left after decoding one message.
        actual: usize,
    },

    /// One stored enum value is not known by this build.
    UnknownEnum {
        /// The enum field.
        name: StoredEnum,

        /// Unknown numeric value.
        value: u16,
    },

    /// One stored union discriminant is not known by this build.
    UnknownUnion {
        /// The union field.
        name: StoredUnion,

        /// Unknown numeric discriminant.
        value: u16,
    },

    /// A fixed-width field had the wrong byte count.
    InvalidFieldLength {
        /// The field.
        field: StoredField,

        /// Required byte count.
        expected: usize,

        /// Stored byte count.
        actual: usize,
    },
}

impl CatalogProtocolError {
    /// Text of the rejection.
    pub open spec fn text(self) -> Seq<char> {
        match self {
            CatalogProtocolError::Capnp => "could not read local volume catalog Cap'n Proto value"@,
            CatalogProtocolError::Text => "local volume catalog text is not valid UTF-8"@,
            CatalogProtocolError::Identity(error) => error.text(),
            CatalogProtocolError::InvalidUblkSettings(error) => error.text(),
            CatalogProtocolError::InvalidVolumeMount(error) => error.text(),
            CatalogProtocolError::InvalidReplicaOrigin(error) => error.text(),
            CatalogProtocolError::DuplicateOriginVoter => "local replica origin contains a duplicate voter UUID"@,
            CatalogProtocolError::UnexpectedBootstrapVoters => "bootstrap replica origin must not duplicate its voter set"@,
            CatalogProtocolError::VolumeMountDeviceMismatch => "saved volume mount does not match the saved backend session"@,
            CatalogProtocolError::AttachmentFenceMismatch => "saved ublk device does not match the attachment fence"@,
            CatalogProtocolError::InvalidUblkDeviceId { actual } => "saved ublk device ID "@ + decimal_text(actual as nat) + " exceeds the libublk range"@,
            CatalogProtocolError::UnsupportedVersion { actual } => "unsupported local volume catalog format version "@ + decimal_text(actual as nat),
            CatalogProtocolError::RecordTooLarge { actual, maximum } => "local volume catalog record is "@ + decimal_text(actual as nat) + " bytes; maximum is "@ + decimal_text(maximum as nat),
            CatalogProtocolError::TrailingBytes { actual } => "local volume catalog record has "@ + decimal_text(actual as nat) + " trailing bytes"@,
            CatalogProtocolError::UnknownEnum { name, value } => "unknown "@ + name.text() + " value "@ + decimal_text(value as nat),
            CatalogProtocolError::UnknownUnion { name, value } => "unknown "@ + name.text() + " discriminant "@ + decimal_text(value as nat),
            CatalogProtocolError::InvalidFieldLength { field, expected, actual } => field.text() + " must contain "@ + decimal_text(expected as nat) + " bytes, got "@ + decimal_text(actual as nat),
        }
    }

    /// Returns the text of the rejection.
    pub fn message(&self) -> (out: String)
        ensures
            out@ == self.text(),
    {
        let mut out = String::new();
        match self {
            CatalogProtocolError::Capnp => {
                push_text(&mut out, "could not read local volume catalog Cap'n Proto value");
            },
            CatalogProtocolError::Text => {
                push_text(&mut out, "local volume catalog text is not valid UTF-8");
            },
            CatalogProtocolError::Identity(error) => {
                push_text(&mut out, error.message().as_str());
            },
            CatalogProtocolError::InvalidUblkSettings(error) => {
                push_text(&mut out, error.message().as_str());
            },
            CatalogProtocolError::InvalidVolumeMount(error) => {
                push_text(&mut out, error.message().as_str());
            },
            CatalogProtocolError::InvalidReplicaOrigin(error) => {
                push_text(&mut out, error.message().as_str());
            },
            CatalogProtocolError::DuplicateOriginVoter => {
                push_text(&mut out, "local replica origin contains a duplicate voter UUID");
            },
            CatalogProtocolError::UnexpectedBootstrapVoters => {
                push_text(&mut out, "bootstrap replica origin must not duplicate its voter set");
            },
            CatalogProtocolError::VolumeMountDeviceMismatch => {
                push_text(&mut out, "saved volume mount does not match the saved backend session");
            },
            CatalogProtocolError::AttachmentFenceMismatch => {
                push_text(&mut out, "saved ublk device does not match the attachment fence");
            },
            CatalogProtocolError::InvalidUblkDeviceId { actual } => {
                push_text(&mut out, "saved ublk device ID ");
                push_decimal(&mut out, *actual as u64);
                push_text(&mut out, " exceeds the libublk range");
            },
            CatalogProtocolError::UnsupportedVersion { actual } => {
                push_text(&mut out, "unsupported local volume catalog format version ");
                push_decimal(&mut out, *actual as u64);
            },
            CatalogProtocolError::RecordTooLarge { actual, maximum } => {
                push_text(&mut out, "local volume catalog record is ");
                push_decimal(&mut out, *actual as u64);
                push_text(&mut out, " bytes; maximum is ");
                push_decimal(&mut out, *maximum as u64);
            },
            CatalogProtocolError::TrailingBytes { actual } => {
                push_text(&mut out, "local volume catalog record has ");
                push_decimal(&mut out, *actual as u64);
                push_text(&mut out, " trailing bytes");
            },
            CatalogProtocolError::UnknownEnum { name, value } => {
                push_text(&mut out, "unknown ");
                push_text(&mut out, name.name());
                push_text(&mut out, " value ");
                push_decimal(&mut out, *value as u64);
            },
            CatalogProtocolError::UnknownUnion { name, value } => {
                push_text(&mut out, "unknown ");
                push_text(&mut out, name.name());
                push_text(&mut out, " discriminant ");
                push_decimal(&mut out, *value as u64);
            },
            CatalogProtocolError::InvalidFieldLength { field, expected, actual } => {
                push_text(&mut out, field.name());
                push_text(&mut out, " must contain ");
                push_decimal(&mut out, *expected as u64);
                push_text(&mut out, " bytes, got ");
                push_decimal(&mut out, *actual as u64);
            },
        }
        proof { assert(out@ =~= self.text()); }
        out
    }
}

} // verus!
